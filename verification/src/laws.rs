//! Properties of the viewer that span several operations or hold of every
//! state: moves that undo each other, the request a copied `curl` command
//! makes, which methods carry a body, when examples can be finished, what more
//! definitions do to the warnings, which warnings responses give, what the
//! search finds and lists, what the sidebar, the detail panel and schema
//! outlines show, and the media types an OpenAPI 3.x operation produces.
use vstd::prelude::*;
use crate::app::{
    App, AppMode, EndpointView, SidebarEntry, endpoint_matches, matching_indices, next_line,
    prev_line, sidebar_of, indices_in_range,
};
use crate::swagger::dedup;
use crate::model::SchemaView;
use crate::render::{depth_left, example_ends, lookup_def, nests, properties_end, property_lines, schema_lines, spaces};
use crate::validate::{
    ids_of, location_of, operation_warnings, props_ref_warnings, ref_name, response_ref_warnings, schema_ref_warnings,
    warnings_of,
};
use crate::text::{has_substring, lowercase_of, occurs_at};
use crate::render::{Tint, fg, plain};
use crate::screen::{
    blank_line, detail_lines, header_top, id_line, join, media_line, opt_line, parameters_section,
    responses_section,
};

verus! {

// ─── Moving around ──────────────────────────────────────────────────────────

/// Moving the selection down and then up comes back to the same sidebar line.
pub proof fn law_next_then_prev(a: App, b: App, c: App)
    requires
        a.wf(),
        a.sidebar_items@.len() > 0,
        App::moved_next(a, b),
        App::moved_prev(b, c),
    ensures
        c.selected == a.selected,
{
    let n = a.sidebar_items@.len();
    assert(a.selected < n);
    if a.selected + 1 < n {
        assert((a.selected + 1) % (n as int) == a.selected + 1) by (nonlinear_arith)
            requires
                a.selected + 1 < n,
        ;
    } else {
        assert((a.selected + 1) % (n as int) == 0) by (nonlinear_arith)
            requires
                a.selected + 1 == n,
        ;
    }
}

/// Moving the selection up and then down comes back to the same sidebar line.
pub proof fn law_prev_then_next(a: App, b: App, c: App)
    requires
        a.wf(),
        a.sidebar_items@.len() > 0,
        App::moved_prev(a, b),
        App::moved_next(b, c),
    ensures
        c.selected == a.selected,
{
    assert(a.selected < a.sidebar_items@.len());
    let n = a.sidebar_items@.len();
    if a.selected == 0 {
        assert(b.selected == n - 1);
        assert((n - 1 + 1) % (n as int) == 0) by (nonlinear_arith)
            requires
                n > 0,
        ;
    } else {
        assert(b.selected == a.selected - 1);
        assert(((a.selected - 1) + 1) % (n as int) == a.selected) by (nonlinear_arith)
            requires
                0 < a.selected < n,
        ;
    }
}

/// Scrolling the detail down a line and then up a line comes back to the same
/// place, short of the largest offset.
pub proof fn law_scroll_down_then_up(s: u16)
    requires
        s < u16::MAX,
    ensures
        s.saturating_add(1).saturating_sub(1) == s,
{
}

/// Scrolling the detail up a line and then down a line comes back to the same
/// place, away from the top.
pub proof fn law_scroll_up_then_down(s: u16)
    requires
        s > 0,
    ensures
        s.saturating_sub(1).saturating_add(1) == s,
{
}

/// Opening the "try it out" form on an endpoint and closing it again leaves
/// the viewer as it was while browsing, the detail scrolled to the top.
pub proof fn law_enter_then_exit_try_it(a: App, b: App, c: App)
    requires
        a.mode == AppMode::Browse,
        a.try_it is None,
        App::try_it_entered(a, b),
        c == (App { mode: AppMode::Browse, try_it: None, scroll: 0, ..b }),
    ensures
        c == (App { scroll: 0, ..a }),
{
}

/// Collapsing (or expanding) a tag twice in a row, with the selection on the
/// same tag both times, leaves the same tags collapsed as before.
pub proof fn law_toggle_twice(a: App, b: App, c: App, t: Seq<char>)
    requires
        a.selected_entry() == Some(SidebarEntry::Tag(t)),
        b.selected_entry() == Some(SidebarEntry::Tag(t)),
        App::toggled(a, b),
        App::toggled(b, c),
    ensures
        forall|x: Seq<char>|
            crate::model::strs_view(c.collapsed_tags@).contains(x) <==> crate::model::strs_view(
                a.collapsed_tags@,
            ).contains(x),
{
}

/// Pressing `w` twice while browsing shows and hides the warnings again,
/// leaving the viewer as it was.
pub proof fn law_warnings_toggle_twice(a: App, b: App, c: App)
    requires
        crate::keys::browse_step(a, b, crate::keys::Key::Char('w')),
        crate::keys::browse_step(b, c, crate::keys::Key::Char('w')),
    ensures
        b.show_warnings == !a.show_warnings,
        c == a,
{
}

// ─── Requests ───────────────────────────────────────────────────────────────

/// The `curl` command copied from an open form is the request that sending
/// the form makes: same method, same URL, same body.
pub proof fn law_curl_matches_sent_request(a: App, b: App, req: crate::app::OutgoingRequest)
    requires
        App::request_started(a, b, Some(req)),
    ensures
        a.curl_for() == Some(crate::request::curl_command(req.method@, req.url@, Some(req.body@))),
{
}

// ─── Search ─────────────────────────────────────────────────────────────────

/// The search lists exactly the endpoints that match, each once, in order.
pub proof fn law_search_lists_exactly_the_matches(eps: Seq<EndpointView>, query: Seq<char>, n: nat)
    requires
        n <= eps.len(),
        n <= usize::MAX,
    ensures
        forall|i: int|
            0 <= i < n ==> (matching_indices(eps, query, n).contains(i as usize) <==> endpoint_matches(
                eps[i],
                query,
            )),
        forall|j: int, k: int|
            0 <= j < k < matching_indices(eps, query, n).len() ==> matching_indices(eps, query, n)[j]
                < matching_indices(eps, query, n)[k],
        indices_in_range(matching_indices(eps, query, n), n),
    decreases n,
{
    if n > 0 {
        law_search_lists_exactly_the_matches(eps, query, (n - 1) as nat);
        let prev = matching_indices(eps, query, (n - 1) as nat);
        let last = (n - 1) as usize;
        let tail = if endpoint_matches(eps[n - 1], query) {
            seq![last]
        } else {
            Seq::<usize>::empty()
        };
        let cur = matching_indices(eps, query, n);
        assert(cur == prev + tail);
        assert forall|k: int| 0 <= k < prev.len() implies cur[k] == prev[k] by {}
        assert forall|i: int| 0 <= i < n implies (cur.contains(i as usize) <==> endpoint_matches(eps[i], query)) by {
            let u = i as usize;
            if i < n - 1 {
                assert(prev.contains(u) <==> endpoint_matches(eps[i], query));
                if prev.contains(u) {
                    let k = choose|k: int| 0 <= k < prev.len() && prev[k] == u;
                    assert(cur[k] == u);
                }
                if cur.contains(u) {
                    let k = choose|k: int| 0 <= k < cur.len() && cur[k] == u;
                    if k >= prev.len() {
                        assert(cur[k] == last);
                    } else {
                        assert(prev[k] == u);
                    }
                }
            } else {
                if endpoint_matches(eps[i], query) {
                    assert(cur[cur.len() - 1] == u);
                }
                if cur.contains(u) {
                    let k = choose|k: int| 0 <= k < cur.len() && cur[k] == u;
                    if k < prev.len() {
                        assert(prev[k] == u);
                        assert(prev[k] < n - 1);
                    }
                }
            }
        }
        assert forall|j: int, k: int| 0 <= j < k < cur.len() implies cur[j] < cur[k] by {
            assert(cur[j] == prev[j]);
            assert(prev[j] < n - 1);
            if k >= prev.len() {
                assert(cur[k] == last);
            } else {
                assert(cur[k] == prev[k]);
            }
        }
        assert forall|k: int| 0 <= k < cur.len() implies cur[k] < n by {
            if k < prev.len() {
                assert(cur[k] == prev[k]);
            } else {
                assert(cur[k] == last);
            }
        }
    }
}

/// A text that occurs in a text occurring in `s` occurs in `s` too.
pub proof fn lemma_substring_transitive(s: Seq<char>, mid: Seq<char>, pat: Seq<char>)
    requires
        has_substring(s, mid),
        has_substring(mid, pat),
    ensures
        has_substring(s, pat),
{
    let i = choose|i: int| occurs_at(s, mid, i);
    let j = choose|j: int| occurs_at(mid, pat, j);
    assert(occurs_at(s, pat, i + j)) by {
        assert(s.subrange(i + j, i + j + pat.len()) =~= mid.subrange(j, j + pat.len()));
    }
}

/// Refining the search (a query that holds the earlier one) never lists an
/// endpoint that the earlier query did not; the empty query lists every
/// endpoint, in order.
pub proof fn law_refined_search_lists_no_more(eps: Seq<EndpointView>, q1: Seq<char>, q2: Seq<char>, n: nat)
    requires
        n <= eps.len(),
        n <= usize::MAX,
        has_substring(q2, q1),
    ensures
        forall|k: usize|
            matching_indices(eps, q2, n).contains(k) ==> matching_indices(eps, q1, n).contains(k),
        matching_indices(eps, Seq::<char>::empty(), n) == crate::app::all_indices(n),
    decreases n,
{
    law_search_lists_exactly_the_matches(eps, q1, n);
    law_search_lists_exactly_the_matches(eps, q2, n);
    assert forall|k: usize| matching_indices(eps, q2, n).contains(k) implies matching_indices(eps, q1, n).contains(k) by {
        let j = choose|j: int| 0 <= j < matching_indices(eps, q2, n).len() && matching_indices(eps, q2, n)[j] == k;
        assert(k < n);
        let e = eps[k as int];
        assert(endpoint_matches(e, q2));
        if q1.len() > 0 {
            if q2.len() == 0 {
                let i = choose|i: int| occurs_at(q2, q1, i);
                assert(false);
            } else if has_substring(lowercase_of(e.path), q2) {
                lemma_substring_transitive(lowercase_of(e.path), q2, q1);
            } else if has_substring(lowercase_of(e.method), q2) {
                lemma_substring_transitive(lowercase_of(e.method), q2, q1);
            } else if has_substring(lowercase_of(crate::app::summary_text(e.operation)), q2) {
                lemma_substring_transitive(lowercase_of(crate::app::summary_text(e.operation)), q2, q1);
            } else {
                lemma_substring_transitive(lowercase_of(e.tag), q2, q1);
            }
        }
        assert(endpoint_matches(e, q1));
    }
    if n > 0 {
        law_refined_search_lists_no_more(eps, q1, q2, (n - 1) as nat);
        assert(endpoint_matches(eps[n - 1], Seq::<char>::empty()));
    }
    assert(matching_indices(eps, Seq::<char>::empty(), n) =~= crate::app::all_indices(n));
}

/// Typing a character into the search and erasing it again brings back the
/// search text and the list of endpoints that the search had before.
pub proof fn law_type_then_erase(a: App, b: App, c: App, ch: char)
    requires
        App::filtered_for(a, b, a.search@.push(ch), a.searching),
        App::filtered_for(b, c, crate::text::without_last(b.search@), b.searching),
    ensures
        c.search@ == a.search@,
        c.filtered@ == matching_indices(
            crate::app::endpoints_view(a.endpoints@),
            crate::text::lowercase_of(a.search@),
            a.endpoints@.len(),
        ),
        c.endpoints == a.endpoints,
        c.collapsed_tags == a.collapsed_tags,
{
    assert(a.search@.push(ch).drop_last() == a.search@);
}

// ─── Examples ───────────────────────────────────────────────────────────────

/// The definition a schema leads to by its reference alone; a schema with its
/// own example, or without a reference to a definition, leads nowhere.
pub open spec fn ref_step(s: SchemaView, defs: Seq<(Seq<char>, SchemaView)>) -> Option<SchemaView> {
    match s.example {
        Some(_) => None,
        None => match s.reference {
            Some(r) => lookup_def(defs, ref_name(r)),
            None => None,
        },
    }
}

/// Following references alone from `s` stops within `f` steps.
pub open spec fn refs_end_within(s: SchemaView, defs: Seq<(Seq<char>, SchemaView)>, f: nat) -> bool
    decreases f,
{
    match ref_step(s, defs) {
        None => true,
        Some(d) => f > 0 && refs_end_within(d, defs, (f - 1) as nat),
    }
}

/// No definition leads back to itself by references alone: from each
/// definition, following references stops before it has visited more
/// definitions than there are.
pub open spec fn no_ref_cycles(defs: Seq<(Seq<char>, SchemaView)>) -> bool {
    forall|i: int| 0 <= i < defs.len() ==> #[trigger] refs_end_within(defs[i].1, defs, (defs.len() - 1) as nat)
}

proof fn lemma_lookup_is_a_definition(defs: Seq<(Seq<char>, SchemaView)>, name: Seq<char>)
    ensures
        lookup_def(defs, name) matches Some(d) ==> exists|j: int| 0 <= j < defs.len() && defs[j].1 == d,
    decreases defs.len(),
{
    if defs.len() > 0 {
        lemma_lookup_is_a_definition(defs.drop_last(), name);
        if lookup_def(defs.drop_last(), name) is Some {
            let d = lookup_def(defs.drop_last(), name)->0;
            let j = choose|j: int| 0 <= j < defs.drop_last().len() && defs.drop_last()[j].1 == d;
            assert(defs[j].1 == d);
        } else if defs.last().0 == name {
            assert(defs[defs.len() - 1].1 == defs.last().1);
        }
    }
}

proof fn lemma_every_schema_ends(p: SchemaView, defs: Seq<(Seq<char>, SchemaView)>)
    requires
        no_ref_cycles(defs),
    ensures
        refs_end_within(p, defs, defs.len()),
{
    match ref_step(p, defs) {
        Some(d) => {
            lemma_lookup_is_a_definition(defs, ref_name(p.reference->0));
            let j = choose|j: int| 0 <= j < defs.len() && defs[j].1 == d;
            assert(refs_end_within(defs[j].1, defs, (defs.len() - 1) as nat));
        },
        None => {},
    }
}

proof fn lemma_example_ends(
    s: SchemaView,
    defs: Seq<(Seq<char>, SchemaView)>,
    depth: nat,
    max_depth: nat,
    fuel: nat,
)
    requires
        no_ref_cycles(defs),
        refs_end_within(s, defs, fuel),
    ensures
        example_ends(s, defs, depth, max_depth, defs.len(), fuel),
    decreases depth_left(depth, max_depth), 1nat, fuel,
{
    if depth <= max_depth && s.example is None {
        match s.reference {
            Some(r) => match lookup_def(defs, ref_name(r)) {
                Some(d) => {
                    lemma_example_ends(d, defs, depth, max_depth, (fuel - 1) as nat);
                },
                None => {},
            },
            None => if s.schema_type == Some("array"@) {
                match s.items {
                    Some(it) => {
                        lemma_every_schema_ends(*it, defs);
                        lemma_example_ends(*it, defs, depth + 1, max_depth, defs.len());
                    },
                    None => {},
                }
            } else {
                lemma_properties_end(s.properties, defs, depth, max_depth);
            },
        }
    }
}

proof fn lemma_properties_end(
    ps: Seq<(Seq<char>, SchemaView)>,
    defs: Seq<(Seq<char>, SchemaView)>,
    depth: nat,
    max_depth: nat,
)
    requires
        no_ref_cycles(defs),
    ensures
        properties_end(ps, defs, depth, max_depth, defs.len()),
    decreases depth_left(depth, max_depth), 0nat, ps.len(),
{
    if ps.len() > 0 && depth <= max_depth {
        lemma_properties_end(ps.drop_last(), defs, depth, max_depth);
        lemma_every_schema_ends(ps.last().1, defs);
        lemma_example_ends(ps.last().1, defs, depth + 1, max_depth, defs.len());
    }
}

/// When no definition leads back to itself by references alone, the example
/// of every schema can be finished: `generate_example` gives `Some`, at any
/// depth.
pub proof fn law_examples_end_without_ref_cycles(
    s: SchemaView,
    defs: Seq<(Seq<char>, SchemaView)>,
    depth: nat,
    max_depth: nat,
)
    requires
        no_ref_cycles(defs),
    ensures
        example_ends(s, defs, depth, max_depth, defs.len(), defs.len()),
{
    lemma_every_schema_ends(s, defs);
    lemma_example_ends(s, defs, depth, max_depth, defs.len());
}

// ─── Warnings ───────────────────────────────────────────────────────────────

/// Whether the reference a `$ref` warning names is still not defined among
/// `defs`.
pub open spec fn still_unresolved(defs: Seq<Seq<char>>) -> spec_fn((Seq<char>, Seq<char>)) -> bool {
    |w: (Seq<char>, Seq<char>)| !defs.contains(ref_name(w.1.skip("Unresolved $ref: "@.len() as int)))
}

/// Knowing more definitions never adds a `$ref` warning: with every name of
/// `defs1` also in `defs2`, the warnings against `defs2` are those against
/// `defs1` whose reference `defs2` still lacks, in the same order.
pub proof fn law_more_definitions_fewer_warnings(
    s: SchemaView,
    defs1: Seq<Seq<char>>,
    defs2: Seq<Seq<char>>,
    loc: Seq<char>,
)
    requires
        forall|x: Seq<char>| defs1.contains(x) ==> defs2.contains(x),
    ensures
        schema_ref_warnings(s, defs2, loc) == schema_ref_warnings(s, defs1, loc).filter(still_unresolved(defs2)),
    decreases s, 1nat,
{
    let p = still_unresolved(defs2);
    let own1 = match s.reference {
        Some(r) => if defs1.contains(ref_name(r)) {
            Seq::<(Seq<char>, Seq<char>)>::empty()
        } else {
            seq![(loc, "Unresolved $ref: "@ + r)]
        },
        None => Seq::<(Seq<char>, Seq<char>)>::empty(),
    };
    let own2 = match s.reference {
        Some(r) => if defs2.contains(ref_name(r)) {
            Seq::<(Seq<char>, Seq<char>)>::empty()
        } else {
            seq![(loc, "Unresolved $ref: "@ + r)]
        },
        None => Seq::<(Seq<char>, Seq<char>)>::empty(),
    };
    let it1 = match s.items {
        Some(b) => schema_ref_warnings(*b, defs1, loc),
        None => Seq::<(Seq<char>, Seq<char>)>::empty(),
    };
    let it2 = match s.items {
        Some(b) => schema_ref_warnings(*b, defs2, loc),
        None => Seq::<(Seq<char>, Seq<char>)>::empty(),
    };
    reveal(Seq::filter);
    match s.reference {
        Some(r) => {
            let w = (loc, "Unresolved $ref: "@ + r);
            assert(w.1.skip("Unresolved $ref: "@.len() as int) =~= r);
            assert(p(w) == !defs2.contains(ref_name(r)));
            if !defs1.contains(ref_name(r)) {
                let one = seq![w];
                assert(one.drop_last() =~= Seq::<(Seq<char>, Seq<char>)>::empty());
                assert(one.drop_last().filter(p) =~= Seq::<(Seq<char>, Seq<char>)>::empty());
                assert(one.last() == w);
                if p(w) {
                    assert(one.filter(p) =~= one);
                } else {
                    assert(one.filter(p) =~= Seq::<(Seq<char>, Seq<char>)>::empty());
                }
            } else {
                assert(defs2.contains(ref_name(r)));
            }
            assert(own1.filter(p) =~= own2);
        },
        None => {
            assert(own1.filter(p) =~= own2);
        },
    }
    match s.items {
        Some(b) => {
            law_more_definitions_fewer_warnings(*b, defs1, defs2, loc);
        },
        None => {},
    }
    assert(it1.filter(p) == it2);
    lemma_props_fewer_warnings(s.properties, defs1, defs2, loc);
    Seq::filter_distributes_over_add(own1, it1, p);
    Seq::filter_distributes_over_add(own1 + it1, props_ref_warnings(s.properties, defs1, loc), p);
}

proof fn lemma_props_fewer_warnings(
    ps: Seq<(Seq<char>, SchemaView)>,
    defs1: Seq<Seq<char>>,
    defs2: Seq<Seq<char>>,
    loc: Seq<char>,
)
    requires
        forall|x: Seq<char>| defs1.contains(x) ==> defs2.contains(x),
    ensures
        props_ref_warnings(ps, defs2, loc) == props_ref_warnings(ps, defs1, loc).filter(still_unresolved(defs2)),
    decreases ps, 0nat,
{
    reveal(Seq::filter);
    if ps.len() > 0 {
        let init = ps.subrange(0, ps.len() - 1);
        lemma_props_fewer_warnings(init, defs1, defs2, loc);
        law_more_definitions_fewer_warnings(ps[ps.len() - 1].1, defs1, defs2, loc);
        Seq::filter_distributes_over_add(
            props_ref_warnings(init, defs1, loc),
            schema_ref_warnings(ps[ps.len() - 1].1, defs1, loc),
            still_unresolved(defs2),
        );
    }
}

/// With every reference of the schema defined, it gets no `$ref` warning: the
/// warnings against no definitions at all name each reference the schema
/// holds, and none is left when `defs` defines them all.
pub proof fn law_all_references_defined(s: SchemaView, defs: Seq<Seq<char>>, loc: Seq<char>)
    requires
        forall|i: int|
            0 <= i < schema_ref_warnings(s, seq![], loc).len() ==> !#[trigger] still_unresolved(defs)(
                schema_ref_warnings(s, seq![], loc)[i],
            ),
    ensures
        schema_ref_warnings(s, defs, loc).len() == 0,
{
    law_more_definitions_fewer_warnings(s, seq![], defs, loc);
    let w = schema_ref_warnings(s, seq![], loc);
    broadcast use vstd::seq_lib::group_filter_ensures;
    if w.filter(still_unresolved(defs)).len() > 0 {
        let x = w.filter(still_unresolved(defs))[0];
        assert(still_unresolved(defs)(x));
        assert(w.filter(still_unresolved(defs)).contains(x));
        w.lemma_filter_contains_rev(still_unresolved(defs), x);
        let i = choose|i: int| 0 <= i < w.len() && w[i] == x;
        assert(!still_unresolved(defs)(w[i]));
    }
}

// ─── What the search finds ──────────────────────────────────────────────────

/// After the search text `search` is applied, an endpoint is listed exactly
/// when the query (in lower case) is empty or occurs in the lower-case form of
/// its path, its method, its summary or its tag.
pub proof fn law_search_finds_path_method_summary_and_tag(a: App, b: App, search: Seq<char>, searching: bool, i: int)
    requires
        App::filtered_for(a, b, search, searching),
        0 <= i < a.endpoints@.len(),
        a.endpoints@.len() <= usize::MAX,
    ensures
        ({
            let e = a.endpoints@[i]@;
            let q = lowercase_of(search);
            b.filtered@.contains(i as usize) <==> (q.len() == 0 || has_substring(lowercase_of(e.path), q)
                || has_substring(lowercase_of(e.method), q) || has_substring(
                lowercase_of(
                    match e.operation.summary {
                        Some(t) => t,
                        None => Seq::<char>::empty(),
                    },
                ),
                q,
            ) || has_substring(lowercase_of(e.tag), q))
        }),
{
    let eps = crate::app::endpoints_view(a.endpoints@);
    law_search_lists_exactly_the_matches(eps, lowercase_of(search), a.endpoints@.len());
    assert(eps[i] == a.endpoints@[i]@);
}

// ─── Request bodies ─────────────────────────────────────────────────────────

/// POST, PUT and PATCH carry the form's body, GET, DELETE and HEAD do not: a
/// planned request sends a non-empty body exactly for the first three, and the
/// `curl` command for them ends with the JSON content type and that body.
pub proof fn law_body_methods(url: Seq<char>, body: Seq<char>)
    requires
        body.len() > 0,
    ensures
        forall|m: Seq<char>|
            #![trigger crate::request::curl_command(m, url, Some(body))]
            (m == "POST"@ || m == "PUT"@ || m == "PATCH"@) ==> crate::request::sends_body(m)
                && crate::request::curl_command(m, url, Some(body)) == "curl -X "@ + m + " '"@ + url + "'"@
                + " -H 'Content-Type: application/json' -d '"@ + body + "'"@,
        !crate::request::sends_body("GET"@),
        !crate::request::sends_body("DELETE"@),
        !crate::request::sends_body("HEAD"@),
{
    reveal_strlit("GET");
    reveal_strlit("DELETE");
    reveal_strlit("HEAD");
    reveal_strlit("POST");
    reveal_strlit("PUT");
    reveal_strlit("PATCH");
    assert("GET"@ != "POST"@ && "GET"@ != "PUT"@ && "GET"@ != "PATCH"@) by {
        assert("GET"@[0] != "POST"@[0]);
        assert("GET"@.len() != "PATCH"@.len());
        assert("GET"@[1] != "PUT"@[1]);
    }
    assert("DELETE"@ != "POST"@ && "DELETE"@ != "PUT"@ && "DELETE"@ != "PATCH"@) by {
        assert("DELETE"@.len() != "POST"@.len());
        assert("DELETE"@.len() != "PUT"@.len());
        assert("DELETE"@.len() != "PATCH"@.len());
    }
    assert("HEAD"@ != "POST"@ && "HEAD"@ != "PUT"@ && "HEAD"@ != "PATCH"@) by {
        assert("HEAD"@[0] != "POST"@[0]);
        assert("HEAD"@.len() != "PUT"@.len());
        assert("HEAD"@.len() != "PATCH"@.len());
    }
}

// ─── The detail panel ───────────────────────────────────────────────────────

/// The detail of an endpoint shows the media types it consumes on a line of
/// their own, `Consumes: ` (yellow) and the types joined by `, `, and likewise
/// those it produces; such a line is there whenever there are such types.
pub proof fn law_detail_lists_media_types(ep: EndpointView, defs: Seq<(Seq<char>, SchemaView)>)
    ensures
        ep.operation.consumes.len() > 0 ==> exists|k: int|
            0 <= k < detail_lines(ep, defs).len() && #[trigger] detail_lines(ep, defs)[k] == seq![
                ("Consumes: "@, fg(Tint::Yellow)),
                (join(ep.operation.consumes, ", "@), plain()),
            ],
        ep.operation.produces.len() > 0 ==> exists|k: int|
            0 <= k < detail_lines(ep, defs).len() && #[trigger] detail_lines(ep, defs)[k] == seq![
                ("Produces: "@, fg(Tint::Yellow)),
                (join(ep.operation.produces, ", "@), plain()),
            ],
{
    let op = ep.operation;
    let before = header_top(ep) + id_line(op.operation_id) + blank_line() + opt_line(op.summary, fg(Tint::White))
        + opt_line(op.description, fg(Tint::Gray)) + blank_line();
    let c = media_line("Consumes: "@, op.consumes);
    let p = media_line("Produces: "@, op.produces);
    let d = detail_lines(ep, defs);
    assert(d == before + c + p + (if op.consumes.len() > 0 || op.produces.len() > 0 {
        blank_line()
    } else {
        seq![]
    }) + parameters_section(op, defs) + responses_section(op, defs));
    if op.consumes.len() > 0 {
        assert(d[before.len() as int] == c[0]);
    }
    if op.produces.len() > 0 {
        assert(d[(before.len() + c.len()) as int] == p[0]);
    }
}

// ─── Schema outlines ────────────────────────────────────────────────────────

proof fn lemma_property_lines_prefix(
    ps: Seq<(Seq<char>, SchemaView)>,
    req: Seq<Seq<char>>,
    defs: Seq<(Seq<char>, SchemaView)>,
    indent: nat,
    max_depth: nat,
    n: int,
)
    requires
        0 <= n <= ps.len(),
    ensures
        property_lines(ps.take(n), req, defs, indent, max_depth).len() <= property_lines(
            ps,
            req,
            defs,
            indent,
            max_depth,
        ).len(),
        forall|t: int|
            0 <= t < property_lines(ps.take(n), req, defs, indent, max_depth).len() ==> #[trigger] property_lines(
                ps,
                req,
                defs,
                indent,
                max_depth,
            )[t] == property_lines(ps.take(n), req, defs, indent, max_depth)[t],
    decreases ps.len() - n,
{
    if n < ps.len() {
        lemma_property_lines_prefix(ps, req, defs, indent, max_depth, n + 1);
        assert(ps.take(n + 1).drop_last() =~= ps.take(n));
    } else {
        assert(ps.take(n) =~= ps);
    }
}

/// The line of property `i` in the outline of properties `ps`, and the
/// position where it stands; the outline of the property's own schema follows
/// it when the property nests.
proof fn lemma_property_row(
    ps: Seq<(Seq<char>, SchemaView)>,
    req: Seq<Seq<char>>,
    defs: Seq<(Seq<char>, SchemaView)>,
    indent: nat,
    max_depth: nat,
    i: int,
) -> (k: int)
    requires
        0 <= i < ps.len(),
        indent <= max_depth,
    ensures
        0 <= k < property_lines(ps, req, defs, indent, max_depth).len(),
        property_lines(ps, req, defs, indent, max_depth)[k].len() > 0,
        property_lines(ps, req, defs, indent, max_depth)[k][0].0 == spaces(indent * 2) + ps[i].0,
        nests(ps[i].1) ==> k + 1 + schema_lines(ps[i].1, defs, indent + 1, max_depth).len() <= property_lines(
            ps,
            req,
            defs,
            indent,
            max_depth,
        ).len() && forall|t: int|
            0 <= t < schema_lines(ps[i].1, defs, indent + 1, max_depth).len() ==> property_lines(
                ps,
                req,
                defs,
                indent,
                max_depth,
            )[k + 1 + t] == #[trigger] schema_lines(ps[i].1, defs, indent + 1, max_depth)[t],
{
    lemma_property_lines_prefix(ps, req, defs, indent, max_depth, i + 1);
    let head = ps.take(i + 1);
    assert(head.drop_last() =~= ps.take(i));
    assert(head.last() == ps[i]);
    let before = property_lines(ps.take(i), req, defs, indent, max_depth);
    let k = before.len() as int;
    let whole = property_lines(ps, req, defs, indent, max_depth);
    let part = property_lines(head, req, defs, indent, max_depth);
    assert(whole[k] == part[k]);
    if nests(ps[i].1) {
        assert forall|t: int| 0 <= t < schema_lines(ps[i].1, defs, indent + 1, max_depth).len() implies whole[k + 1
            + t] == #[trigger] schema_lines(ps[i].1, defs, indent + 1, max_depth)[t] by {
            assert(whole[k + 1 + t] == part[k + 1 + t]);
        }
    }
    k
}

/// The outline of an object shows a line for each property and, below a
/// property whose schema is itself an object with properties (not a
/// reference, not an array), a line for each of that object's properties one
/// level deeper, as long as that level is within the depth limit.
pub proof fn law_nested_objects_are_outlined(
    s: SchemaView,
    defs: Seq<(Seq<char>, SchemaView)>,
    indent: nat,
    max_depth: nat,
    i: int,
    j: int,
)
    requires
        indent + 1 <= max_depth,
        s.reference is None,
        s.schema_type != Some("array"@),
        0 <= i < s.properties.len(),
        s.properties[i].1.reference is None,
        s.properties[i].1.schema_type != Some("array"@),
        0 <= j < s.properties[i].1.properties.len(),
    ensures
        exists|k: int|
            0 <= k < schema_lines(s, defs, indent, max_depth).len() && schema_lines(s, defs, indent, max_depth)[k].len()
                > 0 && #[trigger] schema_lines(s, defs, indent, max_depth)[k][0].0 == spaces(indent * 2)
                + s.properties[i].0,
        exists|k: int|
            0 <= k < schema_lines(s, defs, indent, max_depth).len() && schema_lines(s, defs, indent, max_depth)[k].len()
                > 0 && #[trigger] schema_lines(s, defs, indent, max_depth)[k][0].0 == spaces((indent + 1) * 2)
                + s.properties[i].1.properties[j].0,
{
    let p = s.properties[i].1;
    let outline = schema_lines(s, defs, indent, max_depth);
    assert(outline == property_lines(s.properties, s.required, defs, indent, max_depth));
    let k = lemma_property_row(s.properties, s.required, defs, indent, max_depth, i);
    assert(outline[k][0].0 == spaces(indent * 2) + s.properties[i].0);
    assert(nests(p));
    let inner = schema_lines(p, defs, indent + 1, max_depth);
    assert(inner == property_lines(p.properties, p.required, defs, indent + 1, max_depth));
    let k2 = lemma_property_row(p.properties, p.required, defs, indent + 1, max_depth, j);
    assert(outline[k + 1 + k2] == inner[k2]);
    assert(outline[k + 1 + k2][0].0 == spaces((indent + 1) * 2) + p.properties[j].0);
}

// ─── Warnings about responses ───────────────────────────────────────────────

proof fn lemma_warnings_prefix(flat: Seq<(Seq<char>, Seq<char>, crate::model::OperationView)>, defs: Seq<Seq<char>>, n: int)
    requires
        0 <= n <= flat.len(),
    ensures
        warnings_of(flat.take(n), defs).len() <= warnings_of(flat, defs).len(),
        forall|t: int|
            0 <= t < warnings_of(flat.take(n), defs).len() ==> #[trigger] warnings_of(flat, defs)[t] == warnings_of(
                flat.take(n),
                defs,
            )[t],
    decreases flat.len() - n,
{
    if n < flat.len() {
        lemma_warnings_prefix(flat, defs, n + 1);
        assert(flat.take(n + 1).drop_last() =~= flat.take(n));
    } else {
        assert(flat.take(n) =~= flat);
    }
}

proof fn lemma_response_warnings_prefix(
    rs: Seq<(Seq<char>, crate::model::ResponseView)>,
    defs: Seq<Seq<char>>,
    loc: Seq<char>,
    n: int,
)
    requires
        0 <= n <= rs.len(),
    ensures
        response_ref_warnings(rs.take(n), defs, loc).len() <= response_ref_warnings(rs, defs, loc).len(),
        forall|t: int|
            0 <= t < response_ref_warnings(rs.take(n), defs, loc).len() ==> #[trigger] response_ref_warnings(
                rs,
                defs,
                loc,
            )[t] == response_ref_warnings(rs.take(n), defs, loc)[t],
    decreases rs.len() - n,
{
    if n < rs.len() {
        lemma_response_warnings_prefix(rs, defs, loc, n + 1);
        assert(rs.take(n + 1).drop_last() =~= rs.take(n));
    } else {
        assert(rs.take(n) =~= rs);
    }
}

/// Every reference warning about a response's schema is among the warnings of
/// the specification, at that operation's location (`METHOD /path`); in
/// particular a response schema that refers to a name with no definition
/// gives the warning `Unresolved $ref: <reference>` there.
pub proof fn law_response_references_are_checked(
    flat: Seq<(Seq<char>, Seq<char>, crate::model::OperationView)>,
    defs: Seq<Seq<char>>,
    k: int,
    ri: int,
    sc: SchemaView,
)
    requires
        0 <= k < flat.len(),
        0 <= ri < flat[k].2.responses.len(),
        flat[k].2.responses[ri].1.schema == Some(sc),
    ensures
        forall|t: int|
            0 <= t < schema_ref_warnings(sc, defs, location_of(flat[k].1, flat[k].0)).len() ==> warnings_of(
                flat,
                defs,
            ).contains(#[trigger] schema_ref_warnings(sc, defs, location_of(flat[k].1, flat[k].0))[t]),
        match sc.reference {
            Some(r) => !defs.contains(ref_name(r)) ==> warnings_of(flat, defs).contains(
                (location_of(flat[k].1, flat[k].0), "Unresolved $ref: "@ + r),
            ),
            None => true,
        },
{
    let loc = location_of(flat[k].1, flat[k].0);
    let op = flat[k].2;
    let all = warnings_of(flat, defs);
    lemma_warnings_prefix(flat, defs, k + 1);
    let head = flat.take(k + 1);
    assert(head.drop_last() =~= flat.take(k));
    assert(head.last() == flat[k]);
    let before = warnings_of(flat.take(k), defs);
    let ow = operation_warnings(flat[k].0, flat[k].1, op, defs, ids_of(flat.take(k)));
    assert(warnings_of(head, defs) == before + ow);
    let rw = response_ref_warnings(op.responses, defs, loc);
    let pre = ow.subrange(0, ow.len() - rw.len());
    assert(ow =~= pre + rw);
    lemma_response_warnings_prefix(op.responses, defs, loc, ri + 1);
    let rhead = op.responses.take(ri + 1);
    assert(rhead.drop_last() =~= op.responses.take(ri));
    assert(rhead.last() == op.responses[ri]);
    let rbefore = response_ref_warnings(op.responses.take(ri), defs, loc);
    let sw = schema_ref_warnings(sc, defs, loc);
    assert(response_ref_warnings(rhead, defs, loc) == rbefore + sw);
    assert forall|t: int| 0 <= t < sw.len() implies all.contains(#[trigger] sw[t]) by {
        let idx = before.len() + pre.len() + rbefore.len() + t;
        assert(rw[rbefore.len() + t] == sw[t]);
        assert(ow[pre.len() + rbefore.len() + t] == sw[t]);
        assert(all[idx] == sw[t]);
    }
    match sc.reference {
        Some(r) => {
            if !defs.contains(ref_name(r)) {
                assert(sw[0] == (loc, "Unresolved $ref: "@ + r));
            }
        },
        None => {},
    }
}

// ─── The sidebar ────────────────────────────────────────────────────────────

/// The sidebar shows each listed endpoint whose tag is not collapsed, and
/// only those: an endpoint line for index `i` exists exactly when `i` is
/// listed and its tag is expanded.
pub proof fn law_sidebar_shows_expanded_endpoints(
    eps: Seq<EndpointView>,
    filtered: Seq<usize>,
    collapsed: Seq<Seq<char>>,
    i: usize,
)
    requires
        indices_in_range(filtered, eps.len()),
    ensures
        sidebar_of(eps, filtered, collapsed).contains(SidebarEntry::Endpoint(i)) <==> (filtered.contains(i)
            && !collapsed.contains(eps[i as int].tag)),
    decreases filtered.len(),
{
    if filtered.len() > 0 {
        let k = filtered.len() - 1;
        let rest = filtered.drop_last();
        law_sidebar_shows_expanded_endpoints(eps, rest, collapsed, i);
        let t = eps[filtered[k] as int].tag;
        let before = sidebar_of(eps, rest, collapsed);
        let heading = if t != crate::app::tag_before(eps, filtered, k) {
            seq![SidebarEntry::Tag(t)]
        } else {
            Seq::<SidebarEntry>::empty()
        };
        let line = if collapsed.contains(t) {
            Seq::<SidebarEntry>::empty()
        } else {
            seq![SidebarEntry::Endpoint(filtered[k])]
        };
        let all = sidebar_of(eps, filtered, collapsed);
        assert(all == before + heading + line);
        if all.contains(SidebarEntry::Endpoint(i)) {
            let p = choose|p: int| 0 <= p < all.len() && all[p] == SidebarEntry::Endpoint(i);
            if p < before.len() {
                assert(before[p] == SidebarEntry::Endpoint(i));
                assert(before.contains(SidebarEntry::Endpoint(i)));
                let q = choose|q: int| 0 <= q < rest.len() && rest[q] == i;
                assert(filtered[q] == i);
            } else if p < before.len() + heading.len() {
                assert(heading[p - before.len()] == all[p]);
            } else {
                assert(line[p - before.len() - heading.len()] == all[p]);
                assert(filtered[k] == i);
            }
        }
        if filtered.contains(i) && !collapsed.contains(eps[i as int].tag) {
            let q = choose|q: int| 0 <= q < filtered.len() && filtered[q] == i;
            if q < k {
                assert(rest[q] == i);
                assert(rest.contains(i));
                let p = choose|p: int| 0 <= p < before.len() && before[p] == SidebarEntry::Endpoint(i);
                assert(all[p] == SidebarEntry::Endpoint(i));
            } else {
                assert(all[all.len() - 1] == SidebarEntry::Endpoint(i));
            }
        }
    }
}

// ─── Media types ────────────────────────────────────────────────────────────

/// The produced media types hold no repetition, and hold exactly the media
/// types the responses name.
pub proof fn law_dedup(s: Seq<Seq<char>>)
    ensures
        forall|j: int, k: int| 0 <= j < k < dedup(s).len() ==> dedup(s)[j] != dedup(s)[k],
        forall|x: Seq<char>| dedup(s).contains(x) <==> s.contains(x),
    decreases s.len(),
{
    if s.len() > 0 {
        law_dedup(s.drop_last());
        let d = dedup(s.drop_last());
        let x0 = s.last();
        assert forall|x: Seq<char>| dedup(s).contains(x) <==> s.contains(x) by {
            if s.contains(x) {
                let p = choose|p: int| 0 <= p < s.len() && s[p] == x;
                if p < s.len() - 1 {
                    assert(s.drop_last()[p] == x);
                    assert(s.drop_last().contains(x));
                    assert(d.contains(x));
                    if !d.contains(x0) {
                        let q = choose|q: int| 0 <= q < d.len() && d[q] == x;
                        assert(d.push(x0)[q] == x);
                    }
                } else if !d.contains(x0) {
                    assert(d.push(x0)[d.len() as int] == x);
                }
            }
            if dedup(s).contains(x) {
                let p = choose|p: int| 0 <= p < dedup(s).len() && dedup(s)[p] == x;
                if p < d.len() {
                    assert(d[p] == x);
                    assert(d.contains(x));
                    assert(s.drop_last().contains(x));
                    let q = choose|q: int| 0 <= q < s.drop_last().len() && s.drop_last()[q] == x;
                    assert(s[q] == x);
                } else {
                    assert(s[s.len() - 1] == x);
                }
            }
        }
    }
}

} // verus!
