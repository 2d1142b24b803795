//! The state of the viewer: the endpoints of a specification, the search
//! filter, the sidebar of endpoints grouped by tag, the selection and the
//! scroll positions, the "try it out" form and the auth settings.
use vstd::prelude::*;
use crate::model::{
    ApiSpec, Operation, OperationView, Parameter, ParameterView, contains_text, flat_operations, lemma_flat_operations_step,
    lemma_methods_of_step, methods_of, names_of, strs_view,
};
use crate::validate::{Warning, validate, warnings_of, warnings_view};
use crate::request::{auth_headers, auth_headers_of, build_url, curl_command, curl_text, fields_view, request_url};
use crate::text::{
    has_substring, lowercase_of, str_contains, str_eq, to_lowercase, to_uppercase, uppercase_of,
};

verus! {

// ─── Types ──────────────────────────────────────────────────────────────────

/// One operation of the specification as the viewer lists it.
pub struct Endpoint {
    pub method: String,
    pub path: String,
    pub operation: Operation,
    pub tag: String,
}

pub ghost struct EndpointView {
    pub method: Seq<char>,
    pub path: Seq<char>,
    pub operation: OperationView,
    pub tag: Seq<char>,
}

impl View for Endpoint {
    type V = EndpointView;

    open spec fn view(&self) -> EndpointView {
        EndpointView { method: self.method@, path: self.path@, operation: self.operation@, tag: self.tag@ }
    }
}

pub open spec fn endpoints_view(eps: Seq<Endpoint>) -> Seq<EndpointView> {
    eps.map_values(|e: Endpoint| e@)
}

/// The endpoint an operation becomes: its method in upper case, grouped under
/// its first tag, or under `default` when it has none.
pub open spec fn endpoint_of(path: Seq<char>, method: Seq<char>, op: OperationView) -> EndpointView {
    EndpointView {
        method: uppercase_of(method),
        path,
        operation: op,
        tag: if op.tags.len() > 0 {
            op.tags[0]
        } else {
            "default"@
        },
    }
}

/// The panel that has the focus.
#[derive(Clone, Copy, PartialEq, Eq, Structural, Debug)]
pub enum Panel {
    Sidebar,
    Detail,
}

/// A line of the sidebar: a tag heading, or an endpoint by its index.
pub enum SidebarItem {
    Tag(String),
    Endpoint(usize),
}

pub ghost enum SidebarEntry {
    Tag(Seq<char>),
    Endpoint(usize),
}

impl View for SidebarItem {
    type V = SidebarEntry;

    open spec fn view(&self) -> SidebarEntry {
        match self {
            SidebarItem::Tag(t) => SidebarEntry::Tag(t@),
            SidebarItem::Endpoint(i) => SidebarEntry::Endpoint(*i),
        }
    }
}

pub open spec fn sidebar_view(items: Seq<SidebarItem>) -> Seq<SidebarEntry> {
    items.map_values(|it: SidebarItem| it@)
}

/// What the viewer is doing.
#[derive(Clone, Copy, PartialEq, Eq, Structural, Debug)]
pub enum AppMode {
    Browse,
    TryIt,
    AuthEdit,
}

/// The answer to a request sent from the "try it out" form.
pub struct HttpResponse {
    pub status: u16,
    pub headers: Vec<(String, String)>,
    pub body: String,
}

/// The "try it out" form: a value for each non-body parameter
/// (`(name, location, value)`), the request body, the field that is selected
/// and whether it is being edited, and the outcome of the last request.
pub struct TryItState {
    pub param_values: Vec<(String, String, String)>,
    pub body: String,
    pub selected_field: usize,
    pub editing: bool,
    pub loading: bool,
    pub response: Option<HttpResponse>,
    pub error: Option<String>,
}

/// How requests are authenticated.
pub enum AuthConfig {
    NoAuth,
    Bearer(String),
    ApiKey { header: String, value: String },
    Basic { username: String, password: String },
    Custom(Vec<(String, String)>),
}

/// The whole state of the viewer.
pub struct App {
    pub spec: ApiSpec,
    pub endpoints: Vec<Endpoint>,
    pub filtered: Vec<usize>,
    pub sidebar_items: Vec<SidebarItem>,
    pub selected: usize,
    pub scroll: u16,
    pub detail_height: u16,
    pub sidebar_scroll: u16,
    pub sidebar_height: u16,
    pub collapsed_tags: Vec<String>,
    pub search: String,
    pub searching: bool,
    pub active_panel: Panel,
    pub mode: AppMode,
    pub try_it: Option<TryItState>,
    pub status_message: Option<String>,
    pub quit: bool,
    pub auth: AuthConfig,
    pub auth_selected: usize,
    pub auth_editing: bool,
    pub auth_input: String,
    pub warnings: Vec<Warning>,
    pub show_warnings: bool,
}

// ─── The sidebar ────────────────────────────────────────────────────────────

/// The tag of the endpoint listed just before position `k` of `filtered`
/// (the empty text before the first).
pub open spec fn tag_before(eps: Seq<EndpointView>, filtered: Seq<usize>, k: int) -> Seq<char> {
    if k <= 0 {
        Seq::<char>::empty()
    } else {
        eps[filtered[k - 1] as int].tag
    }
}

/// The sidebar of the listed endpoints: a tag heading wherever the tag changes
/// from the endpoint before, and each endpoint whose tag is not collapsed.
pub open spec fn sidebar_of(eps: Seq<EndpointView>, filtered: Seq<usize>, collapsed: Seq<Seq<char>>) -> Seq<SidebarEntry>
    decreases filtered.len(),
{
    if filtered.len() == 0 {
        seq![]
    } else {
        let k = filtered.len() - 1;
        let t = eps[filtered[k] as int].tag;
        sidebar_of(eps, filtered.drop_last(), collapsed) + (if t != tag_before(eps, filtered, k) {
            seq![SidebarEntry::Tag(t)]
        } else {
            Seq::<SidebarEntry>::empty()
        }) + (if collapsed.contains(t) {
            Seq::<SidebarEntry>::empty()
        } else {
            seq![SidebarEntry::Endpoint(filtered[k])]
        })
    }
}

/// Every listed index names an endpoint.
pub open spec fn indices_in_range(filtered: Seq<usize>, n: nat) -> bool {
    forall|k: int| 0 <= k < filtered.len() ==> filtered[k] < n
}

/// The sidebar for the listed endpoints and the collapsed tags.
pub fn build_sidebar(endpoints: &Vec<Endpoint>, filtered: &Vec<usize>, collapsed: &Vec<String>) -> (items: Vec<SidebarItem>)
    requires
        indices_in_range(filtered@, endpoints@.len()),
    ensures
        sidebar_view(items@) == sidebar_of(endpoints_view(endpoints@), filtered@, strs_view(collapsed@)),
{
    let ghost eps = endpoints_view(endpoints@);
    let ghost cv = strs_view(collapsed@);
    let mut items: Vec<SidebarItem> = Vec::new();
    let mut current_tag = String::new();
    let mut i: usize = 0;
    while i < filtered.len()
        invariant
            i <= filtered.len(),
            eps == endpoints_view(endpoints@),
            cv == strs_view(collapsed@),
            indices_in_range(filtered@, endpoints@.len()),
            sidebar_view(items@) == sidebar_of(eps, filtered@.take(i as int), cv),
            current_tag@ == tag_before(eps, filtered@, i as int),
        decreases filtered.len() - i,
    {
        let idx = filtered[i];
        let ep = &endpoints[idx];
        let ghost f = filtered@.take(i + 1);
        assert(f.drop_last() == filtered@.take(i as int));
        assert(tag_before(eps, f, i as int) == tag_before(eps, filtered@, i as int));
        assert(eps[idx as int] == ep@);
        let ghost before = sidebar_view(items@);
        if !str_eq(ep.tag.as_str(), current_tag.as_str()) {
            current_tag = ep.tag.clone();
            items.push(SidebarItem::Tag(ep.tag.clone()));
        }
        let ghost mid = sidebar_view(items@);
        assert(mid =~= before + (if ep@.tag != tag_before(eps, f, i as int) {
            seq![SidebarEntry::Tag(ep@.tag)]
        } else {
            Seq::<SidebarEntry>::empty()
        }));
        if !contains_text(collapsed, &ep.tag) {
            items.push(SidebarItem::Endpoint(idx));
        }
        assert(sidebar_view(items@) =~= mid + (if cv.contains(ep@.tag) {
            Seq::<SidebarEntry>::empty()
        } else {
            seq![SidebarEntry::Endpoint(idx)]
        }));
        i = i + 1;
    }
    assert(filtered@.take(filtered.len() as int) == filtered@);
    items
}

impl App {
    /// The state invariant: listed indices name endpoints, the sidebar is the
    /// one the listed endpoints and collapsed tags give, the selection is a
    /// sidebar line (or the first line of an empty sidebar), the auth menu
    /// selection is one of its four entries, and the form's selected field is one
    /// of its parameter fields or the body field after them.
    pub open spec fn wf(&self) -> bool {
        &&& indices_in_range(self.filtered@, self.endpoints@.len())
        &&& sidebar_view(self.sidebar_items@) == sidebar_of(
            endpoints_view(self.endpoints@),
            self.filtered@,
            strs_view(self.collapsed_tags@),
        )
        &&& (self.selected == 0 || self.selected < self.sidebar_items@.len())
        &&& self.auth_selected < 4
        &&& self.try_it matches Some(st) ==> st.selected_field <= st.param_values@.len()
    }

    /// Rebuilds the sidebar from the listed endpoints and the collapsed tags;
    /// nothing else changes.
    pub fn rebuild_sidebar(&mut self)
        requires
            indices_in_range(old(self).filtered@, old(self).endpoints@.len()),
        ensures
            sidebar_view(final(self).sidebar_items@) == sidebar_of(
                endpoints_view(old(self).endpoints@),
                old(self).filtered@,
                strs_view(old(self).collapsed_tags@),
            ),
            (*final(self) == App { sidebar_items: final(self).sidebar_items, ..*old(self) }),
    {
        let items = build_sidebar(&self.endpoints, &self.filtered, &self.collapsed_tags);
        self.sidebar_items = items;
    }
}

/// The endpoints a specification lists: one per operation, in document order.
pub open spec fn endpoints_of(flat: Seq<(Seq<char>, Seq<char>, OperationView)>) -> Seq<EndpointView> {
    flat.map_values(|f: (Seq<char>, Seq<char>, OperationView)| endpoint_of(f.0, f.1, f.2))
}

/// All positions `0..n`, in order.
pub open spec fn all_indices(n: nat) -> Seq<usize> {
    Seq::new(n, |i: int| i as usize)
}

/// The endpoint that an operation of `path` under `method` becomes.
fn make_endpoint(path: &String, method: &String, op: &Operation) -> (e: Endpoint)
    ensures
        e@ == endpoint_of(path@, method@, op@),
{
    let tag = if op.tags.len() > 0 {
        op.tags[0].clone()
    } else {
        String::from_str("default")
    };
    Endpoint { method: to_uppercase(method.as_str()), path: path.clone(), operation: op.copy(), tag }
}

/// The endpoints of all operations of a specification, in document order.
fn collect_endpoints(spec: &ApiSpec) -> (eps: Vec<Endpoint>)
    ensures
        endpoints_view(eps@) == endpoints_of(flat_operations(spec.paths@)),
{
    let mut eps: Vec<Endpoint> = Vec::new();
    let mut i: usize = 0;
    while i < spec.paths.len()
        invariant
            i <= spec.paths.len(),
            endpoints_view(eps@) == endpoints_of(flat_operations(spec.paths@.take(i as int))),
        decreases spec.paths.len() - i,
    {
        let path = &spec.paths[i].0;
        let methods = &spec.paths[i].1;
        let ghost before = flat_operations(spec.paths@.take(i as int));
        let mut j: usize = 0;
        while j < methods.len()
            invariant
                j <= methods.len(),
                endpoints_view(eps@) == endpoints_of(before + methods_of(path@, methods@.take(j as int))),
            decreases methods.len() - j,
        {
            proof { lemma_methods_of_step(path@, methods@, j as int); }
            let e = make_endpoint(path, &methods[j].0, &methods[j].1);
            let ghost old_view = endpoints_view(eps@);
            eps.push(e);
            assert(endpoints_view(eps@) =~= old_view.push(e@));
            assert(endpoints_of(before + methods_of(path@, methods@.take(j + 1))) =~= endpoints_of(
                before + methods_of(path@, methods@.take(j as int)),
            ).push(e@));
            j = j + 1;
        }
        proof { lemma_flat_operations_step(spec.paths@, i as int); }
        assert(methods@.take(methods.len() as int) == methods@);
        i = i + 1;
    }
    assert(spec.paths@.take(spec.paths.len() as int) == spec.paths@);
    eps
}

/// The positions `0..n`, in order.
fn index_list(n: usize) -> (v: Vec<usize>)
    ensures
        v@ == all_indices(n as nat),
{
    let mut v: Vec<usize> = Vec::new();
    let mut i: usize = 0;
    while i < n
        invariant
            i <= n,
            v@ == all_indices(i as nat),
        decreases n - i,
    {
        v.push(i);
        assert(v@ =~= all_indices((i + 1) as nat));
        i = i + 1;
    }
    v
}

impl App {
    /// The viewer for a specification: one endpoint per operation, all of them
    /// listed, nothing collapsed or searched, browsing the sidebar from its first
    /// line, without auth, with the specification's warnings at hand (hidden).
    pub fn new(spec: ApiSpec) -> (app: App)
        ensures
            app.wf(),
            app.spec == spec,
            endpoints_view(app.endpoints@) == endpoints_of(flat_operations(spec.paths@)),
            app.filtered@ == all_indices(app.endpoints@.len()),
            app.collapsed_tags@.len() == 0,
            app.selected == 0,
            app.scroll == 0,
            app.detail_height == 0,
            app.sidebar_scroll == 0,
            app.sidebar_height == 0,
            app.search@.len() == 0,
            !app.searching,
            app.active_panel == Panel::Sidebar,
            app.mode == AppMode::Browse,
            app.try_it is None,
            app.status_message is None,
            !app.quit,
            app.auth is NoAuth,
            app.auth_selected == 0,
            !app.auth_editing,
            app.auth_input@.len() == 0,
            warnings_view(app.warnings@) == warnings_of(flat_operations(spec.paths@), names_of(spec.definitions@)),
            !app.show_warnings,
    {
        let warnings = validate(&spec);
        let endpoints = collect_endpoints(&spec);
        let filtered = index_list(endpoints.len());
        let mut app = App {
            spec,
            endpoints,
            filtered,
            sidebar_items: Vec::new(),
            selected: 0,
            scroll: 0,
            detail_height: 0,
            sidebar_scroll: 0,
            sidebar_height: 0,
            collapsed_tags: Vec::new(),
            search: String::new(),
            searching: false,
            active_panel: Panel::Sidebar,
            mode: AppMode::Browse,
            try_it: None,
            status_message: None,
            quit: false,
            auth: AuthConfig::NoAuth,
            auth_selected: 0,
            auth_editing: false,
            auth_input: String::new(),
            warnings,
            show_warnings: false,
        };
        app.rebuild_sidebar();
        app
    }

    /// The endpoint on the selected sidebar line, if that line is an endpoint.
    pub fn selected_endpoint(&self) -> (r: Option<&Endpoint>)
        requires
            self.wf(),
        ensures
            r == match self.selected_entry() {
                Some(SidebarEntry::Endpoint(i)) => Some(&self.endpoints@[i as int]),
                _ => None,
            },
    {
        proof { self.lemma_wf_entries(); }
        if self.selected < self.sidebar_items.len() {
            match &self.sidebar_items[self.selected] {
                SidebarItem::Endpoint(idx) => Some(&self.endpoints[*idx]),
                SidebarItem::Tag(_) => None,
            }
        } else {
            None
        }
    }

    /// The selected sidebar line, if there is one.
    pub open spec fn selected_entry(&self) -> Option<SidebarEntry> {
        if self.selected < self.sidebar_items@.len() {
            Some(self.sidebar_items@[self.selected as int]@)
        } else {
            None
        }
    }

    /// In a well-formed state every endpoint line of the sidebar names an endpoint.
    pub proof fn lemma_wf_entries(&self)
        requires
            self.wf(),
        ensures
            forall|k: int|
                #![trigger self.sidebar_items@[k]]
                0 <= k < self.sidebar_items@.len() ==> match self.sidebar_items@[k]@ {
                    SidebarEntry::Endpoint(i) => i < self.endpoints@.len(),
                    _ => true,
                },
    {
        lemma_sidebar_indices(endpoints_view(self.endpoints@), self.filtered@, strs_view(self.collapsed_tags@), self.endpoints@.len());
        assert forall|k: int|
            #![trigger self.sidebar_items@[k]]
            0 <= k < self.sidebar_items@.len() implies match self.sidebar_items@[k]@ {
                SidebarEntry::Endpoint(i) => i < self.endpoints@.len(),
                _ => true,
            } by {
            assert(sidebar_view(self.sidebar_items@)[k] == self.sidebar_items@[k]@);
        }
    }
}

/// Each endpoint line of a sidebar names a listed index.
pub proof fn lemma_sidebar_indices(eps: Seq<EndpointView>, filtered: Seq<usize>, collapsed: Seq<Seq<char>>, n: nat)
    requires
        indices_in_range(filtered, n),
    ensures
        forall|k: int|
            0 <= k < sidebar_of(eps, filtered, collapsed).len() ==> match #[trigger] sidebar_of(eps, filtered, collapsed)[k] {
                SidebarEntry::Endpoint(i) => i < n,
                _ => true,
            },
    decreases filtered.len(),
{
    if filtered.len() > 0 {
        lemma_sidebar_indices(eps, filtered.drop_last(), collapsed, n);
    }
}

// ─── Search ─────────────────────────────────────────────────────────────────

/// The summary of an operation, or the empty text.
pub open spec fn summary_text(op: OperationView) -> Seq<char> {
    match op.summary {
        Some(s) => s,
        None => Seq::<char>::empty(),
    }
}

/// An endpoint matches a (lowercase) query when the query is empty or occurs in
/// the lowercase form of its path, method, summary or tag.
pub open spec fn endpoint_matches(e: EndpointView, query: Seq<char>) -> bool {
    ||| query.len() == 0
    ||| has_substring(lowercase_of(e.path), query)
    ||| has_substring(lowercase_of(e.method), query)
    ||| has_substring(lowercase_of(summary_text(e.operation)), query)
    ||| has_substring(lowercase_of(e.tag), query)
}

/// The positions among the first `n` endpoints of those that match, in order.
pub open spec fn matching_indices(eps: Seq<EndpointView>, query: Seq<char>, n: nat) -> Seq<usize>
    decreases n,
{
    if n == 0 {
        seq![]
    } else {
        matching_indices(eps, query, (n - 1) as nat) + if endpoint_matches(eps[n - 1], query) {
            seq![(n - 1) as usize]
        } else {
            Seq::<usize>::empty()
        }
    }
}

pub proof fn lemma_matching_indices_bounded(eps: Seq<EndpointView>, query: Seq<char>, n: nat)
    ensures
        forall|k: int| 0 <= k < matching_indices(eps, query, n).len() ==> #[trigger] matching_indices(eps, query, n)[k] < n,
    decreases n,
{
    if n > 0 {
        lemma_matching_indices_bounded(eps, query, (n - 1) as nat);
        let prev = matching_indices(eps, query, (n - 1) as nat);
        let cur = matching_indices(eps, query, n);
        assert forall|k: int| 0 <= k < cur.len() implies #[trigger] cur[k] < n by {
            if k < prev.len() {
                assert(cur[k] == prev[k]);
            }
        }
    }
}

/// Whether `query` occurs in the lowercase form of `text`.
fn lower_contains(text: &str, query: &str) -> (r: bool)
    ensures
        r == has_substring(lowercase_of(text@), query@),
{
    let lower = to_lowercase(text);
    str_contains(lower.as_str(), query)
}

/// Whether an endpoint matches a lowercase query.
fn matches_query(e: &Endpoint, query: &String) -> (r: bool)
    ensures
        r == endpoint_matches(e@, query@),
{
    if query.as_str().is_empty() {
        return true;
    }
    proof { reveal_strlit(""); }
    let summary: &str = match &e.operation.summary {
        Some(s) => s.as_str(),
        None => "",
    };
    assert(summary@ == summary_text(e@.operation));
    lower_contains(e.path.as_str(), query.as_str()) || lower_contains(e.method.as_str(), query.as_str())
        || lower_contains(summary, query.as_str()) || lower_contains(e.tag.as_str(), query.as_str())
}

impl App {
    /// Lists the endpoints that match the lowercase search text, rebuilds the
    /// sidebar, keeps the selection when it is still a sidebar line (else goes
    /// back to the first line), and scrolls the detail back to the top.
    pub fn apply_filter(&mut self)
        requires
            old(self).wf(),
        ensures
            final(self).wf(),
            App::filtered_for(*old(self), *final(self), old(self).search@, old(self).searching),
            final(self).search == old(self).search,
            old(self).search@.len() == 0 ==> final(self).filtered@ == all_indices(old(self).endpoints@.len()),
    {
        let query = to_lowercase(self.search.as_str());
        let ghost eps = endpoints_view(self.endpoints@);
        let mut filtered: Vec<usize> = Vec::new();
        let mut i: usize = 0;
        while i < self.endpoints.len()
            invariant
                i <= self.endpoints.len(),
                eps == endpoints_view(self.endpoints@),
                filtered@ == matching_indices(eps, query@, i as nat),
            decreases self.endpoints.len() - i,
        {
            if matches_query(&self.endpoints[i], &query) {
                filtered.push(i);
            }
            assert(eps[i as int] == self.endpoints@[i as int]@);
            assert(filtered@ =~= matching_indices(eps, query@, (i + 1) as nat));
            i = i + 1;
        }
        proof {
            lemma_matching_indices_bounded(eps, query@, self.endpoints@.len());
            if query@.len() == 0 {
                lemma_empty_query_matches_all(eps, query@, self.endpoints@.len());
            }
        }
        self.filtered = filtered;
        self.rebuild_sidebar();
        if self.selected >= self.sidebar_items.len() {
            self.selected = 0;
        }
        self.scroll = 0;
    }
}

/// With an empty query every endpoint is listed, in order.
pub proof fn lemma_empty_query_matches_all(eps: Seq<EndpointView>, query: Seq<char>, n: nat)
    requires
        query.len() == 0,
    ensures
        matching_indices(eps, query, n) == all_indices(n),
    decreases n,
{
    if n > 0 {
        lemma_empty_query_matches_all(eps, query, (n - 1) as nat);
        assert(all_indices(n) =~= all_indices((n - 1) as nat).push((n - 1) as usize));
    }
}

// ─── Collapsing tags and moving around ──────────────────────────────────────

/// The texts of `v` other than `t`.
fn without_text(v: &Vec<String>, t: &String) -> (r: Vec<String>)
    ensures
        forall|x: Seq<char>| strs_view(r@).contains(x) <==> (strs_view(v@).contains(x) && x != t@),
{
    let mut r: Vec<String> = Vec::new();
    let mut i: usize = 0;
    while i < v.len()
        invariant
            i <= v.len(),
            forall|x: Seq<char>| strs_view(r@).contains(x) <==> (strs_view(v@.take(i as int)).contains(x) && x != t@),
        decreases v.len() - i,
    {
        let ghost before = strs_view(r@);
        assert(strs_view(v@.take(i + 1)) =~= strs_view(v@.take(i as int)).push(v@[i as int]@));
        if !str_eq(v[i].as_str(), t.as_str()) {
            r.push(v[i].clone());
            assert(strs_view(r@) =~= before.push(v@[i as int]@));
        }
        let ghost now = strs_view(v@.take(i + 1));
        let ghost was = strs_view(v@.take(i as int));
        let ghost out = strs_view(r@);
        assert forall|x: Seq<char>| out.contains(x) <==> (now.contains(x) && x != t@) by {
            if now.contains(x) && x != t@ {
                let k = choose|k: int| 0 <= k < now.len() && now[k] == x;
                if k < i {
                    assert(was[k] == x);
                    assert(was.contains(x));
                    assert(before.contains(x));
                    let k3 = choose|k3: int| 0 <= k3 < before.len() && before[k3] == x;
                    assert(out[k3] == x);
                } else {
                    assert(out[out.len() - 1] == x);
                }
            }
            if out.contains(x) {
                let k = choose|k: int| 0 <= k < out.len() && out[k] == x;
                if k < before.len() {
                    assert(before[k] == x);
                    assert(before.contains(x));
                    let k2 = choose|k2: int| 0 <= k2 < was.len() && was[k2] == x;
                    assert(now[k2] == x);
                } else {
                    assert(now[i as int] == x);
                }
            }
        }
        i = i + 1;
    }
    assert(v@.take(v.len() as int) == v@);
    r
}

/// The line after `sel` in a list of `n` lines, wrapping to the first.
pub open spec fn next_line(sel: nat, n: nat) -> nat {
    (sel + 1) % n
}

/// The line before `sel` in a list of `n` lines, wrapping to the last.
pub open spec fn prev_line(sel: nat, n: nat) -> nat {
    if sel == 0 {
        (n - 1) as nat
    } else {
        (sel - 1) as nat
    }
}

/// The first sidebar line shown once `sel` is scrolled into a window of `h`
/// lines that started at `top`.
pub open spec fn scroll_top_for(sel: usize, top: u16, h: u16) -> u16 {
    if h == 0 {
        top
    } else if sel < top {
        sel as u16
    } else if sel >= top + h {
        (sel - h + 1) as u16
    } else {
        top
    }
}

impl App {
    /// On a tag line, collapses the tag if it was expanded and expands it if it
    /// was collapsed, rebuilds the sidebar and keeps the selection on a line
    /// (the last one, if it fell off the end). Elsewhere nothing changes.
    pub fn toggle_tag(&mut self)
        requires
            old(self).wf(),
        ensures
            final(self).wf(),
            App::toggled(*old(self), *final(self)),
    {
        if self.selected >= self.sidebar_items.len() {
            return;
        }
        let tag = match &self.sidebar_items[self.selected] {
            SidebarItem::Tag(t) => t.clone(),
            SidebarItem::Endpoint(_) => {
                return;
            },
        };
        if contains_text(&self.collapsed_tags, &tag) {
            let rest = without_text(&self.collapsed_tags, &tag);
            self.collapsed_tags = rest;
        } else {
            let ghost before = strs_view(self.collapsed_tags@);
            self.collapsed_tags.push(tag);
            assert(strs_view(self.collapsed_tags@) =~= before.push(tag@));
            let ghost now = strs_view(self.collapsed_tags@);
            assert forall|x: Seq<char>| now.contains(x) <==> (before.contains(x) || x == tag@) by {
                if now.contains(x) && x != tag@ {
                    let k = choose|k: int| 0 <= k < now.len() && now[k] == x;
                    assert(before[k] == x);
                }
                if before.contains(x) {
                    let k = choose|k: int| 0 <= k < before.len() && before[k] == x;
                    assert(now[k] == x);
                }
                if x == tag@ {
                    assert(now[before.len() as int] == x);
                }
            }
        }
        self.rebuild_sidebar();
        if self.selected >= self.sidebar_items.len() {
            self.selected = self.sidebar_items.len().saturating_sub(1);
        }
    }

    /// Moves the selection to the next sidebar line (wrapping around), scrolls
    /// the detail to the top and the sidebar to the selection. Nothing happens on
    /// an empty sidebar.
    pub fn next(&mut self)
        requires
            old(self).wf(),
        ensures
            final(self).wf(),
            App::moved_next(*old(self), *final(self)),
    {
        if self.sidebar_items.len() > 0 {
            self.selected = (self.selected + 1) % self.sidebar_items.len();
            self.scroll = 0;
            self.adjust_sidebar_scroll();
        }
    }

    /// Moves the selection to the previous sidebar line (wrapping around),
    /// scrolls the detail to the top and the sidebar to the selection. Nothing
    /// happens on an empty sidebar.
    pub fn prev(&mut self)
        requires
            old(self).wf(),
        ensures
            final(self).wf(),
            App::moved_prev(*old(self), *final(self)),
    {
        if self.sidebar_items.len() > 0 {
            self.selected = match self.selected.checked_sub(1) {
                Some(s) => s,
                None => self.sidebar_items.len() - 1,
            };
            self.scroll = 0;
            self.adjust_sidebar_scroll();
        }
    }

    /// Scrolls the sidebar so that the selected line is within its window of
    /// `sidebar_height` lines (nothing happens while the height is unknown).
    pub fn adjust_sidebar_scroll(&mut self)
        ensures
            final(self).sidebar_scroll == scroll_top_for(old(self).selected, old(self).sidebar_scroll, old(self).sidebar_height),
            (*final(self) == App { sidebar_scroll: final(self).sidebar_scroll, ..*old(self) }),
            old(self).sidebar_height > 0 && old(self).selected < old(self).sidebar_height + u16::MAX ==>
                final(self).sidebar_scroll <= old(self).selected < final(self).sidebar_scroll + old(self).sidebar_height,
    {
        if self.sidebar_height == 0 {
            return;
        }
        let h = self.sidebar_height as usize;
        if self.selected < self.sidebar_scroll as usize {
            self.sidebar_scroll = self.selected as u16;
        } else if self.selected >= self.sidebar_scroll as usize + h {
            self.sidebar_scroll = (self.selected - h + 1) as u16;
        }
    }

    /// Scrolls the detail down one line (stopping at the largest offset).
    pub fn scroll_down(&mut self)
        ensures
            (*final(self) == App { scroll: old(self).scroll.saturating_add(1), ..*old(self) }),
    {
        self.scroll = self.scroll.saturating_add(1);
    }

    /// Scrolls the detail up one line (stopping at the top).
    pub fn scroll_up(&mut self)
        ensures
            (*final(self) == App { scroll: old(self).scroll.saturating_sub(1), ..*old(self) }),
    {
        self.scroll = self.scroll.saturating_sub(1);
    }

    /// The number of lines a page holds: the detail height, at least one.
    pub open spec fn page_step(&self) -> u16 {
        if self.detail_height > 1 {
            self.detail_height
        } else {
            1
        }
    }

    /// Scrolls the detail down one page.
    pub fn page_down(&mut self)
        ensures
            (*final(self) == App { scroll: old(self).scroll.saturating_add(old(self).page_step()), ..*old(self) }),
    {
        let step = if self.detail_height > 1 {
            self.detail_height
        } else {
            1
        };
        self.scroll = self.scroll.saturating_add(step);
    }

    /// Scrolls the detail up one page.
    pub fn page_up(&mut self)
        ensures
            (*final(self) == App { scroll: old(self).scroll.saturating_sub(old(self).page_step()), ..*old(self) }),
    {
        let step = if self.detail_height > 1 {
            self.detail_height
        } else {
            1
        };
        self.scroll = self.scroll.saturating_sub(step);
    }
}

// ─── Try it out ─────────────────────────────────────────────────────────────

/// The form fields of an operation: `(name, location, "")` for each parameter
/// that is not the body, in order.
pub open spec fn form_fields(params: Seq<ParameterView>) -> Seq<(Seq<char>, Seq<char>, Seq<char>)>
    decreases params.len(),
{
    if params.len() == 0 {
        seq![]
    } else {
        form_fields(params.drop_last()) + if params.last().location != "body"@ {
            seq![(params.last().name, params.last().location, Seq::<char>::empty())]
        } else {
            Seq::<(Seq<char>, Seq<char>, Seq<char>)>::empty()
        }
    }
}

/// Some parameter of the operation is its body.
pub open spec fn has_body_param(params: Seq<ParameterView>) -> bool {
    exists|i: int| 0 <= i < params.len() && params[i].location == "body"@
}

/// A request ready to be sent: the method, the URL, the body text and the
/// headers it goes with.
pub struct OutgoingRequest {
    pub method: String,
    pub url: String,
    pub body: String,
    pub headers: Vec<(String, String)>,
}

/// The form fields of the parameters, and whether one of them is the body.
fn form_of(params: &Vec<Parameter>) -> (r: (Vec<(String, String, String)>, bool))
    ensures
        fields_view(r.0@) == form_fields(params@.map_values(|p: Parameter| p@)),
        r.1 == has_body_param(params@.map_values(|p: Parameter| p@)),
{
    let ghost pv = params@.map_values(|p: Parameter| p@);
    let mut fields: Vec<(String, String, String)> = Vec::new();
    let mut has_body = false;
    let mut i: usize = 0;
    while i < params.len()
        invariant
            i <= params.len(),
            pv == params@.map_values(|p: Parameter| p@),
            fields_view(fields@) == form_fields(pv.take(i as int)),
            has_body == has_body_param(pv.take(i as int)),
        decreases params.len() - i,
    {
        let ghost now = pv.take(i + 1);
        assert(now.drop_last() == pv.take(i as int));
        assert(now.last() == params@[i as int]@);
        let ghost before = fields_view(fields@);
        if str_eq(params[i].location.as_str(), "body") {
            has_body = true;
            assert(now[i as int].location == "body"@);
        } else {
            fields.push((params[i].name.clone(), params[i].location.clone(), String::new()));
            assert(fields_view(fields@) =~= before.push((params@[i as int].name@, params@[i as int].location@, Seq::<char>::empty())));
        }
        assert(has_body == has_body_param(now)) by {
            if has_body_param(now) && !has_body_param(pv.take(i as int)) {
                let k = choose|k: int| 0 <= k < now.len() && now[k].location == "body"@;
                if k < i {
                    assert(pv.take(i as int)[k] == now[k]);
                }
            }
            if has_body_param(pv.take(i as int)) {
                let k = choose|k: int| 0 <= k < i && pv.take(i as int)[k].location == "body"@;
                assert(now[k] == pv.take(i as int)[k]);
            }
        }
        i = i + 1;
    }
    assert(pv.take(params.len() as int) == pv);
    (fields, has_body)
}

impl App {
    /// On an endpoint line, opens the "try it out" form for it: an empty value
    /// for each parameter but the body, a `{}` body when it takes one, the first
    /// field selected, no request made yet; the detail scrolls to the top.
    /// Elsewhere nothing changes.
    pub fn enter_try_it(&mut self)
        requires
            old(self).wf(),
        ensures
            final(self).wf(),
            App::try_it_entered(*old(self), *final(self)),
    {
        let (fields, has_body) = match self.selected_endpoint() {
            Some(ep) => form_of(&ep.operation.parameters),
            None => {
                return;
            },
        };
        let body = if has_body {
            String::from_str("{}")
        } else {
            String::new()
        };
        self.try_it = Some(
            TryItState {
                param_values: fields,
                body,
                selected_field: 0,
                editing: false,
                loading: false,
                response: None,
                error: None,
            },
        );
        self.mode = AppMode::TryIt;
        self.scroll = 0;
    }

    /// Closes the "try it out" form and goes back to browsing, the detail
    /// scrolled to the top.
    pub fn exit_try_it(&mut self)
        ensures
            (*final(self) == App { mode: AppMode::Browse, try_it: None, scroll: 0, ..*old(self) }),
    {
        self.mode = AppMode::Browse;
        self.try_it = None;
        self.scroll = 0;
    }

    /// With the form open on an endpoint line, marks the form as waiting for an
    /// answer and gives the request to send: the endpoint's method, the URL with
    /// the form's values filled in, the form's body, and the headers of the
    /// auth in use. Otherwise nothing changes and there is nothing to send.
    pub fn execute_request(&mut self) -> (r: Option<OutgoingRequest>)
        requires
            old(self).wf(),
        ensures
            final(self).wf(),
            App::request_started(*old(self), *final(self), r),
    {
        let (method, url, body) = match self.selected_endpoint() {
            Some(ep) => match &self.try_it {
                Some(st) => (
                    ep.method.clone(),
                    build_url(self.spec.base_url.as_str(), ep.path.as_str(), &st.param_values),
                    st.body.clone(),
                ),
                None => {
                    return None;
                },
            },
            None => {
                return None;
            },
        };
        let st = self.try_it.take();
        match st {
            Some(mut s) => {
                s.loading = true;
                s.response = None;
                s.error = None;
                self.try_it = Some(s);
            },
            None => {},
        }
        let headers = auth_headers_of(&self.auth);
        Some(OutgoingRequest { method, url, body, headers })
    }

    /// Takes in the answer to the last request, if one has come: the form stops
    /// waiting and shows the response or the error; the detail scrolls to the
    /// top. Without an answer nothing changes.
    pub fn poll_response(&mut self, received: Option<Result<HttpResponse, String>>)
        ensures
            match received {
                None => *final(self) == *old(self),
                Some(res) => {
                    &&& final(self).try_it == match old(self).try_it {
                        Some(st) => Some(
                            match res {
                                Ok(resp) => TryItState { loading: false, response: Some(resp), error: None, ..st },
                                Err(e) => TryItState { loading: false, response: None, error: Some(e), ..st },
                            },
                        ),
                        None => None,
                    }
                    &&& (*final(self) == App { try_it: final(self).try_it, scroll: 0, ..*old(self) })
                },
            },
    {
        match received {
            None => {},
            Some(res) => {
                let st = self.try_it.take();
                match st {
                    Some(mut s) => {
                        s.loading = false;
                        match res {
                            Ok(resp) => {
                                s.response = Some(resp);
                                s.error = None;
                            },
                            Err(e) => {
                                s.error = Some(e);
                                s.response = None;
                            },
                        }
                        self.try_it = Some(s);
                    },
                    None => {},
                }
                self.scroll = 0;
            },
        }
    }

    /// The `curl` command for the endpoint on the selected line: with the form
    /// open, for the request the form would send; otherwise for the endpoint's
    /// URL alone. `None` when the selected line is not an endpoint.
    pub fn copy_as_curl(&self) -> (r: Option<String>)
        requires
            self.wf(),
        ensures
            crate::validate::opt_text_view(r) == self.curl_for(),
    {
        let ep = match self.selected_endpoint() {
            Some(ep) => ep,
            None => {
                return None;
            },
        };
        match &self.try_it {
            None => {
                let url = crate::text::concat_str(self.spec.base_url.as_str(), ep.path.as_str());
                Some(curl_text(ep.method.as_str(), url.as_str(), None))
            },
            Some(st) => {
                let url = build_url(self.spec.base_url.as_str(), ep.path.as_str(), &st.param_values);
                Some(curl_text(ep.method.as_str(), url.as_str(), Some(st.body.as_str())))
            },
        }
    }

    /// The `curl` command for the endpoint on the selected line, if it is one:
    /// with the form open, for the request the form would send; otherwise for
    /// the endpoint's URL alone.
    pub open spec fn curl_for(&self) -> Option<Seq<char>> {
        match self.selected_entry() {
            Some(SidebarEntry::Endpoint(i)) => {
                let ep = self.endpoints@[i as int]@;
                Some(
                    match self.try_it {
                        None => curl_command(ep.method, self.spec.base_url@ + ep.path, None),
                        Some(st) => curl_command(
                            ep.method,
                            request_url(self.spec.base_url@, ep.path, fields_view(st.param_values@)),
                            Some(st.body@),
                        ),
                    },
                )
            },
            _ => None,
        }
    }

    /// Clears the status message once it has been shown for longer than two
    /// seconds (`shown_nanos` is how long it has been shown, in nanoseconds).
    pub fn expire_status_message(&mut self, shown_nanos: u128)
        ensures
            *final(self) == if shown_nanos > 2_000_000_000 {
                App { status_message: None, ..*old(self) }
            } else {
                *old(self)
            },
    {
        if shown_nanos > 2_000_000_000 {
            self.status_message = None;
        }
    }

    /// Records the outcome of putting text on the clipboard as the status
    /// message.
    pub fn note_clipboard(&mut self, outcome: Result<(), String>)
        ensures
            final(self).status_message matches Some(m) && m@ == match outcome {
                Ok(_) => "Copied to clipboard!"@,
                Err(e) => "Clipboard error: "@ + e@,
            },
            (*final(self) == App { status_message: final(self).status_message, ..*old(self) }),
    {
        let msg = match outcome {
            Ok(_) => String::from_str("Copied to clipboard!"),
            Err(e) => crate::text::concat_str("Clipboard error: ", e.as_str()),
        };
        self.status_message = Some(msg);
    }
}

impl App {
    /// `new` is `old` with the search text `search` (and the search bar open or
    /// not as `searching` says) applied: the endpoints that match it listed, the
    /// sidebar rebuilt, the selection kept while it is still a line (else the
    /// first line), the detail at the top.
    pub open spec fn filtered_for(old: App, new: App, search: Seq<char>, searching: bool) -> bool {
        &&& new.search@ == search
        &&& new.filtered@ == matching_indices(
            endpoints_view(old.endpoints@),
            lowercase_of(search),
            old.endpoints@.len(),
        )
        &&& sidebar_view(new.sidebar_items@) == sidebar_of(
            endpoints_view(old.endpoints@),
            new.filtered@,
            strs_view(old.collapsed_tags@),
        )
        &&& new.selected == if old.selected >= new.sidebar_items@.len() {
            0
        } else {
            old.selected
        }
        &&& new == App {
            filtered: new.filtered,
            sidebar_items: new.sidebar_items,
            selected: new.selected,
            scroll: 0,
            search: new.search,
            searching,
            ..old
        }
    }

    /// `new` is `old` after `toggle_tag`.
    pub open spec fn toggled(old: App, new: App) -> bool {
        match old.selected_entry() {
            Some(SidebarEntry::Tag(t)) => {
                &&& forall|x: Seq<char>|
                    strs_view(new.collapsed_tags@).contains(x) <==> if x == t {
                        !strs_view(old.collapsed_tags@).contains(x)
                    } else {
                        strs_view(old.collapsed_tags@).contains(x)
                    }
                &&& new.selected == if old.selected >= new.sidebar_items@.len() {
                    if new.sidebar_items@.len() == 0 {
                        0
                    } else {
                        (new.sidebar_items@.len() - 1) as usize
                    }
                } else {
                    old.selected
                }
                &&& new == App {
                    collapsed_tags: new.collapsed_tags,
                    sidebar_items: new.sidebar_items,
                    selected: new.selected,
                    ..old
                }
            },
            _ => new == old,
        }
    }

    /// `new` is `old` after moving the selection to line `to` (when the sidebar
    /// is not empty).
    pub open spec fn moved_to(old: App, new: App, to: nat) -> bool {
        &&& old.sidebar_items@.len() == 0 ==> new == old
        &&& old.sidebar_items@.len() > 0 ==> {
            &&& new.selected == to
            &&& new.sidebar_scroll == scroll_top_for(new.selected, old.sidebar_scroll, old.sidebar_height)
            &&& new == App { selected: new.selected, scroll: 0, sidebar_scroll: new.sidebar_scroll, ..old }
        }
    }

    /// `new` is `old` after `next`.
    pub open spec fn moved_next(old: App, new: App) -> bool {
        App::moved_to(old, new, next_line(old.selected as nat, old.sidebar_items@.len()))
    }

    /// `new` is `old` after `prev`.
    pub open spec fn moved_prev(old: App, new: App) -> bool {
        App::moved_to(old, new, prev_line(old.selected as nat, old.sidebar_items@.len()))
    }

    /// `new` is `old` after `enter_try_it`.
    pub open spec fn try_it_entered(old: App, new: App) -> bool {
        match old.selected_entry() {
            Some(SidebarEntry::Endpoint(i)) => {
                let op = old.endpoints@[i as int]@.operation;
                &&& new.try_it matches Some(st) && {
                    &&& fields_view(st.param_values@) == form_fields(op.parameters)
                    &&& st.body@ == if has_body_param(op.parameters) {
                        "{}"@
                    } else {
                        Seq::<char>::empty()
                    }
                    &&& st.selected_field == 0
                    &&& !st.editing
                    &&& !st.loading
                    &&& st.response is None
                    &&& st.error is None
                }
                &&& new == App { try_it: new.try_it, mode: AppMode::TryIt, scroll: 0, ..old }
            },
            _ => new == old,
        }
    }

    /// `new` and `r` are what `execute_request` makes of `old`.
    pub open spec fn request_started(old: App, new: App, r: Option<OutgoingRequest>) -> bool {
        match (old.selected_entry(), old.try_it) {
            (Some(SidebarEntry::Endpoint(i)), Some(st)) => {
                let ep = old.endpoints@[i as int]@;
                &&& r matches Some(req) && {
                    &&& req.method@ == ep.method
                    &&& req.url@ == request_url(old.spec.base_url@, ep.path, fields_view(st.param_values@))
                    &&& req.body@ == st.body@
                    &&& req.headers@.map_values(|p: (String, String)| (p.0@, p.1@)) == auth_headers(old.auth)
                }
                &&& new == App {
                    try_it: Some(TryItState { loading: true, response: None, error: None, ..st }),
                    ..old
                }
            },
            _ => r is None && new == old,
        }
    }
}

} // verus!
