//! Warnings about a specification: operations without responses, repeated
//! operation ids, path parameters that no parameter defines, untyped
//! parameters, and references to schemas that are not defined.
use vstd::prelude::*;
use crate::model::{
    ApiSpec, OperationView, ParameterView, ResponseView, Schema, SchemaView, contains_text,
    flat_operations, lemma_flat_operations_step, lemma_methods_of_step, methods_of, names_of,
    strs_view,
};
use crate::text::{
    concat_str, has_prefix, split_char, split_pieces, strip_prefix, to_uppercase, uppercase_of,
};

verus! {

/// A warning about the operation at `path` (written `METHOD /path`).
pub struct Warning {
    pub path: String,
    pub message: String,
}

impl View for Warning {
    type V = (Seq<char>, Seq<char>);

    open spec fn view(&self) -> (Seq<char>, Seq<char>) {
        (self.path@, self.message@)
    }
}

pub open spec fn warnings_view(ws: Seq<Warning>) -> Seq<(Seq<char>, Seq<char>)> {
    ws.map_values(|w: Warning| w@)
}

// ─── What the warnings are ──────────────────────────────────────────────────

/// The definition name a reference points at: the reference without its
/// `#/definitions/` or `#/components/schemas/` prefix, or the whole reference.
pub open spec fn ref_name(r: Seq<char>) -> Seq<char> {
    if has_prefix(r, "#/definitions/"@) {
        r.skip("#/definitions/"@.len() as int)
    } else if has_prefix(r, "#/components/schemas/"@) {
        r.skip("#/components/schemas/"@.len() as int)
    } else {
        r
    }
}

/// One warning for each reference in the schema, its items and its
/// properties (depth first, in that order) whose name is not in `defs`.
pub open spec fn schema_ref_warnings(s: SchemaView, defs: Seq<Seq<char>>, loc: Seq<char>) -> Seq<(Seq<char>, Seq<char>)>
    decreases s,
{
    (match s.reference {
        Some(r) => if defs.contains(ref_name(r)) {
            Seq::<(Seq<char>, Seq<char>)>::empty()
        } else {
            seq![(loc, "Unresolved $ref: "@ + r)]
        },
        None => Seq::<(Seq<char>, Seq<char>)>::empty(),
    }) + (match s.items {
        Some(b) => schema_ref_warnings(*b, defs, loc),
        None => Seq::<(Seq<char>, Seq<char>)>::empty(),
    }) + props_ref_warnings(s.properties, defs, loc)
}

/// The reference warnings of each property's schema, property after property.
pub open spec fn props_ref_warnings(ps: Seq<(Seq<char>, SchemaView)>, defs: Seq<Seq<char>>, loc: Seq<char>) -> Seq<(Seq<char>, Seq<char>)>
    decreases ps,
{
    if ps.len() == 0 {
        Seq::<(Seq<char>, Seq<char>)>::empty()
    } else {
        props_ref_warnings(ps.subrange(0, ps.len() - 1), defs, loc) + schema_ref_warnings(
            ps[ps.len() - 1].1,
            defs,
            loc,
        )
    }
}

/// A path segment of the form `{name}`.
pub open spec fn braced(seg: Seq<char>) -> bool {
    seg.len() >= 1 && seg[0] == '{' && seg[seg.len() - 1] == '}'
}

/// The names inside the braced segments, in order.
pub open spec fn braced_names(segs: Seq<Seq<char>>) -> Seq<Seq<char>>
    decreases segs.len(),
{
    if segs.len() == 0 {
        seq![]
    } else {
        braced_names(segs.drop_last()) + if braced(segs.last()) {
            seq![segs.last().subrange(1, segs.last().len() - 1)]
        } else {
            Seq::<Seq<char>>::empty()
        }
    }
}

/// The names of the path parameters a path template holds (`{name}` segments).
pub open spec fn path_params(path: Seq<char>) -> Seq<Seq<char>> {
    braced_names(split_pieces(path, '/'))
}

/// Some parameter in the path is called `name`.
pub open spec fn defines_path_param(params: Seq<ParameterView>, name: Seq<char>) -> bool {
    exists|i: int| 0 <= i < params.len() && params[i].location == "path"@ && params[i].name == name
}

pub open spec fn missing_param_warnings(pps: Seq<Seq<char>>, params: Seq<ParameterView>, loc: Seq<char>) -> Seq<(Seq<char>, Seq<char>)>
    decreases pps.len(),
{
    if pps.len() == 0 {
        seq![]
    } else {
        missing_param_warnings(pps.drop_last(), params, loc) + if defines_path_param(params, pps.last()) {
            Seq::<(Seq<char>, Seq<char>)>::empty()
        } else {
            seq![(loc, "Path parameter '"@ + pps.last() + "' not defined in parameters"@)]
        }
    }
}

/// A parameter outside the body with neither a type nor a schema.
pub open spec fn untyped(p: ParameterView) -> bool {
    p.location != "body"@ && p.param_type is None && p.schema is None
}

pub open spec fn untyped_warnings(params: Seq<ParameterView>, loc: Seq<char>) -> Seq<(Seq<char>, Seq<char>)>
    decreases params.len(),
{
    if params.len() == 0 {
        seq![]
    } else {
        untyped_warnings(params.drop_last(), loc) + if untyped(params.last()) {
            seq![(loc, "Parameter '"@ + params.last().name + "' has no type"@)]
        } else {
            Seq::<(Seq<char>, Seq<char>)>::empty()
        }
    }
}

pub open spec fn param_ref_warnings(params: Seq<ParameterView>, defs: Seq<Seq<char>>, loc: Seq<char>) -> Seq<(Seq<char>, Seq<char>)>
    decreases params.len(),
{
    if params.len() == 0 {
        seq![]
    } else {
        param_ref_warnings(params.drop_last(), defs, loc) + match params.last().schema {
            Some(s) => schema_ref_warnings(s, defs, loc),
            None => Seq::<(Seq<char>, Seq<char>)>::empty(),
        }
    }
}

pub open spec fn response_ref_warnings(rs: Seq<(Seq<char>, ResponseView)>, defs: Seq<Seq<char>>, loc: Seq<char>) -> Seq<(Seq<char>, Seq<char>)>
    decreases rs.len(),
{
    if rs.len() == 0 {
        seq![]
    } else {
        response_ref_warnings(rs.drop_last(), defs, loc) + match rs.last().1.schema {
            Some(s) => schema_ref_warnings(s, defs, loc),
            None => Seq::<(Seq<char>, Seq<char>)>::empty(),
        }
    }
}

/// The location recorded with the first earlier use of an operation id.
pub open spec fn first_loc(ids: Seq<(Seq<char>, Seq<char>)>, id: Seq<char>) -> Option<Seq<char>>
    decreases ids.len(),
{
    if ids.len() == 0 {
        None
    } else {
        match first_loc(ids.drop_last(), id) {
            Some(l) => Some(l),
            None => if ids.last().0 == id {
                Some(ids.last().1)
            } else {
                None
            },
        }
    }
}

pub open spec fn duplicate_warnings(op_id: Option<Seq<char>>, ids: Seq<(Seq<char>, Seq<char>)>, loc: Seq<char>) -> Seq<(Seq<char>, Seq<char>)> {
    match op_id {
        Some(id) => match first_loc(ids, id) {
            Some(prev) => seq![(loc, "Duplicate operationId '"@ + id + "' (also in "@ + prev + ")"@)],
            None => Seq::<(Seq<char>, Seq<char>)>::empty(),
        },
        None => Seq::<(Seq<char>, Seq<char>)>::empty(),
    }
}

/// `METHOD /path`, the method in upper case.
pub open spec fn location_of(method: Seq<char>, path: Seq<char>) -> Seq<char> {
    uppercase_of(method) + " "@ + path
}

/// The warnings of one operation, given the operation ids seen before it.
pub open spec fn operation_warnings(
    path: Seq<char>,
    method: Seq<char>,
    op: OperationView,
    defs: Seq<Seq<char>>,
    ids: Seq<(Seq<char>, Seq<char>)>,
) -> Seq<(Seq<char>, Seq<char>)> {
    let loc = location_of(method, path);
    (if op.responses.len() == 0 {
        seq![(loc, "No responses defined"@)]
    } else {
        Seq::<(Seq<char>, Seq<char>)>::empty()
    }) + duplicate_warnings(op.operation_id, ids, loc) + missing_param_warnings(
        path_params(path),
        op.parameters,
        loc,
    ) + untyped_warnings(op.parameters, loc) + param_ref_warnings(op.parameters, defs, loc)
        + response_ref_warnings(op.responses, defs, loc)
}

/// The operation ids, with their locations, of a run of operations.
pub open spec fn ids_of(flat: Seq<(Seq<char>, Seq<char>, OperationView)>) -> Seq<(Seq<char>, Seq<char>)>
    decreases flat.len(),
{
    if flat.len() == 0 {
        seq![]
    } else {
        let f = flat.last();
        match f.2.operation_id {
            Some(id) => ids_of(flat.drop_last()).push((id, location_of(f.1, f.0))),
            None => ids_of(flat.drop_last()),
        }
    }
}

/// The warnings of a run of operations, operation after operation.
pub open spec fn warnings_of(flat: Seq<(Seq<char>, Seq<char>, OperationView)>, defs: Seq<Seq<char>>) -> Seq<(Seq<char>, Seq<char>)>
    decreases flat.len(),
{
    if flat.len() == 0 {
        seq![]
    } else {
        let f = flat.last();
        warnings_of(flat.drop_last(), defs) + operation_warnings(f.0, f.1, f.2, defs, ids_of(flat.drop_last()))
    }
}

// ─── Checking ───────────────────────────────────────────────────────────────

/// A warning with the given location and message.
fn warning(loc: &str, message: String) -> (w: Warning)
    ensures
        w@ == (loc@, message@),
{
    Warning { path: crate::text::owned(loc), message }
}

/// The definition name that a reference points at.
pub fn ref_name_of(r: &str) -> (n: String)
    ensures
        n@ == ref_name(r@),
{
    match strip_prefix(r, "#/definitions/") {
        Some(rest) => rest,
        None => match strip_prefix(r, "#/components/schemas/") {
            Some(rest) => rest,
            None => crate::text::owned(r),
        },
    }
}

/// Appends a warning for each reference in `schema` (and, depth first, in its
/// items and properties) whose name is not among `defs`.
pub fn check_refs(schema: &Schema, defs: &Vec<String>, loc: &str, warnings: &mut Vec<Warning>)
    ensures
        warnings_view(final(warnings)@) == warnings_view(old(warnings)@) + schema_ref_warnings(
            schema@,
            strs_view(defs@),
            loc@,
        ),
    decreases schema,
{
    let ghost w0 = warnings_view(warnings@);
    match &schema.reference {
        Some(ref_path) => {
            let name = ref_name_of(ref_path.as_str());
            if !contains_text(defs, &name) {
                let msg = concat_str("Unresolved $ref: ", ref_path.as_str());
                warnings.push(warning(loc, msg));
            }
        },
        None => {},
    }
    let ghost own = warnings_view(warnings@);
    assert(own =~= w0 + match schema@.reference {
        Some(r) => if strs_view(defs@).contains(ref_name(r)) {
            Seq::<(Seq<char>, Seq<char>)>::empty()
        } else {
            seq![(loc@, "Unresolved $ref: "@ + r)]
        },
        None => Seq::<(Seq<char>, Seq<char>)>::empty(),
    });
    match &schema.items {
        Some(items) => {
            check_refs(items, defs, loc, warnings);
        },
        None => {},
    }
    let ghost with_items = warnings_view(warnings@);
    let mut i: usize = 0;
    while i < schema.properties.len()
        invariant
            i <= schema.properties.len(),
            warnings_view(warnings@) == with_items + props_ref_warnings(
                schema@.properties.subrange(0, i as int),
                strs_view(defs@),
                loc@,
            ),
        decreases schema.properties.len() - i,
    {
        check_refs(&schema.properties[i].1, defs, loc, warnings);
        assert(schema@.properties.subrange(0, i + 1).subrange(0, i as int) == schema@.properties.subrange(0, i as int));
        i = i + 1;
    }
    assert(schema@.properties.subrange(0, schema@.properties.len() as int) == schema@.properties);
}

pub open spec fn ids_view(ids: Seq<(String, String)>) -> Seq<(Seq<char>, Seq<char>)> {
    ids.map_values(|e: (String, String)| (e.0@, e.1@))
}

proof fn lemma_first_loc_extend(ids: Seq<(Seq<char>, Seq<char>)>, id: Seq<char>, k: int)
    requires
        0 <= k <= ids.len(),
        first_loc(ids.take(k), id) is Some,
    ensures
        first_loc(ids, id) == first_loc(ids.take(k), id),
    decreases ids.len() - k,
{
    if k < ids.len() {
        assert(ids.take(k + 1).drop_last() == ids.take(k));
        lemma_first_loc_extend(ids, id, k + 1);
    } else {
        assert(ids.take(k) == ids);
    }
}

proof fn lemma_first_loc_none(ids: Seq<(Seq<char>, Seq<char>)>, id: Seq<char>)
    requires
        forall|k: int| 0 <= k < ids.len() ==> ids[k].0 != id,
    ensures
        first_loc(ids, id) is None,
    decreases ids.len(),
{
    if ids.len() > 0 {
        lemma_first_loc_none(ids.drop_last(), id);
    }
}

/// The location recorded with the first use of `id` among `ids`.
fn find_first_loc(ids: &Vec<(String, String)>, id: &String) -> (r: Option<String>)
    ensures
        opt_text_view(r) == first_loc(ids_view(ids@), id@),
{
    let ghost v = ids_view(ids@);
    let mut i: usize = 0;
    while i < ids.len()
        invariant
            i <= ids.len(),
            v == ids_view(ids@),
            forall|k: int| 0 <= k < i ==> v[k].0 != id@,
        decreases ids.len() - i,
    {
        if crate::text::str_eq(ids[i].0.as_str(), id.as_str()) {
            proof {
                lemma_first_loc_none(v.take(i as int), id@);
                assert(v.take(i + 1).drop_last() == v.take(i as int));
                lemma_first_loc_extend(v, id@, i + 1);
            }
            return Some(ids[i].1.clone());
        }
        i = i + 1;
    }
    proof { lemma_first_loc_none(v, id@); }
    None
}

pub open spec fn opt_text_view(o: Option<String>) -> Option<Seq<char>> {
    match o {
        Some(s) => Some(s@),
        None => None,
    }
}

/// The names of the path parameters in a path template.
pub fn path_param_names(path: &str) -> (r: Vec<String>)
    ensures
        strs_view(r@) == path_params(path@),
{
    let segs = split_char(path, '/');
    let ghost sv = segs@.map_values(|x: String| x@);
    let mut r: Vec<String> = Vec::new();
    let mut i: usize = 0;
    while i < segs.len()
        invariant
            i <= segs.len(),
            sv == segs@.map_values(|x: String| x@),
            sv == split_pieces(path@, '/'),
            strs_view(r@) == braced_names(sv.take(i as int)),
        decreases segs.len() - i,
    {
        let seg = crate::text::chars_of(segs[i].as_str());
        assert(sv.take(i + 1).drop_last() == sv.take(i as int));
        assert(sv[i as int] == seg@);
        if seg.len() >= 1 && seg[0] == '{' && seg[seg.len() - 1] == '}' {
            let mut inner: Vec<char> = Vec::new();
            let mut k: usize = 1;
            while k < seg.len() - 1
                invariant
                    1 <= k <= seg.len() - 1,
                    seg.len() >= 1,
                    inner@ == seg@.subrange(1, k as int),
                decreases seg.len() - 1 - k,
            {
                inner.push(seg[k]);
                assert(seg@.subrange(1, k + 1) == seg@.subrange(1, k as int).push(seg@[k as int]));
                k = k + 1;
            }
            r.push(crate::text::string_of(&inner));
            assert(strs_view(r@) =~= strs_view(r@.drop_last()).push(r@.last()@));
        } else {
            assert(braced_names(sv.take(i + 1)) == braced_names(sv.take(i as int)) + Seq::<Seq<char>>::empty());
        }
        i = i + 1;
    }
    assert(sv.take(segs.len() as int) == sv);
    r
}

/// Whether some parameter in the path is called `name`.
fn defines_path_param_exec(params: &Vec<crate::model::Parameter>, name: &String) -> (r: bool)
    ensures
        r == defines_path_param(params@.map_values(|p: crate::model::Parameter| p@), name@),
{
    let ghost pv = params@.map_values(|p: crate::model::Parameter| p@);
    let mut i: usize = 0;
    while i < params.len()
        invariant
            i <= params.len(),
            pv == params@.map_values(|p: crate::model::Parameter| p@),
            forall|k: int| 0 <= k < i ==> !(pv[k].location == "path"@ && pv[k].name == name@),
        decreases params.len() - i,
    {
        if crate::text::str_eq(params[i].location.as_str(), "path") && crate::text::str_eq(params[i].name.as_str(), name.as_str()) {
            assert(pv[i as int].location == "path"@ && pv[i as int].name == name@);
            return true;
        }
        i = i + 1;
    }
    false
}

/// Appends the warnings of one operation and records its operation id.
fn check_operation(
    path: &String,
    method: &String,
    op: &crate::model::Operation,
    defs: &Vec<String>,
    ids: &mut Vec<(String, String)>,
    warnings: &mut Vec<Warning>,
)
    ensures
        warnings_view(final(warnings)@) == warnings_view(old(warnings)@) + operation_warnings(
            path@,
            method@,
            op@,
            strs_view(defs@),
            ids_view(old(ids)@),
        ),
        ids_view(final(ids)@) == match op@.operation_id {
            Some(id) => ids_view(old(ids)@).push((id, location_of(method@, path@))),
            None => ids_view(old(ids)@),
        },
{
    let ghost w0 = warnings_view(warnings@);
    let ghost ids0 = ids_view(ids@);
    let ghost dv = strs_view(defs@);
    let upper = to_uppercase(method.as_str());
    let head = concat_str(upper.as_str(), " ");
    let loc = concat_str(head.as_str(), path.as_str());
    assert(loc@ == location_of(method@, path@));
    let ghost lv = loc@;
    if op.responses.len() == 0 {
        warnings.push(warning(loc.as_str(), String::from_str("No responses defined")));
    }
    let ghost w1 = warnings_view(warnings@);
    assert(w1 =~= w0 + if op@.responses.len() == 0 {
        seq![(lv, "No responses defined"@)]
    } else {
        Seq::<(Seq<char>, Seq<char>)>::empty()
    });
    match &op.operation_id {
        Some(op_id) => {
            match find_first_loc(ids, op_id) {
                Some(prev) => {
                    let m1 = concat_str("Duplicate operationId '", op_id.as_str());
                    let m2 = concat_str(m1.as_str(), "' (also in ");
                    let m3 = concat_str(m2.as_str(), prev.as_str());
                    let m4 = concat_str(m3.as_str(), ")");
                    warnings.push(warning(loc.as_str(), m4));
                },
                None => {},
            }
            ids.push((op_id.clone(), loc.clone()));
            assert(ids_view(ids@) =~= ids0.push((op_id@, lv)));
        },
        None => {},
    }
    let ghost w2 = warnings_view(warnings@);
    assert(w2 =~= w1 + duplicate_warnings(op@.operation_id, ids0, lv));
    let ghost pv = op@.parameters;
    let pps = path_param_names(path.as_str());
    let ghost ppv = strs_view(pps@);
    let mut i: usize = 0;
    while i < pps.len()
        invariant
            i <= pps.len(),
            ppv == strs_view(pps@),
            pv == op.parameters@.map_values(|p: crate::model::Parameter| p@),
            warnings_view(warnings@) == w2 + missing_param_warnings(ppv.take(i as int), pv, lv),
            lv == loc@,
        decreases pps.len() - i,
    {
        assert(ppv.take(i + 1).drop_last() == ppv.take(i as int));
        assert(ppv.take(i + 1).last() == pps@[i as int]@);
        let ghost wb = warnings_view(warnings@);
        if !defines_path_param_exec(&op.parameters, &pps[i]) {
            let m1 = concat_str("Path parameter '", pps[i].as_str());
            let m2 = concat_str(m1.as_str(), "' not defined in parameters");
            warnings.push(warning(loc.as_str(), m2));
            assert(warnings_view(warnings@) =~= wb.push((lv, "Path parameter '"@ + pps@[i as int]@ + "' not defined in parameters"@)));
        }
        assert(warnings_view(warnings@) =~= w2 + missing_param_warnings(ppv.take(i + 1), pv, lv));
        i = i + 1;
    }
    assert(ppv.take(pps.len() as int) == ppv);
    let ghost w3 = warnings_view(warnings@);
    let mut j: usize = 0;
    while j < op.parameters.len()
        invariant
            j <= op.parameters.len(),
            pv == op.parameters@.map_values(|p: crate::model::Parameter| p@),
            warnings_view(warnings@) == w3 + untyped_warnings(pv.take(j as int), lv),
            lv == loc@,
        decreases op.parameters.len() - j,
    {
        assert(pv.take(j + 1).drop_last() == pv.take(j as int));
        let p = &op.parameters[j];
        assert(pv.take(j + 1).last() == p@);
        let ghost wb = warnings_view(warnings@);
        if !crate::text::str_eq(p.location.as_str(), "body") && p.param_type.is_none() && p.schema.is_none() {
            let m1 = concat_str("Parameter '", p.name.as_str());
            let m2 = concat_str(m1.as_str(), "' has no type");
            warnings.push(warning(loc.as_str(), m2));
            assert(warnings_view(warnings@) =~= wb.push((lv, "Parameter '"@ + p@.name + "' has no type"@)));
        }
        assert(warnings_view(warnings@) =~= w3 + untyped_warnings(pv.take(j + 1), lv));
        j = j + 1;
    }
    assert(pv.take(op.parameters.len() as int) == pv);
    let ghost w4 = warnings_view(warnings@);
    let mut k: usize = 0;
    while k < op.parameters.len()
        invariant
            k <= op.parameters.len(),
            pv == op.parameters@.map_values(|p: crate::model::Parameter| p@),
            warnings_view(warnings@) == w4 + param_ref_warnings(pv.take(k as int), dv, lv),
            lv == loc@,
            dv == strs_view(defs@),
        decreases op.parameters.len() - k,
    {
        assert(pv.take(k + 1).drop_last() == pv.take(k as int));
        match &op.parameters[k].schema {
            Some(schema) => {
                check_refs(schema, defs, loc.as_str(), warnings);
            },
            None => {},
        }
        k = k + 1;
    }
    let ghost w5 = warnings_view(warnings@);
    let ghost rv = op@.responses;
    let mut m: usize = 0;
    while m < op.responses.len()
        invariant
            m <= op.responses.len(),
            rv == op.responses@.map_values(|r: (String, crate::model::Response)| (r.0@, r.1@)),
            warnings_view(warnings@) == w5 + response_ref_warnings(rv.take(m as int), dv, lv),
            lv == loc@,
            dv == strs_view(defs@),
        decreases op.responses.len() - m,
    {
        assert(rv.take(m + 1).drop_last() == rv.take(m as int));
        match &op.responses[m].1.schema {
            Some(schema) => {
                check_refs(schema, defs, loc.as_str(), warnings);
            },
            None => {},
        }
        m = m + 1;
    }
    assert(rv.take(op.responses.len() as int) == rv);
}

/// The warnings about a specification, operation after operation in document
/// order; `warnings_of` states which they are.
pub fn validate(spec: &ApiSpec) -> (ws: Vec<Warning>)
    ensures
        warnings_view(ws@) == warnings_of(flat_operations(spec.paths@), names_of(spec.definitions@)),
{
    let mut defs: Vec<String> = Vec::new();
    let mut d: usize = 0;
    while d < spec.definitions.len()
        invariant
            d <= spec.definitions.len(),
            strs_view(defs@) == names_of(spec.definitions@.take(d as int)),
        decreases spec.definitions.len() - d,
    {
        defs.push(spec.definitions[d].0.clone());
        assert(names_of(spec.definitions@.take(d + 1)) =~= names_of(spec.definitions@.take(d as int)).push(spec.definitions@[d as int].0@));
        assert(strs_view(defs@) =~= strs_view(defs@.drop_last()).push(defs@.last()@));
        d = d + 1;
    }
    assert(spec.definitions@.take(spec.definitions.len() as int) == spec.definitions@);
    let ghost dv = strs_view(defs@);
    let mut warnings: Vec<Warning> = Vec::new();
    let mut ids: Vec<(String, String)> = Vec::new();
    let mut i: usize = 0;
    while i < spec.paths.len()
        invariant
            i <= spec.paths.len(),
            dv == strs_view(defs@),
            warnings_view(warnings@) == warnings_of(flat_operations(spec.paths@.take(i as int)), dv),
            ids_view(ids@) == ids_of(flat_operations(spec.paths@.take(i as int))),
        decreases spec.paths.len() - i,
    {
        let path = &spec.paths[i].0;
        let methods = &spec.paths[i].1;
        let ghost before = flat_operations(spec.paths@.take(i as int));
        let mut j: usize = 0;
        while j < methods.len()
            invariant
                j <= methods.len(),
                dv == strs_view(defs@),
                warnings_view(warnings@) == warnings_of(before + methods_of(path@, methods@.take(j as int)), dv),
                ids_view(ids@) == ids_of(before + methods_of(path@, methods@.take(j as int))),
            decreases methods.len() - j,
        {
            let ghost done = before + methods_of(path@, methods@.take(j as int));
            proof { lemma_methods_of_step(path@, methods@, j as int); }
            let ghost next = before + methods_of(path@, methods@.take(j + 1));
            assert(next == done.push((path@, methods@[j as int].0@, methods@[j as int].1@)));
            assert(next.drop_last() == done);
            check_operation(path, &methods[j].0, &methods[j].1, &defs, &mut ids, &mut warnings);
            j = j + 1;
        }
        proof { lemma_flat_operations_step(spec.paths@, i as int); }
        assert(methods@.take(methods.len() as int) == methods@);
        i = i + 1;
    }
    assert(spec.paths@.take(spec.paths.len() as int) == spec.paths@);
    warnings
}

} // verus!
