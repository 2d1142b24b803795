//! The documents a specification is read from (Swagger 2.0 and OpenAPI 3.x),
//! their conversion into the unified model, and the choice of reader.
use vstd::prelude::*;
use crate::model::{
    ApiSpec, Info, Operation, Parameter, Response, Schema, SchemaView, contains_text, copy_opt_string, opt_schema_view,
    strs_view,
};

verus! {

// ─── Swagger 2.0 document ───────────────────────────────────────────────────

/// A Swagger 2.0 document; `host`, `base_path` and `schemes` say where its
/// API is served.
pub struct Swagger2 {
    pub info: Info,
    pub host: Option<String>,
    pub base_path: Option<String>,
    pub schemes: Vec<String>,
    pub paths: Vec<(String, Vec<(String, Swagger2Operation)>)>,
    pub definitions: Vec<(String, Schema)>,
}

pub struct Swagger2Operation {
    pub tags: Vec<String>,
    pub summary: Option<String>,
    pub description: Option<String>,
    pub operation_id: Option<String>,
    pub parameters: Vec<Swagger2Parameter>,
    pub responses: Vec<(String, Swagger2Response)>,
    pub consumes: Vec<String>,
    pub produces: Vec<String>,
}

/// A Swagger 2.0 parameter; `enum_values` are the values it allows, as the
/// JSON text of each.
pub struct Swagger2Parameter {
    pub name: String,
    pub location: String,
    pub description: Option<String>,
    pub required: bool,
    pub param_type: Option<String>,
    pub schema: Option<Schema>,
    pub enum_values: Vec<String>,
}

pub struct Swagger2Response {
    pub description: Option<String>,
    pub schema: Option<Schema>,
}

// ─── OpenAPI 3.x document ───────────────────────────────────────────────────

/// An OpenAPI 3.x document; its servers say where its API is served.
pub struct OpenApi3 {
    pub info: Info,
    pub servers: Vec<OpenApi3Server>,
    pub paths: Vec<(String, Vec<(String, OpenApi3Operation)>)>,
    pub components: Option<OpenApi3Components>,
}

pub struct OpenApi3Server {
    pub url: String,
}

pub struct OpenApi3Components {
    pub schemas: Vec<(String, Schema)>,
}

pub struct OpenApi3Operation {
    pub tags: Vec<String>,
    pub summary: Option<String>,
    pub description: Option<String>,
    pub operation_id: Option<String>,
    pub parameters: Vec<OpenApi3Parameter>,
    pub request_body: Option<OpenApi3RequestBody>,
    pub responses: Vec<(String, OpenApi3Response)>,
}

pub struct OpenApi3Parameter {
    pub name: String,
    pub location: String,
    pub description: Option<String>,
    pub required: bool,
    pub schema: Option<Schema>,
}

pub struct OpenApi3RequestBody {
    pub description: Option<String>,
    pub required: bool,
    pub content: Vec<(String, OpenApi3MediaType)>,
}

pub struct OpenApi3MediaType {
    pub schema: Option<Schema>,
}

pub struct OpenApi3Response {
    pub description: Option<String>,
    pub content: Option<Vec<(String, OpenApi3MediaType)>>,
}

// ─── What the conversions produce ───────────────────────────────────────────

/// The values a parameter allows: its own list when it has one, else those of
/// its schema.
pub open spec fn allowed_values(own: Seq<Seq<char>>, schema: Option<SchemaView>) -> Seq<Seq<char>> {
    if own.len() > 0 {
        own
    } else {
        match schema {
            Some(s) => s.enum_values,
            None => seq![],
        }
    }
}

/// A Swagger 2.0 parameter carried over field by field, its allowed values
/// as `allowed_values` states.
pub open spec fn swagger2_parameter_converted(p: Parameter, raw: Swagger2Parameter) -> bool {
    &&& p.name == raw.name
    &&& p.location == raw.location
    &&& p.description == raw.description
    &&& p.required == raw.required
    &&& p.param_type == raw.param_type
    &&& p.schema == raw.schema
    &&& strs_view(p.enum_values@) == allowed_values(strs_view(raw.enum_values@), opt_schema_view(raw.schema))
}

/// A Swagger 2.0 operation carried over field by field, its parameters and
/// responses in the same order.
pub open spec fn swagger2_operation_converted(op: Operation, raw: Swagger2Operation) -> bool {
    &&& op.tags == raw.tags
    &&& op.summary == raw.summary
    &&& op.description == raw.description
    &&& op.operation_id == raw.operation_id
    &&& op.parameters@.len() == raw.parameters@.len()
    &&& forall|i: int|
        #![trigger op.parameters@[i]]
        0 <= i < raw.parameters@.len() ==> swagger2_parameter_converted(
            op.parameters@[i],
            raw.parameters@[i],
        )
    &&& op.responses@.len() == raw.responses@.len()
    &&& forall|i: int|
        #![trigger op.responses@[i]]
        0 <= i < raw.responses@.len() ==> {
            &&& op.responses@[i].0 == raw.responses@[i].0
            &&& op.responses@[i].1.description == raw.responses@[i].1.description
            &&& op.responses@[i].1.schema == raw.responses@[i].1.schema
        }
    &&& op.consumes == raw.consumes
    &&& op.produces == raw.produces
}

/// The schema of the first media type of a content map, if any.
pub open spec fn first_media_schema(content: Seq<(String, OpenApi3MediaType)>) -> Option<Schema> {
    if content.len() > 0 {
        content[0].1.schema
    } else {
        None
    }
}

/// The media types named in a content map, in order.
pub open spec fn media_type_names(content: Seq<(String, OpenApi3MediaType)>) -> Seq<Seq<char>> {
    content.map_values(|e: (String, OpenApi3MediaType)| e.0@)
}

/// The media types named by all responses, response after response.
pub open spec fn response_media_types(rs: Seq<(String, OpenApi3Response)>) -> Seq<Seq<char>>
    decreases rs.len(),
{
    if rs.len() == 0 {
        seq![]
    } else {
        response_media_types(rs.drop_last()) + match rs.last().1.content {
            Some(c) => media_type_names(c@),
            None => Seq::<Seq<char>>::empty(),
        }
    }
}

/// `s` with every element after its first occurrence dropped.
pub open spec fn dedup(s: Seq<Seq<char>>) -> Seq<Seq<char>>
    decreases s.len(),
{
    if s.len() == 0 {
        seq![]
    } else {
        let d = dedup(s.drop_last());
        if d.contains(s.last()) {
            d
        } else {
            d.push(s.last())
        }
    }
}

/// An OpenAPI 3.x parameter carried over, its type and allowed values taken
/// from its schema.
pub open spec fn openapi3_parameter_converted(p: Parameter, raw: OpenApi3Parameter) -> bool {
    &&& p.name == raw.name
    &&& p.location == raw.location
    &&& p.description == raw.description
    &&& p.required == raw.required
    &&& p.param_type == match raw.schema {
        Some(s) => s.schema_type,
        None => None,
    }
    &&& p.schema == raw.schema
    &&& strs_view(p.enum_values@) == allowed_values(seq![], opt_schema_view(raw.schema))
}

/// The parameter that stands for an OpenAPI 3.x request body: named and placed
/// `body`, untyped, with the schema of the body's first media type.
pub open spec fn body_parameter_of(p: Parameter, rb: OpenApi3RequestBody) -> bool {
    &&& p.name@ == "body"@
    &&& p.location@ == "body"@
    &&& p.description == rb.description
    &&& p.required == rb.required
    &&& p.param_type is None
    &&& p.schema == first_media_schema(rb.content@)
    &&& strs_view(p.enum_values@) == allowed_values(seq![], opt_schema_view(p.schema))
}

/// An OpenAPI 3.x operation in the unified model: the request body becomes a
/// last `body` parameter and its media types the consumed ones; each response
/// keeps the schema of its first media type; the produced media types are those
/// of all responses, each once, in order of first appearance.
pub open spec fn openapi3_operation_converted(op: Operation, raw: OpenApi3Operation) -> bool {
    &&& op.tags == raw.tags
    &&& op.summary == raw.summary
    &&& op.description == raw.description
    &&& op.operation_id == raw.operation_id
    &&& op.parameters@.len() == raw.parameters@.len() + if raw.request_body is Some {
        1int
    } else {
        0int
    }
    &&& forall|i: int|
        #![trigger op.parameters@[i]]
        0 <= i < raw.parameters@.len() ==> openapi3_parameter_converted(
            op.parameters@[i],
            raw.parameters@[i],
        )
    &&& match raw.request_body {
        Some(rb) => {
            &&& body_parameter_of(op.parameters@[raw.parameters@.len() as int], rb)
            &&& strs_view(op.consumes@) == media_type_names(rb.content@)
        },
        None => op.consumes@.len() == 0,
    }
    &&& op.responses@.len() == raw.responses@.len()
    &&& forall|i: int|
        #![trigger op.responses@[i]]
        0 <= i < raw.responses@.len() ==> {
            &&& op.responses@[i].0 == raw.responses@[i].0
            &&& op.responses@[i].1.description == raw.responses@[i].1.description
            &&& op.responses@[i].1.schema == match raw.responses@[i].1.content {
                Some(c) => first_media_schema(c@),
                None => None,
            }
        }
    &&& strs_view(op.produces@) == dedup(response_media_types(raw.responses@))
}

/// The operations of each path carried over by `conv`, paths and methods in
/// the same order and under the same names.
pub open spec fn paths_converted<R>(
    out: Seq<(String, Vec<(String, Operation)>)>,
    raw: Seq<(String, Vec<(String, R)>)>,
    conv: spec_fn(Operation, R) -> bool,
) -> bool {
    &&& out.len() == raw.len()
    &&& forall|i: int|
        #![trigger out[i]]
        0 <= i < raw.len() ==> {
            &&& out[i].0 == raw[i].0
            &&& out[i].1@.len() == raw[i].1@.len()
            &&& forall|j: int|
                #![trigger out[i].1@[j]]
                0 <= j < raw[i].1@.len() ==> out[i].1@[j].0 == raw[i].1@[j].0 && conv(
                    out[i].1@[j].1,
                    raw[i].1@[j].1,
                )
        }
}


// ─── Conversions ────────────────────────────────────────────────────────────

/// The values a parameter allows, as `allowed_values` states.
fn allowed_values_of(own: Vec<String>, schema: &Option<Schema>) -> (r: Vec<String>)
    ensures
        strs_view(r@) == allowed_values(strs_view(own@), opt_schema_view(*schema)),
{
    if own.len() > 0 {
        own
    } else {
        match schema {
            Some(s) => crate::model::copy_strings(&s.enum_values),
            None => {
                let r: Vec<String> = Vec::new();
                assert(strs_view(r@) =~= Seq::<Seq<char>>::empty());
                r
            },
        }
    }
}

fn convert_swagger2_operation(raw: Swagger2Operation) -> (op: Operation)
    ensures
        swagger2_operation_converted(op, raw),
{
    let ghost raw0 = raw;
    let mut parameters: Vec<Parameter> = Vec::new();
    for p in it: raw.parameters.into_iter()
        invariant
            it.seq() == raw0.parameters@,
            parameters@.len() == it.index(),
            forall|i: int|
                #![trigger parameters@[i]]
                0 <= i < it.index() ==> swagger2_parameter_converted(parameters@[i], it.seq()[i]),
    {
        let enum_values = allowed_values_of(p.enum_values, &p.schema);
        parameters.push(
            Parameter {
                name: p.name,
                location: p.location,
                description: p.description,
                required: p.required,
                param_type: p.param_type,
                schema: p.schema,
                enum_values,
            },
        );
    }
    let mut responses: Vec<(String, Response)> = Vec::new();
    for entry in it: raw.responses.into_iter()
        invariant
            it.seq() == raw0.responses@,
            responses@.len() == it.index(),
            forall|i: int|
                #![trigger responses@[i]]
                0 <= i < it.index() ==> {
                    &&& responses@[i].0 == it.seq()[i].0
                    &&& responses@[i].1.description == it.seq()[i].1.description
                    &&& responses@[i].1.schema == it.seq()[i].1.schema
                },
    {
        let (code, r) = entry;
        responses.push((code, Response { description: r.description, schema: r.schema }));
    }
    Operation {
        tags: raw.tags,
        summary: raw.summary,
        description: raw.description,
        operation_id: raw.operation_id,
        parameters,
        responses,
        consumes: raw.consumes,
        produces: raw.produces,
    }
}

/// The schema of the first media type of a content map, the map consumed.
fn take_first_media_schema(content: Vec<(String, OpenApi3MediaType)>) -> (r: Option<Schema>)
    ensures
        r == first_media_schema(content@),
{
    let mut c = content;
    if c.len() > 0 {
        let first = c.remove(0);
        first.1.schema
    } else {
        None
    }
}

/// The media types named in a content map, copied in order.
fn media_type_list(content: &Vec<(String, OpenApi3MediaType)>) -> (r: Vec<String>)
    ensures
        strs_view(r@) == media_type_names(content@),
{
    let mut r: Vec<String> = Vec::new();
    let mut i: usize = 0;
    while i < content.len()
        invariant
            i <= content.len(),
            strs_view(r@) == media_type_names(content@.take(i as int)),
        decreases content.len() - i,
    {
        r.push(content[i].0.clone());
        assert(media_type_names(content@.take(i + 1)) =~= media_type_names(content@.take(i as int)).push(content@[i as int].0@));
        assert(strs_view(r@) =~= strs_view(r@.drop_last()).push(r@.last()@));
        i = i + 1;
    }
    assert(content@.take(content.len() as int) == content@);
    r
}

proof fn lemma_dedup_push(s: Seq<Seq<char>>, x: Seq<char>)
    ensures
        dedup(s.push(x)) == if dedup(s).contains(x) { dedup(s) } else { dedup(s).push(x) },
{
    assert(s.push(x).drop_last() == s);
}

/// Appends to `produces` each media type of `content` it does not hold yet.
fn add_media_types(produces: &mut Vec<String>, content: &Vec<(String, OpenApi3MediaType)>, Ghost(seen): Ghost<Seq<Seq<char>>>)
    requires
        strs_view(old(produces)@) == dedup(seen),
    ensures
        strs_view(final(produces)@) == dedup(seen + media_type_names(content@)),
{
    let mut i: usize = 0;
    while i < content.len()
        invariant
            i <= content.len(),
            strs_view(produces@) == dedup(seen + media_type_names(content@.take(i as int))),
        decreases content.len() - i,
    {
        let ghost before = seen + media_type_names(content@.take(i as int));
        assert(seen + media_type_names(content@.take(i + 1)) =~= before.push(content@[i as int].0@));
        proof { lemma_dedup_push(before, content@[i as int].0@); }
        if !contains_text(produces, &content[i].0) {
            produces.push(content[i].0.clone());
            assert(strs_view(produces@) =~= strs_view(produces@.drop_last()).push(produces@.last()@));
        }
        i = i + 1;
    }
    assert(content@.take(content.len() as int) == content@);
}

fn convert_openapi3_parameters(raw: Vec<OpenApi3Parameter>) -> (ps: Vec<Parameter>)
    ensures
        ps@.len() == raw@.len(),
        forall|i: int|
            #![trigger ps@[i]]
            0 <= i < raw@.len() ==> openapi3_parameter_converted(ps@[i], raw@[i]),
{
    let ghost raw0 = raw@;
    let mut ps: Vec<Parameter> = Vec::new();
    for p in it: raw.into_iter()
        invariant
            it.seq() == raw0,
            ps@.len() == it.index(),
            forall|i: int|
                #![trigger ps@[i]]
                0 <= i < it.index() ==> openapi3_parameter_converted(ps@[i], it.seq()[i]),
    {
        let param_type = match &p.schema {
            Some(s) => copy_opt_string(&s.schema_type),
            None => None,
        };
        let enum_values = allowed_values_of(Vec::new(), &p.schema);
        ps.push(
            Parameter {
                name: p.name,
                location: p.location,
                description: p.description,
                required: p.required,
                param_type,
                schema: p.schema,
                enum_values,
            },
        );
    }
    ps
}

fn convert_openapi3_operation(raw: OpenApi3Operation) -> (op: Operation)
    ensures
        openapi3_operation_converted(op, raw),
{
    let ghost raw0 = raw;
    let mut parameters = convert_openapi3_parameters(raw.parameters);
    let mut consumes: Vec<String> = Vec::new();
    match raw.request_body {
        Some(rb) => {
            consumes = media_type_list(&rb.content);
            let schema = take_first_media_schema(rb.content);
            let enum_values = allowed_values_of(Vec::new(), &schema);
            let ghost before = parameters@;
            parameters.push(
                Parameter {
                    name: String::from_str("body"),
                    location: String::from_str("body"),
                    description: rb.description,
                    required: rb.required,
                    param_type: None,
                    schema,
                    enum_values,
                },
            );
            proof {
                reveal_strlit("body");
                assert(forall|i: int| 0 <= i < before.len() ==> parameters@[i] == before[i]);
            }
        },
        None => {},
    }
    let mut produces: Vec<String> = Vec::new();
    let mut responses: Vec<(String, Response)> = Vec::new();
    for entry in it: raw.responses.into_iter()
        invariant
            it.seq() == raw0.responses@,
            responses@.len() == it.index(),
            forall|i: int|
                #![trigger responses@[i]]
                0 <= i < it.index() ==> {
                    &&& responses@[i].0 == it.seq()[i].0
                    &&& responses@[i].1.description == it.seq()[i].1.description
                    &&& responses@[i].1.schema == match it.seq()[i].1.content {
                        Some(c) => first_media_schema(c@),
                        None => None,
                    }
                },
            strs_view(produces@) == dedup(response_media_types(it.seq().take(it.index() as int))),
    {
        let ghost idx = it.index() as int;
        let ghost seen = response_media_types(raw0.responses@.take(idx));
        assert(raw0.responses@.take(idx + 1).drop_last() == raw0.responses@.take(idx));
        let (code, r) = entry;
        let schema = match r.content {
            Some(c) => {
                add_media_types(&mut produces, &c, Ghost(seen));
                take_first_media_schema(c)
            },
            None => {
                assert(seen + Seq::<Seq<char>>::empty() == seen);
                None
            },
        };
        responses.push((code, Response { description: r.description, schema }));
    }
    assert(raw0.responses@.take(raw0.responses@.len() as int) == raw0.responses@);
    Operation {
        tags: raw.tags,
        summary: raw.summary,
        description: raw.description,
        operation_id: raw.operation_id,
        parameters,
        responses,
        consumes,
        produces,
    }
}

fn convert_swagger2_methods(raw: Vec<(String, Swagger2Operation)>) -> (out: Vec<(String, Operation)>)
    ensures
        out@.len() == raw@.len(),
        forall|j: int|
            #![trigger out@[j]]
            0 <= j < raw@.len() ==> out@[j].0 == raw@[j].0 && swagger2_operation_converted(out@[j].1, raw@[j].1),
{
    let ghost raw0 = raw@;
    let mut out: Vec<(String, Operation)> = Vec::new();
    for entry in it: raw.into_iter()
        invariant
            it.seq() == raw0,
            out@.len() == it.index(),
            forall|j: int|
                #![trigger out@[j]]
                0 <= j < it.index() ==> out@[j].0 == it.seq()[j].0 && swagger2_operation_converted(out@[j].1, it.seq()[j].1),
    {
        let (method, op) = entry;
        out.push((method, convert_swagger2_operation(op)));
    }
    out
}

fn convert_openapi3_methods(raw: Vec<(String, OpenApi3Operation)>) -> (out: Vec<(String, Operation)>)
    ensures
        out@.len() == raw@.len(),
        forall|j: int|
            #![trigger out@[j]]
            0 <= j < raw@.len() ==> out@[j].0 == raw@[j].0 && openapi3_operation_converted(out@[j].1, raw@[j].1),
{
    let ghost raw0 = raw@;
    let mut out: Vec<(String, Operation)> = Vec::new();
    for entry in it: raw.into_iter()
        invariant
            it.seq() == raw0,
            out@.len() == it.index(),
            forall|j: int|
                #![trigger out@[j]]
                0 <= j < it.index() ==> out@[j].0 == it.seq()[j].0 && openapi3_operation_converted(out@[j].1, it.seq()[j].1),
    {
        let (method, op) = entry;
        out.push((method, convert_openapi3_operation(op)));
    }
    out
}

// ─── Where the API is served ────────────────────────────────────────────────

/// A URL without the `/` it ends with, if any (paths start with their own).
pub open spec fn without_trailing_slash(u: Seq<char>) -> Seq<char> {
    if u.len() > 0 && u.last() == '/' {
        u.drop_last()
    } else {
        u
    }
}

/// The base URL of a Swagger 2.0 document: with a host, the first scheme
/// listed (`https` when none is), `://`, the host and the base path; without a
/// host, the base path alone.
pub open spec fn swagger2_base_url(host: Option<Seq<char>>, base_path: Option<Seq<char>>, schemes: Seq<Seq<char>>) -> Seq<
    char,
> {
    let bp = match base_path {
        Some(b) => b,
        None => Seq::<char>::empty(),
    };
    without_trailing_slash(
        match host {
            Some(h) => (if schemes.len() > 0 {
                schemes[0]
            } else {
                "https"@
            }) + "://"@ + h + bp,
            None => bp,
        },
    )
}

/// The base URL of an OpenAPI 3.x document: the URL of its first server, or
/// none.
pub open spec fn openapi3_base_url(servers: Seq<Seq<char>>) -> Seq<char> {
    if servers.len() > 0 {
        without_trailing_slash(servers[0])
    } else {
        Seq::<char>::empty()
    }
}

/// A URL without the `/` it ends with, if any.
fn without_trailing_slash_of(u: String) -> (r: String)
    ensures
        r@ == without_trailing_slash(u@),
{
    let cs = crate::text::chars_of(u.as_str());
    let mut r = u;
    if cs.len() > 0 && cs[cs.len() - 1] == '/' {
        crate::text::pop_char(&mut r);
    }
    r
}

/// The base URL of a Swagger 2.0 document, as `swagger2_base_url` states.
pub fn swagger2_base_url_of(host: &Option<String>, base_path: &Option<String>, schemes: &Vec<String>) -> (r: String)
    ensures
        r@ == swagger2_base_url(crate::model::opt_view(*host), crate::model::opt_view(*base_path), strs_view(schemes@)),
{
    let bp = match base_path {
        Some(b) => b.clone(),
        None => String::new(),
    };
    let raw = match host {
        Some(h) => {
            let scheme = if schemes.len() > 0 {
                schemes[0].clone()
            } else {
                String::from_str("https")
            };
            let a = crate::text::concat_str(scheme.as_str(), "://");
            let b = crate::text::concat_str(a.as_str(), h.as_str());
            crate::text::concat_str(b.as_str(), bp.as_str())
        },
        None => bp,
    };
    without_trailing_slash_of(raw)
}

/// The base URL of an OpenAPI 3.x document, as `openapi3_base_url` states.
pub fn openapi3_base_url_of(servers: &Vec<OpenApi3Server>) -> (r: String)
    ensures
        r@ == openapi3_base_url(servers@.map_values(|sv: OpenApi3Server| sv.url@)),
{
    if servers.len() > 0 {
        without_trailing_slash_of(servers[0].url.clone())
    } else {
        String::new()
    }
}

impl ApiSpec {
    /// The unified model of a Swagger 2.0 document: info and definitions as they
    /// are, the base URL from the host, base path and schemes, every operation
    /// carried over field by field, in document order.
    pub fn from_swagger2(s: Swagger2) -> (spec: ApiSpec)
        ensures
            spec.info == s.info,
            spec.definitions == s.definitions,
            spec.base_url@ == swagger2_base_url(
                crate::model::opt_view(s.host),
                crate::model::opt_view(s.base_path),
                strs_view(s.schemes@),
            ),
            paths_converted(
                spec.paths@,
                s.paths@,
                |o: Operation, r: Swagger2Operation| swagger2_operation_converted(o, r),
            ),
    {
        let ghost raw0 = s.paths@;
        let mut paths: Vec<(String, Vec<(String, Operation)>)> = Vec::new();
        for entry in it: s.paths.into_iter()
            invariant
                it.seq() == raw0,
                paths_converted(
                    paths@,
                    it.seq().take(it.index() as int),
                    |o: Operation, r: Swagger2Operation| swagger2_operation_converted(o, r),
                ),
        {
            let (path, methods) = entry;
            let ops = convert_swagger2_methods(methods);
            paths.push((path, ops));
        }
        assert(raw0.take(raw0.len() as int) == raw0);
        let base_url = swagger2_base_url_of(&s.host, &s.base_path, &s.schemes);
        ApiSpec { info: s.info, paths, definitions: s.definitions, base_url }
    }

    /// The unified model of an OpenAPI 3.x document: the component schemas become
    /// the definitions, the first server gives the base URL, and every operation
    /// is converted as `openapi3_operation_converted` states, in document order.
    pub fn from_openapi3(s: OpenApi3) -> (spec: ApiSpec)
        ensures
            spec.info == s.info,
            spec.definitions@ == match s.components {
                Some(c) => c.schemas@,
                None => Seq::<(String, Schema)>::empty(),
            },
            spec.base_url@ == openapi3_base_url(s.servers@.map_values(|sv: OpenApi3Server| sv.url@)),
            paths_converted(
                spec.paths@,
                s.paths@,
                |o: Operation, r: OpenApi3Operation| openapi3_operation_converted(o, r),
            ),
    {
        let base_url = openapi3_base_url_of(&s.servers);
        let definitions = match s.components {
            Some(c) => c.schemas,
            None => Vec::new(),
        };
        let ghost raw0 = s.paths@;
        let mut paths: Vec<(String, Vec<(String, Operation)>)> = Vec::new();
        for entry in it: s.paths.into_iter()
            invariant
                it.seq() == raw0,
                paths_converted(
                    paths@,
                    it.seq().take(it.index() as int),
                    |o: Operation, r: OpenApi3Operation| openapi3_operation_converted(o, r),
                ),
        {
            let (path, methods) = entry;
            let ops = convert_openapi3_methods(methods);
            paths.push((path, ops));
        }
        assert(raw0.take(raw0.len() as int) == raw0);
        ApiSpec { info: s.info, paths, definitions, base_url }
    }
}

// ─── Choosing the reader ────────────────────────────────────────────────────

/// The text formats a specification is read from.
#[derive(Clone, Copy, PartialEq, Eq, Structural, Debug)]
pub enum SpecFormat {
    Json,
    Yaml,
}

/// The document versions a specification is read as.
#[derive(Clone, Copy, PartialEq, Eq, Structural, Debug)]
pub enum SpecVersion {
    Swagger2,
    OpenApi3,
}

/// The format a file extension names: `json` is JSON, `yaml` and `yml` are
/// YAML; any other extension is refused, naming it.
pub fn format_for_extension(ext: &str) -> (r: Result<SpecFormat, String>)
    ensures
        ext@ == "json"@ ==> r == Ok::<SpecFormat, String>(SpecFormat::Json),
        (ext@ == "yaml"@ || ext@ == "yml"@) ==> r == Ok::<SpecFormat, String>(SpecFormat::Yaml),
        (ext@ != "json"@ && ext@ != "yaml"@ && ext@ != "yml"@) ==> (r matches Err(e) && e@
            == "Unsupported file extension: "@ + ext@),
{
    proof {
        reveal_strlit("json");
        reveal_strlit("yaml");
        reveal_strlit("yml");
        assert("json"@[0] != "yaml"@[0]);
        assert("json"@[0] != "yml"@[0]);
    }
    if crate::text::str_eq(ext, "json") {
        Ok(SpecFormat::Json)
    } else if crate::text::str_eq(ext, "yaml") || crate::text::str_eq(ext, "yml") {
        Ok(SpecFormat::Yaml)
    } else {
        Err(crate::text::concat_str("Unsupported file extension: ", ext))
    }
}

/// Whether a source names a document to fetch over HTTP rather than a file:
/// it starts with `http://` or `https://`.
pub fn is_url(source: &str) -> (r: bool)
    ensures
        r == (crate::text::has_prefix(source@, "http://"@) || crate::text::has_prefix(source@, "https://"@)),
{
    crate::text::str_starts_with(source, "http://") || crate::text::str_starts_with(source, "https://")
}

/// The version of a document, from whether it has a `swagger` field and an
/// `openapi` field holding text: Swagger 2.0 when it has the first, OpenAPI
/// 3.x when it has only the second; otherwise it is refused.
pub fn detect_version(has_swagger: bool, has_openapi: bool) -> (r: Result<SpecVersion, String>)
    ensures
        has_swagger ==> r == Ok::<SpecVersion, String>(SpecVersion::Swagger2),
        !has_swagger && has_openapi ==> r == Ok::<SpecVersion, String>(SpecVersion::OpenApi3),
        !has_swagger && !has_openapi ==> (r matches Err(e) && e@
            == "Could not detect spec version. Expected 'swagger' or 'openapi' field."@),
{
    if has_swagger {
        Ok(SpecVersion::Swagger2)
    } else if has_openapi {
        Ok(SpecVersion::OpenApi3)
    } else {
        Err(String::from_str("Could not detect spec version. Expected 'swagger' or 'openapi' field."))
    }
}

} // verus!
