//! The unified model of an API specification that the viewer works on, whatever
//! the version of the document it was read from, and its mathematical views.
use vstd::prelude::*;

verus! {

/// The `info` block of a specification.
pub struct Info {
    pub title: String,
    pub version: String,
    pub description: Option<String>,
}

/// A JSON schema, as far as the viewer reads it. Enum values and the example
/// are kept as the JSON text of each value.
pub struct Schema {
    pub schema_type: Option<String>,
    pub properties: Vec<(String, Schema)>,
    pub reference: Option<String>,
    pub items: Option<Box<Schema>>,
    pub description: Option<String>,
    pub enum_values: Vec<String>,
    pub required: Vec<String>,
    pub format: Option<String>,
    pub example: Option<String>,
}

/// A parameter of an operation; `location` is where it goes (`path`, `query`,
/// `header`, `body`, ...). `enum_values` are the values it allows, as the JSON
/// text of each.
pub struct Parameter {
    pub name: String,
    pub location: String,
    pub description: Option<String>,
    pub required: bool,
    pub param_type: Option<String>,
    pub schema: Option<Schema>,
    pub enum_values: Vec<String>,
}

/// One response of an operation.
pub struct Response {
    pub description: Option<String>,
    pub schema: Option<Schema>,
}

/// One operation (a method on a path). `responses` is keyed by status code, in
/// document order.
pub struct Operation {
    pub tags: Vec<String>,
    pub summary: Option<String>,
    pub description: Option<String>,
    pub operation_id: Option<String>,
    pub parameters: Vec<Parameter>,
    pub responses: Vec<(String, Response)>,
    pub consumes: Vec<String>,
    pub produces: Vec<String>,
}

/// A whole specification: `paths` maps each path, in document order, to its
/// operations keyed by method; `definitions` maps schema names to schemas.
pub struct ApiSpec {
    pub info: Info,
    pub paths: Vec<(String, Vec<(String, Operation)>)>,
    pub definitions: Vec<(String, Schema)>,
    pub base_url: String,
}

// ─── Views ──────────────────────────────────────────────────────────────────

pub open spec fn opt_view(o: Option<String>) -> Option<Seq<char>> {
    match o {
        Some(s) => Some(s@),
        None => None,
    }
}

pub open spec fn strs_view(v: Seq<String>) -> Seq<Seq<char>> {
    v.map_values(|s: String| s@)
}

pub ghost struct SchemaView {
    pub schema_type: Option<Seq<char>>,
    pub properties: Seq<(Seq<char>, SchemaView)>,
    pub reference: Option<Seq<char>>,
    pub items: Option<Box<SchemaView>>,
    pub description: Option<Seq<char>>,
    pub enum_values: Seq<Seq<char>>,
    pub required: Seq<Seq<char>>,
    pub format: Option<Seq<char>>,
    pub example: Option<Seq<char>>,
}

impl Schema {
    pub open spec fn model(&self) -> SchemaView
        decreases self,
    {
        SchemaView {
            schema_type: opt_view(self.schema_type),
            properties: Seq::new(
                self.properties@.len(),
                |i: int|
                    if 0 <= i < self.properties@.len() {
                        (self.properties@[i].0@, self.properties@[i].1.model())
                    } else {
                        arbitrary()
                    },
            ),
            reference: opt_view(self.reference),
            items: match &self.items {
                Some(b) => Some(Box::new(b.model())),
                None => None,
            },
            description: opt_view(self.description),
            enum_values: strs_view(self.enum_values@),
            required: strs_view(self.required@),
            format: opt_view(self.format),
            example: opt_view(self.example),
        }
    }
}

impl View for Schema {
    type V = SchemaView;

    open spec fn view(&self) -> SchemaView {
        self.model()
    }
}

pub open spec fn opt_schema_view(o: Option<Schema>) -> Option<SchemaView> {
    match o {
        Some(s) => Some(s@),
        None => None,
    }
}

pub ghost struct ParameterView {
    pub name: Seq<char>,
    pub location: Seq<char>,
    pub description: Option<Seq<char>>,
    pub required: bool,
    pub param_type: Option<Seq<char>>,
    pub schema: Option<SchemaView>,
    pub enum_values: Seq<Seq<char>>,
}

impl View for Parameter {
    type V = ParameterView;

    open spec fn view(&self) -> ParameterView {
        ParameterView {
            name: self.name@,
            location: self.location@,
            description: opt_view(self.description),
            required: self.required,
            param_type: opt_view(self.param_type),
            schema: opt_schema_view(self.schema),
            enum_values: strs_view(self.enum_values@),
        }
    }
}

pub ghost struct ResponseView {
    pub description: Option<Seq<char>>,
    pub schema: Option<SchemaView>,
}

impl View for Response {
    type V = ResponseView;

    open spec fn view(&self) -> ResponseView {
        ResponseView { description: opt_view(self.description), schema: opt_schema_view(self.schema) }
    }
}

pub ghost struct OperationView {
    pub tags: Seq<Seq<char>>,
    pub summary: Option<Seq<char>>,
    pub description: Option<Seq<char>>,
    pub operation_id: Option<Seq<char>>,
    pub parameters: Seq<ParameterView>,
    pub responses: Seq<(Seq<char>, ResponseView)>,
    pub consumes: Seq<Seq<char>>,
    pub produces: Seq<Seq<char>>,
}

impl View for Operation {
    type V = OperationView;

    open spec fn view(&self) -> OperationView {
        OperationView {
            tags: strs_view(self.tags@),
            summary: opt_view(self.summary),
            description: opt_view(self.description),
            operation_id: opt_view(self.operation_id),
            parameters: self.parameters@.map_values(|p: Parameter| p@),
            responses: self.responses@.map_values(|r: (String, Response)| (r.0@, r.1@)),
            consumes: strs_view(self.consumes@),
            produces: strs_view(self.produces@),
        }
    }
}

// ─── Copies ─────────────────────────────────────────────────────────────────

/// A copy of an optional text.
pub fn copy_opt_string(o: &Option<String>) -> (r: Option<String>)
    ensures
        r == *o,
{
    match o {
        Some(s) => Some(s.clone()),
        None => None,
    }
}

/// A copy of a list of texts.
pub fn copy_strings(v: &Vec<String>) -> (r: Vec<String>)
    ensures
        r@ == v@,
{
    let mut r: Vec<String> = Vec::new();
    let mut i: usize = 0;
    while i < v.len()
        invariant
            i <= v.len(),
            r@ == v@.take(i as int),
        decreases v.len() - i,
    {
        r.push(v[i].clone());
        assert(v@.take(i + 1) == v@.take(i as int).push(v@[i as int]));
        i = i + 1;
    }
    assert(v@.take(v.len() as int) == v@);
    r
}

impl Schema {
    /// A copy of the schema, with the same view.
    pub fn copy(&self) -> (r: Schema)
        ensures
            r@ == self@,
        decreases self,
    {
        let mut properties: Vec<(String, Schema)> = Vec::new();
        let mut i: usize = 0;
        while i < self.properties.len()
            invariant
                i <= self.properties.len(),
                properties@.len() == i,
                forall|j: int|
                    0 <= j < i ==> properties@[j].0 == self.properties@[j].0
                        && #[trigger] properties@[j].1.model() == self.properties@[j].1.model(),
            decreases self.properties.len() - i,
        {
            let p = self.properties[i].1.copy();
            properties.push((self.properties[i].0.clone(), p));
            i = i + 1;
        }
        let items = match &self.items {
            Some(b) => Some(Box::new(b.copy())),
            None => None,
        };
        let r = Schema {
            schema_type: copy_opt_string(&self.schema_type),
            properties,
            reference: copy_opt_string(&self.reference),
            items,
            description: copy_opt_string(&self.description),
            enum_values: copy_strings(&self.enum_values),
            required: copy_strings(&self.required),
            format: copy_opt_string(&self.format),
            example: copy_opt_string(&self.example),
        };
        assert forall|j: int| 0 <= j < r.properties@.len() implies #[trigger] r.model().properties[j]
            == self.model().properties[j] by {
            assert(properties@[j].1.model() == self.properties@[j].1.model());
        }
        assert(r.model().properties =~= self.model().properties);
        r
    }
}

/// A copy of an optional schema.
pub fn copy_opt_schema(o: &Option<Schema>) -> (r: Option<Schema>)
    ensures
        opt_schema_view(r) == opt_schema_view(*o),
{
    match o {
        Some(s) => Some(s.copy()),
        None => None,
    }
}

impl Parameter {
    /// A copy of the parameter, with the same view.
    pub fn copy(&self) -> (r: Parameter)
        ensures
            r@ == self@,
    {
        Parameter {
            name: self.name.clone(),
            location: self.location.clone(),
            description: copy_opt_string(&self.description),
            required: self.required,
            param_type: copy_opt_string(&self.param_type),
            schema: copy_opt_schema(&self.schema),
            enum_values: copy_strings(&self.enum_values),
        }
    }
}

impl Response {
    /// A copy of the response, with the same view.
    pub fn copy(&self) -> (r: Response)
        ensures
            r@ == self@,
    {
        Response { description: copy_opt_string(&self.description), schema: copy_opt_schema(&self.schema) }
    }
}

impl Operation {
    /// A copy of the operation, with the same view.
    pub fn copy(&self) -> (r: Operation)
        ensures
            r@ == self@,
    {
        let mut parameters: Vec<Parameter> = Vec::new();
        let mut i: usize = 0;
        while i < self.parameters.len()
            invariant
                i <= self.parameters.len(),
                parameters@.len() == i,
                forall|j: int| 0 <= j < i ==> #[trigger] parameters@[j]@ == self.parameters@[j]@,
            decreases self.parameters.len() - i,
        {
            parameters.push(self.parameters[i].copy());
            i = i + 1;
        }
        let mut responses: Vec<(String, Response)> = Vec::new();
        let mut k: usize = 0;
        while k < self.responses.len()
            invariant
                k <= self.responses.len(),
                responses@.len() == k,
                forall|j: int|
                    #![trigger responses@[j]]
                    0 <= j < k ==> (responses@[j].0 == self.responses@[j].0
                        && responses@[j].1@ == self.responses@[j].1@),
            decreases self.responses.len() - k,
        {
            let code = self.responses[k].0.clone();
            let resp = self.responses[k].1.copy();
            let ghost before = responses@;
            responses.push((code, resp));
            assert forall|j: int| 0 <= j < k + 1 implies (#[trigger] responses@[j]).0 == self.responses@[j].0
                && responses@[j].1@ == self.responses@[j].1@ by {
                if j < k {
                    assert(responses@[j] == before[j]);
                    assert(before[j].1@ == self.responses@[j].1@);
                }
            }
            k = k + 1;
        }
        let r = Operation {
            tags: copy_strings(&self.tags),
            summary: copy_opt_string(&self.summary),
            description: copy_opt_string(&self.description),
            operation_id: copy_opt_string(&self.operation_id),
            parameters,
            responses,
            consumes: copy_strings(&self.consumes),
            produces: copy_strings(&self.produces),
        };
        assert(r@.parameters =~= self@.parameters);
        assert(r@.responses =~= self@.responses);
        r
    }
}

// ─── Whole-specification views ──────────────────────────────────────────────

/// Every operation of the paths with its path and method, path after path and
/// method after method.
pub open spec fn flat_operations(paths: Seq<(String, Vec<(String, Operation)>)>) -> Seq<(Seq<char>, Seq<char>, OperationView)>
    decreases paths.len(),
{
    if paths.len() == 0 {
        seq![]
    } else {
        flat_operations(paths.drop_last()) + methods_of(paths.last().0@, paths.last().1@)
    }
}

/// The operations of one path with the path and their methods.
pub open spec fn methods_of(path: Seq<char>, methods: Seq<(String, Operation)>) -> Seq<(Seq<char>, Seq<char>, OperationView)> {
    methods.map_values(|m: (String, Operation)| (path, m.0@, m.1@))
}

pub proof fn lemma_flat_operations_step(paths: Seq<(String, Vec<(String, Operation)>)>, i: int)
    requires
        0 <= i < paths.len(),
    ensures
        flat_operations(paths.take(i + 1)) == flat_operations(paths.take(i)) + methods_of(paths[i].0@, paths[i].1@),
{
    assert(paths.take(i + 1).drop_last() == paths.take(i));
}

pub proof fn lemma_methods_of_step(path: Seq<char>, methods: Seq<(String, Operation)>, j: int)
    requires
        0 <= j < methods.len(),
    ensures
        methods_of(path, methods.take(j + 1)) == methods_of(path, methods.take(j)).push((path, methods[j].0@, methods[j].1@)),
{
    assert(methods_of(path, methods.take(j + 1)) =~= methods_of(path, methods.take(j)).push((path, methods[j].0@, methods[j].1@)));
}

/// The names of a list of named entries, in order.
pub open spec fn names_of<T>(entries: Seq<(String, T)>) -> Seq<Seq<char>> {
    entries.map_values(|e: (String, T)| e.0@)
}

/// Whether a list of texts holds one equal to `s`.
pub fn contains_text(v: &Vec<String>, s: &String) -> (r: bool)
    ensures
        r == strs_view(v@).contains(s@),
{
    let mut i: usize = 0;
    while i < v.len()
        invariant
            i <= v.len(),
            forall|k: int| 0 <= k < i ==> v@[k]@ != s@,
        decreases v.len() - i,
    {
        if crate::text::str_eq(v[i].as_str(), s.as_str()) {
            assert(strs_view(v@)[i as int] == s@);
            return true;
        }
        i = i + 1;
    }
    assert(!strs_view(v@).contains(s@)) by {
        if strs_view(v@).contains(s@) {
            let k = choose|k: int| 0 <= k < strs_view(v@).len() && strs_view(v@)[k] == s@;
            assert(v@[k]@ == s@);
        }
    }
    false
}

} // verus!
