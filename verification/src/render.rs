//! What the detail panel shows of a schema and the colours it picks: the short
//! type of a schema, the indented outline of a schema with its references
//! resolved, and the colour of a method or a status.
use vstd::prelude::*;
use crate::model::{Schema, SchemaView, opt_view, strs_view};
use crate::text::{concat_str, push_char, str_eq};
use crate::screen::{decimal, decimal_of};
use crate::validate::{ref_name, ref_name_of};

verus! {

/// The colours the viewer draws with.
#[derive(Clone, Copy, PartialEq, Eq, Structural, Debug)]
pub enum Tint {
    Green,
    Blue,
    Yellow,
    Red,
    Magenta,
    Cyan,
    White,
    Gray,
    DarkGray,
}

/// How a piece of text is drawn: its colour and background, when it has
/// them, and whether it is bold.
#[derive(Clone, Copy, PartialEq, Eq, Structural, Debug)]
pub struct Look {
    pub fg: Option<Tint>,
    pub bg: Option<Tint>,
    pub bold: bool,
}

/// Plain text.
pub open spec fn plain() -> Look {
    Look { fg: None, bg: None, bold: false }
}

/// Text in a colour.
pub open spec fn fg(t: Tint) -> Look {
    Look { fg: Some(t), bg: None, bold: false }
}

/// Bold text in a colour.
pub open spec fn fg_bold(t: Tint) -> Look {
    Look { fg: Some(t), bg: None, bold: true }
}

/// A piece of a line drawn in one look.
pub struct Span {
    pub text: String,
    pub look: Look,
}

impl View for Span {
    type V = (Seq<char>, Look);

    open spec fn view(&self) -> (Seq<char>, Look) {
        (self.text@, self.look)
    }
}

/// Text in a colour.
pub fn fg_look(t: Tint) -> (l: Look)
    ensures
        l == fg(t),
{
    Look { fg: Some(t), bg: None, bold: false }
}

pub open spec fn line_view(line: Seq<Span>) -> Seq<(Seq<char>, Look)> {
    line.map_values(|s: Span| s@)
}

pub open spec fn lines_view(lines: Seq<Vec<Span>>) -> Seq<Seq<(Seq<char>, Look)>> {
    lines.map_values(|l: Vec<Span>| line_view(l@))
}

// ─── Colours ────────────────────────────────────────────────────────────────

/// The colour of an HTTP method.
pub open spec fn method_tint_of(m: Seq<char>) -> Tint {
    if m == "GET"@ {
        Tint::Green
    } else if m == "POST"@ {
        Tint::Blue
    } else if m == "PUT"@ {
        Tint::Yellow
    } else if m == "DELETE"@ {
        Tint::Red
    } else if m == "PATCH"@ {
        Tint::Magenta
    } else {
        Tint::White
    }
}

/// The colour of an HTTP method: GET green, POST blue, PUT yellow, DELETE red,
/// PATCH magenta, anything else white.
pub fn method_tint(method: &str) -> (t: Tint)
    ensures
        t == method_tint_of(method@),
{
    if str_eq(method, "GET") {
        Tint::Green
    } else if str_eq(method, "POST") {
        Tint::Blue
    } else if str_eq(method, "PUT") {
        Tint::Yellow
    } else if str_eq(method, "DELETE") {
        Tint::Red
    } else if str_eq(method, "PATCH") {
        Tint::Magenta
    } else {
        Tint::White
    }
}

/// The colour of a response code in the specification, by its first character:
/// 2 green, 3 yellow, 4 and 5 red, anything else white.
pub open spec fn code_tint_of(code: Seq<char>) -> Tint {
    if code.len() == 0 {
        Tint::White
    } else if code[0] == '2' {
        Tint::Green
    } else if code[0] == '3' {
        Tint::Yellow
    } else if code[0] == '4' || code[0] == '5' {
        Tint::Red
    } else {
        Tint::White
    }
}

/// The colour of a response code, as `code_tint_of` states.
pub fn code_tint(code: &str) -> (t: Tint)
    ensures
        t == code_tint_of(code@),
{
    let cs = crate::text::chars_of(code);
    if cs.len() == 0 {
        Tint::White
    } else if cs[0] == '2' {
        Tint::Green
    } else if cs[0] == '3' {
        Tint::Yellow
    } else if cs[0] == '4' || cs[0] == '5' {
        Tint::Red
    } else {
        Tint::White
    }
}

/// The colour of the status of a response received: 2xx green, 3xx yellow,
/// anything else red.
pub open spec fn status_tint_of(status: u16) -> Tint {
    if 200 <= status <= 299 {
        Tint::Green
    } else if 300 <= status <= 399 {
        Tint::Yellow
    } else {
        Tint::Red
    }
}

/// The colour of the status of a response received, as `status_tint_of` states.
pub fn status_tint(status: u16) -> (t: Tint)
    ensures
        t == status_tint_of(status),
{
    if 200 <= status && status <= 299 {
        Tint::Green
    } else if 300 <= status && status <= 399 {
        Tint::Yellow
    } else {
        Tint::Red
    }
}

// ─── The short type of a schema ─────────────────────────────────────────────

/// The short type of a schema: the name a reference points at; `[inner]` for
/// an array of items; `array` for an array without items; the type (`object`
/// when none is given), with its format in brackets when there is one.
pub open spec fn type_label(s: SchemaView) -> Seq<char>
    decreases s,
{
    match s.reference {
        Some(r) => ref_name(r),
        None => {
            let base = match s.schema_type {
                Some(t) => t,
                None => "object"@,
            };
            if base == "array"@ {
                match s.items {
                    Some(it) => seq!['['] + type_label(*it) + seq![']'],
                    None => "array"@,
                }
            } else {
                match s.format {
                    Some(f) => base + seq!['('] + f + seq![')'],
                    None => base,
                }
            }
        },
    }
}

/// The short type of a schema, as `type_label` states.
pub fn prop_type_str(schema: &Schema) -> (r: String)
    ensures
        r@ == type_label(schema@),
    decreases schema,
{
    match &schema.reference {
        Some(r) => {
            return ref_name_of(r.as_str());
        },
        None => {},
    }
    let base: String = match &schema.schema_type {
        Some(t) => t.clone(),
        None => String::from_str("object"),
    };
    if str_eq(base.as_str(), "array") {
        match &schema.items {
            Some(items) => {
                let inner = prop_type_str(items);
                let mut r = String::new();
                push_char(&mut r, '[');
                r.append(inner.as_str());
                push_char(&mut r, ']');
                assert(r@ =~= seq!['['] + inner@ + seq![']']);
                return r;
            },
            None => {
                return String::from_str("array");
            },
        }
    }
    match &schema.format {
        Some(f) => {
            let mut r = base.clone();
            push_char(&mut r, '(');
            r.append(f.as_str());
            push_char(&mut r, ')');
            assert(r@ =~= base@ + seq!['('] + f@ + seq![')']);
            r
        },
        None => base,
    }
}

// ─── The outline of a schema ────────────────────────────────────────────────

/// `n` spaces.
pub open spec fn spaces(n: nat) -> Seq<char> {
    Seq::new(n, |i: int| ' ')
}

pub open spec fn defs_view(defs: Seq<(String, Schema)>) -> Seq<(Seq<char>, SchemaView)> {
    defs.map_values(|d: (String, Schema)| (d.0@, d.1@))
}

/// The first definition called `name`.
pub open spec fn lookup_def(defs: Seq<(Seq<char>, SchemaView)>, name: Seq<char>) -> Option<SchemaView>
    decreases defs.len(),
{
    if defs.len() == 0 {
        None
    } else {
        match lookup_def(defs.drop_last(), name) {
            Some(d) => Some(d),
            None => if defs.last().0 == name {
                Some(defs.last().1)
            } else {
                None
            },
        }
    }
}

/// How many levels of nesting are left before the outline is cut off.
pub open spec fn depth_left(indent: nat, max_depth: nat) -> nat {
    if indent > max_depth {
        0
    } else {
        (max_depth + 1 - indent) as nat
    }
}

/// A property whose schema is drawn nested below its line: a reference, an
/// object with properties, or an array with items.
pub open spec fn nests(p: SchemaView) -> bool {
    p.reference is Some || p.properties.len() > 0 || (p.schema_type == Some("array"@) && p.items is Some)
}

/// The outline of a schema at an indentation level (two spaces a level):
/// beyond `max_depth` an ellipsis; a reference as the definition it names,
/// opened and closed in braces around its own outline (or as itself when the
/// name is not defined); an array with items in square brackets around the
/// items' outline; an object as a line per property (`name`, a red `*` when it
/// is required, `: type`), each nested schema below its line; anything else as
/// its short type.
pub open spec fn schema_lines(s: SchemaView, defs: Seq<(Seq<char>, SchemaView)>, indent: nat, max_depth: nat) -> Seq<Seq<(Seq<char>, Look)>>
    decreases depth_left(indent, max_depth), 1nat, 0nat,
{
    let pad = spaces(indent * 2);
    if indent > max_depth {
        seq![seq![(pad + "..."@, fg(Tint::DarkGray))]]
    } else {
        match s.reference {
            Some(r) => {
                let name = ref_name(r);
                match lookup_def(defs, name) {
                    Some(d) => seq![seq![(pad + name + " {"@, fg(Tint::Magenta))]] + schema_lines(
                        d,
                        defs,
                        indent + 1,
                        max_depth,
                    ) + seq![seq![(pad + "}"@, fg(Tint::Magenta))]],
                    None => seq![seq![(pad + "$ref: "@ + r, fg(Tint::Yellow))]],
                }
            },
            None => if s.schema_type == Some("array"@) {
                match s.items {
                    Some(it) => seq![seq![(pad + "array ["@, fg(Tint::Cyan))]] + schema_lines(
                        *it,
                        defs,
                        indent + 1,
                        max_depth,
                    ) + seq![seq![(pad + "]"@, fg(Tint::Cyan))]],
                    None => seq![],
                }
            } else if s.properties.len() > 0 {
                property_lines(s.properties, s.required, defs, indent, max_depth)
            } else if type_label(s).len() > 0 {
                seq![seq![(pad + type_label(s), fg(Tint::Gray))]]
            } else {
                seq![]
            },
        }
    }
}

/// The lines of the properties of an object, property after property.
pub open spec fn property_lines(
    ps: Seq<(Seq<char>, SchemaView)>,
    required: Seq<Seq<char>>,
    defs: Seq<(Seq<char>, SchemaView)>,
    indent: nat,
    max_depth: nat,
) -> Seq<Seq<(Seq<char>, Look)>>
    decreases depth_left(indent, max_depth), 0nat, ps.len(),
{
    if ps.len() == 0 || indent > max_depth {
        seq![]
    } else {
        let pad = spaces(indent * 2);
        let name = ps.last().0;
        let prop = ps.last().1;
        property_lines(ps.drop_last(), required, defs, indent, max_depth) + seq![
            seq![
                (pad + name, fg(Tint::White)),
                (
                    if required.contains(name) {
                        "*"@
                    } else {
                        Seq::<char>::empty()
                    },
                    fg(Tint::Red),
                ),
                (": "@ + type_label(prop), fg(Tint::Gray)),
            ],
        ] + if nests(prop) {
            schema_lines(prop, defs, indent + 1, max_depth)
        } else {
            Seq::<Seq<(Seq<char>, Look)>>::empty()
        }
    }
}

/// `n` spaces.
pub fn spaces_of(n: usize) -> (r: String)
    ensures
        r@ == spaces(n as nat),
{
    let mut r = String::new();
    let mut i: usize = 0;
    while i < n
        invariant
            i <= n,
            r@ == spaces(i as nat),
        decreases n - i,
    {
        push_char(&mut r, ' ');
        assert(r@ =~= spaces((i + 1) as nat));
        i = i + 1;
    }
    r
}

/// The first definition called `name`.
pub fn find_definition<'a>(defs: &'a Vec<(String, Schema)>, name: &String) -> (r: Option<&'a Schema>)
    ensures
        match r {
            Some(d) => lookup_def(defs_view(defs@), name@) == Some(d@),
            None => lookup_def(defs_view(defs@), name@) is None,
        },
{
    let ghost dv = defs_view(defs@);
    let mut i: usize = 0;
    while i < defs.len()
        invariant
            i <= defs.len(),
            dv == defs_view(defs@),
            lookup_def(dv.take(i as int), name@) is None,
        decreases defs.len() - i,
    {
        assert(dv.take(i + 1).drop_last() == dv.take(i as int));
        if str_eq(defs[i].0.as_str(), name.as_str()) {
            proof { lemma_lookup_def_extend(dv, name@, i + 1); }
            return Some(&defs[i].1);
        }
        i = i + 1;
    }
    assert(dv.take(defs.len() as int) == dv);
    None
}

proof fn lemma_lookup_def_extend(defs: Seq<(Seq<char>, SchemaView)>, name: Seq<char>, k: int)
    requires
        0 <= k <= defs.len(),
        lookup_def(defs.take(k), name) is Some,
    ensures
        lookup_def(defs, name) == lookup_def(defs.take(k), name),
    decreases defs.len() - k,
{
    if k < defs.len() {
        assert(defs.take(k + 1).drop_last() == defs.take(k));
        lemma_lookup_def_extend(defs, name, k + 1);
    } else {
        assert(defs.take(k) == defs);
    }
}

/// A line of one span.
pub fn one_span_line(text: String, tint: Tint) -> (l: Vec<Span>)
    ensures
        line_view(l@) == seq![(text@, fg(tint))],
{
    let mut l: Vec<Span> = Vec::new();
    l.push(Span { text, look: fg_look(tint) });
    assert(line_view(l@) =~= seq![(text@, fg(tint))]);
    l
}

/// Appends a line to the lines.
pub fn push_line(lines: &mut Vec<Vec<Span>>, l: Vec<Span>)
    ensures
        lines_view(final(lines)@) == lines_view(old(lines)@).push(line_view(l@)),
{
    let ghost before = lines_view(lines@);
    lines.push(l);
    assert(lines_view(lines@) =~= before.push(line_view(l@)));
}

/// Whether the schema's type is `array`.
fn is_array_type(schema: &Schema) -> (r: bool)
    ensures
        r == (schema@.schema_type == Some("array"@)),
{
    match &schema.schema_type {
        Some(t) => str_eq(t.as_str(), "array"),
        None => false,
    }
}

/// Appends the outline of a schema at an indentation level, as
/// `schema_lines` states.
pub fn render_schema(
    lines: &mut Vec<Vec<Span>>,
    schema: &Schema,
    definitions: &Vec<(String, Schema)>,
    indent: usize,
    max_depth: usize,
)
    requires
        max_depth < usize::MAX / 2,
        indent <= usize::MAX / 2,
    ensures
        lines_view(final(lines)@) == lines_view(old(lines)@) + schema_lines(
            schema@,
            defs_view(definitions@),
            indent as nat,
            max_depth as nat,
        ),
    decreases depth_left(indent as nat, max_depth as nat),
{
    let ghost l0 = lines_view(lines@);
    let ghost dv = defs_view(definitions@);
    let pad = spaces_of(indent * 2);
    if indent > max_depth {
        let t = concat_str(pad.as_str(), "...");
        push_line(lines, one_span_line(t, Tint::DarkGray));
        return;
    }
    match &schema.reference {
        Some(ref_path) => {
            let name = ref_name_of(ref_path.as_str());
            match find_definition(definitions, &name) {
                Some(resolved) => {
                    let a = concat_str(pad.as_str(), name.as_str());
                    let open = concat_str(a.as_str(), " {");
                    push_line(lines, one_span_line(open, Tint::Magenta));
                    render_schema(lines, resolved, definitions, indent + 1, max_depth);
                    let close = concat_str(pad.as_str(), "}");
                    push_line(lines, one_span_line(close, Tint::Magenta));
                },
                None => {
                    let a = concat_str(pad.as_str(), "$ref: ");
                    let t = concat_str(a.as_str(), ref_path.as_str());
                    push_line(lines, one_span_line(t, Tint::Yellow));
                },
            }
            return;
        },
        None => {},
    }
    if is_array_type(schema) {
        match &schema.items {
            Some(items) => {
                let open = concat_str(pad.as_str(), "array [");
                push_line(lines, one_span_line(open, Tint::Cyan));
                render_schema(lines, items, definitions, indent + 1, max_depth);
                let close = concat_str(pad.as_str(), "]");
                push_line(lines, one_span_line(close, Tint::Cyan));
            },
            None => {},
        }
        return;
    }
    if schema.properties.len() > 0 {
        let ghost ps = schema@.properties;
        let ghost req = schema@.required;
        let mut i: usize = 0;
        while i < schema.properties.len()
            invariant
                i <= schema.properties.len(),
                ps == schema@.properties,
                req == schema@.required,
                dv == defs_view(definitions@),
                pad@ == spaces((indent * 2) as nat),
                indent <= max_depth,
                max_depth < usize::MAX / 2,
                lines_view(lines@) == l0 + property_lines(ps.take(i as int), req, dv, indent as nat, max_depth as nat),
            decreases schema.properties.len() - i,
        {
            let name = &schema.properties[i].0;
            let prop = &schema.properties[i].1;
            assert(ps.take(i + 1).drop_last() == ps.take(i as int));
            assert(ps.take(i + 1).last() == (name@, prop@));
            let type_str = prop_type_str(prop);
            let req_mark = if contains_text_ref(&schema.required, name) {
                String::from_str("*")
            } else {
                String::new()
            };
            let mut line: Vec<Span> = Vec::new();
            line.push(Span { text: concat_str(pad.as_str(), name.as_str()), look: fg_look(Tint::White) });
            line.push(Span { text: req_mark, look: fg_look(Tint::Red) });
            line.push(Span { text: concat_str(": ", type_str.as_str()), look: fg_look(Tint::Gray) });
            let ghost lv = line_view(line@);
            let ghost expected = seq![
                (pad@ + name@, fg(Tint::White)),
                (
                    if req.contains(name@) {
                        "*"@
                    } else {
                        Seq::<char>::empty()
                    },
                    fg(Tint::Red),
                ),
                (": "@ + type_label(prop@), fg(Tint::Gray)),
            ];
            assert(lv =~= expected);
            let ghost mid = lines_view(lines@);
            push_line(lines, line);
            let ghost after_line = lines_view(lines@);
            let nested = prop.reference.is_some() || prop.properties.len() > 0 || (is_array_type(prop)
                && prop.items.is_some());
            assert(nested == nests(prop@));
            if nested {
                render_schema(lines, prop, definitions, indent + 1, max_depth);
                assert(lines_view(lines@) == after_line + schema_lines(prop@, dv, (indent + 1) as nat, max_depth as nat));
            }
            assert(property_lines(ps.take(i + 1), req, dv, indent as nat, max_depth as nat)
                == property_lines(ps.take(i as int), req, dv, indent as nat, max_depth as nat) + seq![expected]
                + if nests(prop@) {
                    schema_lines(prop@, dv, (indent + 1) as nat, max_depth as nat)
                } else {
                    Seq::<Seq<(Seq<char>, Look)>>::empty()
                });
            assert(lines_view(lines@) =~= l0 + property_lines(ps.take(i + 1), req, dv, indent as nat, max_depth as nat));
            i = i + 1;
        }
        assert(ps.take(ps.len() as int) == ps);
        return;
    }
    let t = prop_type_str(schema);
    if !t.as_str().is_empty() {
        let text = concat_str(pad.as_str(), t.as_str());
        push_line(lines, one_span_line(text, Tint::Gray));
    }
}

/// Whether a list of texts holds one equal to `s`.
fn contains_text_ref(v: &Vec<String>, s: &String) -> (r: bool)
    ensures
        r == strs_view(v@).contains(s@),
{
    crate::model::contains_text(v, s)
}

// ─── Example values ─────────────────────────────────────────────────────────

/// A JSON value shown as an example of a schema. `Raw` holds the JSON text of
/// a value the specification gives (an example or an enum value).
#[derive(Debug, PartialEq)]
pub enum ExampleValue {
    Raw(String),
    Text(String),
    Number(i64),
    Bool(bool),
    Array(Vec<ExampleValue>),
    Object(Vec<(String, ExampleValue)>),
}

pub ghost enum ExampleView {
    Raw(Seq<char>),
    Text(Seq<char>),
    Number(int),
    Bool(bool),
    Array(Seq<ExampleView>),
    Object(Seq<(Seq<char>, ExampleView)>),
}

impl ExampleValue {
    pub open spec fn model(&self) -> ExampleView
        decreases self,
    {
        match self {
            ExampleValue::Raw(t) => ExampleView::Raw(t@),
            ExampleValue::Text(t) => ExampleView::Text(t@),
            ExampleValue::Number(n) => ExampleView::Number(*n as int),
            ExampleValue::Bool(b) => ExampleView::Bool(*b),
            ExampleValue::Array(items) => ExampleView::Array(
                Seq::new(
                    items@.len(),
                    |i: int|
                        if 0 <= i < items@.len() {
                            items@[i].model()
                        } else {
                            arbitrary()
                        },
                ),
            ),
            ExampleValue::Object(entries) => ExampleView::Object(
                Seq::new(
                    entries@.len(),
                    |i: int|
                        if 0 <= i < entries@.len() {
                            (entries@[i].0@, entries@[i].1.model())
                        } else {
                            arbitrary()
                        },
                ),
            ),
        }
    }
}

impl View for ExampleValue {
    type V = ExampleView;

    open spec fn view(&self) -> ExampleView {
        self.model()
    }
}

/// The example of a schema with no reference, items or properties: the first
/// enum value or a date, date-time or plain placeholder for a string, 0 for a
/// number, `true` for a boolean, an empty object otherwise.
pub open spec fn simple_example(s: SchemaView) -> ExampleView {
    match s.schema_type {
        Some(t) => if t == "string"@ {
            if s.enum_values.len() > 0 {
                ExampleView::Raw(s.enum_values[0])
            } else if s.format == Some("date-time"@) {
                ExampleView::Text("2024-01-01T00:00:00Z"@)
            } else if s.format == Some("date"@) {
                ExampleView::Text("2024-01-01"@)
            } else {
                ExampleView::Text("string"@)
            }
        } else if t == "integer"@ || t == "number"@ {
            ExampleView::Number(0)
        } else if t == "boolean"@ {
            ExampleView::Bool(true)
        } else {
            ExampleView::Object(seq![])
        },
        None => ExampleView::Object(seq![]),
    }
}

/// The example of a schema at a nesting depth: beyond `max_depth` an empty
/// object; the schema's own example when it gives one; for a reference, the
/// example of the definition it names (at the same depth), or `<name>` when it
/// is not defined; an array of the items' example (an empty array without
/// items); an object of each property's example; otherwise `simple_example`.
/// `fuel` is how many references in a row may still be followed before the
/// chain counts as endless; it starts again at `k` below each level.
pub open spec fn example_of(
    s: SchemaView,
    defs: Seq<(Seq<char>, SchemaView)>,
    depth: nat,
    max_depth: nat,
    k: nat,
    fuel: nat,
) -> ExampleView
    decreases depth_left(depth, max_depth), fuel,
{
    if depth > max_depth {
        ExampleView::Object(seq![])
    } else {
        match s.example {
            Some(ex) => ExampleView::Raw(ex),
            None => match s.reference {
                Some(r) => {
                    let name = ref_name(r);
                    match lookup_def(defs, name) {
                        Some(d) => if fuel > 0 {
                            example_of(d, defs, depth, max_depth, k, (fuel - 1) as nat)
                        } else {
                            ExampleView::Object(seq![])
                        },
                        None => ExampleView::Text(seq!['<'] + name + seq!['>']),
                    }
                },
                None => if s.schema_type == Some("array"@) {
                    match s.items {
                        Some(it) => ExampleView::Array(seq![example_of(*it, defs, depth + 1, max_depth, k, k)]),
                        None => ExampleView::Array(seq![]),
                    }
                } else if s.properties.len() > 0 {
                    ExampleView::Object(
                        Seq::new(
                            s.properties.len(),
                            |i: int|
                                if 0 <= i < s.properties.len() {
                                    (
                                        s.properties[i].0,
                                        example_of(s.properties[i].1, defs, depth + 1, max_depth, k, k),
                                    )
                                } else {
                                    arbitrary()
                                },
                        ),
                    )
                } else {
                    simple_example(s)
                },
            },
        }
    }
}

/// Every chain of references met while building the example of `s` ends
/// within `fuel` (then `k` on each deeper level) steps.
pub open spec fn example_ends(
    s: SchemaView,
    defs: Seq<(Seq<char>, SchemaView)>,
    depth: nat,
    max_depth: nat,
    k: nat,
    fuel: nat,
) -> bool
    decreases depth_left(depth, max_depth), 1nat, fuel,
{
    if depth > max_depth {
        true
    } else {
        match s.example {
            Some(_) => true,
            None => match s.reference {
                Some(r) => match lookup_def(defs, ref_name(r)) {
                    Some(d) => fuel > 0 && example_ends(d, defs, depth, max_depth, k, (fuel - 1) as nat),
                    None => true,
                },
                None => if s.schema_type == Some("array"@) {
                    match s.items {
                        Some(it) => example_ends(*it, defs, depth + 1, max_depth, k, k),
                        None => true,
                    }
                } else {
                    properties_end(s.properties, defs, depth, max_depth, k)
                },
            },
        }
    }
}

/// `example_ends` holds of each property's schema one level deeper.
pub open spec fn properties_end(
    ps: Seq<(Seq<char>, SchemaView)>,
    defs: Seq<(Seq<char>, SchemaView)>,
    depth: nat,
    max_depth: nat,
    k: nat,
) -> bool
    decreases depth_left(depth, max_depth), 0nat, ps.len(),
{
    if ps.len() == 0 || depth > max_depth {
        true
    } else {
        properties_end(ps.drop_last(), defs, depth, max_depth, k) && example_ends(
            ps.last().1,
            defs,
            depth + 1,
            max_depth,
            k,
            k,
        )
    }
}

proof fn lemma_properties_end_prefix(
    ps: Seq<(Seq<char>, SchemaView)>,
    defs: Seq<(Seq<char>, SchemaView)>,
    depth: nat,
    max_depth: nat,
    k: nat,
    n: int,
)
    requires
        0 <= n <= ps.len(),
        properties_end(ps, defs, depth, max_depth, k),
    ensures
        properties_end(ps.take(n), defs, depth, max_depth, k),
    decreases ps.len() - n,
{
    if n < ps.len() {
        lemma_properties_end_prefix(ps, defs, depth, max_depth, k, n + 1);
        assert(ps.take(n + 1).drop_last() == ps.take(n));
    } else {
        assert(ps.take(n) == ps);
    }
}

/// Whether a schema's format is `f`.
fn has_format(schema: &Schema, f: &str) -> (r: bool)
    ensures
        r == (schema@.format == Some(f@)),
{
    match &schema.format {
        Some(x) => str_eq(x.as_str(), f),
        None => false,
    }
}

/// The example of a schema with no reference, items or properties.
fn simple_example_value(schema: &Schema) -> (v: ExampleValue)
    ensures
        v@ == simple_example(schema@),
{
    let empty: Vec<(String, ExampleValue)> = Vec::new();
    let r = match &schema.schema_type {
        Some(t) => if str_eq(t.as_str(), "string") {
            if schema.enum_values.len() > 0 {
                ExampleValue::Raw(schema.enum_values[0].clone())
            } else if has_format(schema, "date-time") {
                ExampleValue::Text(String::from_str("2024-01-01T00:00:00Z"))
            } else if has_format(schema, "date") {
                ExampleValue::Text(String::from_str("2024-01-01"))
            } else {
                ExampleValue::Text(String::from_str("string"))
            }
        } else if str_eq(t.as_str(), "integer") || str_eq(t.as_str(), "number") {
            ExampleValue::Number(0)
        } else if str_eq(t.as_str(), "boolean") {
            ExampleValue::Bool(true)
        } else {
            ExampleValue::Object(empty)
        },
        None => ExampleValue::Object(empty),
    };
    proof {
        if r is Object {
            assert(r@->Object_0 =~= seq![]);
        }
    }
    r
}

/// The example of a schema, as `example_of` states, or `None` when a chain of
/// references runs out of fuel (as `example_ends` states).
fn build_example(
    schema: &Schema,
    definitions: &Vec<(String, Schema)>,
    depth: usize,
    max_depth: usize,
    k: usize,
    fuel: usize,
) -> (r: Option<ExampleValue>)
    requires
        max_depth < usize::MAX,
    ensures
        r is Some <==> example_ends(schema@, defs_view(definitions@), depth as nat, max_depth as nat, k as nat, fuel as nat),
        r matches Some(v) ==> v@ == example_of(
            schema@,
            defs_view(definitions@),
            depth as nat,
            max_depth as nat,
            k as nat,
            fuel as nat,
        ),
    decreases depth_left(depth as nat, max_depth as nat), fuel,
{
    let ghost dv = defs_view(definitions@);
    if depth > max_depth {
        let empty: Vec<(String, ExampleValue)> = Vec::new();
        let v = ExampleValue::Object(empty);
        assert(v@->Object_0 =~= seq![]);
        return Some(v);
    }
    match &schema.example {
        Some(ex) => {
            return Some(ExampleValue::Raw(ex.clone()));
        },
        None => {},
    }
    match &schema.reference {
        Some(ref_path) => {
            let name = ref_name_of(ref_path.as_str());
            match find_definition(definitions, &name) {
                Some(resolved) => {
                    if fuel == 0 {
                        return None;
                    }
                    return build_example(resolved, definitions, depth, max_depth, k, fuel - 1);
                },
                None => {
                    let mut t = String::new();
                    push_char(&mut t, '<');
                    t.append(name.as_str());
                    push_char(&mut t, '>');
                    assert(t@ =~= seq!['<'] + name@ + seq!['>']);
                    return Some(ExampleValue::Text(t));
                },
            }
        },
        None => {},
    }
    if is_array_type(schema) {
        match &schema.items {
            Some(items) => {
                match build_example(items, definitions, depth + 1, max_depth, k, k) {
                    Some(item) => {
                        let mut arr: Vec<ExampleValue> = Vec::new();
                        arr.push(item);
                        let v = ExampleValue::Array(arr);
                        assert(v@->Array_0 =~= seq![item@]);
                        return Some(v);
                    },
                    None => {
                        return None;
                    },
                }
            },
            None => {
                let arr: Vec<ExampleValue> = Vec::new();
                let v = ExampleValue::Array(arr);
                assert(v@->Array_0 =~= seq![]);
                return Some(v);
            },
        }
    }
    if schema.properties.len() > 0 {
        let ghost ps = schema@.properties;
        let mut entries: Vec<(String, ExampleValue)> = Vec::new();
        let mut i: usize = 0;
        while i < schema.properties.len()
            invariant
                i <= schema.properties.len(),
                ps == schema@.properties,
                dv == defs_view(definitions@),
                depth <= max_depth,
                max_depth < usize::MAX,
                schema@.example is None,
                schema@.reference is None,
                schema@.schema_type != Some("array"@),
                entries@.len() == i,
                properties_end(ps.take(i as int), dv, depth as nat, max_depth as nat, k as nat),
                forall|j: int|
                    #![trigger entries@[j]]
                    0 <= j < i ==> entries@[j].0@ == ps[j].0 && entries@[j].1@ == example_of(
                        ps[j].1,
                        dv,
                        (depth + 1) as nat,
                        max_depth as nat,
                        k as nat,
                        k as nat,
                    ),
            decreases schema.properties.len() - i,
        {
            assert(ps[i as int] == (schema.properties@[i as int].0@, schema.properties@[i as int].1@));
            assert(ps.take(i + 1).drop_last() == ps.take(i as int));
            assert(ps.take(i + 1).last() == ps[i as int]);
            match build_example(&schema.properties[i].1, definitions, depth + 1, max_depth, k, k) {
                Some(v) => {
                    let ghost before = entries@;
                    entries.push((schema.properties[i].0.clone(), v));
                    assert forall|j: int|
                        #![trigger entries@[j]]
                        0 <= j < i + 1 implies entries@[j].0@ == ps[j].0 && entries@[j].1@ == example_of(
                            ps[j].1,
                            dv,
                            (depth + 1) as nat,
                            max_depth as nat,
                            k as nat,
                            k as nat,
                        ) by {
                        if j < i {
                            assert(entries@[j] == before[j]);
                        }
                    }
                },
                None => {
                    assert(!example_ends(ps[i as int].1, dv, (depth + 1) as nat, max_depth as nat, k as nat, k as nat));
                    assert((depth + 1) as nat == depth as nat + 1);
                    assert(!example_ends(schema@.properties[i as int].1, dv, depth as nat + 1, max_depth as nat, k as nat, k as nat));
                    proof {
                        if example_ends(schema@, dv, depth as nat, max_depth as nat, k as nat, fuel as nat) {
                            lemma_properties_end_prefix(ps, dv, depth as nat, max_depth as nat, k as nat, i + 1);
                        }
                    }
                    return None;
                },
            }
            i = i + 1;
        }
        assert(ps.take(ps.len() as int) == ps);
        let v = ExampleValue::Object(entries);
        assert(v@ =~= example_of(schema@, dv, depth as nat, max_depth as nat, k as nat, fuel as nat)) by {
            let ev = example_of(schema@, dv, depth as nat, max_depth as nat, k as nat, fuel as nat);
            match (v@, ev) {
                (ExampleView::Object(a), ExampleView::Object(b)) => {
                    assert forall|j: int| 0 <= j < a.len() implies a[j] == b[j] by {
                        assert(entries@[j].0@ == ps[j].0);
                    }
                    assert(a =~= b);
                },
                _ => {},
            }
        }
        return Some(v);
    }
    assert(schema@.properties.len() == 0);
    assert(properties_end(schema@.properties, dv, depth as nat, max_depth as nat, k as nat));
    Some(simple_example_value(schema))
}

/// The example shown for a schema nested `depth` levels deep, as `example_of`
/// states (references may be followed as many times in a row as there are
/// definitions). `None` when some chain of references met along the way is
/// longer than that, which happens only when it runs in a cycle: there the
/// example would never be finished.
pub fn generate_example(schema: &Schema, definitions: &Vec<(String, Schema)>, depth: usize, max_depth: usize) -> (r:
    Option<ExampleValue>)
    requires
        max_depth < usize::MAX,
    ensures
        r is Some <==> example_ends(
            schema@,
            defs_view(definitions@),
            depth as nat,
            max_depth as nat,
            definitions@.len(),
            definitions@.len(),
        ),
        r matches Some(v) ==> v@ == example_of(
            schema@,
            defs_view(definitions@),
            depth as nat,
            max_depth as nat,
            definitions@.len(),
            definitions@.len(),
        ),
{
    let n = definitions.len();
    build_example(schema, definitions, depth, max_depth, n, n)
}

/// The example shown for a schema, when every chain of references met along
/// the way ends (see `generate_example`).
pub fn build_example_value(schema: &Schema, definitions: &Vec<(String, Schema)>, depth: usize, max_depth: usize) -> (v:
    ExampleValue)
    requires
        max_depth < usize::MAX,
        example_ends(
            schema@,
            defs_view(definitions@),
            depth as nat,
            max_depth as nat,
            definitions@.len(),
            definitions@.len(),
        ),
    ensures
        v@ == example_of(
            schema@,
            defs_view(definitions@),
            depth as nat,
            max_depth as nat,
            definitions@.len(),
            definitions@.len(),
        ),
{
    match generate_example(schema, definitions, depth, max_depth) {
        Some(v) => v,
        None => {
            assert(false);
            ExampleValue::Bool(false)
        },
    }
}

// ─── Examples as JSON text ──────────────────────────────────────────────────

/// A hexadecimal digit, in lower case.
pub open spec fn hex_digit(d: nat) -> char {
    if d < 10 {
        crate::screen::digit(d)
    } else if d == 10 {
        'a'
    } else if d == 11 {
        'b'
    } else if d == 12 {
        'c'
    } else if d == 13 {
        'd'
    } else if d == 14 {
        'e'
    } else {
        'f'
    }
}

/// A character inside a JSON string: a quote and a backslash behind a
/// backslash, a control character as `\u00XX`, anything else as itself.
pub open spec fn escape_char(c: char) -> Seq<char> {
    if c == '"' {
        seq!['\\', '"']
    } else if c == '\\' {
        seq!['\\', '\\']
    } else if (c as u32) < 0x20 {
        seq!['\\', 'u', '0', '0', hex_digit((c as u32 / 16) as nat), hex_digit((c as u32 % 16) as nat)]
    } else {
        seq![c]
    }
}

/// The characters of a text inside a JSON string.
pub open spec fn escaped(s: Seq<char>) -> Seq<char>
    decreases s.len(),
{
    if s.len() == 0 {
        seq![]
    } else {
        escaped(s.drop_last()) + escape_char(s.last())
    }
}

/// A text as a JSON string.
pub open spec fn json_quote(s: Seq<char>) -> Seq<char> {
    seq!['"'] + escaped(s) + seq!['"']
}

/// A whole number in JSON.
pub open spec fn json_number(n: int) -> Seq<char> {
    if n < 0 {
        seq!['-'] + decimal((-n) as nat)
    } else {
        decimal(n as nat)
    }
}

/// An example as compact JSON text: a raw value as its text, a text as a JSON
/// string, arrays and objects with `,` between the items and `:` after each
/// key.
pub open spec fn json_text(v: ExampleView) -> Seq<char>
    decreases v, 1nat,
{
    match v {
        ExampleView::Raw(t) => t,
        ExampleView::Text(t) => json_quote(t),
        ExampleView::Number(n) => json_number(n),
        ExampleView::Bool(b) => if b {
            "true"@
        } else {
            "false"@
        },
        ExampleView::Array(items) => seq!['['] + json_items(items) + seq![']'],
        ExampleView::Object(entries) => seq!['{'] + json_entries(entries) + seq!['}'],
    }
}

/// The items of a JSON array, with `,` between each two.
pub open spec fn json_items(items: Seq<ExampleView>) -> Seq<char>
    decreases items, 0nat,
{
    if items.len() == 0 {
        seq![]
    } else if items.len() == 1 {
        json_text(items[0])
    } else {
        json_items(items.subrange(0, items.len() - 1)) + seq![','] + json_text(items[items.len() - 1])
    }
}

/// The entries of a JSON object, `"key":value`, with `,` between each two.
pub open spec fn json_entries(entries: Seq<(Seq<char>, ExampleView)>) -> Seq<char>
    decreases entries, 0nat,
{
    if entries.len() == 0 {
        seq![]
    } else if entries.len() == 1 {
        json_quote(entries[0].0) + seq![':'] + json_text(entries[0].1)
    } else {
        json_entries(entries.subrange(0, entries.len() - 1)) + seq![','] + json_quote(
            entries[entries.len() - 1].0,
        ) + seq![':'] + json_text(entries[entries.len() - 1].1)
    }
}

/// A hexadecimal digit, in lower case.
fn hex_char(d: u32) -> (c: char)
    requires
        d < 16,
    ensures
        c == hex_digit(d as nat),
{
    if d == 0 {
        '0'
    } else if d == 1 {
        '1'
    } else if d == 2 {
        '2'
    } else if d == 3 {
        '3'
    } else if d == 4 {
        '4'
    } else if d == 5 {
        '5'
    } else if d == 6 {
        '6'
    } else if d == 7 {
        '7'
    } else if d == 8 {
        '8'
    } else if d == 9 {
        '9'
    } else if d == 10 {
        'a'
    } else if d == 11 {
        'b'
    } else if d == 12 {
        'c'
    } else if d == 13 {
        'd'
    } else if d == 14 {
        'e'
    } else {
        'f'
    }
}

/// Appends a character as it stands inside a JSON string.
fn push_escaped_char(out: &mut String, c: char)
    ensures
        final(out)@ == old(out)@ + escape_char(c),
{
    let ghost o0 = out@;
    if c == '"' {
        push_char(out, '\\');
        push_char(out, '"');
    } else if c == '\\' {
        push_char(out, '\\');
        push_char(out, '\\');
    } else if (c as u32) < 0x20 {
        let n = c as u32;
        push_char(out, '\\');
        push_char(out, 'u');
        push_char(out, '0');
        push_char(out, '0');
        push_char(out, hex_char(n / 16));
        push_char(out, hex_char(n % 16));
    } else {
        push_char(out, c);
    }
    assert(out@ =~= o0 + escape_char(c));
}

/// Appends a text as a JSON string.
fn push_quoted(out: &mut String, s: &str)
    ensures
        final(out)@ == old(out)@ + json_quote(s@),
{
    let ghost o0 = out@;
    let cs = crate::text::chars_of(s);
    push_char(out, '"');
    let mut i: usize = 0;
    assert(escaped(s@.take(0)) =~= Seq::<char>::empty());
    while i < cs.len()
        invariant
            i <= cs.len(),
            cs@ == s@,
            out@ == o0 + seq!['"'] + escaped(s@.take(i as int)),
        decreases cs.len() - i,
    {
        push_escaped_char(out, cs[i]);
        assert(s@.take(i + 1).drop_last() == s@.take(i as int));
        assert(s@.take(i + 1).last() == cs@[i as int]);
        assert(out@ =~= o0 + seq!['"'] + escaped(s@.take(i + 1)));
        i = i + 1;
    }
    assert(s@.take(cs.len() as int) == s@);
    push_char(out, '"');
    assert(out@ =~= o0 + json_quote(s@));
}

/// Appends an example as compact JSON text.
fn write_json(v: &ExampleValue, out: &mut String)
    ensures
        final(out)@ == old(out)@ + json_text(v@),
    decreases v,
{
    let ghost o0 = out@;
    match v {
        ExampleValue::Raw(t) => {
            out.append(t.as_str());
        },
        ExampleValue::Text(t) => {
            push_quoted(out, t.as_str());
        },
        ExampleValue::Number(n) => {
            if *n < 0 {
                push_char(out, '-');
                let m = (0i128 - (*n as i128)) as u64;
                let d = decimal_of(m);
                out.append(d.as_str());
            } else {
                let d = decimal_of(*n as u64);
                out.append(d.as_str());
            }
            assert(out@ =~= o0 + json_number(*n as int));
        },
        ExampleValue::Bool(b) => {
            if *b {
                out.append("true");
            } else {
                out.append("false");
            }
        },
        ExampleValue::Array(items) => {
            let ghost views = v@->Array_0;
            push_char(out, '[');
            let mut i: usize = 0;
            assert(json_items(views.take(0)) =~= Seq::<char>::empty());
            while i < items.len()
                invariant
                    i <= items.len(),
                    views == Seq::new(
                        items@.len(),
                        |j: int|
                            if 0 <= j < items@.len() {
                                items@[j].model()
                            } else {
                                arbitrary()
                            },
                    ),
                    out@ == o0 + seq!['['] + json_items(views.take(i as int)),
                    *v == ExampleValue::Array(*items),
                decreases items.len() - i,
            {
                if i > 0 {
                    push_char(out, ',');
                }
                proof {
                    assert(decreases_to!(*v => (*v)->Array_0));
                    assert((*v)->Array_0 == *items);
                    assert(decreases_to!(*items => items@));
                    assert(decreases_to!(items@ => items@[i as int]));
                    assert(decreases_to!(*v => items@[i as int]));
                }
                write_json(&items[i], out);
                assert(views.take(i + 1).subrange(0, i as int) == views.take(i as int));
                assert(views.take(i + 1)[i as int] == items@[i as int]@);
                proof {
                    if i == 0 {
                        assert(out@ =~= o0 + seq!['['] + json_items(views.take(1)));
                    } else {
                        assert(out@ =~= o0 + seq!['['] + json_items(views.take(i + 1)));
                    }
                }
                i = i + 1;
            }
            assert(views.take(items.len() as int) == views);
            push_char(out, ']');
            assert(out@ =~= o0 + json_text(v@));
        },
        ExampleValue::Object(entries) => {
            let ghost views = v@->Object_0;
            push_char(out, '{');
            let mut i: usize = 0;
            assert(json_entries(views.take(0)) =~= Seq::<char>::empty());
            while i < entries.len()
                invariant
                    i <= entries.len(),
                    views == Seq::new(
                        entries@.len(),
                        |j: int|
                            if 0 <= j < entries@.len() {
                                (entries@[j].0@, entries@[j].1.model())
                            } else {
                                arbitrary()
                            },
                    ),
                    out@ == o0 + seq!['{'] + json_entries(views.take(i as int)),
                    *v == ExampleValue::Object(*entries),
                decreases entries.len() - i,
            {
                proof {
                    assert(decreases_to!(*v => (*v)->Object_0));
                    assert((*v)->Object_0 == *entries);
                    assert(decreases_to!(*entries => entries@));
                    assert(decreases_to!(entries@ => entries@[i as int]));
                    assert(decreases_to!(entries@[i as int] => entries@[i as int].1));
                    assert(decreases_to!(*v => entries@[i as int].1));
                }
                if i > 0 {
                    push_char(out, ',');
                }
                push_quoted(out, entries[i].0.as_str());
                push_char(out, ':');
                write_json(&entries[i].1, out);
                assert(views.take(i + 1).subrange(0, i as int) == views.take(i as int));
                assert(views.take(i + 1)[i as int] == (entries@[i as int].0@, entries@[i as int].1@));
                proof {
                    if i == 0 {
                        assert(out@ =~= o0 + seq!['{'] + json_entries(views.take(1)));
                    } else {
                        assert(out@ =~= o0 + seq!['{'] + json_entries(views.take(i + 1)));
                    }
                }
                i = i + 1;
            }
            assert(views.take(entries.len() as int) == views);
            push_char(out, '}');
            assert(out@ =~= o0 + json_text(v@));
        },
    }
}

/// An example as compact JSON text, as `json_text` states.
pub fn json_of(v: &ExampleValue) -> (r: String)
    ensures
        r@ == json_text(v@),
{
    let mut r = String::new();
    write_json(v, &mut r);
    assert(r@ =~= json_text(v@));
    r
}

} // verus!
