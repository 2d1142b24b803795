use swagterm::model::Schema;
use swagterm::render::{
    build_example_value, code_tint, find_definition, generate_example, method_tint,
    prop_type_str, render_schema, status_tint, ExampleValue, Look, Span, Tint,
};
use swagterm::request::{
    build_query, build_url, curl_text, fill_path, method_sends_body, plan_request, pretty_body,
    shown_body, HttpMethod,
};

fn s(x: &str) -> String {
    x.to_string()
}

fn schema() -> Schema {
    Schema {
        schema_type: None,
        properties: Vec::new(),
        reference: None,
        items: None,
        description: None,
        enum_values: Vec::new(),
        required: Vec::new(),
        format: None,
        example: None,
    }
}

fn typed(t: &str) -> Schema {
    Schema { schema_type: Some(s(t)), ..schema() }
}

fn reference(r: &str) -> Schema {
    Schema { reference: Some(s(r)), ..schema() }
}

fn array_of(items: Schema) -> Schema {
    Schema { items: Some(Box::new(items)), ..typed("array") }
}

fn pet() -> Schema {
    Schema {
        properties: vec![
            (s("id"), Schema { format: Some(s("int64")), ..typed("integer") }),
            (s("name"), typed("string")),
            (s("tags"), array_of(reference("#/definitions/Tag"))),
        ],
        required: vec![s("name")],
        ..typed("object")
    }
}

fn definitions() -> Vec<(String, Schema)> {
    vec![
        (s("Pet"), pet()),
        (s("Tag"), Schema { properties: vec![(s("label"), typed("string"))], ..typed("object") }),
    ]
}

fn flat(lines: &[Vec<Span>]) -> Vec<Vec<(String, Look)>> {
    lines.iter().map(|l| l.iter().map(|sp| (sp.text.clone(), sp.look)).collect()).collect()
}

fn line(parts: &[(&str, Tint)]) -> Vec<(String, Look)> {
    parts.iter().map(|(t, c)| (s(t), Look { fg: Some(*c), bg: None, bold: false })).collect()
}

#[test]
fn method_colours() {
    assert_eq!(method_tint("GET"), Tint::Green);
    assert_eq!(method_tint("POST"), Tint::Blue);
    assert_eq!(method_tint("PUT"), Tint::Yellow);
    assert_eq!(method_tint("DELETE"), Tint::Red);
    assert_eq!(method_tint("PATCH"), Tint::Magenta);
    assert_eq!(method_tint("HEAD"), Tint::White);
    assert_eq!(method_tint("get"), Tint::White);
}

#[test]
fn response_code_colours() {
    assert_eq!(code_tint("200"), Tint::Green);
    assert_eq!(code_tint("301"), Tint::Yellow);
    assert_eq!(code_tint("404"), Tint::Red);
    assert_eq!(code_tint("500"), Tint::Red);
    assert_eq!(code_tint("default"), Tint::White);
    assert_eq!(code_tint(""), Tint::White);
}

#[test]
fn status_colours() {
    assert_eq!(status_tint(200), Tint::Green);
    assert_eq!(status_tint(299), Tint::Green);
    assert_eq!(status_tint(302), Tint::Yellow);
    assert_eq!(status_tint(404), Tint::Red);
    assert_eq!(status_tint(199), Tint::Red);
}

#[test]
fn short_types() {
    assert_eq!(prop_type_str(&typed("string")), "string");
    assert_eq!(prop_type_str(&schema()), "object");
    assert_eq!(prop_type_str(&Schema { format: Some(s("int64")), ..typed("integer") }), "integer(int64)");
    assert_eq!(prop_type_str(&reference("#/definitions/Pet")), "Pet");
    assert_eq!(prop_type_str(&reference("#/components/schemas/Order")), "Order");
    assert_eq!(prop_type_str(&array_of(reference("#/definitions/Tag"))), "[Tag]");
    assert_eq!(prop_type_str(&array_of(array_of(typed("string")))), "[[string]]");
    assert_eq!(prop_type_str(&typed("array")), "array");
}

#[test]
fn definitions_are_found_by_name() {
    let defs = definitions();
    assert!(find_definition(&defs, &s("Tag")).is_some());
    assert!(find_definition(&defs, &s("Order")).is_none());
}

#[test]
fn outline_of_a_reference_opens_the_definition() {
    let defs = definitions();
    let mut lines = Vec::new();
    render_schema(&mut lines, &reference("#/definitions/Pet"), &defs, 0, 5);
    assert_eq!(
        flat(&lines),
        vec![
            line(&[("Pet {", Tint::Magenta)]),
            line(&[("  id", Tint::White), ("", Tint::Red), (": integer(int64)", Tint::Gray)]),
            line(&[("  name", Tint::White), ("*", Tint::Red), (": string", Tint::Gray)]),
            line(&[("  tags", Tint::White), ("", Tint::Red), (": [Tag]", Tint::Gray)]),
            line(&[("    array [", Tint::Cyan)]),
            line(&[("      Tag {", Tint::Magenta)]),
            line(&[("        label", Tint::White), ("", Tint::Red), (": string", Tint::Gray)]),
            line(&[("      }", Tint::Magenta)]),
            line(&[("    ]", Tint::Cyan)]),
            line(&[("}", Tint::Magenta)]),
        ]
    );
}

#[test]
fn outline_stops_at_the_depth_limit() {
    let defs = definitions();
    let mut lines = Vec::new();
    render_schema(&mut lines, &reference("#/definitions/Pet"), &defs, 0, 1);
    assert_eq!(
        flat(&lines),
        vec![
            line(&[("Pet {", Tint::Magenta)]),
            line(&[("  id", Tint::White), ("", Tint::Red), (": integer(int64)", Tint::Gray)]),
            line(&[("  name", Tint::White), ("*", Tint::Red), (": string", Tint::Gray)]),
            line(&[("  tags", Tint::White), ("", Tint::Red), (": [Tag]", Tint::Gray)]),
            line(&[("    ...", Tint::DarkGray)]),
            line(&[("}", Tint::Magenta)]),
        ]
    );
}

#[test]
fn outline_of_unknown_reference_and_plain_type() {
    let defs = definitions();
    let mut lines = Vec::new();
    render_schema(&mut lines, &reference("#/definitions/Order"), &defs, 1, 5);
    render_schema(&mut lines, &typed("string"), &defs, 0, 5);
    render_schema(&mut lines, &typed("array"), &defs, 0, 5);
    assert_eq!(
        flat(&lines),
        vec![
            line(&[("  $ref: #/definitions/Order", Tint::Yellow)]),
            line(&[("string", Tint::Gray)]),
        ]
    );
}

#[test]
fn outline_of_a_self_reference_is_cut_at_the_limit() {
    let defs = vec![(s("Node"), reference("#/definitions/Node"))];
    let mut lines = Vec::new();
    render_schema(&mut lines, &reference("#/definitions/Node"), &defs, 0, 1);
    assert_eq!(
        flat(&lines),
        vec![
            line(&[("Node {", Tint::Magenta)]),
            line(&[("  Node {", Tint::Magenta)]),
            line(&[("    ...", Tint::DarkGray)]),
            line(&[("  }", Tint::Magenta)]),
            line(&[("}", Tint::Magenta)]),
        ]
    );
}

fn object(entries: Vec<(&str, ExampleValue)>) -> ExampleValue {
    ExampleValue::Object(entries.into_iter().map(|(k, v)| (s(k), v)).collect())
}

#[test]
fn example_of_a_definition() {
    let defs = definitions();
    let v = generate_example(&reference("#/definitions/Pet"), &defs, 0, 5);
    assert_eq!(
        v,
        Some(object(vec![
            ("id", ExampleValue::Number(0)),
            ("name", ExampleValue::Text(s("string"))),
            ("tags", ExampleValue::Array(vec![object(vec![("label", ExampleValue::Text(s("string")))])])),
        ]))
    );
    assert_eq!(build_example_value(&reference("#/definitions/Pet"), &defs, 0, 5), v.unwrap());
}

#[test]
fn examples_of_simple_schemas() {
    let defs = Vec::new();
    assert_eq!(generate_example(&typed("boolean"), &defs, 0, 5), Some(ExampleValue::Bool(true)));
    assert_eq!(generate_example(&typed("number"), &defs, 0, 5), Some(ExampleValue::Number(0)));
    assert_eq!(
        generate_example(&Schema { format: Some(s("date-time")), ..typed("string") }, &defs, 0, 5),
        Some(ExampleValue::Text(s("2024-01-01T00:00:00Z")))
    );
    assert_eq!(
        generate_example(&Schema { format: Some(s("date")), ..typed("string") }, &defs, 0, 5),
        Some(ExampleValue::Text(s("2024-01-01")))
    );
    assert_eq!(
        generate_example(&Schema { enum_values: vec![s("\"available\""), s("\"sold\"")], ..typed("string") }, &defs, 0, 5),
        Some(ExampleValue::Raw(s("\"available\"")))
    );
    assert_eq!(
        generate_example(&Schema { example: Some(s("42")), ..typed("integer") }, &defs, 0, 5),
        Some(ExampleValue::Raw(s("42")))
    );
    assert_eq!(generate_example(&typed("array"), &defs, 0, 5), Some(ExampleValue::Array(Vec::new())));
    assert_eq!(generate_example(&schema(), &defs, 0, 5), Some(ExampleValue::Object(Vec::new())));
    assert_eq!(
        generate_example(&reference("#/definitions/Missing"), &defs, 0, 5),
        Some(ExampleValue::Text(s("<Missing>")))
    );
    assert_eq!(generate_example(&typed("string"), &defs, 6, 5), Some(ExampleValue::Object(Vec::new())));
}

#[test]
fn example_of_a_reference_cycle_is_refused() {
    let defs = vec![(s("A"), reference("#/definitions/B")), (s("B"), reference("#/definitions/A"))];
    assert_eq!(generate_example(&reference("#/definitions/A"), &defs, 0, 5), None);
}

#[test]
fn example_nesting_is_cut_at_the_limit() {
    let defs = Vec::new();
    let nested = array_of(array_of(typed("string")));
    assert_eq!(
        generate_example(&nested, &defs, 0, 1),
        Some(ExampleValue::Array(vec![ExampleValue::Array(vec![ExampleValue::Object(Vec::new())])]))
    );
}

fn fields(list: &[(&str, &str, &str)]) -> Vec<(String, String, String)> {
    list.iter().map(|(a, b, c)| (s(a), s(b), s(c))).collect()
}

#[test]
fn urls_fill_the_path_and_add_the_query() {
    let f = fields(&[("petId", "path", "7"), ("verbose", "query", "true"), ("limit", "query", ""), ("sort", "query", "name")]);
    assert_eq!(fill_path("/pet/{petId}", &f), "/pet/7");
    assert_eq!(build_query(&f), "verbose=true&sort=name");
    assert_eq!(build_url("http://api.test", "/pet/{petId}", &f), "http://api.test/pet/7?verbose=true&sort=name");
    let none = fields(&[("petId", "path", "")]);
    assert_eq!(build_url("", "/pet/{petId}", &none), "/pet/");
    assert_eq!(build_query(&none), "");
}

#[test]
fn curl_commands() {
    assert_eq!(curl_text("GET", "http://a/pet", None), "curl 'http://a/pet'");
    assert_eq!(curl_text("DELETE", "http://a/pet/1", None), "curl -X DELETE 'http://a/pet/1'");
    assert_eq!(
        curl_text("POST", "http://a/pet", Some("{\"name\":\"x\"}")),
        "curl -X POST 'http://a/pet' -H 'Content-Type: application/json' -d '{\"name\":\"x\"}'"
    );
    assert_eq!(curl_text("GET", "http://a/pet", Some("")), "curl -X GET 'http://a/pet'");
    assert_eq!(curl_text("POST", "http://a/pet", Some("")), "curl -X POST 'http://a/pet'");
    assert!(method_sends_body("PATCH"));
    assert!(!method_sends_body("GET"));
}

#[test]
fn requests_are_planned_by_method() {
    assert_eq!(plan_request("GET", "{}"), Ok((HttpMethod::Get, None)));
    assert_eq!(plan_request("POST", "{\"a\":1}"), Ok((HttpMethod::Post, Some(s("{\"a\":1}")))));
    assert_eq!(plan_request("PUT", ""), Ok((HttpMethod::Put, None)));
    assert_eq!(plan_request("HEAD", "x"), Ok((HttpMethod::Head, None)));
    assert_eq!(plan_request("DELETE", ""), Ok((HttpMethod::Delete, None)));
    assert_eq!(plan_request("OPTIONS", ""), Err(s("Unsupported method: OPTIONS")));
}

#[test]
fn bodies_are_pretty_printed_when_json() {
    assert_eq!(pretty_body(s("{\"a\":1}")), "{\n  \"a\": 1\n}");
    assert_eq!(pretty_body(s("not json")), "not json");
    assert_eq!(shown_body(s("raw"), Some(s("pretty"))), "pretty");
    assert_eq!(shown_body(s("raw"), None), "raw");
}
