use swagterm::app::{App, AuthConfig, HttpResponse};
use swagterm::keys::{handle_key, Key};
use swagterm::model::{ApiSpec, Info, Operation, Parameter, Response, Schema};
use swagterm::render::{Look, Span, Tint};
use swagterm::render::{json_of, ExampleValue};
use swagterm::request::{auth_headers_of, base64_of};
use swagterm::screen::{
    example_shown, example_text_of, label_from, label_of,
    auth_lines_of, decimal_of, detail_lines_of, detail_title_of, footer_line, join_of,
    pad_left_of, pad_right_of, sidebar_lines_of, text_lines_of, title_line, try_it_lines_of,
    warnings_lines_of, warnings_title_of,
};

fn s(x: &str) -> String {
    x.to_string()
}

fn plain() -> Look {
    Look { fg: None, bg: None, bold: false }
}

fn fg(t: Tint) -> Look {
    Look { fg: Some(t), bg: None, bold: false }
}

fn fg_bold(t: Tint) -> Look {
    Look { fg: Some(t), bg: None, bold: true }
}

fn bold() -> Look {
    Look { fg: None, bg: None, bold: true }
}

fn flat1(l: &[Span]) -> Vec<(String, Look)> {
    l.iter().map(|sp| (sp.text.clone(), sp.look)).collect()
}

fn flat(ls: &[Vec<Span>]) -> Vec<Vec<(String, Look)>> {
    ls.iter().map(|l| flat1(l)).collect()
}

fn ln(parts: &[(&str, Look)]) -> Vec<(String, Look)> {
    parts.iter().map(|(t, l)| (s(t), *l)).collect()
}

fn schema() -> Schema {
    Schema {
        schema_type: None,
        properties: Vec::new(),
        reference: None,
        items: None,
        description: None,
        enum_values: Vec::new(),
        required: Vec::new(),
        format: None,
        example: None,
    }
}

fn param(name: &str, location: &str, required: bool) -> Parameter {
    Parameter {
        name: s(name),
        location: s(location),
        description: None,
        required,
        param_type: Some(s("string")),
        schema: None,
        enum_values: Vec::new(),
    }
}

fn op(tag: &str, summary: &str, parameters: Vec<Parameter>, responses: Vec<(String, Response)>) -> Operation {
    Operation {
        tags: vec![s(tag)],
        summary: Some(s(summary)),
        description: None,
        operation_id: None,
        parameters,
        responses,
        consumes: Vec::new(),
        produces: Vec::new(),
    }
}

/// pet: GET /pet/{petId}, POST /pet ; store: GET /store/inventory (no responses)
fn pet_schema() -> Schema {
    Schema {
        properties: vec![(s("name"), Schema { schema_type: Some(s("string")), ..schema() })],
        required: vec![s("name")],
        schema_type: Some(s("object")),
        ..schema()
    }
}

fn spec() -> ApiSpec {
    let get = Operation {
        operation_id: Some(s("getPet")),
        description: Some(s("Returns a single pet")),
        produces: vec![s("application/json"), s("application/xml")],
        ..op(
            "pet",
            "Find pet by ID",
            vec![Parameter {
                description: Some(s("ID of pet")),
                enum_values: vec![s("\"available\""), s("1")],
                ..param("petId", "path", true)
            }],
            vec![
                (s("200"), Response { description: Some(s("successful operation")), schema: Some(pet_schema()) }),
                (s("404"), Response { description: Some(s("Pet not found")), schema: None }),
            ],
        )
    };
    let post = op(
        "pet",
        "Add a pet",
        vec![Parameter { param_type: None, schema: Some(pet_schema()), ..param("body", "body", true) }],
        vec![(s("405"), Response { description: None, schema: None })],
    );
    let inventory = op("store", "Inventory", vec![param("verbose", "query", false)], Vec::new());
    ApiSpec {
        info: Info { title: s("Petstore"), version: s("1.0"), description: None },
        paths: vec![
            (s("/pet/{petId}"), vec![(s("get"), get)]),
            (s("/pet"), vec![(s("post"), post)]),
            (s("/store/inventory"), vec![(s("get"), inventory)]),
        ],
        definitions: Vec::new(),
        base_url: s("http://api.test"),
    }
}

#[test]
fn text_layout_helpers() {
    assert_eq!(pad_right_of("id", 5), "id   ");
    assert_eq!(pad_right_of("toolong", 3), "toolong");
    assert_eq!(pad_left_of("GET", 6), "   GET");
    assert_eq!(pad_left_of("OPTIONS", 6), "OPTIONS");
    assert_eq!(decimal_of(0), "0");
    assert_eq!(decimal_of(405), "405");
    assert_eq!(decimal_of(18446744073709551615), "18446744073709551615");
    assert_eq!(join_of(&vec![s("a"), s("b"), s("c")], ", "), "a, b, c");
    assert_eq!(join_of(&Vec::new(), ", "), "");
    assert_eq!(text_lines_of("a\r\nb\n\nc"), vec!["a", "b", "", "c"]);
    assert_eq!(text_lines_of("a\n"), vec!["a"]);
    assert_eq!(text_lines_of("\n"), vec![""]);
    assert_eq!(text_lines_of("x\r"), vec!["x\r"]);
    assert!(text_lines_of("").is_empty());
    for t in ["{\n  \"a\": 1\n}", "one", "a\n\nb\r\n", "\r\n\r\n"] {
        assert_eq!(text_lines_of(t), t.lines().collect::<Vec<_>>());
    }
}

#[test]
fn title_and_footer() {
    let mut app = App::new(spec());
    assert_eq!(flat1(&title_line(&app)), ln(&[(" SwagTerm — Petstore v1.0 ⚠ 1", fg_bold(Tint::Cyan))]));
    assert_eq!(
        flat1(&footer_line(&app)),
        ln(&[(" j/k:nav │ Tab:switch │ /:search │ t:try it │ a:auth │ w:warnings │ q:quit", fg(Tint::DarkGray))])
    );
    handle_key(&mut app, Key::Char('/'));
    handle_key(&mut app, Key::Char('x'));
    assert_eq!(flat1(&footer_line(&app)), ln(&[(" Search: x█", fg(Tint::DarkGray))]));
    app.note_clipboard(Ok(()));
    assert_eq!(flat1(&footer_line(&app)), ln(&[("Copied to clipboard!", fg(Tint::Green))]));

    let mut quiet = spec();
    quiet.paths.pop();
    let app = App::new(quiet);
    assert_eq!(flat1(&title_line(&app)), ln(&[(" SwagTerm — Petstore v1.0", fg_bold(Tint::Cyan))]));
}

#[test]
fn sidebar_shows_tags_and_endpoints() {
    let mut app = App::new(spec());
    let selected_tag = Look { fg: Some(Tint::White), bg: Some(Tint::DarkGray), bold: true };
    let tag = Look { fg: Some(Tint::White), bg: None, bold: true };
    assert_eq!(
        flat(&sidebar_lines_of(&app)),
        vec![
            ln(&[("▼ pet", selected_tag)]),
            ln(&[("   GET", fg(Tint::Green)), (" /pet/{petId}", plain())]),
            ln(&[("  POST", fg(Tint::Blue)), (" /pet", plain())]),
            ln(&[("▼ store", tag)]),
            ln(&[("   GET", fg(Tint::Green)), (" /store/inventory", plain())]),
        ]
    );
    app.toggle_tag();
    app.next();
    assert_eq!(
        flat(&sidebar_lines_of(&app)),
        vec![
            ln(&[("▶ pet", tag)]),
            ln(&[("▼ store", selected_tag)]),
            ln(&[("   GET", fg(Tint::Green)), (" /store/inventory", plain())]),
        ]
    );
    app.next();
    let selected_path = Look { fg: None, bg: Some(Tint::DarkGray), bold: true };
    assert_eq!(flat1(&sidebar_lines_of(&app)[2]), ln(&[("   GET", fg(Tint::Green)), (" /store/inventory", selected_path)]));
}

#[test]
fn detail_of_an_endpoint() {
    let mut app = App::new(spec());
    assert!(detail_lines_of(&app).is_none());
    app.next();
    let lines = detail_lines_of(&app).unwrap();
    let rule = "─────────────────────────────────────────────────";
    assert_eq!(
        flat(&lines),
        vec![
            ln(&[(" GET ", Look { fg: Some(Tint::White), bg: Some(Tint::Green), bold: true }), (" /pet/{petId}", bold())]),
            ln(&[("operationId: getPet", fg(Tint::DarkGray))]),
            ln(&[]),
            ln(&[("Find pet by ID", fg(Tint::White))]),
            ln(&[("Returns a single pet", fg(Tint::Gray))]),
            ln(&[]),
            ln(&[("Produces: ", fg(Tint::Yellow)), ("application/json, application/xml", plain())]),
            ln(&[]),
            ln(&[("Parameters", fg_bold(Tint::Cyan))]),
            ln(&[(rule, fg(Tint::DarkGray))]),
            ln(&[
                ("Name                ", bold()),
                ("In        ", bold()),
                ("Type        ", bold()),
                ("Required", bold()),
            ]),
            ln(&[
                ("petId               ", plain()),
                ("path      ", fg(Tint::Yellow)),
                ("string      ", plain()),
                ("✓", fg(Tint::Green)),
            ]),
            ln(&[("  └ ID of pet", fg(Tint::DarkGray))]),
            ln(&[("  Available values: available, 1", fg(Tint::Magenta))]),
            ln(&[]),
            ln(&[("Responses", fg_bold(Tint::Cyan))]),
            ln(&[(rule, fg(Tint::DarkGray))]),
            ln(&[("  200 ", fg_bold(Tint::Green)), ("successful operation", plain())]),
            ln(&[("    Example:", fg(Tint::DarkGray))]),
            ln(&[("      {", fg(Tint::Green))]),
            ln(&[("        \"name\": \"string\"", fg(Tint::Green))]),
            ln(&[("      }", fg(Tint::Green))]),
            ln(&[("  404 ", fg_bold(Tint::Red)), ("Pet not found", plain())]),
            ln(&[]),
        ]
    );
}

#[test]
fn detail_of_a_body_parameter_shows_its_schema() {
    let mut app = App::new(spec());
    app.next();
    app.next();
    let lines = flat(&detail_lines_of(&app).unwrap());
    assert_eq!(
        lines[7..],
        vec![
            ln(&[
                ("body                ", plain()),
                ("body      ", fg(Tint::Yellow)),
                ("object      ", plain()),
                ("✓", fg(Tint::Green)),
            ]),
            ln(&[("    name", fg(Tint::White)), ("*", fg(Tint::Red)), (": string", fg(Tint::Gray))]),
            ln(&[]),
            ln(&[("Responses", fg_bold(Tint::Cyan))]),
            ln(&[("─────────────────────────────────────────────────", fg(Tint::DarkGray))]),
            ln(&[("  405 ", fg_bold(Tint::Red)), ("", plain())]),
            ln(&[]),
        ][..]
    );
}

#[test]
fn detail_titles() {
    assert_eq!(detail_title_of(30, 10, 0), " Detail [1/21] ");
    assert_eq!(detail_title_of(30, 10, 4), " Detail [5/21] ");
    assert_eq!(detail_title_of(10, 10, 0), " Detail ");
    assert_eq!(detail_title_of(3, 10, 0), " Detail ");
}

#[test]
fn warnings_panel() {
    let app = App::new(spec());
    assert_eq!(warnings_title_of(&app), " Warnings (1) ");
    assert_eq!(
        flat(&warnings_lines_of(&app)),
        vec![
            ln(&[("⚠ ", fg(Tint::Yellow)), ("GET /store/inventory", fg(Tint::Cyan))]),
            ln(&[("  No responses defined", fg(Tint::White))]),
            ln(&[]),
        ]
    );
    let mut quiet = spec();
    quiet.paths.pop();
    let app = App::new(quiet);
    assert_eq!(warnings_title_of(&app), " Warnings (0) ");
    assert_eq!(flat(&warnings_lines_of(&app)), vec![ln(&[("  ✓ No issues found", fg(Tint::Green))])]);
}

#[test]
fn auth_menu_panel() {
    let mut app = App::new(spec());
    app.auth = AuthConfig::ApiKey { header: s("X-Key"), value: s("secret") };
    handle_key(&mut app, Key::Char('a'));
    handle_key(&mut app, Key::Char('j'));
    handle_key(&mut app, Key::Char('j'));
    handle_key(&mut app, Key::Enter);
    handle_key(&mut app, Key::Char('K'));
    assert_eq!(
        flat(&auth_lines_of(&app)),
        vec![
            ln(&[("Current: ", fg(Tint::Cyan)), ("API Key (X-Key)", fg(Tint::White))]),
            ln(&[]),
            ln(&[("Select auth type:", bold())]),
            ln(&[]),
            ln(&[("  None", plain())]),
            ln(&[("  Bearer Token", plain())]),
            ln(&[("▸ API Key", fg_bold(Tint::Yellow))]),
            ln(&[("  Basic Auth", plain())]),
            ln(&[]),
            ln(&[("Format: HEADER_NAME=VALUE", fg(Tint::DarkGray))]),
            ln(&[("> ", fg(Tint::Yellow)), ("K█", fg(Tint::White))]),
        ]
    );
    app.auth = AuthConfig::Custom(vec![(s("A"), s("1")), (s("B"), s("2"))]);
    app.auth_editing = false;
    let lines = flat(&auth_lines_of(&app));
    assert_eq!(lines.len(), 8);
    assert_eq!(lines[0], ln(&[("Current: ", fg(Tint::Cyan)), ("Custom (2 headers)", fg(Tint::White))]));
    app.auth = AuthConfig::Basic { username: s("ann"), password: s("pw") };
    assert_eq!(flat(&auth_lines_of(&app))[0][1].0, "Basic (ann:****)");
    app.auth = AuthConfig::Bearer(s("tok"));
    assert_eq!(flat(&auth_lines_of(&app))[0][1].0, "Bearer ****");
    app.auth = AuthConfig::NoAuth;
    assert_eq!(flat(&auth_lines_of(&app))[0][1].0, "None");
}

#[test]
fn try_it_form_panel() {
    let mut app = App::new(spec());
    assert!(try_it_lines_of(&app, 0).is_none());
    app.next();
    assert!(try_it_lines_of(&app, 0).is_none());
    app.auth = AuthConfig::Bearer(s("tok"));
    handle_key(&mut app, Key::Char('t'));
    handle_key(&mut app, Key::Enter);
    handle_key(&mut app, Key::Char('7'));
    let rule = "─────────────────────────────────────────";
    assert_eq!(
        flat(&try_it_lines_of(&app, 3).unwrap()),
        vec![
            ln(&[(" GET ", Look { fg: Some(Tint::White), bg: Some(Tint::Green), bold: true }), (" /pet/{petId}", bold())]),
            ln(&[("→ http://api.test/pet/{petId}", fg(Tint::DarkGray))]),
            ln(&[("  🔒 Bearer", fg(Tint::Magenta))]),
            ln(&[]),
            ln(&[("Parameters", fg_bold(Tint::Cyan))]),
            ln(&[(rule, fg(Tint::DarkGray))]),
            ln(&[("▸ petId", fg(Tint::Yellow)), (" (path): ", fg(Tint::DarkGray)), ("7█", fg(Tint::White))]),
            ln(&[("    Available values: available, 1", fg(Tint::Magenta))]),
            ln(&[]),
        ]
    );
    handle_key(&mut app, Key::Enter);
    handle_key(&mut app, Key::Char('s'));
    let lines = flat(&try_it_lines_of(&app, 13).unwrap());
    assert_eq!(lines.last().unwrap(), &ln(&[("⠸ Sending request...", fg_bold(Tint::Yellow))]));
    app.poll_response(Some(Ok(HttpResponse {
        status: 404,
        headers: vec![(s("content-type"), s("application/json"))],
        body: s("{\n  \"code\": 1\n}"),
    })));
    let lines = flat(&try_it_lines_of(&app, 0).unwrap());
    assert_eq!(
        lines[9..],
        vec![
            ln(&[("Response — 404", fg_bold(Tint::Red))]),
            ln(&[(rule, fg(Tint::DarkGray))]),
            ln(&[("content-type: ", fg(Tint::Yellow)), ("application/json", plain())]),
            ln(&[]),
            ln(&[("Body", fg(Tint::Cyan))]),
            ln(&[("{", plain())]),
            ln(&[("  \"code\": 1", plain())]),
            ln(&[("}", plain())]),
        ][..]
    );
    app.poll_response(Some(Err(s("Request failed: refused"))));
    let lines = flat(&try_it_lines_of(&app, 0).unwrap());
    assert_eq!(lines.last().unwrap(), &ln(&[("Error: Request failed: refused", fg_bold(Tint::Red))]));
}

#[test]
fn try_it_form_with_a_body_field() {
    let mut app = App::new(spec());
    app.next();
    app.next();
    app.auth = AuthConfig::ApiKey { header: s("X-Key"), value: s("v") };
    handle_key(&mut app, Key::Char('t'));
    let rule = "─────────────────────────────────────────";
    assert_eq!(
        flat(&try_it_lines_of(&app, 0).unwrap()),
        vec![
            ln(&[(" POST ", Look { fg: Some(Tint::White), bg: Some(Tint::Blue), bold: true }), (" /pet", bold())]),
            ln(&[("→ http://api.test/pet", fg(Tint::DarkGray))]),
            ln(&[("  🔒 API Key (X-Key)", fg(Tint::Magenta))]),
            ln(&[]),
            ln(&[("Request Body", fg_bold(Tint::Cyan))]),
            ln(&[(rule, fg(Tint::DarkGray))]),
            ln(&[("▸ ", fg(Tint::Yellow)), ("{}", fg(Tint::White))]),
            ln(&[]),
        ]
    );
}

#[test]
fn allowed_values_are_shown_as_labels() {
    assert_eq!(label_of("\"sold\""), "sold");
    assert_eq!(label_of("\"a \\\"b\\\"\""), "a \"b\"");
    assert_eq!(label_of("42"), "42");
    assert_eq!(label_of("null"), "null");
    assert_eq!(label_from(s("\"x\""), Some(s("x"))), "x");
    assert_eq!(label_from(s("7"), None), "7");
}

#[test]
fn examples_as_json_text() {
    let v = ExampleValue::Object(vec![
        (s("name"), ExampleValue::Text(s("a \"q\" \\ \n"))),
        (s("n"), ExampleValue::Number(-12)),
        (s("ok"), ExampleValue::Bool(false)),
        (s("raw"), ExampleValue::Raw(s("[1,2]"))),
        (s("list"), ExampleValue::Array(vec![ExampleValue::Bool(true), ExampleValue::Number(0)])),
        (s("empty"), ExampleValue::Object(Vec::new())),
    ]);
    let text = json_of(&v);
    assert_eq!(
        text,
        "{\"name\":\"a \\\"q\\\" \\\\ \\u000a\",\"n\":-12,\"ok\":false,\"raw\":[1,2],\"list\":[true,0],\"empty\":{}}"
    );
    let parsed: serde_json::Value = serde_json::from_str(&text).unwrap();
    assert_eq!(parsed["name"], "a \"q\" \\ \n");
    assert_eq!(json_of(&ExampleValue::Number(i64::MIN)), "-9223372036854775808");
    assert_eq!(example_shown(None), "{}");
    assert_eq!(example_shown(Some(s("[]"))), "[]");
}

#[test]
fn example_text_of_a_schema() {
    let defs = vec![(s("Pet"), pet_schema())];
    let r = Schema { reference: Some(s("#/definitions/Pet")), ..schema() };
    assert_eq!(example_text_of(&r, &defs), "{\n  \"name\": \"string\"\n}");
    let cycle = vec![(s("A"), Schema { reference: Some(s("#/definitions/A")), ..schema() })];
    let a = Schema { reference: Some(s("#/definitions/A")), ..schema() };
    assert_eq!(example_text_of(&a, &cycle), "{}");
    let keys = Schema {
        properties: vec![(s("b"), Schema { schema_type: Some(s("boolean")), ..schema() }), (s("a"), Schema { schema_type: Some(s("integer")), ..schema() })],
        ..schema()
    };
    assert_eq!(example_text_of(&keys, &Vec::new()), "{\n  \"a\": 0,\n  \"b\": true\n}");
}

#[test]
fn auth_headers_for_each_kind_of_auth() {
    assert_eq!(base64_of(b""), "");
    assert_eq!(base64_of(b"f"), "Zg==");
    assert_eq!(base64_of(b"fo"), "Zm8=");
    assert_eq!(base64_of(b"foo"), "Zm9v");
    assert_eq!(base64_of(b"foobar"), "Zm9vYmFy");
    assert_eq!(base64_of(&[0xff, 0xfe, 0x00, 0x7f]), "//4Afw==");
    assert!(auth_headers_of(&AuthConfig::NoAuth).is_empty());
    assert_eq!(auth_headers_of(&AuthConfig::Bearer(s("tok"))), vec![(s("Authorization"), s("Bearer tok"))]);
    assert_eq!(
        auth_headers_of(&AuthConfig::ApiKey { header: s("X-Key"), value: s("v") }),
        vec![(s("X-Key"), s("v"))]
    );
    assert_eq!(
        auth_headers_of(&AuthConfig::Basic { username: s("user"), password: s("pass") }),
        vec![(s("Authorization"), s("Basic dXNlcjpwYXNz"))]
    );
    assert_eq!(
        auth_headers_of(&AuthConfig::Basic { username: s("é"), password: s("") }),
        vec![(s("Authorization"), s("Basic w6k6"))]
    );
    let custom = vec![(s("A"), s("1")), (s("B"), s("2"))];
    assert_eq!(auth_headers_of(&AuthConfig::Custom(custom.clone())), custom);
}

#[test]
fn sent_requests_carry_the_auth_headers() {
    let mut app = App::new(spec());
    app.next();
    app.auth = AuthConfig::Bearer(s("tok"));
    handle_key(&mut app, Key::Char('t'));
    match handle_key(&mut app, Key::Char('s')) {
        swagterm::keys::KeyAction::Send(req) => {
            assert_eq!(req.url, "http://api.test/pet/");
            assert_eq!(req.headers, vec![(s("Authorization"), s("Bearer tok"))]);
        }
        _ => panic!("expected a request"),
    }
}
