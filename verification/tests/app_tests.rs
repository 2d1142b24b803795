use swagterm::app::{App, AppMode, AuthConfig, HttpResponse, Panel, SidebarItem};
use swagterm::keys::{auth_from_cli, handle_key, Key, KeyAction};
use swagterm::model::{ApiSpec, Info, Operation, Parameter, Response};

fn s(x: &str) -> String {
    x.to_string()
}

fn param(name: &str, location: &str) -> Parameter {
    Parameter {
        name: s(name),
        location: s(location),
        description: None,
        required: false,
        param_type: Some(s("string")),
        schema: None,
        enum_values: Vec::new(),
    }
}

fn op(tag: Option<&str>, summary: &str, parameters: Vec<Parameter>) -> Operation {
    Operation {
        tags: tag.map(|t| vec![s(t)]).unwrap_or_default(),
        summary: Some(s(summary)),
        description: None,
        operation_id: None,
        parameters,
        responses: vec![(s("200"), Response { description: Some(s("ok")), schema: None })],
        consumes: Vec::new(),
        produces: Vec::new(),
    }
}

/// pet: GET /pet/{petId}, POST /pet ; store: GET /store/inventory ; untagged: GET /health
fn petstore() -> ApiSpec {
    ApiSpec {
        info: Info { title: s("Petstore"), version: s("1.0"), description: None },
        paths: vec![
            (
                s("/pet/{petId}"),
                vec![(s("get"), op(Some("pet"), "Find pet by ID", vec![param("petId", "path"), param("verbose", "query")]))],
            ),
            (s("/pet"), vec![(s("post"), op(Some("pet"), "Add a pet", vec![param("body", "body")]))]),
            (s("/store/inventory"), vec![(s("get"), op(Some("store"), "Inventory", Vec::new()))]),
            (s("/health"), vec![(s("get"), op(None, "Health check", Vec::new()))]),
        ],
        definitions: Vec::new(),
        base_url: s("http://api.test"),
    }
}

fn tags_and_indices(app: &App) -> Vec<String> {
    app.sidebar_items
        .iter()
        .map(|it| match it {
            SidebarItem::Tag(t) => format!("#{t}"),
            SidebarItem::Endpoint(i) => format!("{i}"),
        })
        .collect()
}

fn type_text(app: &mut App, text: &str) {
    for c in text.chars() {
        handle_key(app, Key::Char(c));
    }
}

#[test]
fn new_lists_every_operation_grouped_by_tag() {
    let app = App::new(petstore());
    assert_eq!(app.endpoints.len(), 4);
    assert_eq!(app.endpoints[0].method, "GET");
    assert_eq!(app.endpoints[1].method, "POST");
    assert_eq!(app.endpoints[3].tag, "default");
    assert_eq!(app.filtered, vec![0, 1, 2, 3]);
    assert_eq!(tags_and_indices(&app), vec!["#pet", "0", "1", "#store", "2", "#default", "3"]);
    assert_eq!(app.selected, 0);
    assert!(app.active_panel == Panel::Sidebar);
    assert!(app.mode == AppMode::Browse);
    assert!(matches!(app.auth, AuthConfig::NoAuth));
}

#[test]
fn search_filters_by_path_method_summary_and_tag() {
    let mut app = App::new(petstore());
    handle_key(&mut app, Key::Char('/'));
    assert!(app.searching);
    type_text(&mut app, "INV");
    assert_eq!(app.search, "INV");
    assert_eq!(app.filtered, vec![2]);
    assert_eq!(tags_and_indices(&app), vec!["#store", "2"]);
    handle_key(&mut app, Key::Backspace);
    handle_key(&mut app, Key::Backspace);
    handle_key(&mut app, Key::Backspace);
    assert_eq!(app.filtered, vec![0, 1, 2, 3]);
    type_text(&mut app, "post");
    assert_eq!(app.filtered, vec![1]);
    handle_key(&mut app, Key::Esc);
    assert!(!app.searching);
    assert_eq!(app.search, "");
    assert_eq!(app.filtered, vec![0, 1, 2, 3]);
}

#[test]
fn search_resets_a_selection_that_falls_off() {
    let mut app = App::new(petstore());
    app.selected = 6;
    app.search = s("health");
    app.apply_filter();
    assert_eq!(tags_and_indices(&app), vec!["#default", "3"]);
    assert_eq!(app.selected, 0);
    assert_eq!(app.scroll, 0);
}

#[test]
fn next_and_prev_wrap_around() {
    let mut app = App::new(petstore());
    app.prev();
    assert_eq!(app.selected, 6);
    app.next();
    assert_eq!(app.selected, 0);
    app.next();
    app.next();
    assert_eq!(app.selected, 2);
    assert_eq!(app.selected_endpoint().map(|e| e.path.clone()), Some(s("/pet")));
}

#[test]
fn sidebar_scroll_follows_the_selection() {
    let mut app = App::new(petstore());
    app.sidebar_height = 2;
    app.next();
    app.next();
    assert_eq!(app.selected, 2);
    assert_eq!(app.sidebar_scroll, 1);
    app.prev();
    app.prev();
    assert_eq!(app.sidebar_scroll, 0);
}

#[test]
fn toggling_a_tag_hides_and_shows_its_endpoints() {
    let mut app = App::new(petstore());
    app.toggle_tag();
    assert_eq!(app.collapsed_tags, vec![s("pet")]);
    assert_eq!(tags_and_indices(&app), vec!["#pet", "#store", "2", "#default", "3"]);
    app.toggle_tag();
    assert!(app.collapsed_tags.is_empty());
    assert_eq!(tags_and_indices(&app), vec!["#pet", "0", "1", "#store", "2", "#default", "3"]);
    app.next();
    app.toggle_tag();
    assert!(app.collapsed_tags.is_empty());
}

#[test]
fn collapsing_keeps_the_selection_on_a_line() {
    let mut app = App::new(petstore());
    app.search = s("pet");
    app.apply_filter();
    assert_eq!(tags_and_indices(&app), vec!["#pet", "0", "1"]);
    app.toggle_tag();
    assert_eq!(tags_and_indices(&app), vec!["#pet"]);
    assert_eq!(app.selected, 0);
}

#[test]
fn scrolling_saturates() {
    let mut app = App::new(petstore());
    app.scroll_up();
    assert_eq!(app.scroll, 0);
    app.detail_height = 10;
    app.page_down();
    assert_eq!(app.scroll, 10);
    app.scroll_down();
    app.page_up();
    assert_eq!(app.scroll, 1);
    app.detail_height = 0;
    app.page_down();
    assert_eq!(app.scroll, 2);
    app.scroll = u16::MAX;
    app.scroll_down();
    assert_eq!(app.scroll, u16::MAX);
}

#[test]
fn try_it_builds_the_request_url() {
    let mut app = App::new(petstore());
    app.next();
    handle_key(&mut app, Key::Char('t'));
    assert!(app.mode == AppMode::TryIt);
    {
        let st = app.try_it.as_ref().unwrap();
        assert_eq!(st.param_values, vec![(s("petId"), s("path"), s("")), (s("verbose"), s("query"), s(""))]);
        assert_eq!(st.body, "");
    }
    handle_key(&mut app, Key::Enter);
    type_text(&mut app, "42");
    handle_key(&mut app, Key::Enter);
    handle_key(&mut app, Key::Char('j'));
    handle_key(&mut app, Key::Enter);
    type_text(&mut app, "yes");
    handle_key(&mut app, Key::Backspace);
    handle_key(&mut app, Key::Esc);
    assert_eq!(app.try_it.as_ref().unwrap().param_values[1].2, "ye");
    match handle_key(&mut app, Key::Char('s')) {
        KeyAction::Send(req) => {
            assert_eq!(req.method, "GET");
            assert_eq!(req.url, "http://api.test/pet/42?verbose=ye");
            assert_eq!(req.body, "");
        }
        _ => panic!("expected a request"),
    }
    assert!(app.try_it.as_ref().unwrap().loading);
    match handle_key(&mut app, Key::Char('c')) {
        KeyAction::CopyText(t) => assert_eq!(t, "curl -X GET 'http://api.test/pet/42?verbose=ye'"),
        _ => panic!("expected a curl command"),
    }
    app.poll_response(Some(Ok(HttpResponse { status: 200, headers: Vec::new(), body: s("{}") })));
    let st = app.try_it.as_ref().unwrap();
    assert!(!st.loading);
    assert_eq!(st.response.as_ref().map(|r| r.status), Some(200));
    handle_key(&mut app, Key::Esc);
    assert!(app.mode == AppMode::Browse);
    assert!(app.try_it.is_none());
}

#[test]
fn try_it_with_a_body() {
    let mut app = App::new(petstore());
    app.next();
    app.next();
    app.enter_try_it();
    assert_eq!(app.try_it.as_ref().unwrap().body, "{}");
    assert!(app.try_it.as_ref().unwrap().param_values.is_empty());
    handle_key(&mut app, Key::Char('k'));
    assert_eq!(app.try_it.as_ref().unwrap().selected_field, 0);
    match handle_key(&mut app, Key::Char('c')) {
        KeyAction::CopyText(t) => assert_eq!(
            t,
            "curl -X POST 'http://api.test/pet' -H 'Content-Type: application/json' -d '{}'"
        ),
        _ => panic!("expected a curl command"),
    }
    app.poll_response(Some(Err(s("Request failed: refused"))));
    assert_eq!(app.try_it.as_ref().unwrap().error.as_deref(), Some("Request failed: refused"));
}

#[test]
fn curl_without_the_form() {
    let mut app = App::new(petstore());
    assert_eq!(app.copy_as_curl(), None);
    app.next();
    assert_eq!(app.copy_as_curl(), Some(s("curl 'http://api.test/pet/{petId}'")));
    app.next();
    assert_eq!(app.copy_as_curl(), Some(s("curl -X POST 'http://api.test/pet'")));
    app.note_clipboard(Ok(()));
    assert_eq!(app.status_message.as_deref(), Some("Copied to clipboard!"));
    app.note_clipboard(Err(s("no display")));
    assert_eq!(app.status_message.as_deref(), Some("Clipboard error: no display"));
}

#[test]
fn try_it_on_a_tag_line_does_nothing() {
    let mut app = App::new(petstore());
    app.enter_try_it();
    assert!(app.try_it.is_none());
    assert!(app.mode == AppMode::Browse);
    assert!(app.execute_request().is_none());
}

#[test]
fn browse_keys() {
    let mut app = App::new(petstore());
    handle_key(&mut app, Key::Tab);
    assert!(app.active_panel == Panel::Detail);
    handle_key(&mut app, Key::Char('j'));
    assert_eq!(app.scroll, 1);
    assert_eq!(app.selected, 0);
    handle_key(&mut app, Key::Tab);
    handle_key(&mut app, Key::Down);
    assert_eq!(app.selected, 1);
    assert_eq!(app.scroll, 0);
    handle_key(&mut app, Key::Char('q'));
    assert!(app.quit);
}

#[test]
fn auth_menu() {
    let mut app = App::new(petstore());
    handle_key(&mut app, Key::Char('a'));
    assert!(app.mode == AppMode::AuthEdit);
    handle_key(&mut app, Key::Char('j'));
    handle_key(&mut app, Key::Char('j'));
    assert_eq!(app.auth_selected, 2);
    handle_key(&mut app, Key::Enter);
    assert!(app.auth_editing);
    type_text(&mut app, "X-Key=abc=1");
    handle_key(&mut app, Key::Enter);
    assert!(app.mode == AppMode::Browse);
    assert_eq!(app.status_message.as_deref(), Some("Auth configured!"));
    match &app.auth {
        AuthConfig::ApiKey { header, value } => {
            assert_eq!(header, "X-Key");
            assert_eq!(value, "abc=1");
        }
        _ => panic!("expected an API key"),
    }
    handle_key(&mut app, Key::Char('a'));
    handle_key(&mut app, Key::Up);
    assert_eq!(app.auth_selected, 3);
    handle_key(&mut app, Key::Enter);
    type_text(&mut app, "no-colon");
    handle_key(&mut app, Key::Enter);
    assert!(matches!(app.auth, AuthConfig::ApiKey { .. }));
    handle_key(&mut app, Key::Char('a'));
    handle_key(&mut app, Key::Enter);
    assert!(matches!(app.auth, AuthConfig::NoAuth));
    assert_eq!(app.status_message.as_deref(), Some("Auth cleared"));
}

#[test]
fn command_line_auth() {
    assert!(matches!(
        auth_from_cli(Some(s("tok")), Some(s("a=b")), None, Vec::new()),
        Some(AuthConfig::Bearer(t)) if t == "tok"
    ));
    assert!(matches!(
        auth_from_cli(None, Some(s("X-API-Key=abc123")), None, Vec::new()),
        Some(AuthConfig::ApiKey { header, value }) if header == "X-API-Key" && value == "abc123"
    ));
    assert!(auth_from_cli(None, Some(s("broken")), Some(s("u:p")), Vec::new()).is_none());
    assert!(matches!(
        auth_from_cli(None, None, Some(s("user:pa:ss")), Vec::new()),
        Some(AuthConfig::Basic { username, password }) if username == "user" && password == "pa:ss"
    ));
    match auth_from_cli(None, None, None, vec![s("A=1"), s("junk"), s("B=2=3")]) {
        Some(AuthConfig::Custom(h)) => assert_eq!(h, vec![(s("A"), s("1")), (s("B"), s("2=3"))]),
        _ => panic!("expected custom headers"),
    }
    assert!(auth_from_cli(None, None, None, vec![s("junk")]).is_none());
    assert!(auth_from_cli(None, None, None, Vec::new()).is_none());
}

#[test]
fn warnings_are_computed_and_toggled_with_w() {
    let app = App::new(petstore());
    assert!(app.warnings.is_empty());

    let mut spec = petstore();
    spec.paths[3].1[0].1.responses.clear();
    let mut app = App::new(spec);
    assert_eq!(app.warnings.len(), 1);
    assert_eq!(app.warnings[0].path, "GET /health");
    assert_eq!(app.warnings[0].message, "No responses defined");
    assert!(!app.show_warnings);
    handle_key(&mut app, Key::Char('w'));
    assert!(app.show_warnings);
    handle_key(&mut app, Key::Char('w'));
    assert!(!app.show_warnings);
}

#[test]
fn status_messages_expire_after_two_seconds() {
    let mut app = App::new(petstore());
    app.note_clipboard(Ok(()));
    app.expire_status_message(2_000_000_000);
    assert_eq!(app.status_message.as_deref(), Some("Copied to clipboard!"));
    app.expire_status_message(2_000_000_001);
    assert!(app.status_message.is_none());
}

#[test]
fn refining_the_search_lists_no_more() {
    let mut app = App::new(petstore());
    app.search = s("pet");
    app.apply_filter();
    assert_eq!(app.filtered, vec![0, 1]);
    app.search = s("PET/");
    app.apply_filter();
    assert_eq!(app.filtered, vec![0]);
    app.search = String::new();
    app.apply_filter();
    assert_eq!(app.filtered, vec![0, 1, 2, 3]);
}
