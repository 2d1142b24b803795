//! What each key press does to the viewer, mode by mode, and what is left for
//! the terminal front end to do (send a request, copy text).
use vstd::prelude::*;
use crate::app::{
    App, AppMode, AuthConfig, OutgoingRequest, Panel, SidebarEntry, TryItState, has_body_param,
};
use crate::request::fields_view;
use crate::text::{
    is_split_at_first, pop_char, push_char, split_at_first, split_once, without_last,
};

verus! {

/// A key press, as the viewer tells keys apart.
#[derive(Clone, Copy, PartialEq, Eq, Structural, Debug)]
pub enum Key {
    Char(char),
    Enter,
    Esc,
    Backspace,
    Tab,
    Up,
    Down,
    PageUp,
    PageDown,
    Other,
}

/// What the front end has to do after a key press.
pub enum KeyAction {
    Nothing,
    Send(OutgoingRequest),
    CopyText(String),
}

/// The request a key action sends, if any.
pub open spec fn sent_request(a: KeyAction) -> Option<OutgoingRequest> {
    match a {
        KeyAction::Send(r) => Some(r),
        _ => None,
    }
}

/// `j` or the down arrow.
pub open spec fn is_down(k: Key) -> bool {
    k == Key::Char('j') || k == Key::Down
}

/// `k` or the up arrow.
pub open spec fn is_up(k: Key) -> bool {
    k == Key::Char('k') || k == Key::Up
}

// ─── Search bar ─────────────────────────────────────────────────────────────

/// What a key does with the search bar open.
pub open spec fn search_step(old: App, new: App, code: Key) -> bool {
    match code {
        Key::Esc => App::filtered_for(old, new, Seq::<char>::empty(), false),
        Key::Enter => new == App { searching: false, ..old },
        Key::Backspace => App::filtered_for(old, new, without_last(old.search@), old.searching),
        Key::Char(c) => App::filtered_for(old, new, old.search@.push(c), old.searching),
        _ => new == old,
    }
}

/// With the search bar open: Esc clears the search and closes the bar, Enter
/// closes it keeping the search, Backspace and characters edit the search; the
/// endpoint list follows each change of the search.
pub fn handle_search_keys(app: &mut App, code: Key)
    requires
        old(app).wf(),
    ensures
        final(app).wf(),
        search_step(*old(app), *final(app), code),
{
    match code {
        Key::Esc => {
            app.searching = false;
            app.search = String::new();
            app.apply_filter();
        },
        Key::Enter => {
            app.searching = false;
        },
        Key::Backspace => {
            pop_char(&mut app.search);
            app.apply_filter();
        },
        Key::Char(c) => {
            push_char(&mut app.search, c);
            app.apply_filter();
        },
        _ => {},
    }
}

// ─── Browsing ───────────────────────────────────────────────────────────────

/// The other panel.
pub open spec fn other_panel(p: Panel) -> Panel {
    match p {
        Panel::Sidebar => Panel::Detail,
        Panel::Detail => Panel::Sidebar,
    }
}

/// What a key does while browsing.
pub open spec fn browse_step(old: App, new: App, code: Key) -> bool {
    if code == Key::Char('q') {
        new == App { quit: true, ..old }
    } else if code == Key::Char('/') {
        new == App { searching: true, ..old }
    } else if code == Key::Char('t') {
        App::try_it_entered(old, new)
    } else if code == Key::Char('a') {
        new == App { mode: AppMode::AuthEdit, auth_selected: 0, auth_editing: false, ..old }
    } else if code == Key::Char('w') {
        new == App { show_warnings: !old.show_warnings, ..old }
    } else if is_down(code) {
        if old.active_panel == Panel::Sidebar {
            App::moved_next(old, new)
        } else {
            new == App { scroll: old.scroll.saturating_add(1), ..old }
        }
    } else if is_up(code) {
        if old.active_panel == Panel::Sidebar {
            App::moved_prev(old, new)
        } else {
            new == App { scroll: old.scroll.saturating_sub(1), ..old }
        }
    } else if code == Key::Enter || code == Key::Char(' ') {
        if old.active_panel == Panel::Sidebar {
            App::toggled(old, new)
        } else {
            new == old
        }
    } else if code == Key::Tab {
        new == App { active_panel: other_panel(old.active_panel), ..old }
    } else if code == Key::Esc {
        if old.search@.len() > 0 {
            App::filtered_for(old, new, Seq::<char>::empty(), old.searching)
        } else {
            new == old
        }
    } else if code == Key::PageDown {
        new == App { scroll: old.scroll.saturating_add(old.page_step()), ..old }
    } else if code == Key::PageUp {
        new == App { scroll: old.scroll.saturating_sub(old.page_step()), ..old }
    } else {
        new == old
    }
}

/// While browsing: `q` quits, `/` opens the search bar, `t` opens the "try it
/// out" form, `a` the auth menu, `w` shows or hides the specification's
/// warnings; `j`/`k` (or the arrows) move the selection in
/// the sidebar or scroll the detail, whichever has the focus; Enter or space
/// collapses or expands the selected tag; Tab switches the focus; Esc clears
/// the search; PageDown/PageUp scroll the detail by a page.
pub fn handle_browse_keys(app: &mut App, code: Key)
    requires
        old(app).wf(),
    ensures
        final(app).wf(),
        browse_step(*old(app), *final(app), code),
{
    match code {
        Key::Char('q') => {
            app.quit = true;
        },
        Key::Char('/') => {
            app.searching = true;
        },
        Key::Char('t') => {
            app.enter_try_it();
        },
        Key::Char('a') => {
            app.mode = AppMode::AuthEdit;
            app.auth_selected = 0;
            app.auth_editing = false;
        },
        Key::Char('w') => {
            app.show_warnings = !app.show_warnings;
        },
        Key::Char('j') | Key::Down => {
            if app.active_panel == Panel::Sidebar {
                app.next();
            } else {
                app.scroll_down();
            }
        },
        Key::Char('k') | Key::Up => {
            if app.active_panel == Panel::Sidebar {
                app.prev();
            } else {
                app.scroll_up();
            }
        },
        Key::Enter | Key::Char(' ') => {
            if app.active_panel == Panel::Sidebar {
                app.toggle_tag();
            }
        },
        Key::Tab => {
            app.active_panel = match app.active_panel {
                Panel::Sidebar => Panel::Detail,
                Panel::Detail => Panel::Sidebar,
            };
        },
        Key::Esc => {
            if !app.search.as_str().is_empty() {
                app.search = String::new();
                app.apply_filter();
            }
        },
        Key::PageDown => {
            app.page_down();
        },
        Key::PageUp => {
            app.page_up();
        },
        _ => {},
    }
}

// ─── The "try it out" form ──────────────────────────────────────────────────

/// Whether the form is open with a field being edited.
pub open spec fn editing_of(t: Option<TryItState>) -> bool {
    match t {
        Some(st) => st.editing,
        None => false,
    }
}

/// Whether the form is open showing a response.
pub open spec fn has_response_of(t: Option<TryItState>) -> bool {
    match t {
        Some(st) => st.response is Some,
        None => false,
    }
}

/// Whether the endpoint on the selected line takes a body.
pub open spec fn selected_takes_body(app: App) -> bool {
    match app.selected_entry() {
        Some(SidebarEntry::Endpoint(i)) => has_body_param(app.endpoints@[i as int]@.operation.parameters),
        _ => false,
    }
}

/// The form's fields: one per parameter, and the body field after them when
/// the endpoint takes a body.
pub open spec fn field_count(st: TryItState, body: bool) -> nat {
    st.param_values@.len() + if body {
        1nat
    } else {
        0nat
    }
}

/// `new` is `old` with the form's selection moved to the next field (`down`)
/// or the previous one, wrapping around; nothing changes without fields.
pub open spec fn form_moved(old: App, new: App, down: bool) -> bool {
    match old.try_it {
        Some(st) => {
            let n = field_count(st, selected_takes_body(old));
            if n > 0 {
                new == App {
                    try_it: Some(
                        TryItState {
                            selected_field: if down {
                                ((st.selected_field + 1) % (n as int)) as usize
                            } else if st.selected_field == 0 {
                                (n - 1) as usize
                            } else {
                                (st.selected_field - 1) as usize
                            },
                            ..st
                        },
                    ),
                    ..old
                }
            } else {
                new == old
            }
        },
        None => new == old,
    }
}

/// `new` is the form `st` with `f` applied to the value of its selected field:
/// a parameter's value, or the body for the field after the parameters.
pub open spec fn field_edited(st: TryItState, new: TryItState, f: spec_fn(Seq<char>) -> Seq<char>) -> bool {
    if st.selected_field < st.param_values@.len() {
        let fv = fields_view(st.param_values@)[st.selected_field as int];
        &&& fields_view(new.param_values@) == fields_view(st.param_values@).update(
            st.selected_field as int,
            (fv.0, fv.1, f(fv.2)),
        )
        &&& new == TryItState { param_values: new.param_values, ..st }
    } else {
        &&& new.body@ == f(st.body@)
        &&& new == TryItState { body: new.body, ..st }
    }
}

/// `new` is `old` with the open form changed as `field_edited` says.
pub open spec fn app_field_edited(old: App, new: App, f: spec_fn(Seq<char>) -> Seq<char>) -> bool {
    match (old.try_it, new.try_it) {
        (Some(st), Some(ns)) => field_edited(st, ns, f) && new == App { try_it: new.try_it, ..old },
        _ => false,
    }
}

/// What a key does in the "try it out" form.
pub open spec fn try_it_step(old: App, new: App, code: Key, a: KeyAction) -> bool {
    let editing = editing_of(old.try_it);
    if code == Key::Esc {
        &&& a is Nothing
        &&& if editing {
            new == App { try_it: Some(TryItState { editing: false, ..old.try_it->0 }), ..old }
        } else {
            new == App { mode: AppMode::Browse, try_it: None, scroll: 0, ..old }
        }
    } else if code == Key::Char('s') && !editing {
        &&& (a is Nothing || a is Send)
        &&& App::request_started(old, new, sent_request(a))
    } else if code == Key::Char('c') && !editing {
        &&& new == old
        &&& match old.curl_for() {
            Some(c) => a matches KeyAction::CopyText(t) && t@ == c,
            None => a is Nothing,
        }
    } else if is_down(code) && !editing {
        &&& a is Nothing
        &&& if has_response_of(old.try_it) {
            new == App { scroll: old.scroll.saturating_add(1), ..old }
        } else {
            form_moved(old, new, true)
        }
    } else if is_up(code) && !editing {
        &&& a is Nothing
        &&& if has_response_of(old.try_it) {
            new == App { scroll: old.scroll.saturating_sub(1), ..old }
        } else {
            form_moved(old, new, false)
        }
    } else {
        &&& a is Nothing
        &&& match old.try_it {
            None => new == old,
            Some(st) => if st.editing {
                match code {
                    Key::Enter => new == App { try_it: Some(TryItState { editing: false, ..st }), ..old },
                    Key::Backspace => app_field_edited(old, new, |v: Seq<char>| without_last(v)),
                    Key::Char(c) => app_field_edited(old, new, |v: Seq<char>| v.push(c)),
                    _ => new == old,
                }
            } else if code == Key::Enter {
                new == App { try_it: Some(TryItState { editing: true, ..st }), ..old }
            } else {
                new == old
            },
        }
    }
}

/// The field after `sf` among `n` parameter fields and, if `body`, the body
/// field, wrapping around.
fn next_field(sf: usize, n: usize, body: bool) -> (r: usize)
    requires
        sf <= n,
        n + (if body { 1int } else { 0int }) > 0,
    ensures
        r == (sf + 1) % (n + (if body { 1int } else { 0int })),
        r <= n,
{
    if body {
        if sf == n {
            assert((sf + 1) % (n + 1) == 0) by (nonlinear_arith)
                requires sf == n;
            0
        } else {
            assert((sf + 1) % (n + 1) == sf + 1) by (nonlinear_arith)
                requires sf < n;
            sf + 1
        }
    } else {
        if sf < n - 1 {
            assert((sf + 1) % (n as int) == sf + 1) by (nonlinear_arith)
                requires sf + 1 < n;
            sf + 1
        } else if sf == n - 1 {
            assert((sf + 1) % (n as int) == 0) by (nonlinear_arith)
                requires sf + 1 == n, n > 0;
            0
        } else if n == 1 {
            assert((sf + 1) % (n as int) == 0) by (nonlinear_arith)
                requires sf == 1, n == 1;
            0
        } else {
            assert((sf + 1) % (n as int) == 1) by (nonlinear_arith)
                requires sf == n, n > 1;
            1
        }
    }
}

/// The field before `sf` among `n` parameter fields and, if `body`, the body
/// field, wrapping around.
fn prev_field(sf: usize, n: usize, body: bool) -> (r: usize)
    requires
        sf <= n,
        n + (if body { 1int } else { 0int }) > 0,
    ensures
        r == if sf == 0 {
            n + (if body { 1int } else { 0int }) - 1
        } else {
            sf - 1
        },
        r <= n,
{
    if sf == 0 {
        if body {
            n
        } else {
            n - 1
        }
    } else {
        sf - 1
    }
}

/// Applies a key to a form that is being edited.
fn edit_form(st: &mut TryItState, code: Key)
    requires
        old(st).selected_field <= old(st).param_values@.len(),
    ensures
        final(st).selected_field <= final(st).param_values@.len(),
        match code {
            Key::Enter => *final(st) == TryItState { editing: false, ..*old(st) },
            Key::Backspace => field_edited(*old(st), *final(st), |v: Seq<char>| without_last(v)),
            Key::Char(c) => field_edited(*old(st), *final(st), |v: Seq<char>| v.push(c)),
            _ => *final(st) == *old(st),
        },
{
    match code {
        Key::Enter => {
            st.editing = false;
        },
        Key::Backspace => {
            let sf = st.selected_field;
            if sf < st.param_values.len() {
                let name = st.param_values[sf].0.clone();
                let location = st.param_values[sf].1.clone();
                let mut value = st.param_values[sf].2.clone();
                pop_char(&mut value);
                let ghost before = fields_view(st.param_values@);
                st.param_values.set(sf, (name, location, value));
                assert(fields_view(st.param_values@) =~= before.update(
                    sf as int,
                    (before[sf as int].0, before[sf as int].1, without_last(before[sf as int].2)),
                ));
            } else {
                pop_char(&mut st.body);
            }
        },
        Key::Char(c) => {
            let sf = st.selected_field;
            if sf < st.param_values.len() {
                let name = st.param_values[sf].0.clone();
                let location = st.param_values[sf].1.clone();
                let mut value = st.param_values[sf].2.clone();
                push_char(&mut value, c);
                let ghost before = fields_view(st.param_values@);
                st.param_values.set(sf, (name, location, value));
                assert(fields_view(st.param_values@) =~= before.update(
                    sf as int,
                    (before[sf as int].0, before[sf as int].1, before[sf as int].2.push(c)),
                ));
            } else {
                push_char(&mut st.body, c);
            }
        },
        _ => {},
    }
}

/// Whether the endpoint on the selected line takes a body.
pub(crate) fn selected_has_body(app: &App) -> (r: bool)
    requires
        app.wf(),
    ensures
        r == selected_takes_body(*app),
{
    match app.selected_endpoint() {
        Some(ep) => {
            let ghost pv = ep.operation.parameters@.map_values(|p: crate::model::Parameter| p@);
            assert(pv == ep@.operation.parameters);
            assert(selected_takes_body(*app) == has_body_param(pv));
            let mut i: usize = 0;
            while i < ep.operation.parameters.len()
                invariant
                    i <= ep.operation.parameters.len(),
                    pv == ep.operation.parameters@.map_values(|p: crate::model::Parameter| p@),
                    forall|k: int| 0 <= k < i ==> pv[k].location != "body"@,
                    selected_takes_body(*app) == has_body_param(pv),
                decreases ep.operation.parameters.len() - i,
            {
                if crate::text::str_eq(ep.operation.parameters[i].location.as_str(), "body") {
                    assert(pv[i as int].location == "body"@);
                    assert(pv.len() == ep.operation.parameters@.len());
                    assert(has_body_param(pv));
                    return true;
                }
                i = i + 1;
            }
            false
        },
        None => false,
    }
}

/// Moves the form's selection to the next field (`down`) or the previous one.
fn move_field(app: &mut App, down: bool)
    requires
        old(app).wf(),
    ensures
        final(app).wf(),
        form_moved(*old(app), *final(app), down),
{
    let body = selected_has_body(app);
    match app.try_it.take() {
        Some(mut st) => {
            let n = st.param_values.len();
            if n > 0 || body {
                st.selected_field = if down {
                    next_field(st.selected_field, n, body)
                } else {
                    prev_field(st.selected_field, n, body)
                };
            }
            app.try_it = Some(st);
        },
        None => {},
    }
}

/// In the "try it out" form: Esc stops editing, or leaves the form; when not
/// editing, `s` sends the request, `c` copies it as a `curl` command, `j`/`k`
/// (or the arrows) scroll the response when there is one and otherwise move
/// between fields, and Enter starts editing the selected field; while editing,
/// characters and Backspace change its value and Enter ends the editing.
pub fn handle_try_it_keys(app: &mut App, code: Key) -> (a: KeyAction)
    requires
        old(app).wf(),
    ensures
        final(app).wf(),
        try_it_step(*old(app), *final(app), code, a),
{
    let editing = match &app.try_it {
        Some(st) => st.editing,
        None => false,
    };
    match code {
        Key::Esc => {
            if editing {
                match app.try_it.take() {
                    Some(mut st) => {
                        st.editing = false;
                        app.try_it = Some(st);
                    },
                    None => {},
                }
            } else {
                app.exit_try_it();
            }
            return KeyAction::Nothing;
        },
        Key::Char('s') => {
            if !editing {
                return match app.execute_request() {
                    Some(req) => KeyAction::Send(req),
                    None => KeyAction::Nothing,
                };
            }
        },
        Key::Char('c') => {
            if !editing {
                return match app.copy_as_curl() {
                    Some(text) => KeyAction::CopyText(text),
                    None => KeyAction::Nothing,
                };
            }
        },
        Key::Char('j') | Key::Down => {
            if !editing {
                let has_response = match &app.try_it {
                    Some(st) => st.response.is_some(),
                    None => false,
                };
                if has_response {
                    app.scroll = app.scroll.saturating_add(1);
                } else {
                    move_field(app, true);
                }
                return KeyAction::Nothing;
            }
        },
        Key::Char('k') | Key::Up => {
            if !editing {
                let has_response = match &app.try_it {
                    Some(st) => st.response.is_some(),
                    None => false,
                };
                if has_response {
                    app.scroll = app.scroll.saturating_sub(1);
                } else {
                    move_field(app, false);
                }
                return KeyAction::Nothing;
            }
        },
        _ => {},
    }
    match app.try_it.take() {
        Some(mut st) => {
            if st.editing {
                edit_form(&mut st, code);
            } else {
                match code {
                    Key::Enter => {
                        st.editing = true;
                    },
                    _ => {},
                }
            }
            app.try_it = Some(st);
        },
        None => {},
    }
    KeyAction::Nothing
}

// ─── Auth ───────────────────────────────────────────────────────────────────

/// The auth that the text typed for auth menu entry `sel` sets: a bearer token
/// (entry 1), `HEADER=VALUE` for an API key (entry 2), `user:password` for
/// basic auth (entry 3); a text without the separator, or another entry,
/// leaves `current` as it was.
pub open spec fn auth_from_input(sel: usize, input: Seq<char>, current: AuthConfig, new: AuthConfig) -> bool {
    if sel == 1 {
        new matches AuthConfig::Bearer(t) && t@ == input
    } else if sel == 2 {
        if input.contains('=') {
            new matches AuthConfig::ApiKey { header, value } && is_split_at_first(input, '=', header@, value@)
        } else {
            new == current
        }
    } else if sel == 3 {
        if input.contains(':') {
            new matches AuthConfig::Basic { username, password } && is_split_at_first(
                input,
                ':',
                username@,
                password@,
            )
        } else {
            new == current
        }
    } else {
        new == current
    }
}

/// Sets the auth from the text typed for the selected auth menu entry.
pub fn apply_auth_input(app: &mut App)
    ensures
        auth_from_input(old(app).auth_selected, old(app).auth_input@, old(app).auth, final(app).auth),
        (*final(app) == App { auth: final(app).auth, ..*old(app) }),
{
    if app.auth_selected == 1 {
        app.auth = AuthConfig::Bearer(app.auth_input.clone());
    } else if app.auth_selected == 2 {
        match split_once(app.auth_input.as_str(), '=') {
            Some((header, value)) => {
                app.auth = AuthConfig::ApiKey { header, value };
            },
            None => {},
        }
    } else if app.auth_selected == 3 {
        match split_once(app.auth_input.as_str(), ':') {
            Some((username, password)) => {
                app.auth = AuthConfig::Basic { username, password };
            },
            None => {},
        }
    }
}

/// What a key does in the auth menu.
pub open spec fn auth_step(old: App, new: App, code: Key) -> bool {
    if old.auth_editing {
        match code {
            Key::Esc => new == App { auth_editing: false, ..old },
            Key::Enter => {
                &&& auth_from_input(old.auth_selected, old.auth_input@, old.auth, new.auth)
                &&& new.status_message matches Some(m) && m@ == "Auth configured!"@
                &&& new == App {
                    auth: new.auth,
                    auth_editing: false,
                    mode: AppMode::Browse,
                    status_message: new.status_message,
                    ..old
                }
            },
            Key::Backspace => new.auth_input@ == without_last(old.auth_input@) && new == App {
                auth_input: new.auth_input,
                ..old
            },
            Key::Char(c) => new.auth_input@ == old.auth_input@.push(c) && new == App {
                auth_input: new.auth_input,
                ..old
            },
            _ => new == old,
        }
    } else if code == Key::Esc {
        new == App { mode: AppMode::Browse, ..old }
    } else if is_down(code) {
        new == App { auth_selected: ((old.auth_selected + 1) % 4) as usize, ..old }
    } else if is_up(code) {
        new == App {
            auth_selected: if old.auth_selected == 0 {
                3
            } else {
                (old.auth_selected - 1) as usize
            },
            ..old
        }
    } else if code == Key::Enter {
        if old.auth_selected == 0 {
            &&& new.auth is NoAuth
            &&& new.status_message matches Some(m) && m@ == "Auth cleared"@
            &&& new == App { auth: new.auth, mode: AppMode::Browse, status_message: new.status_message, ..old }
        } else {
            &&& new.auth_input@.len() == 0
            &&& new == App { auth_input: new.auth_input, auth_editing: true, ..old }
        }
    } else {
        new == old
    }
}

/// In the auth menu (None, Bearer Token, API Key, Basic Auth): `j`/`k` (or the
/// arrows) move through the entries, Enter clears the auth on the first entry
/// and starts typing a value on the others, Esc goes back to browsing; while
/// typing, characters and Backspace edit the value, Enter applies it and goes
/// back to browsing, Esc stops typing.
pub fn handle_auth_keys(app: &mut App, code: Key)
    requires
        old(app).wf(),
    ensures
        final(app).wf(),
        auth_step(*old(app), *final(app), code),
{
    if app.auth_editing {
        match code {
            Key::Esc => {
                app.auth_editing = false;
            },
            Key::Enter => {
                apply_auth_input(app);
                app.auth_editing = false;
                app.mode = AppMode::Browse;
                app.status_message = Some(String::from_str("Auth configured!"));
            },
            Key::Backspace => {
                pop_char(&mut app.auth_input);
            },
            Key::Char(c) => {
                push_char(&mut app.auth_input, c);
            },
            _ => {},
        }
        return;
    }
    match code {
        Key::Esc => {
            app.mode = AppMode::Browse;
        },
        Key::Char('j') | Key::Down => {
            app.auth_selected = (app.auth_selected + 1) % 4;
        },
        Key::Char('k') | Key::Up => {
            app.auth_selected = match app.auth_selected.checked_sub(1) {
                Some(s) => s,
                None => 3,
            };
        },
        Key::Enter => {
            if app.auth_selected == 0 {
                app.auth = AuthConfig::NoAuth;
                app.mode = AppMode::Browse;
                app.status_message = Some(String::from_str("Auth cleared"));
            } else {
                app.auth_input = String::new();
                app.auth_editing = true;
            }
        },
        _ => {},
    }
}

// ─── All keys ───────────────────────────────────────────────────────────────

/// What a key does in the viewer's current mode.
pub open spec fn key_step(old: App, new: App, code: Key, a: KeyAction) -> bool {
    match old.mode {
        AppMode::TryIt => try_it_step(old, new, code, a),
        AppMode::AuthEdit => a is Nothing && auth_step(old, new, code),
        AppMode::Browse => a is Nothing && if old.searching {
            search_step(old, new, code)
        } else {
            browse_step(old, new, code)
        },
    }
}

/// Handles a key press in the viewer's current mode, and says what the front
/// end has to do next.
pub fn handle_key(app: &mut App, code: Key) -> (a: KeyAction)
    requires
        old(app).wf(),
    ensures
        final(app).wf(),
        key_step(*old(app), *final(app), code, a),
{
    match app.mode {
        AppMode::TryIt => handle_try_it_keys(app, code),
        AppMode::AuthEdit => {
            handle_auth_keys(app, code);
            KeyAction::Nothing
        },
        AppMode::Browse => {
            if app.searching {
                handle_search_keys(app, code);
            } else {
                handle_browse_keys(app, code);
            }
            KeyAction::Nothing
        },
    }
}

// ─── Auth from the command line ─────────────────────────────────────────────

pub open spec fn pairs_view(v: Seq<(String, String)>) -> Seq<(Seq<char>, Seq<char>)> {
    v.map_values(|p: (String, String)| (p.0@, p.1@))
}

/// The `(name, value)` pairs of the `Name=Value` texts, skipping texts without
/// `=`, in order.
pub open spec fn header_pairs(hs: Seq<Seq<char>>) -> Seq<(Seq<char>, Seq<char>)>
    decreases hs.len(),
{
    if hs.len() == 0 {
        seq![]
    } else {
        header_pairs(hs.drop_last()) + if hs.last().contains('=') {
            seq![split_at_first(hs.last(), '=')]
        } else {
            Seq::<(Seq<char>, Seq<char>)>::empty()
        }
    }
}

/// The auth that the command line asks for, the first option given deciding:
/// a bearer token; an API key `HEADER=VALUE`; basic auth `user:password`; or
/// custom `Name=Value` headers. `None` leaves the auth unset (no option, a
/// value without its separator, or no well-formed header).
pub fn auth_from_cli(
    bearer: Option<String>,
    api_key: Option<String>,
    basic: Option<String>,
    headers: Vec<String>,
) -> (r: Option<AuthConfig>)
    ensures
        match bearer {
            Some(t) => r matches Some(AuthConfig::Bearer(x)) && x == t,
            None => match api_key {
                Some(k) => if k@.contains('=') {
                    r matches Some(AuthConfig::ApiKey { header, value }) && is_split_at_first(
                        k@,
                        '=',
                        header@,
                        value@,
                    )
                } else {
                    r is None
                },
                None => match basic {
                    Some(b) => if b@.contains(':') {
                        r matches Some(AuthConfig::Basic { username, password }) && is_split_at_first(
                            b@,
                            ':',
                            username@,
                            password@,
                        )
                    } else {
                        r is None
                    },
                    None => {
                        let pairs = header_pairs(headers@.map_values(|h: String| h@));
                        if pairs.len() > 0 {
                            r matches Some(AuthConfig::Custom(v)) && pairs_view(v@) == pairs
                        } else {
                            r is None
                        }
                    },
                },
            },
        },
{
    match bearer {
        Some(token) => {
            return Some(AuthConfig::Bearer(token));
        },
        None => {},
    }
    match api_key {
        Some(k) => {
            return match split_once(k.as_str(), '=') {
                Some((header, value)) => Some(AuthConfig::ApiKey { header, value }),
                None => None,
            };
        },
        None => {},
    }
    match basic {
        Some(b) => {
            return match split_once(b.as_str(), ':') {
                Some((username, password)) => Some(AuthConfig::Basic { username, password }),
                None => None,
            };
        },
        None => {},
    }
    let ghost hv = headers@.map_values(|h: String| h@);
    let mut pairs: Vec<(String, String)> = Vec::new();
    let mut i: usize = 0;
    while i < headers.len()
        invariant
            i <= headers.len(),
            hv == headers@.map_values(|h: String| h@),
            pairs_view(pairs@) == header_pairs(hv.take(i as int)),
        decreases headers.len() - i,
    {
        assert(hv.take(i + 1).drop_last() == hv.take(i as int));
        assert(hv.take(i + 1).last() == headers@[i as int]@);
        let ghost before = pairs_view(pairs@);
        match split_once(headers[i].as_str(), '=') {
            Some((name, value)) => {
                proof { crate::text::lemma_split_at_first(headers@[i as int]@, '=', name@, value@); }
                pairs.push((name, value));
                assert(pairs_view(pairs@) =~= before.push(split_at_first(headers@[i as int]@, '=')));
            },
            None => {},
        }
        i = i + 1;
    }
    assert(hv.take(headers.len() as int) == hv);
    if pairs.len() > 0 {
        Some(AuthConfig::Custom(pairs))
    } else {
        None
    }
}

} // verus!
