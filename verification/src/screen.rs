//! What the viewer's panels show, line by line: the title bar, the sidebar,
//! the operation detail, the warnings, the auth menu, the "try it out" form
//! and the footer. The terminal front end lays these lines out and draws them.
use vstd::prelude::*;
use crate::app::{App, AppMode, AuthConfig, Endpoint, EndpointView, HttpResponse, SidebarEntry, SidebarItem, TryItState, has_body_param};
use crate::keys::{editing_of, selected_has_body, selected_takes_body};
use crate::model::{
    Parameter, ParameterView, Response, ResponseView, Schema, SchemaView, OperationView, opt_view, strs_view,
};
use crate::request::{pretty_json_of, serde_json_pretty};
use crate::validate::{Warning, warnings_view};
use crate::render::{
    Look, Span, Tint, code_tint, code_tint_of, defs_view, status_tint, status_tint_of, fg, fg_bold, fg_look, line_view, lines_view, method_tint,
    method_tint_of, plain, push_line, render_schema, schema_lines, spaces, spaces_of, example_ends, example_of,
    generate_example, json_of, json_text,
};
use crate::text::{concat_str, push_char};

verus! {

// ─── Text layout ────────────────────────────────────────────────────────────

/// `s` followed by spaces up to `w` characters.
pub open spec fn pad_right(s: Seq<char>, w: nat) -> Seq<char> {
    if s.len() < w {
        s + spaces((w - s.len()) as nat)
    } else {
        s
    }
}

/// `s` after spaces up to `w` characters.
pub open spec fn pad_left(s: Seq<char>, w: nat) -> Seq<char> {
    if s.len() < w {
        spaces((w - s.len()) as nat) + s
    } else {
        s
    }
}

/// The character of a decimal digit.
pub open spec fn digit(d: nat) -> char {
    if d == 0 {
        '0'
    } else if d == 1 {
        '1'
    } else if d == 2 {
        '2'
    } else if d == 3 {
        '3'
    } else if d == 4 {
        '4'
    } else if d == 5 {
        '5'
    } else if d == 6 {
        '6'
    } else if d == 7 {
        '7'
    } else if d == 8 {
        '8'
    } else {
        '9'
    }
}

/// A number written in decimal.
pub open spec fn decimal(n: nat) -> Seq<char>
    decreases n,
{
    if n < 10 {
        seq![digit(n)]
    } else {
        decimal(n / 10).push(digit(n % 10))
    }
}

/// The texts with `sep` between each two.
pub open spec fn join(parts: Seq<Seq<char>>, sep: Seq<char>) -> Seq<char>
    decreases parts.len(),
{
    if parts.len() == 0 {
        seq![]
    } else if parts.len() == 1 {
        parts[0]
    } else {
        join(parts.drop_last(), sep) + sep + parts.last()
    }
}

/// A line without the carriage return that ended it, if any.
pub open spec fn strip_cr(line: Seq<char>) -> Seq<char> {
    if line.len() > 0 && line.last() == '\r' {
        line.drop_last()
    } else {
        line
    }
}

/// The lines of `s` when the line being read so far is `cur`: each `\n` ends a
/// line (a `\r` just before it is dropped); what follows the last `\n` is a
/// last line when it is not empty.
pub open spec fn lines_from(s: Seq<char>, cur: Seq<char>) -> Seq<Seq<char>>
    decreases s.len(),
{
    if s.len() == 0 {
        if cur.len() == 0 {
            seq![]
        } else {
            seq![cur]
        }
    } else if s[0] == '\n' {
        seq![strip_cr(cur)] + lines_from(s.skip(1), seq![])
    } else {
        lines_from(s.skip(1), cur.push(s[0]))
    }
}

/// The lines of a text.
pub open spec fn text_lines(s: Seq<char>) -> Seq<Seq<char>> {
    lines_from(s, seq![])
}

/// `s` followed by spaces up to `w` characters.
pub fn pad_right_of(s: &str, w: usize) -> (r: String)
    ensures
        r@ == pad_right(s@, w as nat),
{
    let n = crate::text::chars_of(s).len();
    if n < w {
        let sp = spaces_of(w - n);
        concat_str(s, sp.as_str())
    } else {
        crate::text::owned(s)
    }
}

/// `s` after spaces up to `w` characters.
pub fn pad_left_of(s: &str, w: usize) -> (r: String)
    ensures
        r@ == pad_left(s@, w as nat),
{
    let n = crate::text::chars_of(s).len();
    if n < w {
        let sp = spaces_of(w - n);
        concat_str(sp.as_str(), s)
    } else {
        crate::text::owned(s)
    }
}

/// The character of a decimal digit.
fn digit_char(d: u64) -> (c: char)
    requires
        d < 10,
    ensures
        c == digit(d as nat),
{
    if d == 0 {
        '0'
    } else if d == 1 {
        '1'
    } else if d == 2 {
        '2'
    } else if d == 3 {
        '3'
    } else if d == 4 {
        '4'
    } else if d == 5 {
        '5'
    } else if d == 6 {
        '6'
    } else if d == 7 {
        '7'
    } else if d == 8 {
        '8'
    } else {
        '9'
    }
}

/// A number written in decimal.
pub fn decimal_of(n: u64) -> (r: String)
    ensures
        r@ == decimal(n as nat),
    decreases n,
{
    if n < 10 {
        let mut r = String::new();
        push_char(&mut r, digit_char(n));
        assert(r@ =~= seq![digit(n as nat)]);
        r
    } else {
        let mut r = decimal_of(n / 10);
        push_char(&mut r, digit_char(n % 10));
        r
    }
}

/// The texts with `sep` between each two.
pub fn join_of(parts: &Vec<String>, sep: &str) -> (r: String)
    ensures
        r@ == join(parts@.map_values(|p: String| p@), sep@),
{
    let ghost pv = parts@.map_values(|p: String| p@);
    let mut r = String::new();
    let mut i: usize = 0;
    while i < parts.len()
        invariant
            i <= parts.len(),
            pv == parts@.map_values(|p: String| p@),
            r@ == join(pv.take(i as int), sep@),
        decreases parts.len() - i,
    {
        assert(pv.take(i + 1).drop_last() == pv.take(i as int));
        assert(pv.take(i + 1).last() == parts@[i as int]@);
        if i > 0 {
            r.append(sep);
        }
        r.append(parts[i].as_str());
        proof {
            if i == 0 {
                assert(pv.take(1).len() == 1);
                assert(r@ =~= pv.take(1)[0]);
            }
        }
        i = i + 1;
    }
    assert(pv.take(parts.len() as int) == pv);
    r
}

/// A line without the carriage return that ended it, if any.
fn strip_cr_of(line: &str) -> (r: String)
    ensures
        r@ == strip_cr(line@),
{
    let v = crate::text::chars_of(line);
    let mut r = crate::text::owned(line);
    if v.len() > 0 && v[v.len() - 1] == '\r' {
        crate::text::pop_char(&mut r);
    }
    r
}

proof fn lemma_lines_step(s: Seq<char>, i: int, cur: Seq<char>)
    requires
        0 <= i < s.len(),
    ensures
        lines_from(s.skip(i), cur) == if s[i] == '\n' {
            seq![strip_cr(cur)] + lines_from(s.skip(i + 1), seq![])
        } else {
            lines_from(s.skip(i + 1), cur.push(s[i]))
        },
{
    assert(s.skip(i)[0] == s[i]);
    assert(s.skip(i).skip(1) == s.skip(i + 1));
}

/// The lines of a text.
pub fn text_lines_of(s: &str) -> (r: Vec<String>)
    ensures
        r@.map_values(|l: String| l@) == text_lines(s@),
{
    let cs = crate::text::chars_of(s);
    let mut r: Vec<String> = Vec::new();
    let mut cur = String::new();
    let mut i: usize = 0;
    assert(s@.skip(0) =~= s@);
    assert(r@.map_values(|l: String| l@) =~= Seq::<Seq<char>>::empty());
    while i < cs.len()
        invariant
            i <= cs.len(),
            cs@ == s@,
            r@.map_values(|l: String| l@) + lines_from(s@.skip(i as int), cur@) == text_lines(s@),
        decreases cs.len() - i,
    {
        proof { lemma_lines_step(s@, i as int, cur@); }
        let ghost before = r@.map_values(|l: String| l@);
        if cs[i] == '\n' {
            let ghost c0 = cur@;
            let line = strip_cr_of(cur.as_str());
            r.push(line);
            cur = String::new();
            assert(r@.map_values(|l: String| l@) =~= before.push(strip_cr(c0)));
            assert(before + (seq![strip_cr(c0)] + lines_from(s@.skip(i + 1), seq![])) =~= before.push(strip_cr(c0))
                + lines_from(s@.skip(i + 1), seq![]));
        } else {
            push_char(&mut cur, cs[i]);
        }
        i = i + 1;
    }
    assert(s@.skip(cs.len() as int).len() == 0);
    if !cur.as_str().is_empty() {
        let ghost before = r@.map_values(|l: String| l@);
        r.push(cur);
        assert(r@.map_values(|l: String| l@) =~= before.push(cur@));
    } else {
        assert(cur@.len() == 0);
    }
    r
}

// ─── Building lines ─────────────────────────────────────────────────────────

/// A piece of text in a look.
fn span(text: String, look: Look) -> (s: Span)
    ensures
        s@ == (text@, look),
{
    Span { text, look }
}

/// A line of one piece.
fn line1(a: Span) -> (l: Vec<Span>)
    ensures
        line_view(l@) == seq![a@],
{
    let ghost av = a@;
    let mut l: Vec<Span> = Vec::new();
    l.push(a);
    assert(line_view(l@) =~= seq![av]);
    l
}

/// A line of two pieces.
fn line2(a: Span, b: Span) -> (l: Vec<Span>)
    ensures
        line_view(l@) == seq![a@, b@],
{
    let ghost (av, bv) = (a@, b@);
    let mut l: Vec<Span> = Vec::new();
    l.push(a);
    l.push(b);
    assert(line_view(l@) =~= seq![av, bv]);
    l
}

/// A line of three pieces.
fn line3(a: Span, b: Span, c: Span) -> (l: Vec<Span>)
    ensures
        line_view(l@) == seq![a@, b@, c@],
{
    let ghost (av, bv, cv) = (a@, b@, c@);
    let mut l: Vec<Span> = Vec::new();
    l.push(a);
    l.push(b);
    l.push(c);
    assert(line_view(l@) =~= seq![av, bv, cv]);
    l
}

/// A line of four pieces.
fn line4(a: Span, b: Span, c: Span, d: Span) -> (l: Vec<Span>)
    ensures
        line_view(l@) == seq![a@, b@, c@, d@],
{
    let ghost (av, bv, cv, dv) = (a@, b@, c@, d@);
    let mut l: Vec<Span> = Vec::new();
    l.push(a);
    l.push(b);
    l.push(c);
    l.push(d);
    assert(line_view(l@) =~= seq![av, bv, cv, dv]);
    l
}

/// An empty line.
fn blank() -> (l: Vec<Span>)
    ensures
        line_view(l@) == Seq::<(Seq<char>, Look)>::empty(),
{
    let l: Vec<Span> = Vec::new();
    assert(line_view(l@) =~= Seq::<(Seq<char>, Look)>::empty());
    l
}

/// A text as a new `String`.
fn text(s: &str) -> (r: String)
    ensures
        r@ == s@,
{
    String::from_str(s)
}

// ─── Title bar and footer ───────────────────────────────────────────────────

/// The title bar: the specification's title and version, and the number of
/// warnings when there are any.
pub open spec fn title_text(app: App) -> Seq<char> {
    " SwagTerm — "@ + app.spec.info.title@ + " v"@ + app.spec.info.version@ + if app.warnings@.len() == 0 {
        Seq::<char>::empty()
    } else {
        " ⚠ "@ + decimal(app.warnings@.len())
    }
}

/// The title bar, in bold cyan.
pub fn title_line(app: &App) -> (l: Vec<Span>)
    ensures
        line_view(l@) == seq![(title_text(*app), fg_bold(Tint::Cyan))],
{
    let a = concat_str(" SwagTerm — ", app.spec.info.title.as_str());
    let b = concat_str(a.as_str(), " v");
    let mut t = concat_str(b.as_str(), app.spec.info.version.as_str());
    if app.warnings.len() > 0 {
        let n = decimal_of(app.warnings.len() as u64);
        let badge = concat_str(" ⚠ ", n.as_str());
        t.append(badge.as_str());
    } else {
        assert(t@ =~= t@ + Seq::<char>::empty());
    }
    line1(span(t, Look { fg: Some(Tint::Cyan), bg: None, bold: true }))
}

/// The footer: the status message while there is one; else the search bar when
/// it is open; else the keys of the current mode.
pub open spec fn footer_text(app: App) -> Seq<char> {
    match app.status_message {
        Some(m) => m@,
        None => if app.searching {
            " Search: "@ + app.search@ + "█"@
        } else if app.mode == AppMode::TryIt {
            if editing_of(app.try_it) {
                " Type value │ Enter/Esc:done"@
            } else {
                " j/k:select │ Enter:edit │ s:send │ c:curl │ Esc:back"@
            }
        } else if app.mode == AppMode::AuthEdit {
            if app.auth_editing {
                " Type value │ Enter:apply │ Esc:cancel"@
            } else {
                " j/k:select │ Enter:choose │ Esc:back"@
            }
        } else {
            " j/k:nav │ Tab:switch │ /:search │ t:try it │ a:auth │ w:warnings │ q:quit"@
        },
    }
}

/// The footer, green while it shows a status message, dark gray otherwise.
pub fn footer_line(app: &App) -> (l: Vec<Span>)
    ensures
        line_view(l@) == seq![
            (
                footer_text(*app),
                if app.status_message is Some {
                    fg(Tint::Green)
                } else {
                    fg(Tint::DarkGray)
                },
            ),
        ],
{
    match &app.status_message {
        Some(m) => {
            return line1(span(m.clone(), Look { fg: Some(Tint::Green), bg: None, bold: false }));
        },
        None => {},
    }
    let t = if app.searching {
        let a = concat_str(" Search: ", app.search.as_str());
        concat_str(a.as_str(), "█")
    } else if app.mode == AppMode::TryIt {
        let editing = match &app.try_it {
            Some(st) => st.editing,
            None => false,
        };
        if editing {
            text(" Type value │ Enter/Esc:done")
        } else {
            text(" j/k:select │ Enter:edit │ s:send │ c:curl │ Esc:back")
        }
    } else if app.mode == AppMode::AuthEdit {
        if app.auth_editing {
            text(" Type value │ Enter:apply │ Esc:cancel")
        } else {
            text(" j/k:select │ Enter:choose │ Esc:back")
        }
    } else {
        text(" j/k:nav │ Tab:switch │ /:search │ t:try it │ a:auth │ w:warnings │ q:quit")
    };
    line1(span(t, Look { fg: Some(Tint::DarkGray), bg: None, bold: false }))
}

// ─── Sidebar ────────────────────────────────────────────────────────────────

/// A line of the sidebar: a tag with an arrow that shows whether it is
/// collapsed, in bold white; or an endpoint's method, right-aligned in six
/// columns in the method's colour, and its path. The selected line has a dark
/// gray background.
pub open spec fn sidebar_line(app: App, i: int) -> Seq<(Seq<char>, Look)> {
    let sel = i == app.selected;
    match app.sidebar_items@[i]@ {
        SidebarEntry::Tag(t) => seq![
            (
                (if strs_view(app.collapsed_tags@).contains(t) {
                    "▶"@
                } else {
                    "▼"@
                }) + " "@ + t,
                Look { fg: Some(Tint::White), bg: if sel { Some(Tint::DarkGray) } else { None }, bold: true },
            ),
        ],
        SidebarEntry::Endpoint(k) => {
            let ep = app.endpoints@[k as int]@;
            seq![
                (pad_left(ep.method, 6), fg(method_tint_of(ep.method))),
                (" "@ + ep.path, if sel { Look { fg: None, bg: Some(Tint::DarkGray), bold: true } } else { plain() }),
            ]
        },
    }
}

/// The lines of the sidebar, one per item.
pub open spec fn sidebar_lines(app: App) -> Seq<Seq<(Seq<char>, Look)>> {
    Seq::new(app.sidebar_items@.len(), |i: int| sidebar_line(app, i))
}

/// Whether a list of texts holds one equal to `s`.
fn holds_text(v: &Vec<String>, s: &String) -> (r: bool)
    ensures
        r == strs_view(v@).contains(s@),
{
    let mut i: usize = 0;
    while i < v.len()
        invariant
            i <= v.len(),
            forall|k: int| 0 <= k < i ==> v@[k]@ != s@,
        decreases v.len() - i,
    {
        if crate::text::str_eq(v[i].as_str(), s.as_str()) {
            assert(strs_view(v@)[i as int] == s@);
            return true;
        }
        i = i + 1;
    }
    assert forall|k: int| 0 <= k < strs_view(v@).len() implies strs_view(v@)[k] != s@ by {
        assert(strs_view(v@)[k] == v@[k]@);
    }
    false
}

/// The lines of the sidebar.
pub fn sidebar_lines_of(app: &App) -> (lines: Vec<Vec<Span>>)
    requires
        app.wf(),
    ensures
        lines_view(lines@) == sidebar_lines(*app),
{
    proof { app.lemma_wf_entries(); }
    let mut lines: Vec<Vec<Span>> = Vec::new();
    let mut i: usize = 0;
    while i < app.sidebar_items.len()
        invariant
            i <= app.sidebar_items.len(),
            app.wf(),
            forall|k: int|
                #![trigger app.sidebar_items@[k]]
                0 <= k < app.sidebar_items@.len() ==> match app.sidebar_items@[k]@ {
                    SidebarEntry::Endpoint(e) => e < app.endpoints@.len(),
                    _ => true,
                },
            lines_view(lines@) == sidebar_lines(*app).take(i as int),
        decreases app.sidebar_items.len() - i,
    {
        let sel = i == app.selected;
        let l = match &app.sidebar_items[i] {
            SidebarItem::Tag(t) => {
                let arrow = if holds_text(&app.collapsed_tags, t) {
                    "▶"
                } else {
                    "▼"
                };
                let a = concat_str(arrow, " ");
                let txt = concat_str(a.as_str(), t.as_str());
                let look = Look { fg: Some(Tint::White), bg: if sel { Some(Tint::DarkGray) } else { None }, bold: true };
                line1(span(txt, look))
            },
            SidebarItem::Endpoint(k) => {
                let ep = &app.endpoints[*k];
                let m = pad_left_of(ep.method.as_str(), 6);
                let p = concat_str(" ", ep.path.as_str());
                let look = if sel {
                    Look { fg: None, bg: Some(Tint::DarkGray), bold: true }
                } else {
                    Look { fg: None, bg: None, bold: false }
                };
                line2(span(m, fg_look(method_tint(ep.method.as_str()))), span(p, look))
            },
        };
        assert(line_view(l@) == sidebar_line(*app, i as int));
        let ghost before = lines_view(lines@);
        push_line(&mut lines, l);
        assert(lines_view(lines@) =~= sidebar_lines(*app).take(i + 1));
        i = i + 1;
    }
    assert(sidebar_lines(*app).take(app.sidebar_items@.len() as int) =~= sidebar_lines(*app));
    lines
}

// ─── Operation detail ───────────────────────────────────────────────────────

/// Bold text.
pub open spec fn bold() -> Look {
    Look { fg: None, bg: None, bold: true }
}

/// The rule under a section heading of the detail panel.
pub open spec fn detail_rule() -> Seq<char> {
    "─────────────────────────────────────────────────"@
}

/// The lines of an optional text, in a look.
pub open spec fn opt_line(t: Option<Seq<char>>, look: Look) -> Seq<Seq<(Seq<char>, Look)>> {
    match t {
        Some(x) => seq![seq![(x, look)]],
        None => seq![],
    }
}

/// An empty line, as a group of lines.
pub open spec fn blank_line() -> Seq<Seq<(Seq<char>, Look)>> {
    seq![Seq::<(Seq<char>, Look)>::empty()]
}

/// The method on its colour and the path, both bold.
pub open spec fn header_top(ep: EndpointView) -> Seq<Seq<(Seq<char>, Look)>> {
    seq![
        seq![
            (" "@ + ep.method + " "@, Look { fg: Some(Tint::White), bg: Some(method_tint_of(ep.method)), bold: true }),
            (" "@ + ep.path, bold()),
        ],
    ]
}

/// The operation id line, when there is an id.
pub open spec fn id_line(id: Option<Seq<char>>) -> Seq<Seq<(Seq<char>, Look)>> {
    match id {
        Some(x) => seq![seq![("operationId: "@ + x, fg(Tint::DarkGray))]],
        None => seq![],
    }
}

/// A line listing media types after a yellow label, when there are any.
pub open spec fn media_line(label: Seq<char>, types: Seq<Seq<char>>) -> Seq<Seq<(Seq<char>, Look)>> {
    if types.len() > 0 {
        seq![seq![(label, fg(Tint::Yellow)), (join(types, ", "@), plain())]]
    } else {
        seq![]
    }
}

/// The first lines of an endpoint's detail: the method on its colour and the
/// path; the operation id; a blank line; the summary (white) and the
/// description (gray); a blank line; the media types consumed and produced,
/// and a blank line after them when there are any.
pub open spec fn header_lines(ep: EndpointView) -> Seq<Seq<(Seq<char>, Look)>> {
    let op = ep.operation;
    header_top(ep) + id_line(op.operation_id) + blank_line() + opt_line(op.summary, fg(Tint::White)) + opt_line(
        op.description,
        fg(Tint::Gray),
    ) + blank_line() + media_line("Consumes: "@, op.consumes) + media_line("Produces: "@, op.produces) + if op.consumes.len()
        > 0 || op.produces.len() > 0 {
        blank_line()
    } else {
        seq![]
    }
}

/// Appends an optional text as a line in a look.
fn push_opt_line(lines: &mut Vec<Vec<Span>>, t: &Option<String>, look: Look)
    ensures
        lines_view(final(lines)@) == lines_view(old(lines)@) + opt_line(opt_view(*t), look),
{
    let ghost l0 = lines_view(lines@);
    match t {
        Some(x) => {
            push_line(lines, line1(span(x.clone(), look)));
        },
        None => {},
    }
    assert(lines_view(lines@) =~= l0 + opt_line(opt_view(*t), look));
}

/// Appends a line listing media types, when there are any.
fn push_media_line(lines: &mut Vec<Vec<Span>>, label: &str, types: &Vec<String>)
    ensures
        lines_view(final(lines)@) == lines_view(old(lines)@) + media_line(label@, strs_view(types@)),
{
    let ghost l0 = lines_view(lines@);
    if types.len() > 0 {
        let j = join_of(types, ", ");
        push_line(lines, line2(span(text(label), fg_look(Tint::Yellow)), span(j, Look { fg: None, bg: None, bold: false })));
    }
    assert(lines_view(lines@) =~= l0 + media_line(label@, strs_view(types@)));
}

/// Appends a blank line.
fn push_blank(lines: &mut Vec<Vec<Span>>)
    ensures
        lines_view(final(lines)@) == lines_view(old(lines)@) + blank_line(),
{
    push_line(lines, blank());
}

/// Appends the first lines of an endpoint's detail.
pub fn push_header_lines(lines: &mut Vec<Vec<Span>>, ep: &Endpoint)
    ensures
        lines_view(final(lines)@) == lines_view(old(lines)@) + header_lines(ep@),
{
    let ghost l0 = lines_view(lines@);
    let ghost op = ep@.operation;
    let a = concat_str(" ", ep.method.as_str());
    let m = concat_str(a.as_str(), " ");
    let p = concat_str(" ", ep.path.as_str());
    let top = line2(
        span(m, Look { fg: Some(Tint::White), bg: Some(method_tint(ep.method.as_str())), bold: true }),
        span(p, Look { fg: None, bg: None, bold: true }),
    );
    push_line(lines, top);
    assert(lines_view(lines@) =~= l0 + header_top(ep@));
    let ghost g1 = header_top(ep@);
    let id_text: Option<String> = match &ep.operation.operation_id {
        Some(id) => Some(concat_str("operationId: ", id.as_str())),
        None => None,
    };
    push_opt_line(lines, &id_text, fg_look(Tint::DarkGray));
    assert(opt_line(opt_view(id_text), fg(Tint::DarkGray)) == id_line(op.operation_id));
    let ghost g2 = g1 + id_line(op.operation_id);
    assert(lines_view(lines@) =~= l0 + g2);
    push_blank(lines);
    let ghost g3 = g2 + blank_line();
    assert(lines_view(lines@) =~= l0 + g3);
    push_opt_line(lines, &ep.operation.summary, fg_look(Tint::White));
    let ghost g4 = g3 + opt_line(op.summary, fg(Tint::White));
    assert(lines_view(lines@) =~= l0 + g4);
    push_opt_line(lines, &ep.operation.description, fg_look(Tint::Gray));
    let ghost g5 = g4 + opt_line(op.description, fg(Tint::Gray));
    assert(lines_view(lines@) =~= l0 + g5);
    push_blank(lines);
    let ghost g6 = g5 + blank_line();
    assert(lines_view(lines@) =~= l0 + g6);
    push_media_line(lines, "Consumes: ", &ep.operation.consumes);
    let ghost g7 = g6 + media_line("Consumes: "@, op.consumes);
    assert(lines_view(lines@) =~= l0 + g7);
    push_media_line(lines, "Produces: ", &ep.operation.produces);
    let ghost g8 = g7 + media_line("Produces: "@, op.produces);
    assert(lines_view(lines@) =~= l0 + g8);
    if ep.operation.consumes.len() > 0 || ep.operation.produces.len() > 0 {
        push_blank(lines);
        assert(lines_view(lines@) =~= l0 + (g8 + blank_line()));
    } else {
        assert(lines_view(lines@) =~= l0 + (g8 + Seq::<Seq<(Seq<char>, Look)>>::empty()));
    }
}

/// The text a JSON value's text decodes to when it is a JSON string, as
/// `serde_json` decodes it (`serde_json::from_str::<String>`); `None` when it
/// is not one.
pub uninterp spec fn json_string_of(text: Seq<char>) -> Option<Seq<char>>;

/// Calls `serde_json::from_str::<String>`. Claimed: the result is
/// `json_string_of` of the text, a function of the text alone; nothing is
/// claimed of what that function is.
#[verifier::external_body]
fn serde_json_string(text: &str) -> (r: Option<String>)
    ensures
        match r {
            Some(d) => json_string_of(text@) == Some(d@),
            None => json_string_of(text@) is None,
        },
{
    serde_json::from_str::<String>(text).ok()
}

/// How an allowed value is shown: a JSON string as its text, any other value
/// as its JSON text.
pub open spec fn label(text: Seq<char>) -> Seq<char> {
    match json_string_of(text) {
        Some(d) => d,
        None => text,
    }
}

/// How allowed values are shown, one by one.
pub open spec fn labels(values: Seq<Seq<char>>) -> Seq<Seq<char>> {
    values.map_values(|v: Seq<char>| label(v))
}

/// How an allowed value is shown, given what decoding it as a JSON string
/// gave: the decoded text, or the value's JSON text when it is not a string.
pub fn label_from(text: String, decoded: Option<String>) -> (r: String)
    ensures
        r@ == match decoded {
            Some(d) => d@,
            None => text@,
        },
{
    match decoded {
        Some(d) => d,
        None => text,
    }
}

/// How an allowed value is shown, as `label` states.
pub fn label_of(text: &str) -> (r: String)
    ensures
        r@ == label(text@),
{
    let decoded = serde_json_string(text);
    label_from(crate::text::owned(text), decoded)
}

/// Appends the line listing the values a parameter allows, when it lists any.
fn push_values_line(lines: &mut Vec<Vec<Span>>, indent: &str, values: &Vec<String>)
    ensures
        lines_view(final(lines)@) == lines_view(old(lines)@) + values_line(indent@, strs_view(values@)),
{
    let ghost l0 = lines_view(lines@);
    let ghost vv = strs_view(values@);
    if values.len() == 0 {
        assert(lines_view(lines@) =~= l0 + values_line(indent@, vv));
        return;
    }
    let mut ls: Vec<String> = Vec::new();
    let mut i: usize = 0;
    while i < values.len()
        invariant
            i <= values.len(),
            vv == strs_view(values@),
            strs_view(ls@) == labels(vv).take(i as int),
        decreases values.len() - i,
    {
        let ghost before = strs_view(ls@);
        let l = label_of(values[i].as_str());
        assert(l@ == labels(vv)[i as int]);
        ls.push(l);
        assert(strs_view(ls@) =~= before.push(l@));
        assert(strs_view(ls@) =~= labels(vv).take(i + 1));
        i = i + 1;
    }
    assert(labels(vv).take(values.len() as int) =~= labels(vv));
    let j = join_of(&ls, ", ");
    assert(ls@.map_values(|p: String| p@) == strs_view(ls@));
    let a = concat_str(indent, "Available values: ");
    let t = concat_str(a.as_str(), j.as_str());
    push_line(lines, line1(span(t, fg_look(Tint::Magenta))));
    let ghost expected = values_line(indent@, vv);
    assert(expected[0] =~= lines_view(lines@)[l0.len() as int]);
    assert(lines_view(lines@) =~= l0 + expected);
}

/// A section heading of the detail panel, in bold cyan.
pub open spec fn heading(t: Seq<char>) -> Seq<(Seq<char>, Look)> {
    seq![(t, fg_bold(Tint::Cyan))]
}

/// The type column of a parameter: its type, `object` when it has none.
pub open spec fn type_column(t: Option<Seq<char>>) -> Seq<char> {
    match t {
        Some(x) => x,
        None => "object"@,
    }
}

/// The row of a parameter in the table: name, location (yellow) and type
/// padded to 20, 10 and 12 columns, and a green tick when it is required.
pub open spec fn param_row(p: ParameterView) -> Seq<(Seq<char>, Look)> {
    seq![
        (pad_right(p.name, 20), plain()),
        (pad_right(p.location, 10), fg(Tint::Yellow)),
        (pad_right(type_column(p.param_type), 12), plain()),
        (
            if p.required {
                "✓"@
            } else {
                Seq::<char>::empty()
            },
            fg(Tint::Green),
        ),
    ]
}

/// The line listing the values a parameter allows, when it lists any.
pub open spec fn values_line(indent: Seq<char>, values: Seq<Seq<char>>) -> Seq<Seq<(Seq<char>, Look)>> {
    if values.len() > 0 {
        seq![seq![(indent + "Available values: "@ + join(labels(values), ", "@), fg(Tint::Magenta))]]
    } else {
        seq![]
    }
}

/// The lines of a parameter: its row; its description, dark gray, under a
/// corner; the values it allows (magenta); and for a body parameter the
/// outline of its schema.
pub open spec fn parameter_lines(p: ParameterView, defs: Seq<(Seq<char>, SchemaView)>) -> Seq<
    Seq<(Seq<char>, Look)>,
> {
    seq![param_row(p)] + opt_line(
        match p.description {
            Some(d) => Some("  └ "@ + d),
            None => None,
        },
        fg(Tint::DarkGray),
    ) + values_line("  "@, p.enum_values) + if p.location == "body"@ {
        match p.schema {
            Some(sc) => schema_lines(sc, defs, 2, 4),
            None => seq![],
        }
    } else {
        seq![]
    }
}

/// The lines of the parameters, one after the other.
pub open spec fn parameters_lines(ps: Seq<ParameterView>, defs: Seq<(Seq<char>, SchemaView)>) -> Seq<
    Seq<(Seq<char>, Look)>,
>
    decreases ps.len(),
{
    if ps.len() == 0 {
        seq![]
    } else {
        parameters_lines(ps.drop_last(), defs) + parameter_lines(ps.last(), defs)
    }
}

/// The header row of the parameter table.
pub open spec fn param_header() -> Seq<(Seq<char>, Look)> {
    seq![
        (pad_right("Name"@, 20), bold()),
        (pad_right("In"@, 10), bold()),
        (pad_right("Type"@, 12), bold()),
        ("Required"@, bold()),
    ]
}

/// The parameters section of an operation's detail (nothing without
/// parameters): heading, rule, table header, the parameters, a blank line.
pub open spec fn parameters_section(op: OperationView, defs: Seq<(Seq<char>, SchemaView)>) -> Seq<
    Seq<(Seq<char>, Look)>,
> {
    if op.parameters.len() == 0 {
        seq![]
    } else {
        seq![heading("Parameters"@), seq![(detail_rule(), fg(Tint::DarkGray))], param_header()] + parameters_lines(
            op.parameters,
            defs,
        ) + blank_line()
    }
}

/// Appends the lines of a parameter.
fn push_parameter_lines(lines: &mut Vec<Vec<Span>>, p: &Parameter, definitions: &Vec<(String, Schema)>)
    ensures
        lines_view(final(lines)@) == lines_view(old(lines)@) + parameter_lines(p@, defs_view(definitions@)),
{
    let ghost l0 = lines_view(lines@);
    let name = pad_right_of(p.name.as_str(), 20);
    let loc = pad_right_of(p.location.as_str(), 10);
    let ty = match &p.param_type {
        Some(t) => pad_right_of(t.as_str(), 12),
        None => pad_right_of("object", 12),
    };
    let req = if p.required {
        text("✓")
    } else {
        String::new()
    };
    let row = line4(
        span(name, Look { fg: None, bg: None, bold: false }),
        span(loc, fg_look(Tint::Yellow)),
        span(ty, Look { fg: None, bg: None, bold: false }),
        span(req, fg_look(Tint::Green)),
    );
    assert(line_view(row@) =~= param_row(p@));
    push_line(lines, row);
    let ghost g1 = seq![param_row(p@)];
    assert(lines_view(lines@) =~= l0 + g1);
    let desc: Option<String> = match &p.description {
        Some(d) => Some(concat_str("  └ ", d.as_str())),
        None => None,
    };
    push_opt_line(lines, &desc, fg_look(Tint::DarkGray));
    let ghost g2 = g1 + opt_line(
        match p@.description {
            Some(d) => Some("  └ "@ + d),
            None => None,
        },
        fg(Tint::DarkGray),
    );
    assert(lines_view(lines@) =~= l0 + g2);
    push_values_line(lines, "  ", &p.enum_values);
    let ghost g3 = g2 + values_line("  "@, p@.enum_values);
    assert(lines_view(lines@) =~= l0 + g3);
    if crate::text::str_eq(p.location.as_str(), "body") {
        match &p.schema {
            Some(sc) => {
                render_schema(lines, sc, definitions, 2, 4);
            },
            None => {},
        }
    }
    assert(lines_view(lines@) =~= l0 + parameter_lines(p@, defs_view(definitions@)));
}

/// Appends the parameters section of an operation's detail.
pub fn push_parameters_section(lines: &mut Vec<Vec<Span>>, ep: &Endpoint, definitions: &Vec<(String, Schema)>)
    ensures
        lines_view(final(lines)@) == lines_view(old(lines)@) + parameters_section(
            ep@.operation,
            defs_view(definitions@),
        ),
{
    let ghost l0 = lines_view(lines@);
    let ghost dv = defs_view(definitions@);
    let ghost ps = ep@.operation.parameters;
    let params = &ep.operation.parameters;
    if params.len() == 0 {
        assert(lines_view(lines@) =~= l0 + Seq::<Seq<(Seq<char>, Look)>>::empty());
        return;
    }
    push_line(lines, line1(span(text("Parameters"), Look { fg: Some(Tint::Cyan), bg: None, bold: true })));
    push_line(lines, line1(span(text("─────────────────────────────────────────────────"), fg_look(Tint::DarkGray))));
    let h = line4(
        span(pad_right_of("Name", 20), Look { fg: None, bg: None, bold: true }),
        span(pad_right_of("In", 10), Look { fg: None, bg: None, bold: true }),
        span(pad_right_of("Type", 12), Look { fg: None, bg: None, bold: true }),
        span(text("Required"), Look { fg: None, bg: None, bold: true }),
    );
    push_line(lines, h);
    let ghost top = seq![heading("Parameters"@), seq![(detail_rule(), fg(Tint::DarkGray))], param_header()];
    assert(lines_view(lines@) =~= l0 + top);
    let mut i: usize = 0;
    while i < params.len()
        invariant
            i <= params.len(),
            ps == params@.map_values(|p: Parameter| p@),
            dv == defs_view(definitions@),
            lines_view(lines@) == l0 + top + parameters_lines(ps.take(i as int), dv),
        decreases params.len() - i,
    {
        let ghost before = lines_view(lines@);
        push_parameter_lines(lines, &params[i], definitions);
        assert(ps.take(i + 1).drop_last() == ps.take(i as int));
        assert(ps.take(i + 1).last() == params@[i as int]@);
        assert(lines_view(lines@) =~= l0 + top + parameters_lines(ps.take(i + 1), dv));
        i = i + 1;
    }
    assert(ps.take(params.len() as int) == ps);
    push_blank(lines);
    assert(lines_view(lines@) =~= l0 + (top + parameters_lines(ps, dv) + blank_line()));
}

/// How deep the example of a response is built.
pub const EXAMPLE_DEPTH: usize = 6;

/// The example shown for a response's schema: the example built as
/// `example_of` states (references followed as many times in a row as there
/// are definitions), as compact JSON text pretty-printed by `serde_json`; `{}`
/// when that example would never be finished or the text cannot be
/// pretty-printed.
pub open spec fn example_text(s: SchemaView, defs: Seq<(Seq<char>, SchemaView)>) -> Seq<char> {
    let n = defs.len();
    if example_ends(s, defs, 0, EXAMPLE_DEPTH as nat, n, n) {
        match pretty_json_of(json_text(example_of(s, defs, 0, EXAMPLE_DEPTH as nat, n, n))) {
            Some(p) => p,
            None => "{}"@,
        }
    } else {
        "{}"@
    }
}

/// The example text shown, given what pretty-printing the example gave: the
/// pretty-printed text, or `{}` without one.
pub fn example_shown(pretty: Option<String>) -> (r: String)
    ensures
        r@ == match pretty {
            Some(p) => p@,
            None => "{}"@,
        },
{
    match pretty {
        Some(p) => p,
        None => text("{}"),
    }
}

/// The example shown for a response's schema, as `example_text` states.
pub fn example_text_of(schema: &Schema, definitions: &Vec<(String, Schema)>) -> (r: String)
    ensures
        r@ == example_text(schema@, defs_view(definitions@)),
{
    match generate_example(schema, definitions, 0, EXAMPLE_DEPTH) {
        Some(v) => {
            let compact = json_of(&v);
            let pretty = serde_json_pretty(compact.as_str());
            example_shown(pretty)
        },
        None => text("{}"),
    }
}

/// The lines of a response's example, green and indented.
pub open spec fn example_lines(example: Seq<char>) -> Seq<Seq<(Seq<char>, Look)>> {
    Seq::new(text_lines(example).len(), |i: int| seq![("      "@ + text_lines(example)[i], fg(Tint::Green))])
}

/// The lines of a response: its code, bold in the code's colour, and its
/// description; for a response with a schema, an `Example:` label and the
/// lines of the schema's example.
pub open spec fn response_lines(code: Seq<char>, r: ResponseView, defs: Seq<(Seq<char>, SchemaView)>) -> Seq<
    Seq<(Seq<char>, Look)>,
> {
    seq![
        seq![
            ("  "@ + code + " "@, fg_bold(code_tint_of(code))),
            (
                match r.description {
                    Some(d) => d,
                    None => Seq::<char>::empty(),
                },
                plain(),
            ),
        ],
    ] + match r.schema {
        Some(sc) => seq![seq![("    Example:"@, fg(Tint::DarkGray))]] + example_lines(example_text(sc, defs)),
        None => seq![],
    }
}

/// The lines of the responses, one after the other.
pub open spec fn responses_lines(rs: Seq<(Seq<char>, ResponseView)>, defs: Seq<(Seq<char>, SchemaView)>) -> Seq<
    Seq<(Seq<char>, Look)>,
>
    decreases rs.len(),
{
    if rs.len() == 0 {
        seq![]
    } else {
        responses_lines(rs.drop_last(), defs) + response_lines(rs.last().0, rs.last().1, defs)
    }
}

/// The responses section of an operation's detail (nothing without
/// responses): heading, rule, the responses, a blank line.
pub open spec fn responses_section(op: OperationView, defs: Seq<(Seq<char>, SchemaView)>) -> Seq<
    Seq<(Seq<char>, Look)>,
> {
    if op.responses.len() == 0 {
        seq![]
    } else {
        seq![heading("Responses"@), seq![(detail_rule(), fg(Tint::DarkGray))]] + responses_lines(op.responses, defs)
            + blank_line()
    }
}

/// Appends the lines of a response's example.
fn push_example_lines(lines: &mut Vec<Vec<Span>>, example: &str)
    ensures
        lines_view(final(lines)@) == lines_view(old(lines)@) + example_lines(example@),
{
    let ghost l0 = lines_view(lines@);
    let ls = text_lines_of(example);
    let ghost tl = text_lines(example@);
    let mut i: usize = 0;
    while i < ls.len()
        invariant
            i <= ls.len(),
            ls@.map_values(|l: String| l@) == tl,
            tl == text_lines(example@),
            lines_view(lines@) == l0 + example_lines(example@).take(i as int),
        decreases ls.len() - i,
    {
        assert(ls@[i as int]@ == tl[i as int]);
        push_line(lines, line1(span(concat_str("      ", ls[i].as_str()), fg_look(Tint::Green))));
        assert(lines_view(lines@) =~= l0 + example_lines(example@).take(i + 1));
        i = i + 1;
    }
    assert(example_lines(example@).take(ls.len() as int) =~= example_lines(example@));
}

/// Appends the lines of a response.
fn push_response_lines(lines: &mut Vec<Vec<Span>>, code: &String, r: &Response, definitions: &Vec<(String, Schema)>)
    ensures
        lines_view(final(lines)@) == lines_view(old(lines)@) + response_lines(code@, r@, defs_view(definitions@)),
{
    let ghost l0 = lines_view(lines@);
    let a = concat_str("  ", code.as_str());
    let c = concat_str(a.as_str(), " ");
    let d = match &r.description {
        Some(x) => x.clone(),
        None => String::new(),
    };
    let first = line2(
        span(c, Look { fg: Some(code_tint(code.as_str())), bg: None, bold: true }),
        span(d, Look { fg: None, bg: None, bold: false }),
    );
    let ghost row = seq![
        ("  "@ + code@ + " "@, fg_bold(code_tint_of(code@))),
        (
            match r@.description {
                Some(x) => x,
                None => Seq::<char>::empty(),
            },
            plain(),
        ),
    ];
    assert(line_view(first@) =~= row);
    push_line(lines, first);
    let ghost g1 = seq![row];
    assert(lines_view(lines@) =~= l0 + g1);
    match &r.schema {
        Some(sc) => {
            let example = example_text_of(sc, definitions);
            push_line(lines, line1(span(text("    Example:"), fg_look(Tint::DarkGray))));
            let ghost g2 = g1 + seq![seq![("    Example:"@, fg(Tint::DarkGray))]];
            assert(lines_view(lines@) =~= l0 + g2);
            push_example_lines(lines, example.as_str());
            assert(response_lines(code@, r@, defs_view(definitions@))[0] =~= row);
            assert(response_lines(code@, r@, defs_view(definitions@)) =~= g2 + example_lines(example@));
            assert(lines_view(lines@) =~= l0 + (g2 + example_lines(example@)));
        },
        None => {
            assert(response_lines(code@, r@, defs_view(definitions@))[0] =~= row);
            assert(response_lines(code@, r@, defs_view(definitions@)) =~= g1);
            assert(lines_view(lines@) =~= l0 + g1);
        },
    }
}

/// Appends the responses section of an operation's detail.
pub fn push_responses_section(lines: &mut Vec<Vec<Span>>, ep: &Endpoint, definitions: &Vec<(String, Schema)>)
    ensures
        lines_view(final(lines)@) == lines_view(old(lines)@) + responses_section(
            ep@.operation,
            defs_view(definitions@),
        ),
{
    let ghost l0 = lines_view(lines@);
    let ghost ev = defs_view(definitions@);
    let ghost rs = ep@.operation.responses;
    let resps = &ep.operation.responses;
    if resps.len() == 0 {
        assert(lines_view(lines@) =~= l0 + Seq::<Seq<(Seq<char>, Look)>>::empty());
        return;
    }
    push_line(lines, line1(span(text("Responses"), Look { fg: Some(Tint::Cyan), bg: None, bold: true })));
    push_line(lines, line1(span(text("─────────────────────────────────────────────────"), fg_look(Tint::DarkGray))));
    let ghost top = seq![heading("Responses"@), seq![(detail_rule(), fg(Tint::DarkGray))]];
    assert(lines_view(lines@) =~= l0 + top);
    let mut i: usize = 0;
    while i < resps.len()
        invariant
            i <= resps.len(),
            rs == resps@.map_values(|r: (String, Response)| (r.0@, r.1@)),
            ev == defs_view(definitions@),
            lines_view(lines@) == l0 + top + responses_lines(rs.take(i as int), ev),
        decreases resps.len() - i,
    {
        push_response_lines(lines, &resps[i].0, &resps[i].1, definitions);
        assert(rs.take(i + 1).drop_last() == rs.take(i as int));
        assert(rs.take(i + 1).last() == (resps@[i as int].0@, resps@[i as int].1@));
        assert(lines_view(lines@) =~= l0 + top + responses_lines(rs.take(i + 1), ev));
        i = i + 1;
    }
    assert(rs.take(resps.len() as int) == rs);
    push_blank(lines);
    assert(lines_view(lines@) =~= l0 + (top + responses_lines(rs, ev) + blank_line()));
}

/// The detail of an endpoint: its first lines, its parameters section and its
/// responses section.
pub open spec fn detail_lines(ep: EndpointView, defs: Seq<(Seq<char>, SchemaView)>) -> Seq<Seq<(Seq<char>, Look)>> {
    header_lines(ep) + parameters_section(ep.operation, defs) + responses_section(ep.operation, defs)
}

/// The detail of the endpoint on the selected line, as `detail_lines` states
/// (with the specification's definitions); `None` when the selected line is
/// not an endpoint.
pub fn detail_lines_of(app: &App) -> (r: Option<Vec<Vec<Span>>>)
    requires
        app.wf(),
    ensures
        match app.selected_entry() {
            Some(SidebarEntry::Endpoint(i)) => r matches Some(ls) && lines_view(ls@) == detail_lines(
                app.endpoints@[i as int]@,
                defs_view(app.spec.definitions@),
            ),
            _ => r is None,
        },
{
    match app.selected_endpoint() {
        Some(ep) => {
            let mut lines: Vec<Vec<Span>> = Vec::new();
            push_header_lines(&mut lines, ep);
            push_parameters_section(&mut lines, ep, &app.spec.definitions);
            push_responses_section(&mut lines, ep, &app.spec.definitions);
            assert(lines_view(lines@) =~= detail_lines(ep@, defs_view(app.spec.definitions@)));
            Some(lines)
        },
        None => None,
    }
}

/// The title of the detail panel: with the position of the scroll when the
/// detail is taller than the panel.
pub open spec fn detail_title(total: nat, height: nat, scroll: nat) -> Seq<char> {
    if total > height {
        " Detail ["@ + decimal(scroll + 1) + "/"@ + decimal((total - height + 1) as nat) + "] "@
    } else {
        " Detail "@
    }
}

/// The title of the detail panel, as `detail_title` states.
pub fn detail_title_of(total: u16, height: u16, scroll: u16) -> (r: String)
    ensures
        r@ == detail_title(total as nat, height as nat, scroll as nat),
{
    if total > height {
        let a = decimal_of(scroll as u64 + 1);
        let b = decimal_of((total - height) as u64 + 1);
        let t1 = concat_str(" Detail [", a.as_str());
        let t2 = concat_str(t1.as_str(), "/");
        let t3 = concat_str(t2.as_str(), b.as_str());
        concat_str(t3.as_str(), "] ")
    } else {
        text(" Detail ")
    }
}

// ─── Warnings ───────────────────────────────────────────────────────────────

/// The title of the warnings panel, with their number.
pub open spec fn warnings_title(n: nat) -> Seq<char> {
    " Warnings ("@ + decimal(n) + ") "@
}

/// The title of the warnings panel.
pub fn warnings_title_of(app: &App) -> (r: String)
    ensures
        r@ == warnings_title(app.warnings@.len()),
{
    let n = decimal_of(app.warnings.len() as u64);
    let a = concat_str(" Warnings (", n.as_str());
    concat_str(a.as_str(), ") ")
}

/// The lines of a warning: a yellow sign and the operation (cyan); the
/// message (white), indented; a blank line.
pub open spec fn warning_lines(w: (Seq<char>, Seq<char>)) -> Seq<Seq<(Seq<char>, Look)>> {
    seq![seq![("⚠ "@, fg(Tint::Yellow)), (w.0, fg(Tint::Cyan))], seq![("  "@ + w.1, fg(Tint::White))], seq![]]
}

/// The lines of the warnings, one after the other.
pub open spec fn all_warning_lines(ws: Seq<(Seq<char>, Seq<char>)>) -> Seq<Seq<(Seq<char>, Look)>>
    decreases ws.len(),
{
    if ws.len() == 0 {
        seq![]
    } else {
        all_warning_lines(ws.drop_last()) + warning_lines(ws.last())
    }
}

/// The warnings panel: each warning, or a green line saying there are none.
pub open spec fn warnings_lines(ws: Seq<(Seq<char>, Seq<char>)>) -> Seq<Seq<(Seq<char>, Look)>> {
    if ws.len() == 0 {
        seq![seq![("  ✓ No issues found"@, fg(Tint::Green))]]
    } else {
        all_warning_lines(ws)
    }
}

/// The lines of the warnings panel.
pub fn warnings_lines_of(app: &App) -> (lines: Vec<Vec<Span>>)
    ensures
        lines_view(lines@) == warnings_lines(warnings_view(app.warnings@)),
{
    let ghost wv = warnings_view(app.warnings@);
    let mut lines: Vec<Vec<Span>> = Vec::new();
    if app.warnings.len() == 0 {
        push_line(&mut lines, line1(span(text("  ✓ No issues found"), fg_look(Tint::Green))));
        assert(lines_view(lines@) =~= warnings_lines(wv));
        return lines;
    }
    let mut i: usize = 0;
    assert(lines_view(lines@) =~= all_warning_lines(wv.take(0)));
    while i < app.warnings.len()
        invariant
            i <= app.warnings.len(),
            wv == warnings_view(app.warnings@),
            lines_view(lines@) == all_warning_lines(wv.take(i as int)),
        decreases app.warnings.len() - i,
    {
        let w = &app.warnings[i];
        let ghost l0 = lines_view(lines@);
        let first = line2(span(text("⚠ "), fg_look(Tint::Yellow)), span(w.path.clone(), fg_look(Tint::Cyan)));
        let second = line1(span(concat_str("  ", w.message.as_str()), fg_look(Tint::White)));
        let ghost f1 = line_view(first@);
        let ghost f2 = line_view(second@);
        push_line(&mut lines, first);
        push_line(&mut lines, second);
        push_line(&mut lines, blank());
        assert(wv.take(i + 1).drop_last() == wv.take(i as int));
        assert(wv.take(i + 1).last() == (w.path@, w.message@));
        let ghost wl = warning_lines((w.path@, w.message@));
        assert(wl[0] =~= f1);
        assert(wl[1] =~= f2);
        assert(wl[2] =~= Seq::<(Seq<char>, Look)>::empty());
        assert(lines_view(lines@) =~= l0 + wl);
        i = i + 1;
    }
    assert(wv.take(app.warnings.len() as int) == wv);
    lines
}

// ─── Auth menu ──────────────────────────────────────────────────────────────

/// The auth in use, as the menu shows it (secrets hidden).
pub open spec fn auth_current(a: AuthConfig) -> Seq<char> {
    match a {
        AuthConfig::NoAuth => "None"@,
        AuthConfig::Bearer(_) => "Bearer ****"@,
        AuthConfig::ApiKey { header, .. } => "API Key ("@ + header@ + ")"@,
        AuthConfig::Basic { username, .. } => "Basic ("@ + username@ + ":****)"@,
        AuthConfig::Custom(h) => "Custom ("@ + decimal(h@.len()) + " headers)"@,
    }
}

/// The entries of the auth menu.
pub open spec fn auth_option(i: int) -> Seq<char> {
    if i == 0 {
        "None"@
    } else if i == 1 {
        "Bearer Token"@
    } else if i == 2 {
        "API Key"@
    } else {
        "Basic Auth"@
    }
}

/// What to type for each entry of the auth menu.
pub open spec fn auth_hint(i: int) -> Seq<char> {
    if i == 1 {
        "Enter token value"@
    } else if i == 2 {
        "Format: HEADER_NAME=VALUE"@
    } else if i == 3 {
        "Format: username:password"@
    } else {
        ""@
    }
}

/// The arrow in front of the selected entry of a list.
pub open spec fn marker(selected: bool) -> Seq<char> {
    if selected {
        "▸ "@
    } else {
        "  "@
    }
}

/// The auth menu: the auth in use; the four entries, the selected one bold
/// yellow behind an arrow; while a value is typed, the hint for the selected
/// entry and the value with a cursor.
pub open spec fn auth_lines(app: App) -> Seq<Seq<(Seq<char>, Look)>> {
    seq![
        seq![("Current: "@, fg(Tint::Cyan)), (auth_current(app.auth), fg(Tint::White))],
        seq![],
        seq![("Select auth type:"@, bold())],
        seq![],
    ] + Seq::new(
        4,
        |i: int|
            seq![
                (
                    marker(i == app.auth_selected) + auth_option(i),
                    if i == app.auth_selected {
                        fg_bold(Tint::Yellow)
                    } else {
                        plain()
                    },
                ),
            ],
    ) + if app.auth_editing {
        seq![
            seq![],
            seq![(auth_hint(app.auth_selected as int), fg(Tint::DarkGray))],
            seq![("> "@, fg(Tint::Yellow)), (app.auth_input@ + "█"@, fg(Tint::White))],
        ]
    } else {
        seq![]
    }
}

/// The auth in use, as the menu shows it.
fn auth_current_of(a: &AuthConfig) -> (r: String)
    ensures
        r@ == auth_current(*a),
{
    match a {
        AuthConfig::NoAuth => text("None"),
        AuthConfig::Bearer(_) => text("Bearer ****"),
        AuthConfig::ApiKey { header, .. } => {
            let t = concat_str("API Key (", header.as_str());
            concat_str(t.as_str(), ")")
        },
        AuthConfig::Basic { username, .. } => {
            let t = concat_str("Basic (", username.as_str());
            concat_str(t.as_str(), ":****)")
        },
        AuthConfig::Custom(h) => {
            let n = decimal_of(h.len() as u64);
            let t = concat_str("Custom (", n.as_str());
            concat_str(t.as_str(), " headers)")
        },
    }
}

/// An entry of the auth menu.
fn auth_option_of(i: usize) -> (r: String)
    ensures
        r@ == auth_option(i as int),
{
    if i == 0 {
        text("None")
    } else if i == 1 {
        text("Bearer Token")
    } else if i == 2 {
        text("API Key")
    } else {
        text("Basic Auth")
    }
}

/// What to type for an entry of the auth menu.
fn auth_hint_of(i: usize) -> (r: String)
    ensures
        r@ == auth_hint(i as int),
{
    if i == 1 {
        text("Enter token value")
    } else if i == 2 {
        text("Format: HEADER_NAME=VALUE")
    } else if i == 3 {
        text("Format: username:password")
    } else {
        text("")
    }
}

/// The arrow in front of an entry of a list.
fn marker_of(selected: bool) -> (r: String)
    ensures
        r@ == marker(selected),
{
    if selected {
        text("▸ ")
    } else {
        text("  ")
    }
}

/// The lines of the auth menu.
pub fn auth_lines_of(app: &App) -> (lines: Vec<Vec<Span>>)
    ensures
        lines_view(lines@) == auth_lines(*app),
{
    let mut lines: Vec<Vec<Span>> = Vec::new();
    push_line(
        &mut lines,
        line2(span(text("Current: "), fg_look(Tint::Cyan)), span(auth_current_of(&app.auth), fg_look(Tint::White))),
    );
    push_line(&mut lines, blank());
    push_line(&mut lines, line1(span(text("Select auth type:"), Look { fg: None, bg: None, bold: true })));
    push_line(&mut lines, blank());
    let ghost top = seq![
        seq![("Current: "@, fg(Tint::Cyan)), (auth_current(app.auth), fg(Tint::White))],
        Seq::<(Seq<char>, Look)>::empty(),
        seq![("Select auth type:"@, bold())],
        Seq::<(Seq<char>, Look)>::empty(),
    ];
    assert(lines_view(lines@)[0] =~= top[0]);
    assert(lines_view(lines@)[1] =~= top[1]);
    assert(lines_view(lines@)[2] =~= top[2]);
    assert(lines_view(lines@)[3] =~= top[3]);
    assert(lines_view(lines@) =~= top);
    let ghost entries = Seq::new(
        4,
        |i: int|
            seq![
                (
                    marker(i == app.auth_selected) + auth_option(i),
                    if i == app.auth_selected {
                        fg_bold(Tint::Yellow)
                    } else {
                        plain()
                    },
                ),
            ],
    );
    let mut i: usize = 0;
    while i < 4
        invariant
            i <= 4,
            lines_view(lines@) == top + entries.take(i as int),
            entries == Seq::new(
                4,
                |i: int|
                    seq![
                        (
                            marker(i == app.auth_selected) + auth_option(i),
                            if i == app.auth_selected {
                                fg_bold(Tint::Yellow)
                            } else {
                                plain()
                            },
                        ),
                    ],
            ),
        decreases 4 - i,
    {
        let sel = i == app.auth_selected;
        let m = marker_of(sel);
        let o = auth_option_of(i);
        let look = if sel {
            Look { fg: Some(Tint::Yellow), bg: None, bold: true }
        } else {
            Look { fg: None, bg: None, bold: false }
        };
        let l = line1(span(concat_str(m.as_str(), o.as_str()), look));
        assert(line_view(l@) =~= entries[i as int]);
        push_line(&mut lines, l);
        assert(lines_view(lines@) =~= top + entries.take(i + 1));
        i = i + 1;
    }
    assert(entries.take(4) =~= entries);
    let ghost mid = lines_view(lines@);
    if app.auth_editing {
        push_line(&mut lines, blank());
        push_line(&mut lines, line1(span(auth_hint_of(app.auth_selected), fg_look(Tint::DarkGray))));
        let input = concat_str(app.auth_input.as_str(), "█");
        push_line(&mut lines, line2(span(text("> "), fg_look(Tint::Yellow)), span(input, fg_look(Tint::White))));
        let ghost tail = seq![
            Seq::<(Seq<char>, Look)>::empty(),
            seq![(auth_hint(app.auth_selected as int), fg(Tint::DarkGray))],
            seq![("> "@, fg(Tint::Yellow)), (app.auth_input@ + "█"@, fg(Tint::White))],
        ];
        assert(lines_view(lines@)[mid.len() as int] =~= tail[0]);
        assert(lines_view(lines@)[mid.len() as int + 1] =~= tail[1]);
        assert(lines_view(lines@)[mid.len() as int + 2] =~= tail[2]);
        assert(lines_view(lines@) =~= mid + tail);
    } else {
        assert(lines_view(lines@) =~= mid + Seq::<Seq<(Seq<char>, Look)>>::empty());
    }
    lines
}

// ─── "Try it out" form ──────────────────────────────────────────────────────

/// The rule under a section heading of the form.
pub open spec fn form_rule() -> Seq<char> {
    "─────────────────────────────────────────"@
}

/// A note on the auth a request from the form goes with, when there is one.
pub open spec fn lock_line(a: AuthConfig) -> Seq<Seq<(Seq<char>, Look)>> {
    match a {
        AuthConfig::NoAuth => seq![],
        AuthConfig::Bearer(_) => seq![seq![("  🔒 Bearer"@, fg(Tint::Magenta))]],
        AuthConfig::ApiKey { header, .. } => seq![seq![("  🔒 API Key ("@ + header@ + ")"@, fg(Tint::Magenta))]],
        AuthConfig::Basic { username, .. } => seq![seq![("  🔒 Basic ("@ + username@ + ")"@, fg(Tint::Magenta))]],
        AuthConfig::Custom(h) => seq![seq![("  🔒 Custom ("@ + decimal(h@.len()) + " headers)"@, fg(Tint::Magenta))]],
    }
}

/// The cursor shown at the end of the field being edited.
pub open spec fn cursor(selected: bool, editing: bool) -> Seq<char> {
    if selected && editing {
        "█"@
    } else {
        Seq::<char>::empty()
    }
}

/// The look of the selected field's name (yellow) or another's.
pub open spec fn pick(selected: bool) -> Look {
    if selected {
        fg(Tint::Yellow)
    } else {
        plain()
    }
}

/// The line of a parameter field of the form: its name behind the selection
/// arrow, its location (dark gray) and its value (white, with the cursor while
/// it is edited).
pub open spec fn field_line(st: TryItState, i: int) -> Seq<(Seq<char>, Look)> {
    let f = st.param_values@[i];
    let sel = i == st.selected_field;
    seq![
        (marker(sel) + f.0@, pick(sel)),
        (" ("@ + f.1@ + "): "@, fg(Tint::DarkGray)),
        (f.2@ + cursor(sel, st.editing), fg(Tint::White)),
    ]
}

/// The first parameter called `name`.
pub open spec fn first_named(ps: Seq<ParameterView>, name: Seq<char>) -> Option<ParameterView>
    decreases ps.len(),
{
    if ps.len() == 0 {
        None
    } else {
        match first_named(ps.drop_last(), name) {
            Some(p) => Some(p),
            None => if ps.last().name == name {
                Some(ps.last())
            } else {
                None
            },
        }
    }
}

/// The values the operation's parameter called `name` allows, under its field.
pub open spec fn field_values_line(ps: Seq<ParameterView>, name: Seq<char>) -> Seq<Seq<(Seq<char>, Look)>> {
    match first_named(ps, name) {
        Some(p) => values_line("    "@, p.enum_values),
        None => seq![],
    }
}

/// The lines of the first `n` parameter fields: each field's line and the
/// values its parameter allows.
pub open spec fn field_lines(st: TryItState, ps: Seq<ParameterView>, n: nat) -> Seq<Seq<(Seq<char>, Look)>>
    decreases n,
{
    if n == 0 {
        seq![]
    } else {
        field_lines(st, ps, (n - 1) as nat) + seq![field_line(st, n - 1)] + field_values_line(
            ps,
            st.param_values@[n - 1].0@,
        )
    }
}

/// The parameter fields of the form for an operation with parameters `ps`
/// (nothing without fields).
pub open spec fn fields_section(st: TryItState, ps: Seq<ParameterView>) -> Seq<Seq<(Seq<char>, Look)>> {
    if st.param_values@.len() == 0 {
        seq![]
    } else {
        seq![heading("Parameters"@), seq![(form_rule(), fg(Tint::DarkGray))]] + field_lines(
            st,
            ps,
            st.param_values@.len(),
        ) + blank_line()
    }
}

/// The body field of the form, for an endpoint that takes a body; it is the
/// field after the parameters.
pub open spec fn body_section(st: TryItState, takes_body: bool) -> Seq<Seq<(Seq<char>, Look)>> {
    if takes_body {
        let sel = st.selected_field == st.param_values@.len();
        seq![
            heading("Request Body"@),
            seq![(form_rule(), fg(Tint::DarkGray))],
            seq![(marker(sel), pick(sel)), (st.body@ + cursor(sel, st.editing), fg(Tint::White))],
            seq![],
        ]
    } else {
        seq![]
    }
}

/// The frames of the spinner shown while a request is under way.
pub open spec fn spinner_frame(i: nat) -> Seq<char> {
    let k = i % 10;
    if k == 0 {
        "⠋"@
    } else if k == 1 {
        "⠙"@
    } else if k == 2 {
        "⠹"@
    } else if k == 3 {
        "⠸"@
    } else if k == 4 {
        "⠼"@
    } else if k == 5 {
        "⠴"@
    } else if k == 6 {
        "⠦"@
    } else if k == 7 {
        "⠧"@
    } else if k == 8 {
        "⠇"@
    } else {
        "⠏"@
    }
}

/// The response received: its status in the status's colour, the headers
/// (names yellow), a blank line, and the body line by line.
pub open spec fn response_section(resp: HttpResponse) -> Seq<Seq<(Seq<char>, Look)>> {
    let body = text_lines(resp.body@);
    seq![
        seq![("Response — "@ + decimal(resp.status as nat), fg_bold(status_tint_of(resp.status)))],
        seq![(form_rule(), fg(Tint::DarkGray))],
    ] + Seq::new(
        resp.headers@.len(),
        |i: int| seq![(resp.headers@[i].0@ + ": "@, fg(Tint::Yellow)), (resp.headers@[i].1@, plain())],
    ) + seq![seq![], seq![("Body"@, fg(Tint::Cyan))]] + Seq::new(body.len(), |i: int| seq![(body[i], plain())])
}

/// The "try it out" form for an endpoint: the method and path, the URL the
/// request goes to, the auth note, a blank line, the parameter fields (each
/// with the values its parameter allows), the body field, the spinner (frame `spin`) while the request is under way, the
/// response and the error of the last request.
pub open spec fn try_it_lines(
    ep: EndpointView,
    base_url: Seq<char>,
    auth: AuthConfig,
    st: TryItState,
    takes_body: bool,
    spin: nat,
) -> Seq<Seq<(Seq<char>, Look)>> {
    header_top(ep) + seq![seq![("→ "@ + base_url + ep.path, fg(Tint::DarkGray))]] + lock_line(auth) + blank_line()
        + fields_section(st, ep.operation.parameters) + body_section(st, takes_body) + (if st.loading {
        seq![seq![(spinner_frame(spin) + " Sending request..."@, fg_bold(Tint::Yellow))]]
    } else {
        seq![]
    }) + (match st.response {
        Some(resp) => response_section(resp),
        None => seq![],
    }) + match st.error {
        Some(e) => seq![seq![("Error: "@ + e@, fg_bold(Tint::Red))]],
        None => seq![],
    }
}

/// Appends the auth note.
fn push_lock_line(lines: &mut Vec<Vec<Span>>, a: &AuthConfig)
    ensures
        lines_view(final(lines)@) == lines_view(old(lines)@) + lock_line(*a),
{
    let ghost l0 = lines_view(lines@);
    let t: Option<String> = match a {
        AuthConfig::NoAuth => None,
        AuthConfig::Bearer(_) => Some(text("  🔒 Bearer")),
        AuthConfig::ApiKey { header, .. } => {
            let x = concat_str("  🔒 API Key (", header.as_str());
            Some(concat_str(x.as_str(), ")"))
        },
        AuthConfig::Basic { username, .. } => {
            let x = concat_str("  🔒 Basic (", username.as_str());
            Some(concat_str(x.as_str(), ")"))
        },
        AuthConfig::Custom(h) => {
            let n = decimal_of(h.len() as u64);
            let x = concat_str("  🔒 Custom (", n.as_str());
            Some(concat_str(x.as_str(), " headers)"))
        },
    };
    push_opt_line(lines, &t, fg_look(Tint::Magenta));
    assert(lines_view(lines@) =~= l0 + lock_line(*a));
}

/// The cursor at the end of the field being edited.
fn cursor_of(selected: bool, editing: bool) -> (r: String)
    ensures
        r@ == cursor(selected, editing),
{
    if selected && editing {
        text("█")
    } else {
        String::new()
    }
}

/// The look of a field's name.
fn pick_of(selected: bool) -> (l: Look)
    ensures
        l == pick(selected),
{
    if selected {
        fg_look(Tint::Yellow)
    } else {
        Look { fg: None, bg: None, bold: false }
    }
}

proof fn lemma_first_named_extend(ps: Seq<ParameterView>, name: Seq<char>, k: int)
    requires
        0 <= k <= ps.len(),
        first_named(ps.take(k), name) is Some,
    ensures
        first_named(ps, name) == first_named(ps.take(k), name),
    decreases ps.len() - k,
{
    if k < ps.len() {
        assert(ps.take(k + 1).drop_last() == ps.take(k));
        lemma_first_named_extend(ps, name, k + 1);
    } else {
        assert(ps.take(k) == ps);
    }
}

/// The first parameter called `name`.
fn find_named<'a>(params: &'a Vec<Parameter>, name: &String) -> (r: Option<&'a Parameter>)
    ensures
        match r {
            Some(p) => first_named(params@.map_values(|q: Parameter| q@), name@) == Some(p@),
            None => first_named(params@.map_values(|q: Parameter| q@), name@) is None,
        },
{
    let ghost pv = params@.map_values(|q: Parameter| q@);
    let mut i: usize = 0;
    while i < params.len()
        invariant
            i <= params.len(),
            pv == params@.map_values(|q: Parameter| q@),
            first_named(pv.take(i as int), name@) is None,
        decreases params.len() - i,
    {
        assert(pv.take(i + 1).drop_last() == pv.take(i as int));
        assert(pv.take(i + 1).last() == params@[i as int]@);
        if crate::text::str_eq(params[i].name.as_str(), name.as_str()) {
            proof { lemma_first_named_extend(pv, name@, i + 1); }
            return Some(&params[i]);
        }
        i = i + 1;
    }
    assert(pv.take(params.len() as int) == pv);
    None
}

/// Appends the parameter fields of the form.
fn push_fields_section(lines: &mut Vec<Vec<Span>>, st: &TryItState, params: &Vec<Parameter>)
    ensures
        lines_view(final(lines)@) == lines_view(old(lines)@) + fields_section(
            *st,
            params@.map_values(|q: Parameter| q@),
        ),
{
    let ghost l0 = lines_view(lines@);
    let ghost pv = params@.map_values(|q: Parameter| q@);
    if st.param_values.len() == 0 {
        assert(lines_view(lines@) =~= l0 + Seq::<Seq<(Seq<char>, Look)>>::empty());
        return;
    }
    push_line(lines, line1(span(text("Parameters"), Look { fg: Some(Tint::Cyan), bg: None, bold: true })));
    push_line(lines, line1(span(text("─────────────────────────────────────────"), fg_look(Tint::DarkGray))));
    let ghost top = seq![heading("Parameters"@), seq![(form_rule(), fg(Tint::DarkGray))]];
    assert(lines_view(lines@) =~= l0 + top);
    let mut i: usize = 0;
    while i < st.param_values.len()
        invariant
            i <= st.param_values.len(),
            pv == params@.map_values(|q: Parameter| q@),
            lines_view(lines@) == l0 + top + field_lines(*st, pv, i as nat),
        decreases st.param_values.len() - i,
    {
        let sel = i == st.selected_field;
        let f = &st.param_values[i];
        let name = concat_str(marker_of(sel).as_str(), f.0.as_str());
        let l1 = concat_str(" (", f.1.as_str());
        let loc = concat_str(l1.as_str(), "): ");
        let value = concat_str(f.2.as_str(), cursor_of(sel, st.editing).as_str());
        let l = line3(span(name, pick_of(sel)), span(loc, fg_look(Tint::DarkGray)), span(value, fg_look(Tint::White)));
        assert(line_view(l@) =~= field_line(*st, i as int));
        push_line(lines, l);
        let ghost g1 = l0 + top + field_lines(*st, pv, i as nat) + seq![field_line(*st, i as int)];
        assert(lines_view(lines@) =~= g1);
        match find_named(params, &f.0) {
            Some(p) => {
                push_values_line(lines, "    ", &p.enum_values);
            },
            None => {},
        }
        assert(lines_view(lines@) =~= g1 + field_values_line(pv, f.0@));
        assert(field_lines(*st, pv, (i + 1) as nat) == field_lines(*st, pv, i as nat) + seq![field_line(*st, i as int)]
            + field_values_line(pv, st.param_values@[i as int].0@));
        assert(lines_view(lines@) =~= l0 + top + field_lines(*st, pv, (i + 1) as nat));
        i = i + 1;
    }
    push_blank(lines);
    assert(lines_view(lines@) =~= l0 + (top + field_lines(*st, pv, st.param_values@.len()) + blank_line()));
}

/// Appends the body field of the form.
fn push_body_section(lines: &mut Vec<Vec<Span>>, st: &TryItState, takes_body: bool)
    ensures
        lines_view(final(lines)@) == lines_view(old(lines)@) + body_section(*st, takes_body),
{
    let ghost l0 = lines_view(lines@);
    if !takes_body {
        assert(lines_view(lines@) =~= l0 + Seq::<Seq<(Seq<char>, Look)>>::empty());
        return;
    }
    let sel = st.selected_field == st.param_values.len();
    push_line(lines, line1(span(text("Request Body"), Look { fg: Some(Tint::Cyan), bg: None, bold: true })));
    push_line(lines, line1(span(text("─────────────────────────────────────────"), fg_look(Tint::DarkGray))));
    let value = concat_str(st.body.as_str(), cursor_of(sel, st.editing).as_str());
    let l = line2(span(marker_of(sel), pick_of(sel)), span(value, fg_look(Tint::White)));
    let ghost fv = line_view(l@);
    push_line(lines, l);
    push_blank(lines);
    let ghost expected = body_section(*st, takes_body);
    assert(expected[0] =~= lines_view(lines@)[l0.len() as int]);
    assert(expected[1] =~= lines_view(lines@)[l0.len() as int + 1]);
    assert(expected[2] =~= fv);
    assert(expected[3] =~= Seq::<(Seq<char>, Look)>::empty());
    assert(lines_view(lines@) =~= l0 + expected);
}

/// The frame of the spinner.
fn spinner_frame_of(i: usize) -> (r: String)
    ensures
        r@ == spinner_frame(i as nat),
{
    let k = i % 10;
    if k == 0 {
        text("⠋")
    } else if k == 1 {
        text("⠙")
    } else if k == 2 {
        text("⠹")
    } else if k == 3 {
        text("⠸")
    } else if k == 4 {
        text("⠼")
    } else if k == 5 {
        text("⠴")
    } else if k == 6 {
        text("⠦")
    } else if k == 7 {
        text("⠧")
    } else if k == 8 {
        text("⠇")
    } else {
        text("⠏")
    }
}

/// Appends the response received.
fn push_response_section(lines: &mut Vec<Vec<Span>>, resp: &HttpResponse)
    ensures
        lines_view(final(lines)@) == lines_view(old(lines)@) + response_section(*resp),
{
    let ghost l0 = lines_view(lines@);
    let st = decimal_of(resp.status as u64);
    push_line(
        lines,
        line1(span(concat_str("Response — ", st.as_str()), Look { fg: Some(status_tint(resp.status)), bg: None, bold: true })),
    );
    push_line(lines, line1(span(text("─────────────────────────────────────────"), fg_look(Tint::DarkGray))));
    let ghost top = seq![
        seq![("Response — "@ + decimal(resp.status as nat), fg_bold(status_tint_of(resp.status)))],
        seq![(form_rule(), fg(Tint::DarkGray))],
    ];
    assert(lines_view(lines@)[l0.len() as int] =~= top[0]);
    assert(lines_view(lines@)[l0.len() as int + 1] =~= top[1]);
    assert(lines_view(lines@) =~= l0 + top);
    let ghost hs = Seq::new(
        resp.headers@.len(),
        |i: int| seq![(resp.headers@[i].0@ + ": "@, fg(Tint::Yellow)), (resp.headers@[i].1@, plain())],
    );
    let mut i: usize = 0;
    while i < resp.headers.len()
        invariant
            i <= resp.headers.len(),
            hs == Seq::new(
                resp.headers@.len(),
                |i: int| seq![(resp.headers@[i].0@ + ": "@, fg(Tint::Yellow)), (resp.headers@[i].1@, plain())],
            ),
            lines_view(lines@) == l0 + top + hs.take(i as int),
        decreases resp.headers.len() - i,
    {
        let h = &resp.headers[i];
        let l = line2(span(concat_str(h.0.as_str(), ": "), fg_look(Tint::Yellow)), span(h.1.clone(), Look { fg: None, bg: None, bold: false }));
        assert(line_view(l@) =~= hs[i as int]);
        push_line(lines, l);
        assert(lines_view(lines@) =~= l0 + top + hs.take(i + 1));
        i = i + 1;
    }
    assert(hs.take(resp.headers.len() as int) =~= hs);
    let ghost g1 = top + hs;
    push_blank(lines);
    push_line(lines, line1(span(text("Body"), fg_look(Tint::Cyan))));
    let ghost g2 = g1 + seq![seq![], seq![("Body"@, fg(Tint::Cyan))]];
    assert(lines_view(lines@)[l0.len() as int + g1.len() as int] =~= Seq::<(Seq<char>, Look)>::empty());
    assert(lines_view(lines@)[l0.len() as int + g1.len() as int + 1] =~= seq![("Body"@, fg(Tint::Cyan))]);
    assert(lines_view(lines@) =~= l0 + g2);
    let body = text_lines_of(resp.body.as_str());
    let ghost tl = text_lines(resp.body@);
    let ghost bl = Seq::new(tl.len(), |i: int| seq![(tl[i], plain())]);
    let mut j: usize = 0;
    while j < body.len()
        invariant
            j <= body.len(),
            body@.map_values(|l: String| l@) == tl,
            tl == text_lines(resp.body@),
            bl == Seq::new(tl.len(), |i: int| seq![(tl[i], plain())]),
            lines_view(lines@) == l0 + g2 + bl.take(j as int),
        decreases body.len() - j,
    {
        assert(body@[j as int]@ == tl[j as int]);
        let l = line1(span(body[j].clone(), Look { fg: None, bg: None, bold: false }));
        assert(line_view(l@) =~= bl[j as int]);
        push_line(lines, l);
        assert(lines_view(lines@) =~= l0 + g2 + bl.take(j + 1));
        j = j + 1;
    }
    assert(bl.take(body.len() as int) =~= bl);
    assert(lines_view(lines@) =~= l0 + response_section(*resp));
}

/// The "try it out" form for the endpoint on the selected line, as
/// `try_it_lines` states, with the spinner at frame `spin`; `None` when the
/// selected line is not an endpoint or the form is not open.
pub fn try_it_lines_of(app: &App, spin: usize) -> (r: Option<Vec<Vec<Span>>>)
    requires
        app.wf(),
    ensures
        match (app.selected_entry(), app.try_it) {
            (Some(SidebarEntry::Endpoint(i)), Some(st)) => r matches Some(ls) && lines_view(ls@) == try_it_lines(
                app.endpoints@[i as int]@,
                app.spec.base_url@,
                app.auth,
                st,
                selected_takes_body(*app),
                spin as nat,
            ),
            _ => r is None,
        },
{
    let takes_body = selected_has_body(app);
    let ep = match app.selected_endpoint() {
        Some(ep) => ep,
        None => {
            return None;
        },
    };
    let st = match &app.try_it {
        Some(st) => st,
        None => {
            return None;
        },
    };
    let mut lines: Vec<Vec<Span>> = Vec::new();
    let a = concat_str(" ", ep.method.as_str());
    let m = concat_str(a.as_str(), " ");
    let p = concat_str(" ", ep.path.as_str());
    push_line(
        &mut lines,
        line2(
            span(m, Look { fg: Some(Tint::White), bg: Some(method_tint(ep.method.as_str())), bold: true }),
            span(p, Look { fg: None, bg: None, bold: true }),
        ),
    );
    let u1 = concat_str("→ ", app.spec.base_url.as_str());
    let url = concat_str(u1.as_str(), ep.path.as_str());
    push_line(&mut lines, line1(span(url, fg_look(Tint::DarkGray))));
    let ghost g1 = header_top(ep@) + seq![seq![("→ "@ + app.spec.base_url@ + ep@.path, fg(Tint::DarkGray))]];
    assert(lines_view(lines@)[0] =~= g1[0]);
    assert(lines_view(lines@)[1] =~= g1[1]);
    assert(lines_view(lines@) =~= g1);
    push_lock_line(&mut lines, &app.auth);
    push_blank(&mut lines);
    push_fields_section(&mut lines, st, &ep.operation.parameters);
    push_body_section(&mut lines, st, takes_body);
    let ghost g2 = g1 + lock_line(app.auth) + blank_line() + fields_section(*st, ep@.operation.parameters)
        + body_section(*st, takes_body);
    assert(lines_view(lines@) =~= g2);
    if st.loading {
        let f = spinner_frame_of(spin);
        push_line(
            &mut lines,
            line1(span(concat_str(f.as_str(), " Sending request..."), Look { fg: Some(Tint::Yellow), bg: None, bold: true })),
        );
    }
    let ghost g3 = g2 + (if st.loading {
        seq![seq![(spinner_frame(spin as nat) + " Sending request..."@, fg_bold(Tint::Yellow))]]
    } else {
        seq![]
    });
    assert(lines_view(lines@) =~= g3);
    match &st.response {
        Some(resp) => {
            push_response_section(&mut lines, resp);
        },
        None => {},
    }
    let ghost g4 = g3 + (match &st.response {
        Some(resp) => response_section(*resp),
        None => seq![],
    });
    assert(lines_view(lines@) =~= g4);
    let err: Option<String> = match &st.error {
        Some(e) => Some(concat_str("Error: ", e.as_str())),
        None => None,
    };
    push_opt_line(&mut lines, &err, Look { fg: Some(Tint::Red), bg: None, bold: true });
    assert(lines_view(lines@) =~= try_it_lines(ep@, app.spec.base_url@, app.auth, *st, takes_body, spin as nat));
    Some(lines)
}

} // verus!
