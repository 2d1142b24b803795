//! Requests built from the "try it out" form: the URL with path parameters
//! filled in and the query string appended, the equivalent `curl` command, the
//! HTTP method to send with, the headers of the auth in use, and the display
//! form of a response body.
use vstd::prelude::*;
use crate::app::AuthConfig;
use crate::text::{concat_str, push_char, replace, replace_all, str_eq};
use vstd::utf8::encode_utf8;

verus! {

// ─── Specifications ─────────────────────────────────────────────────────────

/// The `{name}` placeholder of a path parameter.
pub open spec fn placeholder(name: Seq<char>) -> Seq<char> {
    seq!['{'] + name + seq!['}']
}

/// The path with each `path` field's placeholder replaced by its value, field
/// after field.
pub open spec fn substitute_path(path: Seq<char>, fields: Seq<(Seq<char>, Seq<char>, Seq<char>)>) -> Seq<char>
    decreases fields.len(),
{
    if fields.len() == 0 {
        path
    } else {
        let p = substitute_path(path, fields.drop_last());
        let f = fields.last();
        if f.1 == "path"@ {
            replace_all(p, placeholder(f.0), f.2)
        } else {
            p
        }
    }
}

/// The `(name, value)` pairs of the `query` fields that have a value, in order.
pub open spec fn query_pairs(fields: Seq<(Seq<char>, Seq<char>, Seq<char>)>) -> Seq<(Seq<char>, Seq<char>)>
    decreases fields.len(),
{
    if fields.len() == 0 {
        seq![]
    } else {
        let f = fields.last();
        query_pairs(fields.drop_last()) + if f.1 == "query"@ && f.2.len() > 0 {
            seq![(f.0, f.2)]
        } else {
            Seq::<(Seq<char>, Seq<char>)>::empty()
        }
    }
}

/// `name=value` pairs joined by `&`.
pub open spec fn query_string(pairs: Seq<(Seq<char>, Seq<char>)>) -> Seq<char>
    decreases pairs.len(),
{
    if pairs.len() == 0 {
        seq![]
    } else if pairs.len() == 1 {
        pairs[0].0 + seq!['='] + pairs[0].1
    } else {
        query_string(pairs.drop_last()) + seq!['&'] + pairs.last().0 + seq!['='] + pairs.last().1
    }
}

/// The URL a request goes to: the base URL, the filled-in path, and the query
/// string after a `?` when there is one.
pub open spec fn request_url(base: Seq<char>, path: Seq<char>, fields: Seq<(Seq<char>, Seq<char>, Seq<char>)>) -> Seq<char> {
    base + substitute_path(path, fields) + if query_pairs(fields).len() == 0 {
        Seq::<char>::empty()
    } else {
        seq!['?'] + query_string(query_pairs(fields))
    }
}

/// Methods that carry a request body.
pub open spec fn sends_body(method: Seq<char>) -> bool {
    method == "POST"@ || method == "PUT"@ || method == "PATCH"@
}

/// The `curl` command for a request: the method is left out for a GET without
/// form values; a JSON body is added for a method that carries one when the
/// form's body is not empty.
pub open spec fn curl_command(method: Seq<char>, url: Seq<char>, body: Option<Seq<char>>) -> Seq<char> {
    match body {
        None => if method == "GET"@ {
            "curl '"@ + url + "'"@
        } else {
            "curl -X "@ + method + " '"@ + url + "'"@
        },
        Some(b) => "curl -X "@ + method + " '"@ + url + "'"@ + if sends_body(method) && b.len() > 0 {
            " -H 'Content-Type: application/json' -d '"@ + b + "'"@
        } else {
            Seq::<char>::empty()
        },
    }
}

pub open spec fn fields_view(fields: Seq<(String, String, String)>) -> Seq<(Seq<char>, Seq<char>, Seq<char>)> {
    fields.map_values(|f: (String, String, String)| (f.0@, f.1@, f.2@))
}

// ─── Building ───────────────────────────────────────────────────────────────

/// The `{name}` placeholder of a path parameter.
fn placeholder_of(name: &str) -> (r: String)
    ensures
        r@ == placeholder(name@),
{
    let mut r = String::new();
    push_char(&mut r, '{');
    r.append(name);
    push_char(&mut r, '}');
    assert(r@ =~= placeholder(name@));
    r
}

/// The path with the form's path parameters filled in.
pub fn fill_path(path: &str, fields: &Vec<(String, String, String)>) -> (r: String)
    ensures
        r@ == substitute_path(path@, fields_view(fields@)),
{
    let ghost fv = fields_view(fields@);
    let mut p = crate::text::owned(path);
    let mut i: usize = 0;
    while i < fields.len()
        invariant
            i <= fields.len(),
            fv == fields_view(fields@),
            p@ == substitute_path(path@, fv.take(i as int)),
        decreases fields.len() - i,
    {
        assert(fv.take(i + 1).drop_last() == fv.take(i as int));
        assert(fv.take(i + 1).last() == fv[i as int]);
        if str_eq(fields[i].1.as_str(), "path") {
            let pat = placeholder_of(fields[i].0.as_str());
            p = replace(p.as_str(), pat.as_str(), fields[i].2.as_str());
        }
        i = i + 1;
    }
    assert(fv.take(fields.len() as int) == fv);
    p
}

/// The query string of the form's non-empty query parameters (empty when there
/// are none).
pub fn build_query(fields: &Vec<(String, String, String)>) -> (r: String)
    ensures
        r@ == query_string(query_pairs(fields_view(fields@))),
{
    let ghost fv = fields_view(fields@);
    let mut q = String::new();
    let mut count: usize = 0;
    let mut i: usize = 0;
    while i < fields.len()
        invariant
            i <= fields.len(),
            fv == fields_view(fields@),
            count == query_pairs(fv.take(i as int)).len(),
            count <= i,
            q@ == query_string(query_pairs(fv.take(i as int))),
        decreases fields.len() - i,
    {
        assert(fv.take(i + 1).drop_last() == fv.take(i as int));
        assert(fv.take(i + 1).last() == fv[i as int]);
        let ghost before = query_pairs(fv.take(i as int));
        if str_eq(fields[i].1.as_str(), "query") && !fields[i].2.as_str().is_empty() {
            let ghost after = before.push((fv[i as int].0, fv[i as int].2));
            assert(query_pairs(fv.take(i + 1)) =~= after);
            if count > 0 {
                push_char(&mut q, '&');
            }
            q.append(fields[i].0.as_str());
            push_char(&mut q, '=');
            q.append(fields[i].2.as_str());
            assert(after.drop_last() == before);
            if count == 0 {
                assert(q@ =~= query_string(after));
            } else {
                assert(q@ =~= query_string(after));
            }
            count = count + 1;
        } else {
            assert(query_pairs(fv.take(i + 1)) =~= before);
        }
        i = i + 1;
    }
    assert(fv.take(fields.len() as int) == fv);
    q
}

/// The URL a request from the form goes to.
pub fn build_url(base: &str, path: &str, fields: &Vec<(String, String, String)>) -> (r: String)
    ensures
        r@ == request_url(base@, path@, fields_view(fields@)),
{
    let filled = fill_path(path, fields);
    let mut url = concat_str(base, filled.as_str());
    let q = build_query(fields);
    proof { lemma_query_string_empty(query_pairs(fields_view(fields@))); }
    if !q.as_str().is_empty() {
        push_char(&mut url, '?');
        url.append(q.as_str());
        assert(url@ =~= request_url(base@, path@, fields_view(fields@)));
    } else {
        assert(url@ =~= request_url(base@, path@, fields_view(fields@)));
    }
    url
}

/// The query string is empty exactly when there are no pairs.
pub proof fn lemma_query_string_empty(pairs: Seq<(Seq<char>, Seq<char>)>)
    ensures
        (query_string(pairs).len() == 0) == (pairs.len() == 0),
    decreases pairs.len(),
{
    if pairs.len() > 1 {
        lemma_query_string_empty(pairs.drop_last());
    }
}

/// Whether a method carries a request body.
pub fn method_sends_body(method: &str) -> (r: bool)
    ensures
        r == sends_body(method@),
{
    str_eq(method, "POST") || str_eq(method, "PUT") || str_eq(method, "PATCH")
}

/// The `curl` command for a request to `url` with `method`; `body` is the form's
/// body when the form is open.
pub fn curl_text(method: &str, url: &str, body: Option<&str>) -> (r: String)
    ensures
        r@ == curl_command(
            method@,
            url@,
            match body {
                Some(b) => Some(b@),
                None => None,
            },
        ),
{
    match body {
        None => {
            if str_eq(method, "GET") {
                let a = concat_str("curl '", url);
                concat_str(a.as_str(), "'")
            } else {
                let a = concat_str("curl -X ", method);
                let b = concat_str(a.as_str(), " '");
                let c = concat_str(b.as_str(), url);
                concat_str(c.as_str(), "'")
            }
        },
        Some(text) => {
            let a = concat_str("curl -X ", method);
            let b = concat_str(a.as_str(), " '");
            let c = concat_str(b.as_str(), url);
            let d = concat_str(c.as_str(), "'");
            if method_sends_body(method) && !text.is_empty() {
                let e = concat_str(d.as_str(), " -H 'Content-Type: application/json' -d '");
                let f = concat_str(e.as_str(), text);
                concat_str(f.as_str(), "'")
            } else {
                assert(d@ + Seq::<char>::empty() == d@);
                d
            }
        },
    }
}

// ─── Sending ────────────────────────────────────────────────────────────────

/// The HTTP methods a request can be sent with.
#[derive(Clone, Copy, PartialEq, Eq, Structural, Debug)]
pub enum HttpMethod {
    Get,
    Post,
    Put,
    Delete,
    Patch,
    Head,
}

/// The method named by an upper-case method name, if it is one that can be sent.
pub open spec fn method_named(m: Seq<char>) -> Option<HttpMethod> {
    if m == "GET"@ {
        Some(HttpMethod::Get)
    } else if m == "POST"@ {
        Some(HttpMethod::Post)
    } else if m == "PUT"@ {
        Some(HttpMethod::Put)
    } else if m == "DELETE"@ {
        Some(HttpMethod::Delete)
    } else if m == "PATCH"@ {
        Some(HttpMethod::Patch)
    } else if m == "HEAD"@ {
        Some(HttpMethod::Head)
    } else {
        None
    }
}

/// How a request is sent: the method, and the body to send as JSON (only for a
/// method that carries one, and only when the body is not empty); a method that
/// cannot be sent is an error naming it.
pub fn plan_request(method: &str, body: &str) -> (r: Result<(HttpMethod, Option<String>), String>)
    ensures
        r is Ok <==> method_named(method@) is Some,
        r matches Ok((m, b)) ==> {
            &&& Some(m) == method_named(method@)
            &&& b is Some <==> (sends_body(method@) && body@.len() > 0)
            &&& b matches Some(text) ==> text@ == body@
        },
        r matches Err(e) ==> e@ == "Unsupported method: "@ + method@,
{
    let m = if str_eq(method, "GET") {
        HttpMethod::Get
    } else if str_eq(method, "POST") {
        HttpMethod::Post
    } else if str_eq(method, "PUT") {
        HttpMethod::Put
    } else if str_eq(method, "DELETE") {
        HttpMethod::Delete
    } else if str_eq(method, "PATCH") {
        HttpMethod::Patch
    } else if str_eq(method, "HEAD") {
        HttpMethod::Head
    } else {
        return Err(concat_str("Unsupported method: ", method));
    };
    if method_sends_body(method) && !body.is_empty() {
        Ok((m, Some(crate::text::owned(body))))
    } else {
        Ok((m, None))
    }
}

/// The pretty-printed form of a JSON text, as `serde_json` gives it (parsing
/// into a `serde_json::Value`, then `to_string_pretty`), or `None` when either
/// step fails.
pub uninterp spec fn pretty_json_of(text: Seq<char>) -> Option<Seq<char>>;

/// Calls `serde_json::from_str::<serde_json::Value>` and, on success,
/// `serde_json::to_string_pretty`. Claimed: the result is `pretty_json_of` of
/// the input, a function of the text alone; nothing is claimed of what that
/// function is.
#[verifier::external_body]
pub(crate) fn serde_json_pretty(text: &str) -> (r: Option<String>)
    ensures
        match r {
            Some(p) => pretty_json_of(text@) == Some(p@),
            None => pretty_json_of(text@) is None,
        },
{
    match serde_json::from_str::<serde_json::Value>(text) {
        Ok(v) => serde_json::to_string_pretty(&v).ok(),
        Err(_) => None,
    }
}

/// A response body as shown: pretty-printed when it is JSON, as it came
/// otherwise.
pub fn pretty_body(body: String) -> (r: String)
    ensures
        r@ == match pretty_json_of(body@) {
            Some(p) => p,
            None => body@,
        },
{
    let pretty = serde_json_pretty(body.as_str());
    shown_body(body, pretty)
}

/// A response body as shown, given what pretty-printing made of it: the
/// pretty-printed text when there is one, the body as it came otherwise.
pub fn shown_body(body: String, pretty: Option<String>) -> (r: String)
    ensures
        r@ == match pretty {
            Some(p) => p@,
            None => body@,
        },
{
    match pretty {
        Some(p) => p,
        None => body,
    }
}

// ─── Auth headers ───────────────────────────────────────────────────────────

/// The characters of the standard base64 alphabet.
pub open spec fn base64_alphabet() -> Seq<char> {
    "ABCDEFGHIJKLMNOPQRSTUVWXYZabcdefghijklmnopqrstuvwxyz0123456789+/"@
}

/// The base64 character of a six-bit value.
pub open spec fn b64(n: int) -> char {
    base64_alphabet()[n]
}

/// Bytes in standard base64, padded with `=`: every three bytes become four
/// characters of six bits each.
pub open spec fn base64(b: Seq<u8>) -> Seq<char>
    decreases b.len(),
{
    if b.len() == 0 {
        seq![]
    } else if b.len() == 1 {
        seq![b64((b[0] / 4) as int), b64(((b[0] % 4) * 16) as int), '=', '=']
    } else if b.len() == 2 {
        seq![
            b64((b[0] / 4) as int),
            b64(((b[0] % 4) * 16 + b[1] / 16) as int),
            b64(((b[1] % 16) * 4) as int),
            '=',
        ]
    } else {
        seq![
            b64((b[0] / 4) as int),
            b64(((b[0] % 4) * 16 + b[1] / 16) as int),
            b64(((b[1] % 16) * 4 + b[2] / 64) as int),
            b64((b[2] % 64) as int),
        ] + base64(b.skip(3))
    }
}

/// The headers a request goes with for the auth in use: `Authorization:
/// Bearer <token>`; the API key's own header; `Authorization: Basic` with the
/// UTF-8 bytes of `user:password` in base64; or the custom headers, in order.
pub open spec fn auth_headers(a: AuthConfig) -> Seq<(Seq<char>, Seq<char>)> {
    match a {
        AuthConfig::NoAuth => seq![],
        AuthConfig::Bearer(t) => seq![("Authorization"@, "Bearer "@ + t@)],
        AuthConfig::ApiKey { header, value } => seq![(header@, value@)],
        AuthConfig::Basic { username, password } => seq![
            ("Authorization"@, "Basic "@ + base64(encode_utf8(username@ + seq![':'] + password@))),
        ],
        AuthConfig::Custom(h) => h@.map_values(|p: (String, String)| (p.0@, p.1@)),
    }
}

/// Bytes in standard base64, as `base64` states.
pub fn base64_of(b: &[u8]) -> (r: String)
    ensures
        r@ == base64(b@),
{
    let alpha = crate::text::chars_of("ABCDEFGHIJKLMNOPQRSTUVWXYZabcdefghijklmnopqrstuvwxyz0123456789+/");
    proof {
        reveal_strlit("ABCDEFGHIJKLMNOPQRSTUVWXYZabcdefghijklmnopqrstuvwxyz0123456789+/");
    }
    assert(alpha@.len() == 64);
    let mut r = String::new();
    let mut i: usize = 0;
    let n = b.len();
    assert(b@.skip(0) == b@);
    while i < n
        invariant
            i <= n,
            n == b@.len(),
            alpha@ == base64_alphabet(),
            alpha@.len() == 64,
            r@ + base64(b@.skip(i as int)) == base64(b@),
        decreases n - i,
    {
        let ghost rest = b@.skip(i as int);
        let ghost r0 = r@;
        let x = b[i];
        assert(rest[0] == x);
        push_char(&mut r, alpha[(x / 4) as usize]);
        if n - i == 1 {
            push_char(&mut r, alpha[((x % 4) * 16) as usize]);
            push_char(&mut r, '=');
            push_char(&mut r, '=');
            assert(r@ =~= r0 + base64(rest));
            assert(b@.skip(n as int).len() == 0);
            i = n;
            assert(r@ + base64(b@.skip(i as int)) =~= r@);
        } else {
            let y = b[i + 1];
            assert(rest[1] == y);
            push_char(&mut r, alpha[((x % 4) * 16 + y / 16) as usize]);
            if n - i == 2 {
                push_char(&mut r, alpha[((y % 16) * 4) as usize]);
                push_char(&mut r, '=');
                assert(r@ =~= r0 + base64(rest));
                assert(b@.skip(n as int).len() == 0);
                i = n;
                assert(r@ + base64(b@.skip(i as int)) =~= r@);
            } else {
                let z = b[i + 2];
                assert(rest[2] == z);
                push_char(&mut r, alpha[((y % 16) * 4 + z / 64) as usize]);
                push_char(&mut r, alpha[(z % 64) as usize]);
                assert(rest.skip(3) == b@.skip(i + 3));
                assert(r@ + base64(b@.skip(i + 3)) =~= r0 + base64(rest));
                i = i + 3;
            }
        }
    }
    assert(b@.skip(n as int).len() == 0);
    assert(r@ + base64(b@.skip(n as int)) =~= r@);
    r
}

/// The headers a request goes with for the auth in use, as `auth_headers`
/// states.
pub fn auth_headers_of(a: &AuthConfig) -> (r: Vec<(String, String)>)
    ensures
        r@.map_values(|p: (String, String)| (p.0@, p.1@)) == auth_headers(*a),
{
    let mut r: Vec<(String, String)> = Vec::new();
    match a {
        AuthConfig::NoAuth => {},
        AuthConfig::Bearer(t) => {
            r.push((String::from_str("Authorization"), concat_str("Bearer ", t.as_str())));
        },
        AuthConfig::ApiKey { header, value } => {
            r.push((header.clone(), value.clone()));
        },
        AuthConfig::Basic { username, password } => {
            let a1 = concat_str(username.as_str(), ":");
            let up = concat_str(a1.as_str(), password.as_str());
            assert(up@ == username@ + seq![':'] + password@) by {
                reveal_strlit(":");
            }
            let bytes = up.as_str().as_bytes();
            let enc = base64_of(bytes);
            r.push((String::from_str("Authorization"), concat_str("Basic ", enc.as_str())));
        },
        AuthConfig::Custom(h) => {
            let mut i: usize = 0;
            while i < h.len()
                invariant
                    i <= h.len(),
                    r@.map_values(|p: (String, String)| (p.0@, p.1@)) == h@.map_values(
                        |p: (String, String)| (p.0@, p.1@),
                    ).take(i as int),
                decreases h.len() - i,
            {
                let ghost before = r@.map_values(|p: (String, String)| (p.0@, p.1@));
                r.push((h[i].0.clone(), h[i].1.clone()));
                assert(r@.map_values(|p: (String, String)| (p.0@, p.1@)) =~= before.push((h@[i as int].0@, h@[i as int].1@)));
                assert(r@.map_values(|p: (String, String)| (p.0@, p.1@)) =~= h@.map_values(
                    |p: (String, String)| (p.0@, p.1@),
                ).take(i + 1));
                i = i + 1;
            }
        },
    }
    assert(r@.map_values(|p: (String, String)| (p.0@, p.1@)) =~= auth_headers(*a));
    r
}

} // verus!
