//! CGI scripts: the environment handed to a script and the response read
//! from its output. Running the script is left to the program.
use vstd::prelude::*;
use crate::http::body::{Body, BodySpec};
use crate::http::header::{Header, HeaderNameSpec, spec_name_text, spec_name_from_str, text_lower, lower_chars};
use crate::http::request::{Request, spec_method_text, header_read_from, opt_body};
use crate::http::response::Response;
use crate::http::status::HttpStatusCode;
use crate::map::{StrMap, map_insert};
use crate::server::errors::{CGIError, ServerError};
use crate::sys::{
    from_utf8_lossy, utf8_lossy, to_lowercase, to_uppercase, unicode_lower, unicode_upper,
    extension_of, path_extension,
};
use crate::text::{
    chars_of, chars_is, owned, push_str, push_all, string_of, has_prefix, split_once,
    split_once_on, trim, trim_chars, first_word, first_word_of, parse_unsigned,
    parse_unsigned_chars, text_lines, lines_of, views, find_text, find_in, replace_all, replace_in,
    slice_chars, starts_with, decimal, is_ascii_text, is_ascii_char, lower_ascii_text, is_space, is_digit,
    all_digits, trim_start, trim_end, word_prefix, lemma_decimal_digits, lemma_trim_end_keeps,
    lemma_word_prefix_stop, lemma_find_char_at,
};

verus! {

/// How CGI scripts are run: the interpreter, the directory of the scripts
/// and the extensions a script may have.
#[derive(Debug, Clone)]
pub struct CGIConfig {
    pub interpreter: String,
    pub script_dir: String,
    pub allowed_extensions: Vec<String>,
}

/// The environment variable that carries a header: `HTTP_` and the name
/// in upper case with `-` made `_`.
pub open spec fn env_name(n: HeaderNameSpec) -> Seq<char> {
    "HTTP_"@ + unicode_upper(replace_all(spec_name_text(n), "-"@, "_"@))
}

/// The variables set for every request.
pub open spec fn base_env(r: Request) -> Seq<(Seq<char>, Seq<char>)> {
    let e0 = map_insert(Seq::empty(), "GATEWAY_INTERFACE"@, "CGI/1.1"@);
    let e1 = map_insert(e0, "SERVER_PROTOCOL"@, r.version@);
    let e2 = map_insert(e1, "SERVER_SOFTWARE"@, "Rust HTTP Server"@);
    let e3 = map_insert(e2, "REQUEST_METHOD"@, spec_method_text(r.method));
    let e4 = map_insert(e3, "SCRIPT_NAME"@, r.uri@);
    map_insert(e4, "QUERY_STRING"@, Seq::empty())
}

/// The variables after those of the headers are set, in order.
pub open spec fn header_env(m: Seq<(Seq<char>, Seq<char>)>, hs: Seq<Header>) -> Seq<(Seq<char>, Seq<char>)>
    decreases hs.len(),
{
    if hs.len() == 0 {
        m
    } else {
        map_insert(header_env(m, hs.drop_last()), env_name(hs.last()@.name), hs.last()@.value)
    }
}

/// The environment of a script for a request.
pub open spec fn spec_cgi_env(r: Request) -> Seq<(Seq<char>, Seq<char>)> {
    header_env(base_env(r), r.headers@)
}

/// The status a `Status:` line sets: the code in the first word after the
/// colon, when the server knows it; else the status stays.
pub open spec fn status_after(st: HttpStatusCode, line: Seq<char>) -> HttpStatusCode {
    match split_once(line, ':') {
        Some((_, rest)) => match first_word(trim(rest)) {
            Some(w) => match parse_unsigned(w, u16::MAX as nat) {
                Some(c) => match HttpStatusCode::spec_from_code(c as u16) {
                    Some(s) => s,
                    None => st,
                },
                None => st,
            },
            None => st,
        },
        None => st,
    }
}

/// What the head of a script's output sets, line by line: the status of
/// the `Status:` lines, and a header (trimmed name and value) for each
/// other line with a colon.
pub open spec fn cgi_head(lines: Seq<Seq<char>>) -> (HttpStatusCode, Seq<(Seq<char>, Seq<char>)>)
    decreases lines.len(),
{
    if lines.len() == 0 {
        (HttpStatusCode::OK, Seq::empty())
    } else {
        let (st, hs) = cgi_head(lines.drop_last());
        let l = lines.last();
        if has_prefix(text_lower(l), "status:"@) {
            (status_after(st, l), hs)
        } else {
            match split_once(l, ':') {
                Some((a, b)) => (st, hs.push((trim(a), trim(b)))),
                None => (st, hs),
            }
        }
    }
}

/// Whether a line of a script's head is a `Status:` line (compared in
/// lower case).
pub open spec fn is_status_line(l: Seq<char>) -> bool {
    has_prefix(text_lower(l), "status:"@)
}

/// Lines after which no `Status:` line comes keep the status and add the
/// same headers, whatever came before them.
proof fn lemma_cgi_head_no_status(xs: Seq<Seq<char>>, ys: Seq<Seq<char>>, zs: Seq<Seq<char>>)
    requires
        forall|k: int| 0 <= k < ys.len() ==> !is_status_line(#[trigger] ys[k]),
        cgi_head(xs).1 == cgi_head(zs).1,
    ensures
        cgi_head(xs + ys).0 == cgi_head(xs).0,
        cgi_head(xs + ys).1 == cgi_head(zs + ys).1,
    decreases ys.len(),
{
    if ys.len() == 0 {
        assert(xs + ys =~= xs);
        assert(zs + ys =~= zs);
    } else {
        let y0 = ys.drop_last();
        assert forall|k: int| 0 <= k < y0.len() implies !is_status_line(#[trigger] y0[k]) by {
            assert(y0[k] == ys[k]);
        }
        lemma_cgi_head_no_status(xs, y0, zs);
        assert((xs + ys).drop_last() =~= xs + y0);
        assert((zs + ys).drop_last() =~= zs + y0);
        assert((xs + ys).last() == ys.last());
        assert((zs + ys).last() == ys.last());
        assert(!is_status_line(ys[ys.len() - 1]));
    }
}

/// A script's head with one `Status:` line among any other lines (none of
/// them a `Status:` line) gets the status that line gives, wherever it
/// stands, and the headers of the other lines, as if it were not there.
pub proof fn law_cgi_status_anywhere(pre: Seq<Seq<char>>, line: Seq<char>, post: Seq<Seq<char>>)
    requires
        is_status_line(line),
        forall|k: int| 0 <= k < pre.len() ==> !is_status_line(#[trigger] pre[k]),
        forall|k: int| 0 <= k < post.len() ==> !is_status_line(#[trigger] post[k]),
    ensures
        cgi_head(pre + seq![line] + post).0 == status_after(HttpStatusCode::OK, line),
        cgi_head(pre + seq![line] + post).1 == cgi_head(pre + post).1,
{
    let e = Seq::<Seq<char>>::empty();
    assert(e + pre =~= pre);
    lemma_cgi_head_no_status(e, pre, e);
    let with = pre + seq![line];
    assert(with.drop_last() =~= pre);
    assert(with.last() == line);
    assert(cgi_head(with).0 == status_after(HttpStatusCode::OK, line));
    assert(cgi_head(with).1 == cgi_head(pre).1);
    lemma_cgi_head_no_status(with, post, pre);
}

/// A line `Status: ` then a code the server knows, then nothing or text
/// that starts with a space (the reason phrase), is a `Status:` line, and
/// sets that code, whatever the status before it.
pub proof fn law_cgi_status_line(c: u16, reason: Seq<char>, st: HttpStatusCode)
    requires
        HttpStatusCode::spec_from_code(c) is Some,
        is_ascii_text(reason),
        reason.len() == 0 || reason[0] == ' ',
    ensures
        is_status_line("Status: "@ + decimal(c as nat) + reason),
        status_after(st, "Status: "@ + decimal(c as nat) + reason) == HttpStatusCode::spec_from_code(c)->0,
{
    reveal_strlit("Status: ");
    reveal_strlit("status:");
    let pfx = "Status: "@;
    let d = decimal(c as nat);
    lemma_decimal_digits(c as nat);
    let line = pfx + d + reason;
    assert forall|j: int| 0 <= j < d.len() implies is_ascii_char(#[trigger] d[j]) && !is_space(d[j]) by {
        assert(is_digit(d[j]));
    }
    assert(is_ascii_text(line)) by {
        assert forall|j: int| 0 <= j < line.len() implies is_ascii_char(#[trigger] line[j]) by {
            if j < 8 {
                assert(line[j] == pfx[j]);
            } else if j < 8 + d.len() {
                assert(line[j] == d[j - 8]);
            } else {
                assert(line[j] == reason[j - 8 - d.len()]);
            }
        }
    }
    assert(text_lower(line) == lower_ascii_text(line));
    assert(lower_ascii_text(line).take(7) =~= "status:"@) by {
        assert forall|j: int| 0 <= j < 7 implies lower_ascii_text(line)[j] == "status:"@[j] by {
            assert(line[j] == pfx[j]);
        }
    }
    assert(line[6] == ':');
    assert forall|j: int| 0 <= j < 6 implies line[j] != ':' by {
        assert(line[j] == pfx[j]);
    }
    lemma_find_char_at(line, ':', 6);
    let rest = line.skip(7);
    assert(rest =~= seq![' '] + (d + reason));
    assert(rest.drop_first() =~= d + reason);
    assert(trim_start(d + reason) == d + reason) by {
        assert((d + reason)[0] == d[0]);
    }
    assert(trim_start(rest) == d + reason);
    assert(d.last() == d[d.len() - 1]);
    lemma_trim_end_keeps(d, reason);
    let u = trim_end(d + reason);
    let n = u.len();
    let r2 = reason.take(n - d.len());
    assert(u =~= d + r2);
    assert(u[0] == d[0]);
    assert(trim_start(u) == u);
    if r2.len() > 0 {
        assert(r2[0] == reason[0]);
    }
    lemma_word_prefix_stop(d, r2);
    assert(d[0] != '+') by {
        assert(is_digit(d[0]));
    }
    assert(parse_unsigned(d, u16::MAX as nat) == Some(c as nat));
}

/// A script's head with a line `Status: <code> <reason>` for a code the
/// server knows, among other lines that are not `Status:` lines, before or
/// after it, gets that code as its status.
pub proof fn law_cgi_head_status(pre: Seq<Seq<char>>, c: u16, reason: Seq<char>, post: Seq<Seq<char>>)
    requires
        HttpStatusCode::spec_from_code(c) is Some,
        is_ascii_text(reason),
        reason.len() == 0 || reason[0] == ' ',
        forall|k: int| 0 <= k < pre.len() ==> !is_status_line(#[trigger] pre[k]),
        forall|k: int| 0 <= k < post.len() ==> !is_status_line(#[trigger] post[k]),
    ensures
        cgi_head(pre + seq!["Status: "@ + decimal(c as nat) + reason] + post).0 == HttpStatusCode::spec_from_code(c)->0,
{
    law_cgi_status_line(c, reason, HttpStatusCode::OK);
    law_cgi_status_anywhere(pre, "Status: "@ + decimal(c as nat) + reason, post);
}

/// The header a head line gives: its trimmed name and value, split at its
/// first colon.
pub open spec fn cgi_header_of(l: Seq<char>) -> (Seq<char>, Seq<char>) {
    match split_once(l, ':') {
        Some((a, b)) => (trim(a), trim(b)),
        None => (Seq::empty(), Seq::empty()),
    }
}

/// A script's head whose lines are all headers (each with a colon, none a
/// `Status:` line) keeps the status `200 OK` and gives one header per
/// line, in order, each its trimmed name and value.
pub proof fn law_cgi_headers(ls: Seq<Seq<char>>)
    requires
        forall|k: int| 0 <= k < ls.len() ==> !is_status_line(#[trigger] ls[k]) && split_once(ls[k], ':') is Some,
    ensures
        cgi_head(ls).0 == HttpStatusCode::OK,
        cgi_head(ls).1 == ls.map_values(|l: Seq<char>| cgi_header_of(l)),
    decreases ls.len(),
{
    if ls.len() > 0 {
        let t = ls.drop_last();
        assert forall|k: int| 0 <= k < t.len() implies !is_status_line(#[trigger] t[k]) && split_once(t[k], ':') is Some by {
            assert(t[k] == ls[k]);
        }
        law_cgi_headers(t);
        assert(!is_status_line(ls[ls.len() - 1]) && split_once(ls[ls.len() - 1], ':') is Some);
        assert(ls.map_values(|l: Seq<char>| cgi_header_of(l)) =~= t.map_values(|l: Seq<char>| cgi_header_of(l)).push(
            cgi_header_of(ls.last()),
        ));
    }
}

/// Whether one of the headers is named `content-type` (compared in lower
/// case).
pub open spec fn has_content_type(hs: Seq<(Seq<char>, Seq<char>)>) -> bool {
    exists|i: int|
        0 <= i < hs.len() && unicode_lower(spec_name_text(spec_name_from_str(#[trigger] hs[i].0)))
            == "content-type"@
}

/// The headers of the response: those of the head, and `content-type:
/// text/plain` when none of them gives a content type.
pub open spec fn cgi_headers(hs: Seq<(Seq<char>, Seq<char>)>) -> Seq<(Seq<char>, Seq<char>)> {
    if has_content_type(hs) {
        hs
    } else {
        hs.push(("content-type"@, "text/plain"@))
    }
}

/// The separator between the head and the body of a script's output.
pub open spec fn blank_line() -> Seq<char> {
    "\r\n\r\n"@
}

/// Whether the headers were made from the (name, value) pairs, in order.
pub open spec fn headers_made_from(hs: Seq<Header>, pairs: Seq<(Seq<char>, Seq<char>)>) -> bool {
    &&& hs.len() == pairs.len()
    &&& forall|i: int| 0 <= i < hs.len() ==> header_read_from(#[trigger] hs[i]@, pairs[i].0, pairs[i].1)
}

/// Whether the extension of a path is one of the allowed extensions.
pub open spec fn extension_allowed(exts: Seq<String>, path: Seq<char>) -> bool {
    path_extension(path) matches Some(e) && exists|i: int|
        0 <= i < exts.len() && (#[trigger] exts[i])@ == e
}

/// The response read from a script's output `out` whose head ends at `p`:
/// the status and headers of the head, and all the text after the blank
/// line as the body.
pub open spec fn cgi_response(resp: Response, out: Seq<char>, p: int) -> bool {
    let body = out.skip(p + 4);
    let (st, hs) = cgi_head(text_lines(out.take(p)));
    &&& resp.version@ == "HTTP/1.1"@
    &&& resp.status_code == st
    &&& headers_made_from(resp.headers@, cgi_headers(hs))
    &&& opt_body(resp.body) == Some(BodySpec::Text(body))
}

impl CGIConfig {
    /// Scripts in `script_dir`, run by `/usr/bin/python3`, with the
    /// extension `py`.
    pub fn new(script_dir: String) -> (r: Self)
        ensures
            r.interpreter@ == "/usr/bin/python3"@,
            r.script_dir == script_dir,
            r.allowed_extensions@.len() == 1,
            r.allowed_extensions@[0]@ == "py"@,
    {
        let mut allowed_extensions = Vec::new();
        allowed_extensions.push(owned("py"));
        CGIConfig { interpreter: owned("/usr/bin/python3"), script_dir, allowed_extensions }
    }

    /// The environment of a script for the request: the gateway, protocol,
    /// server, method, script name and an empty query, then one variable
    /// per header (a later header with the same variable wins).
    pub fn prepare_cgi_environment(&self, request: &Request) -> (r: StrMap<String>)
        ensures
            r@ == spec_cgi_env(*request),
            r.wf(),
    {
        let mut env: StrMap<String> = StrMap::new();
        env.insert(owned("GATEWAY_INTERFACE"), owned("CGI/1.1"));
        env.insert(owned("SERVER_PROTOCOL"), owned(request.version.as_str()));
        env.insert(owned("SERVER_SOFTWARE"), owned("Rust HTTP Server"));
        env.insert(owned("REQUEST_METHOD"), owned(request.method.as_str()));
        env.insert(owned("SCRIPT_NAME"), owned(request.uri.as_str()));
        env.insert(owned("QUERY_STRING"), owned(""));
        proof {
            reveal_strlit("");
            assert(""@ =~= Seq::<char>::empty());
        }
        assert(env@ == base_env(*request));
        let mut i: usize = 0;
        while i < request.headers.len()
            invariant
                i <= request.headers@.len(),
                env.wf(),
                env@ == header_env(base_env(*request), request.headers@.take(i as int)),
            decreases request.headers@.len() - i,
        {
            let h = &request.headers[i];
            let name = chars_of(h.name.to_text().as_str());
            let dash = chars_of("-");
            let underscore = chars_of("_");
            proof {
                reveal_strlit("-");
            }
            let replaced = replace_in(&name, &dash, &underscore);
            let upper = to_uppercase(string_of(&replaced).as_str());
            let mut key = chars_of("HTTP_");
            push_str(&mut key, upper.as_str());
            env.insert(string_of(&key), owned(h.value.value.as_str()));
            proof {
                let t = request.headers@.take(i + 1);
                assert(t.drop_last() =~= request.headers@.take(i as int));
            }
            i = i + 1;
        }
        assert(request.headers@.take(i as int) =~= request.headers@);
        env
    }

    /// The response a script gave: `success` tells whether it exited
    /// successfully, `stdout` and `stderr` are what it wrote. A failed
    /// script is a script error with its error output; an output without
    /// a blank line is malformed. Otherwise the head (up to the first blank
    /// line) gives the status and the headers, and all the text after that
    /// blank line is the body.
    pub fn parse_cgi_output(&self, success: bool, stdout: &[u8], stderr: &[u8]) -> (r: Result<Response, ServerError>)
        ensures
            !success ==> (r matches Err(ServerError::CGIError(CGIError::ScriptOutputError(m)))
                && m@ == utf8_lossy(stderr@)),
            success ==> match find_text(utf8_lossy(stdout@), blank_line()) {
                None => r matches Err(ServerError::CGIError(CGIError::InvalidOutputFormat)),
                Some(p) => r matches Ok(resp) && cgi_response(resp, utf8_lossy(stdout@), p),
            },
    {
        if !success {
            let m = from_utf8_lossy(stderr);
            return Err(ServerError::CGIError(CGIError::ScriptOutputError(m)));
        }
        let out = chars_of(from_utf8_lossy(stdout).as_str());
        let sep = chars_of("\r\n\r\n");
        proof {
            reveal_strlit("\r\n\r\n");
            assert(sep@.len() == 4);
            crate::text::lemma_find_text(out@, sep@);
        }
        let p = match find_in(&out, &sep) {
            Some(p) => p,
            None => {
                return Err(ServerError::CGIError(CGIError::InvalidOutputFormat));
            },
        };
        let n: usize = out.len();
        assert(p + sep@.len() <= n);
        let head = slice_chars(&out, 0, p);
        let body = slice_chars(&out, p + 4, n);
        proof {
            assert(head@ =~= out@.take(p as int));
            assert(body@ =~= out@.skip(p + 4));
        }
        let lines = lines_of(&head);
        let (status, pairs_headers) = read_head(&lines);
        let mut headers = pairs_headers;
        let ghost pairs = cgi_head(text_lines(head@)).1;
        if !any_content_type(&headers, Ghost(pairs)) {
            let ghost before = headers@;
            headers.push(Header::from_str("content-type", "text/plain"));
            proof {
                assert forall|i: int| 0 <= i < headers@.len() implies header_read_from(
                    #[trigger] headers@[i]@,
                    cgi_headers(pairs)[i].0,
                    cgi_headers(pairs)[i].1,
                ) by {
                    if i < before.len() {
                        assert(headers@[i] == before[i]);
                    }
                }
            }
        }
        Ok(Response::new(status, headers, Some(Body::text(string_of(&body).as_str()))))
    }

    /// Whether the extension of the path is one of the allowed ones.
    pub fn is_allowed_extension(&self, path: &str) -> (r: bool)
        ensures
            r == extension_allowed(self.allowed_extensions@, path@),
    {
        match extension_of(path) {
            Some(e) => {
                let mut i: usize = 0;
                while i < self.allowed_extensions.len()
                    invariant
                        i <= self.allowed_extensions@.len(),
                        path_extension(path@) == Some(e@),
                        forall|j: int|
                            0 <= j < i ==> (#[trigger] self.allowed_extensions@[j])@ != e@,
                    decreases self.allowed_extensions@.len() - i,
                {
                    if crate::text::str_eq(self.allowed_extensions[i].as_str(), e.as_str()) {
                        return true;
                    }
                    i = i + 1;
                }
                false
            },
            None => false,
        }
    }

    /// Whether a script may run: `exists` tells whether its path exists.
    /// A missing script, then an extension not allowed (named, or
    /// `unknown`), is refused.
    pub fn validate_script(&self, script_path: &str, exists: bool) -> (r: Result<(), ServerError>)
        ensures
            !exists ==> (r matches Err(ServerError::CGIError(CGIError::ScriptNotFound(p))) && p@
                == script_path@),
            exists && !extension_allowed(self.allowed_extensions@, script_path@) ==> (r matches Err(
                ServerError::CGIError(CGIError::ExtensionNotAllowed(x)),
            ) && x@ == match path_extension(script_path@) {
                Some(e) => e,
                None => "unknown"@,
            }),
            exists && extension_allowed(self.allowed_extensions@, script_path@) ==> r is Ok,
    {
        if !exists {
            return Err(ServerError::CGIError(CGIError::ScriptNotFound(owned(script_path))));
        }
        if !self.is_allowed_extension(script_path) {
            let ext = match extension_of(script_path) {
                Some(e) => e,
                None => owned("unknown"),
            };
            return Err(ServerError::CGIError(CGIError::ExtensionNotAllowed(ext)));
        }
        Ok(())
    }
}

/// Reads the status and the headers from the lines of a head.
fn read_head(lines: &Vec<Vec<char>>) -> (r: (HttpStatusCode, Vec<Header>))
    ensures
        r.0 == cgi_head(views(lines@)).0,
        headers_made_from(r.1@, cgi_head(views(lines@)).1),
{
    let mut status = HttpStatusCode::OK;
    let mut headers: Vec<Header> = Vec::new();
    let mut i: usize = 0;
    while i < lines.len()
        invariant
            i <= lines@.len(),
            status == cgi_head(views(lines@).take(i as int)).0,
            headers_made_from(headers@, cgi_head(views(lines@).take(i as int)).1),
        decreases lines@.len() - i,
    {
        let line = &lines[i];
        let ghost t = views(lines@).take(i + 1);
        proof {
            assert(t.drop_last() =~= views(lines@).take(i as int));
            assert(t.last() == line@);
        }
        let lower = lower_chars(string_of(line).as_str());
        let prefix = chars_of("status:");
        let ghost before = headers@;
        if starts_with(&lower, &prefix) {
            status = status_of_line(status, line);
        } else {
            match split_once_on(line, ':') {
                Some((a, b)) => {
                    let name = trim_chars(&a);
                    let value = trim_chars(&b);
                    headers.push(
                        Header::from_str(string_of(&name).as_str(), string_of(&value).as_str()),
                    );
                    proof {
                        let pairs = cgi_head(t).1;
                        assert forall|k: int| 0 <= k < headers@.len() implies header_read_from(
                            #[trigger] headers@[k]@,
                            pairs[k].0,
                            pairs[k].1,
                        ) by {
                            if k < before.len() {
                                assert(headers@[k] == before[k]);
                            }
                        }
                    }
                },
                None => {},
            }
        }
        i = i + 1;
    }
    assert(views(lines@).take(i as int) =~= views(lines@));
    (status, headers)
}

/// The status after a `Status:` line.
fn status_of_line(status: HttpStatusCode, line: &Vec<char>) -> (r: HttpStatusCode)
    ensures
        r == status_after(status, line@),
{
    match split_once_on(line, ':') {
        Some((_, rest)) => {
            let t = trim_chars(&rest);
            match first_word_of(&t) {
                Some(w) => match parse_unsigned_chars(&w, 65535) {
                    Some(c) => match HttpStatusCode::from_code(c as u16) {
                        Some(s) => s,
                        None => status,
                    },
                    None => status,
                },
                None => status,
            }
        },
        None => status,
    }
}

/// Whether one of the headers is named `content-type` in lower case.
fn any_content_type(headers: &Vec<Header>, Ghost(pairs): Ghost<Seq<(Seq<char>, Seq<char>)>>) -> (r: bool)
    requires
        headers_made_from(headers@, pairs),
    ensures
        r == has_content_type(pairs),
{
    let mut i: usize = 0;
    while i < headers.len()
        invariant
            i <= headers@.len(),
            headers_made_from(headers@, pairs),
            forall|j: int|
                0 <= j < i ==> unicode_lower(spec_name_text(spec_name_from_str(#[trigger] pairs[j].0)))
                    != "content-type"@,
        decreases headers@.len() - i,
    {
        let lower = to_lowercase(headers[i].name.to_text().as_str());
        proof {
            assert(header_read_from(headers@[i as int]@, pairs[i as int].0, pairs[i as int].1));
        }
        if crate::text::str_eq(lower.as_str(), "content-type") {
            return true;
        }
        i = i + 1;
    }
    false
}

} // verus!
