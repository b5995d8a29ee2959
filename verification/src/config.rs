//! The server configuration and its validation. What the checks need from
//! the file system and the network (whether a path exists, whether an
//! address is an IP address) is handed in by the caller.
use vstd::prelude::*;
use crate::http::header::opt_text;
use crate::http::request::{HttpMethod, spec_method};
use crate::map::StrMap;
use crate::server::logger::{LogLevel, LogRecord, lines};
use crate::sys::{to_lowercase, unicode_lower};
use crate::text::{
    chars_of, chars_is, owned, push_str, string_of, parse_unsigned, parse_unsigned_chars,
    has_suffix, ends_with,
};

verus! {

/// Whether a text starts with the character `c`.
pub open spec fn starts_char(s: Seq<char>, c: char) -> bool {
    s.len() > 0 && s[0] == c
}

fn first_is(s: &str, c: char) -> (r: bool)
    ensures
        r == starts_char(s@, c),
{
    let v = chars_of(s);
    v.len() > 0 && v[0] == c
}

/// The text `a`, then `b`.
fn join2(a: &str, b: &str) -> (r: String)
    ensures
        r@ == a@ + b@,
{
    let mut v = chars_of(a);
    push_str(&mut v, b);
    string_of(&v)
}

/// The text `a`, then `b`, then `c`.
fn join3(a: &str, b: &str, c: &str) -> (r: String)
    ensures
        r@ == a@ + b@ + c@,
{
    let mut v = chars_of(a);
    push_str(&mut v, b);
    push_str(&mut v, c);
    string_of(&v)
}

/// The view of each string of a list.
pub open spec fn texts(v: Seq<String>) -> Seq<Seq<char>> {
    v.map_values(|s: String| s@)
}

/// A configuration problem: critical ones make a host unusable.
#[derive(Debug)]
pub enum ConfigError {
    Critical(String),
    Warning(String),
}

pub enum ConfigErrorSpec {
    Critical(Seq<char>),
    Warning(Seq<char>),
}

impl View for ConfigError {
    type V = ConfigErrorSpec;

    open spec fn view(&self) -> ConfigErrorSpec {
        match self {
            ConfigError::Critical(s) => ConfigErrorSpec::Critical(s@),
            ConfigError::Warning(s) => ConfigErrorSpec::Warning(s@),
        }
    }
}

/// The views of a list of problems.
pub open spec fn errs(v: Seq<ConfigError>) -> Seq<ConfigErrorSpec> {
    v.map_values(|e: ConfigError| e@)
}

pub open spec fn warn(m: Seq<char>) -> ConfigErrorSpec {
    ConfigErrorSpec::Warning(m)
}

pub open spec fn one_if(b: bool, e: ConfigErrorSpec) -> Seq<ConfigErrorSpec> {
    if b {
        seq![e]
    } else {
        Seq::empty()
    }
}

impl ConfigError {
    /// The text of the problem (what `Display` prints).
    pub fn to_text(&self) -> (r: String)
        ensures
            r@ == match self@ {
                ConfigErrorSpec::Critical(s) => "Critical error: "@ + s,
                ConfigErrorSpec::Warning(s) => "Warning: "@ + s,
            },
    {
        match self {
            ConfigError::Critical(s) => join2("Critical error: ", s.as_str()),
            ConfigError::Warning(s) => join2("Warning: ", s.as_str()),
        }
    }
}

fn push_warning(v: &mut Vec<ConfigError>, m: String)
    ensures
        errs(final(v)@) == errs(old(v)@).push(warn(m@)),
{
    v.push(ConfigError::Warning(m));
    assert(errs(v@) =~= errs(old(v)@).push(warn(m@)));
}

fn append_errors(v: &mut Vec<ConfigError>, mut w: Vec<ConfigError>)
    ensures
        errs(final(v)@) == errs(old(v)@) + errs(w@),
{
    let ghost wv = w@;
    v.append(&mut w);
    assert(errs(v@) =~= errs(old(v)@) + errs(wv));
}

// ============= CGI =============
/// The CGI settings of a route.
#[derive(Debug)]
pub struct CgiConfig {
    pub extension: String,
    pub script_path: String,
}

/// The problems of CGI settings; `script_exists` tells whether the script
/// path exists on disk.
pub open spec fn spec_cgi_errors(ext: Seq<char>, script: Seq<char>, script_exists: bool) -> Seq<ConfigErrorSpec> {
    (if ext.len() == 0 {
        seq![warn("CgiConfig extension is empty"@)]
    } else if ext != "py"@ {
        seq![
            warn(
                "CgiConfig extension '"@ + ext + "' is not allowed. Allowed extensions: [\"py\"]"@,
            ),
        ]
    } else {
        Seq::empty()
    }) + (if script.len() == 0 {
        seq![warn("CgiConfig script_path is empty"@)]
    } else if !script_exists {
        seq![warn("CgiConfig script_path '"@ + script + "' does not exist"@)]
    } else {
        Seq::empty()
    })
}

impl CgiConfig {
    /// The problems of the settings: an extension other than `py`, an empty
    /// or missing script.
    pub fn validate(&self, script_exists: bool) -> (r: Vec<ConfigError>)
        ensures
            errs(r@) == spec_cgi_errors(self.extension@, self.script_path@, script_exists),
    {
        let mut errors: Vec<ConfigError> = Vec::new();
        let ext = chars_of(self.extension.as_str());
        if ext.len() == 0 {
            push_warning(&mut errors, owned("CgiConfig extension is empty"));
        } else if !chars_is(&ext, "py") {
            push_warning(
                &mut errors,
                join3(
                    "CgiConfig extension '",
                    self.extension.as_str(),
                    "' is not allowed. Allowed extensions: [\"py\"]",
                ),
            );
        }
        let ghost first = errs(errors@);
        let script = chars_of(self.script_path.as_str());
        if script.len() == 0 {
            push_warning(&mut errors, owned("CgiConfig script_path is empty"));
        } else if !script_exists {
            push_warning(
                &mut errors,
                join3("CgiConfig script_path '", self.script_path.as_str(), "' does not exist"),
            );
        }
        assert(errs(errors@) =~= spec_cgi_errors(
            self.extension@,
            self.script_path@,
            script_exists,
        ));
        errors
    }
}

// ============= Error pages =============
/// Custom error pages: status code text to page path.
#[derive(Debug)]
pub struct ErrorPages {
    pub custom_pages: StrMap<String>,
}

/// Whether a status text is one for which a custom page may be set.
pub open spec fn is_allowed_status(s: Seq<char>) -> bool {
    s == "400"@ || s == "403"@ || s == "404"@ || s == "405"@ || s == "413"@ || s == "500"@ || s
        == "502"@ || s == "503"@
}

/// The problem of one status text, if any.
pub open spec fn spec_status_errors(s: Seq<char>) -> Seq<ConfigErrorSpec> {
    if s.len() == 0 {
        seq![warn("ErrorPages status is empty"@)]
    } else if parse_unsigned(s, u16::MAX as nat) is None {
        seq![warn("ErrorPages status '"@ + s + "' is not a valid HTTP status code"@)]
    } else if !is_allowed_status(s) {
        seq![
            warn(
                "ErrorPages status '"@ + s
                    + "' is not allowed. Allowed status codes: [\"400\", \"403\", \"404\", \"405\", \"413\", \"500\", \"502\", \"503\"]"@,
            ),
        ]
    } else {
        Seq::empty()
    }
}

/// The problems of the status texts of the pages, in order.
pub open spec fn spec_pages_errors(pages: Seq<(Seq<char>, Seq<char>)>) -> Seq<ConfigErrorSpec>
    decreases pages.len(),
{
    if pages.len() == 0 {
        Seq::empty()
    } else {
        spec_pages_errors(pages.drop_last()) + spec_status_errors(pages.last().0)
    }
}

impl ErrorPages {
    /// The problems of the status codes of the pages: empty, not a number,
    /// or not one of the codes with pages.
    pub fn validate(&self) -> (r: Vec<ConfigError>)
        ensures
            errs(r@) == spec_pages_errors(self.custom_pages@),
    {
        let mut errors: Vec<ConfigError> = Vec::new();
        let mut i: usize = 0;
        while i < self.custom_pages.len()
            invariant
                i <= self.custom_pages@.len(),
                errs(errors@) == spec_pages_errors(self.custom_pages@.take(i as int)),
            decreases self.custom_pages@.len() - i,
        {
            let (status, _path) = self.custom_pages.entry(i);
            let ghost before = errs(errors@);
            let s = chars_of(status.as_str());
            if s.len() == 0 {
                push_warning(&mut errors, owned("ErrorPages status is empty"));
            } else if parse_unsigned_chars(&s, 65535).is_none() {
                push_warning(
                    &mut errors,
                    join3("ErrorPages status '", status.as_str(), "' is not a valid HTTP status code"),
                );
            } else if !(chars_is(&s, "400") || chars_is(&s, "403") || chars_is(&s, "404")
                || chars_is(&s, "405") || chars_is(&s, "413") || chars_is(&s, "500") || chars_is(
                &s,
                "502",
            ) || chars_is(&s, "503")) {
                push_warning(
                    &mut errors,
                    join3(
                        "ErrorPages status '",
                        status.as_str(),
                        "' is not allowed. Allowed status codes: [\"400\", \"403\", \"404\", \"405\", \"413\", \"500\", \"502\", \"503\"]",
                    ),
                );
            }
            proof {
                let t = self.custom_pages@.take(i + 1);
                assert(t.drop_last() =~= self.custom_pages@.take(i as int));
                assert(errs(errors@) =~= before + spec_status_errors(t.last().0));
            }
            i = i + 1;
        }
        assert(self.custom_pages@.take(i as int) =~= self.custom_pages@);
        errors
    }
}

// ============= Routes =============
/// A route as configured.
#[derive(Debug)]
pub struct Route {
    pub path: Option<String>,
    pub methods: Option<Vec<String>>,
    pub root: Option<String>,
    pub default_page: Option<String>,
    pub directory_listing: Option<bool>,
    pub redirect: Option<String>,
    pub cgi: Option<CgiConfig>,
    pub session_required: Option<bool>,
    pub session_redirect: Option<String>,
}

/// What the file system says of the paths of a route: whether its root,
/// its default page and its CGI script exist.
#[derive(Debug, Clone, Copy, PartialEq, Eq, Structural)]
pub struct PathFacts {
    pub root_exists: bool,
    pub default_page_exists: bool,
    pub script_exists: bool,
}

pub open spec fn spec_route_path_errors(path: Option<Seq<char>>) -> Seq<ConfigErrorSpec> {
    match path {
        None => seq![warn("Route path is undefined"@)],
        Some(p) => if p.len() == 0 {
            seq![warn("Route path is empty"@)]
        } else if !starts_char(p, '/') {
            seq![warn("Route path '"@ + p + "' must start with '/'"@)]
        } else {
            Seq::empty()
        },
    }
}

pub open spec fn is_allowed_method(m: Seq<char>) -> bool {
    m == "GET"@ || m == "POST"@ || m == "DELETE"@
}

pub open spec fn spec_method_errors(ms: Seq<Seq<char>>) -> Seq<ConfigErrorSpec>
    decreases ms.len(),
{
    if ms.len() == 0 {
        Seq::empty()
    } else {
        spec_method_errors(ms.drop_last()) + one_if(
            !is_allowed_method(ms.last()),
            warn(
                "Invalid HTTP method '"@ + ms.last()
                    + "'. Allowed methods: [\"GET\", \"POST\", \"DELETE\"]"@,
            ),
        )
    }
}

pub open spec fn spec_route_methods_errors(methods: Option<Seq<Seq<char>>>) -> Seq<ConfigErrorSpec> {
    match methods {
        None => seq![warn("Route methods is undefined"@)],
        Some(ms) => if ms.len() == 0 {
            seq![warn("Route methods is empty"@)]
        } else {
            spec_method_errors(ms)
        },
    }
}

pub open spec fn spec_route_root_errors(root: Option<Seq<char>>, exists: bool) -> Seq<ConfigErrorSpec> {
    match root {
        None => seq![warn("Route root is undefined"@)],
        Some(r) => if r.len() == 0 {
            seq![warn("Route root is empty"@)]
        } else if !exists {
            seq![warn("Route root directory '"@ + r + "' does not exist"@)]
        } else {
            Seq::empty()
        },
    }
}

pub open spec fn spec_route_page_errors(page: Option<Seq<char>>, exists: bool) -> Seq<ConfigErrorSpec> {
    match page {
        Some(p) => one_if(!exists, warn("Route default_page '"@ + p + "' does not exist"@)),
        None => Seq::empty(),
    }
}

pub open spec fn spec_route_redirect_errors(redirect: Option<Seq<char>>) -> Seq<ConfigErrorSpec> {
    match redirect {
        Some(r) => if r.len() == 0 {
            seq![warn("Route redirect URL is empty"@)]
        } else if !starts_char(r, '/') && !(r.len() >= 4 && r.take(4) == "http"@) {
            seq![warn("Route redirect '"@ + r + "' must start with '/' or 'http'"@)]
        } else {
            Seq::empty()
        },
        None => Seq::empty(),
    }
}

pub open spec fn spec_route_session_errors(required: Option<bool>, redirect: Option<Seq<char>>) -> Seq<ConfigErrorSpec> {
    if required == Some(true) {
        match redirect {
            Some(r) => one_if(
                r.len() == 0,
                warn("Session redirect URL is empty but session is required"@),
            ),
            None => seq![warn("Session redirect is required when session_required is true"@)],
        }
    } else {
        Seq::empty()
    }
}

/// The texts of an optional list of strings.
pub open spec fn opt_texts(v: Option<Vec<String>>) -> Option<Seq<Seq<char>>> {
    match v {
        Some(v) => Some(texts(v@)),
        None => None,
    }
}

/// The problems of a route, given what the file system says of its
/// paths.
pub open spec fn spec_route_errors(r: Route, f: PathFacts) -> Seq<ConfigErrorSpec> {
    spec_route_path_errors(opt_text(r.path)) + spec_route_methods_errors(opt_texts(r.methods))
        + spec_route_root_errors(opt_text(r.root), f.root_exists) + spec_route_page_errors(
        opt_text(r.default_page),
        f.default_page_exists,
    ) + spec_route_redirect_errors(opt_text(r.redirect)) + spec_route_session_errors(
        r.session_required,
        opt_text(r.session_redirect),
    ) + match r.cgi {
        Some(c) => spec_cgi_errors(c.extension@, c.script_path@, f.script_exists),
        None => Seq::empty(),
    }
}

/// Every problem in the list is a warning.
pub open spec fn all_warnings(s: Seq<ConfigErrorSpec>) -> bool {
    forall|i: int| 0 <= i < s.len() ==> (#[trigger] s[i]) is Warning
}

proof fn lemma_warnings_join(a: Seq<ConfigErrorSpec>, b: Seq<ConfigErrorSpec>)
    requires
        all_warnings(a),
        all_warnings(b),
    ensures
        all_warnings(a + b),
{
    assert forall|i: int| 0 <= i < (a + b).len() implies (#[trigger] (a + b)[i]) is Warning by {
        if i >= a.len() {
            assert((a + b)[i] == b[i - a.len()]);
        }
    }
}

proof fn lemma_method_errors_warnings(ms: Seq<Seq<char>>)
    ensures
        all_warnings(spec_method_errors(ms)),
    decreases ms.len(),
{
    if ms.len() > 0 {
        lemma_method_errors_warnings(ms.drop_last());
        lemma_warnings_join(
            spec_method_errors(ms.drop_last()),
            one_if(
                !is_allowed_method(ms.last()),
                warn(
                    "Invalid HTTP method '"@ + ms.last()
                        + "'. Allowed methods: [\"GET\", \"POST\", \"DELETE\"]"@,
                ),
            ),
        );
    }
}

/// The problems of a route are warnings, never critical ones, and those of
/// its CGI settings come last.
pub proof fn law_route_problems_are_warnings(r: Route, f: PathFacts)
    ensures
        all_warnings(spec_route_errors(r, f)),
        match r.cgi {
            Some(c) => {
                let all = spec_route_errors(r, f);
                let cgi = spec_cgi_errors(c.extension@, c.script_path@, f.script_exists);
                cgi.len() <= all.len() && all.skip(all.len() - cgi.len()) == cgi
            },
            None => true,
        },
{
    let p = spec_route_path_errors(opt_text(r.path));
    let m = spec_route_methods_errors(opt_texts(r.methods));
    let ro = spec_route_root_errors(opt_text(r.root), f.root_exists);
    let pg = spec_route_page_errors(opt_text(r.default_page), f.default_page_exists);
    let rd = spec_route_redirect_errors(opt_text(r.redirect));
    let se = spec_route_session_errors(r.session_required, opt_text(r.session_redirect));
    let cg = match r.cgi {
        Some(c) => spec_cgi_errors(c.extension@, c.script_path@, f.script_exists),
        None => Seq::<ConfigErrorSpec>::empty(),
    };
    if let Some(ms) = opt_texts(r.methods) {
        lemma_method_errors_warnings(ms);
    }
    assert(all_warnings(p));
    assert(all_warnings(m));
    assert(all_warnings(ro));
    assert(all_warnings(pg));
    assert(all_warnings(rd));
    assert(all_warnings(se));
    assert(all_warnings(cg));
    lemma_warnings_join(p, m);
    lemma_warnings_join(p + m, ro);
    lemma_warnings_join(p + m + ro, pg);
    lemma_warnings_join(p + m + ro + pg, rd);
    lemma_warnings_join(p + m + ro + pg + rd, se);
    lemma_warnings_join(p + m + ro + pg + rd + se, cg);
    let front = p + m + ro + pg + rd + se;
    assert(spec_route_errors(r, f) == front + cg);
    assert((front + cg).skip(front.len() as int) =~= cg);
}

impl Route {
    /// The methods a server route built from this one answers: each listed
    /// name read as a method (`GET` for an unknown name); none when the
    /// list is missing.
    pub fn http_methods(&self) -> (r: Vec<HttpMethod>)
        ensures
            r@ == match opt_texts(self.methods) {
                Some(ms) => ms.map_values(|m: Seq<char>| spec_method(m)),
                None => Seq::empty(),
            },
    {
        let mut out: Vec<HttpMethod> = Vec::new();
        if let Some(ms) = &self.methods {
            let mut i: usize = 0;
            while i < ms.len()
                invariant
                    i <= ms@.len(),
                    self.methods == Some(*ms),
                    out@ == texts(ms@).take(i as int).map_values(|m: Seq<char>| spec_method(m)),
                decreases ms@.len() - i,
            {
                let m = HttpMethod::from_str(ms[i].as_str());
                proof {
                    assert(texts(ms@)[i as int] == ms@[i as int]@);
                }
                out.push(m);
                i = i + 1;
                assert(out@ =~= texts(ms@).take(i as int).map_values(|m: Seq<char>| spec_method(m)));
            }
            assert(texts(ms@).take(ms@.len() as int) =~= texts(ms@));
        }
        out
    }

    /// The problems of the route: a missing or relative path, missing or
    /// unknown methods, a missing root, a missing default page, a bad
    /// redirect, a missing session redirect, bad CGI settings.
    pub fn validate(&self, facts: &PathFacts) -> (r: Vec<ConfigError>)
        ensures
            errs(r@) == spec_route_errors(*self, *facts),
    {
        let mut errors: Vec<ConfigError> = Vec::new();
        let a = self.path_errors();
        append_errors(&mut errors, a);
        let b = self.methods_errors();
        append_errors(&mut errors, b);
        let c = self.root_errors(facts.root_exists);
        append_errors(&mut errors, c);
        let d = self.page_errors(facts.default_page_exists);
        append_errors(&mut errors, d);
        let e = self.redirect_errors();
        append_errors(&mut errors, e);
        let f = self.session_errors();
        append_errors(&mut errors, f);
        if let Some(cgi) = &self.cgi {
            let g = cgi.validate(facts.script_exists);
            append_errors(&mut errors, g);
        }
        assert(errs(errors@) =~= spec_route_errors(*self, *facts));
        errors
    }

    fn path_errors(&self) -> (r: Vec<ConfigError>)
        ensures
            errs(r@) == spec_route_path_errors(opt_text(self.path)),
    {
        let mut errors: Vec<ConfigError> = Vec::new();
        match &self.path {
            None => push_warning(&mut errors, owned("Route path is undefined")),
            Some(path) => {
                if path.as_str().is_empty() {
                    push_warning(&mut errors, owned("Route path is empty"));
                } else if !first_is(path.as_str(), '/') {
                    push_warning(
                        &mut errors,
                        join3("Route path '", path.as_str(), "' must start with '/'"),
                    );
                }
            },
        }
        assert(errs(errors@) =~= spec_route_path_errors(opt_text(self.path)));
        errors
    }

    fn methods_errors(&self) -> (r: Vec<ConfigError>)
        ensures
            errs(r@) == spec_route_methods_errors(opt_texts(self.methods)),
    {
        let mut errors: Vec<ConfigError> = Vec::new();
        match &self.methods {
            None => push_warning(&mut errors, owned("Route methods is undefined")),
            Some(methods) => {
                if methods.len() == 0 {
                    push_warning(&mut errors, owned("Route methods is empty"));
                } else {
                    let mut i: usize = 0;
                    while i < methods.len()
                        invariant
                            i <= methods@.len(),
                            errs(errors@) == spec_method_errors(texts(methods@).take(i as int)),
                        decreases methods@.len() - i,
                    {
                        let m = chars_of(methods[i].as_str());
                        let ghost before = errs(errors@);
                        if !(chars_is(&m, "GET") || chars_is(&m, "POST") || chars_is(&m, "DELETE")) {
                            push_warning(
                                &mut errors,
                                join3(
                                    "Invalid HTTP method '",
                                    methods[i].as_str(),
                                    "'. Allowed methods: [\"GET\", \"POST\", \"DELETE\"]",
                                ),
                            );
                        }
                        proof {
                            let t = texts(methods@).take(i + 1);
                            assert(t.drop_last() =~= texts(methods@).take(i as int));
                            assert(t.last() == methods@[i as int]@);
                            assert(errs(errors@) =~= spec_method_errors(t));
                        }
                        i = i + 1;
                    }
                    assert(texts(methods@).take(i as int) =~= texts(methods@));
                }
            },
        }
        assert(errs(errors@) =~= spec_route_methods_errors(opt_texts(self.methods)));
        errors
    }

    fn root_errors(&self, exists: bool) -> (r: Vec<ConfigError>)
        ensures
            errs(r@) == spec_route_root_errors(opt_text(self.root), exists),
    {
        let mut errors: Vec<ConfigError> = Vec::new();
        match &self.root {
            None => push_warning(&mut errors, owned("Route root is undefined")),
            Some(root) => {
                if root.as_str().is_empty() {
                    push_warning(&mut errors, owned("Route root is empty"));
                } else if !exists {
                    push_warning(
                        &mut errors,
                        join3("Route root directory '", root.as_str(), "' does not exist"),
                    );
                }
            },
        }
        assert(errs(errors@) =~= spec_route_root_errors(opt_text(self.root), exists));
        errors
    }

    fn page_errors(&self, exists: bool) -> (r: Vec<ConfigError>)
        ensures
            errs(r@) == spec_route_page_errors(opt_text(self.default_page), exists),
    {
        let mut errors: Vec<ConfigError> = Vec::new();
        if let Some(page) = &self.default_page {
            if !exists {
                push_warning(
                    &mut errors,
                    join3("Route default_page '", page.as_str(), "' does not exist"),
                );
            }
        }
        assert(errs(errors@) =~= spec_route_page_errors(opt_text(self.default_page), exists));
        errors
    }

    fn redirect_errors(&self) -> (r: Vec<ConfigError>)
        ensures
            errs(r@) == spec_route_redirect_errors(opt_text(self.redirect)),
    {
        let mut errors: Vec<ConfigError> = Vec::new();
        if let Some(redirect) = &self.redirect {
            let v = chars_of(redirect.as_str());
            if v.len() == 0 {
                push_warning(&mut errors, owned("Route redirect URL is empty"));
            } else if !first_is(redirect.as_str(), '/') && !crate::text::chars_begin(&v, "http") {
                push_warning(
                    &mut errors,
                    join3("Route redirect '", redirect.as_str(), "' must start with '/' or 'http'"),
                );
            }
        }
        proof {
            reveal_strlit("http");
        }
        assert(errs(errors@) =~= spec_route_redirect_errors(opt_text(self.redirect)));
        errors
    }

    fn session_errors(&self) -> (r: Vec<ConfigError>)
        ensures
            errs(r@) == spec_route_session_errors(
                self.session_required,
                opt_text(self.session_redirect),
            ),
    {
        let mut errors: Vec<ConfigError> = Vec::new();
        let required = match self.session_required {
            Some(b) => b,
            None => false,
        };
        if required {
            match &self.session_redirect {
                Some(redirect) => {
                    if redirect.as_str().is_empty() {
                        push_warning(
                            &mut errors,
                            owned("Session redirect URL is empty but session is required"),
                        );
                    }
                },
                None => push_warning(
                    &mut errors,
                    owned("Session redirect is required when session_required is true"),
                ),
            }
        }
        assert(errs(errors@) =~= spec_route_session_errors(
            self.session_required,
            opt_text(self.session_redirect),
        ));
        errors
    }
}

// ============= Sessions =============
/// The cookie options of sessions as configured.
#[derive(Debug, Clone)]
pub struct SessionOptionsConfig {
    pub http_only: Option<bool>,
    pub secure: Option<bool>,
    pub max_age: Option<u64>,
    pub path: Option<String>,
    pub expires: Option<u64>,
    pub domain: Option<String>,
    pub same_site: Option<String>,
}

/// The session settings of a host.
#[derive(Debug, Clone)]
pub struct SessionConfig {
    pub enabled: Option<bool>,
    pub name: Option<String>,
    pub options: Option<SessionOptionsConfig>,
}

pub open spec fn spec_session_options_errors(o: SessionOptionsConfig) -> Seq<ConfigErrorSpec> {
    (match opt_text(o.path) {
        Some(p) => if p.len() == 0 {
            seq![warn("Session path is empty"@)]
        } else if !starts_char(p, '/') {
            seq![warn("Session path '"@ + p + "' must start with '/'"@)]
        } else {
            Seq::empty()
        },
        None => Seq::empty(),
    }) + (match opt_text(o.domain) {
        Some(d) => one_if(d.len() == 0, warn("Session domain is empty"@)),
        None => Seq::empty(),
    }) + (match opt_text(o.same_site) {
        Some(s) => {
            let l = unicode_lower(s);
            one_if(
                !(l == "strict"@ || l == "lax"@ || l == "none"@),
                warn(
                    "Invalid same_site value '"@ + s
                        + "'. Must be 'Strict', 'Lax', or 'None'"@,
                ),
            )
        },
        None => Seq::empty(),
    }) + (match o.max_age {
        Some(a) => one_if(a == 0, warn("Session max_age must be greater than 0"@)),
        None => Seq::empty(),
    }) + (match o.expires {
        Some(e) => one_if(e == 0, warn("Session expires must be greater than 0"@)),
        None => Seq::empty(),
    })
}

impl SessionOptionsConfig {
    /// The problems of the options: a relative or empty path, an empty
    /// domain, an unknown `same_site`, a zero `max_age` or `expires`.
    pub fn validate(&self) -> (r: Vec<ConfigError>)
        ensures
            errs(r@) == spec_session_options_errors(*self),
    {
        let mut errors: Vec<ConfigError> = Vec::new();
        if let Some(path) = &self.path {
            if path.as_str().is_empty() {
                push_warning(&mut errors, owned("Session path is empty"));
            } else if !first_is(path.as_str(), '/') {
                push_warning(&mut errors, join3("Session path '", path.as_str(), "' must start with '/'"));
            }
        }
        let ghost a = errs(errors@);
        if let Some(domain) = &self.domain {
            if domain.as_str().is_empty() {
                push_warning(&mut errors, owned("Session domain is empty"));
            }
        }
        let ghost b = errs(errors@);
        if let Some(same_site) = &self.same_site {
            let l = chars_of(to_lowercase(same_site.as_str()).as_str());
            if !(chars_is(&l, "strict") || chars_is(&l, "lax") || chars_is(&l, "none")) {
                push_warning(
                    &mut errors,
                    join3(
                        "Invalid same_site value '",
                        same_site.as_str(),
                        "'. Must be 'Strict', 'Lax', or 'None'",
                    ),
                );
            }
        }
        let ghost c = errs(errors@);
        if let Some(max_age) = self.max_age {
            if max_age == 0 {
                push_warning(&mut errors, owned("Session max_age must be greater than 0"));
            }
        }
        let ghost d = errs(errors@);
        if let Some(expires) = self.expires {
            if expires == 0 {
                push_warning(&mut errors, owned("Session expires must be greater than 0"));
            }
        }
        assert(errs(errors@) =~= spec_session_options_errors(*self));
        errors
    }
}

pub open spec fn spec_session_errors(c: SessionConfig) -> Seq<ConfigErrorSpec> {
    if c.enabled == Some(true) {
        (match opt_text(c.name) {
            Some(n) => if n.len() > 0 {
                Seq::empty()
            } else {
                seq![ConfigErrorSpec::Critical("Session cookie name is empty"@)]
            },
            None => seq![
                ConfigErrorSpec::Critical(
                    "Session cookie name is required when sessions are enabled"@,
                ),
            ],
        }) + match c.options {
            Some(o) => spec_session_options_errors(o),
            None => Seq::empty(),
        }
    } else {
        Seq::empty()
    }
}

impl SessionConfig {
    /// When sessions are enabled: a missing or empty cookie name is
    /// critical, then the problems of the options.
    pub fn validate(&self) -> (r: Vec<ConfigError>)
        ensures
            errs(r@) == spec_session_errors(*self),
    {
        let mut errors: Vec<ConfigError> = Vec::new();
        let enabled = match self.enabled {
            Some(b) => b,
            None => false,
        };
        if enabled {
            match &self.name {
                Some(name) => {
                    if name.as_str().is_empty() {
                        errors.push(ConfigError::Critical(owned("Session cookie name is empty")));
                    }
                },
                None => {
                    errors.push(
                        ConfigError::Critical(
                            owned("Session cookie name is required when sessions are enabled"),
                        ),
                    );
                },
            }
            let ghost a = errs(errors@);
            if let Some(options) = &self.options {
                let o = options.validate();
                append_errors(&mut errors, o);
            }
        }
        assert(errs(errors@) =~= spec_session_errors(*self));
        errors
    }
}

impl Default for SessionConfig {
    /// No setting given.
    fn default() -> (r: Self)
        ensures
            r.enabled is None,
            r.name is None,
            r.options is None,
    {
        SessionConfig { enabled: None, name: None, options: None }
    }
}


// ============= Hosts =============
/// A virtual host as configured.
#[derive(Debug)]
pub struct Host {
    pub server_address: Option<String>,
    pub ports: Option<Vec<String>>,
    pub server_name: Option<String>,
    pub routes: Option<Vec<Route>>,
    pub error_pages: Option<ErrorPages>,
    pub client_max_body_size: Option<String>,
    pub session: Option<SessionConfig>,
}

/// The view of the outcome of the essential checks.
pub open spec fn essential_view(r: Result<(), ConfigError>) -> Result<(), ConfigErrorSpec> {
    match r {
        Ok(()) => Ok(()),
        Err(e) => Err(e@),
    }
}

pub open spec fn critical(m: Seq<char>) -> ConfigErrorSpec {
    ConfigErrorSpec::Critical(m)
}

/// Whether each port text is a number that fits in 16 bits.
pub open spec fn all_ports_valid(ps: Seq<Seq<char>>) -> bool {
    forall|i: int| 0 <= i < ps.len() ==> parse_unsigned(#[trigger] ps[i], u16::MAX as nat) is Some
}

/// The essential checks of a host, in order: a server name, an address
/// that is an IP address (`address_is_ip` tells whether it parses as
/// one), and a non-empty list of valid ports.
pub open spec fn spec_essential(h: Host, address_is_ip: bool) -> Result<(), ConfigErrorSpec> {
    match opt_text(h.server_name) {
        None => Err(critical("Host server_name is undefined"@)),
        Some(n) => if n.len() == 0 {
            Err(critical("Host server_name is empty"@))
        } else {
            match h.server_address {
                None => Err(critical("Host server_address is undefined"@)),
                Some(_) => if !address_is_ip {
                    Err(critical("Host server_address is invalid: invalid IP address syntax"@))
                } else {
                    match opt_texts(h.ports) {
                        None => Err(critical("Host ports is undefined"@)),
                        Some(ps) => if ps.len() == 0 {
                            Err(critical("Host ports is empty"@))
                        } else if !all_ports_valid(ps) {
                            Err(critical("Host ports contains invalid port"@))
                        } else {
                            Ok(())
                        },
                    }
                },
            }
        },
    }
}

/// The value of a port text, if it is one.
pub open spec fn port_value(p: Seq<char>) -> Option<nat> {
    parse_unsigned(p, u16::MAX as nat)
}

/// Whether one of the port texts has the value `v`.
pub open spec fn port_seen(ps: Seq<Seq<char>>, v: nat) -> bool {
    exists|j: int| 0 <= j < ps.len() && port_value(#[trigger] ps[j]) == Some(v)
}

/// One warning for each port whose value an earlier port already has.
pub open spec fn spec_duplicate_ports(ps: Seq<Seq<char>>) -> Seq<ConfigErrorSpec>
    decreases ps.len(),
{
    if ps.len() == 0 {
        Seq::empty()
    } else {
        spec_duplicate_ports(ps.drop_last()) + one_if(
            port_value(ps.last()) matches Some(v) && port_seen(ps.drop_last(), v),
            warn("Host ports contains duplicate port"@),
        )
    }
}

/// The problems of the routes, each with what the file system says of
/// its paths.
pub open spec fn spec_routes_errors(rs: Seq<Route>, fs: Seq<PathFacts>) -> Seq<ConfigErrorSpec>
    decreases rs.len(),
{
    if rs.len() == 0 {
        Seq::empty()
    } else {
        spec_routes_errors(rs.drop_last(), fs) + spec_route_errors(
            rs.last(),
            fs[rs.len() - 1],
        )
    }
}

/// The warnings of a host, in order: duplicate ports, a body size limit
/// not in `k` or `m`, the session settings, the routes (or their
/// absence), the error pages.
pub open spec fn spec_host_warnings(h: Host, fs: Seq<PathFacts>) -> Seq<ConfigErrorSpec> {
    (match opt_texts(h.ports) {
        Some(ps) => spec_duplicate_ports(ps),
        None => Seq::empty(),
    }) + (match opt_text(h.client_max_body_size) {
        Some(s) => one_if(
            !has_suffix(s, "k"@) && !has_suffix(s, "m"@),
            warn("Host client_max_body_size is not in k or m"@),
        ),
        None => Seq::empty(),
    }) + (match h.session {
        Some(c) => spec_session_errors(c),
        None => Seq::empty(),
    }) + (match h.routes {
        Some(rs) => spec_routes_errors(rs@, fs),
        None => seq![warn("Host routes is undefined"@)],
    }) + (match h.error_pages {
        Some(p) => spec_pages_errors(p.custom_pages@),
        None => Seq::empty(),
    })
}

/// The number of routes of a host.
pub open spec fn route_count(h: Host) -> nat {
    match h.routes {
        Some(rs) => rs@.len(),
        None => 0,
    }
}

impl Host {
    /// The checks without which the host cannot run: a non-empty server
    /// name, an IP address (`address_is_ip` tells whether the configured
    /// address parses as one), and at least one port, all of them valid.
    /// The first that fails is returned.
    pub fn is_valid_essential_config(&self, address_is_ip: bool) -> (r: Result<(), ConfigError>)
        ensures
            essential_view(r) == spec_essential(*self, address_is_ip),
    {
        match &self.server_name {
            Some(name) => {
                if name.as_str().is_empty() {
                    return Err(ConfigError::Critical(owned("Host server_name is empty")));
                }
            },
            None => {
                return Err(ConfigError::Critical(owned("Host server_name is undefined")));
            },
        }
        match &self.server_address {
            Some(_) => {
                if !address_is_ip {
                    return Err(
                        ConfigError::Critical(
                            owned("Host server_address is invalid: invalid IP address syntax"),
                        ),
                    );
                }
            },
            None => {
                return Err(ConfigError::Critical(owned("Host server_address is undefined")));
            },
        }
        match &self.ports {
            Some(ports) => {
                if ports.len() == 0 {
                    return Err(ConfigError::Critical(owned("Host ports is empty")));
                }
                if !ports_valid(ports) {
                    return Err(ConfigError::Critical(owned("Host ports contains invalid port")));
                }
            },
            None => {
                return Err(ConfigError::Critical(owned("Host ports is undefined")));
            },
        }
        Ok(())
    }

    /// The warnings of the host (the session settings may add critical
    /// problems). `route_facts` holds what the file system says of the
    /// paths of each route, in the order of the routes.
    pub fn collect_warnings(&self, route_facts: &Vec<PathFacts>) -> (r: Vec<ConfigError>)
        requires
            route_facts@.len() == route_count(*self),
        ensures
            errs(r@) == spec_host_warnings(*self, route_facts@),
    {
        let mut warnings: Vec<ConfigError> = Vec::new();
        if let Some(ports) = &self.ports {
            let d = duplicate_port_warnings(ports);
            append_errors(&mut warnings, d);
        }
        let ghost a = errs(warnings@);
        if let Some(size) = &self.client_max_body_size {
            let v = chars_of(size.as_str());
            let k = chars_of("k");
            let m = chars_of("m");
            if !ends_with(&v, &k) && !ends_with(&v, &m) {
                push_warning(&mut warnings, owned("Host client_max_body_size is not in k or m"));
            }
        }
        let ghost b = errs(warnings@);
        if let Some(session) = &self.session {
            let e = session.validate();
            append_errors(&mut warnings, e);
        }
        let ghost c = errs(warnings@);
        match &self.routes {
            Some(routes) => {
                let e = routes_warnings(routes, route_facts);
                append_errors(&mut warnings, e);
            },
            None => push_warning(&mut warnings, owned("Host routes is undefined")),
        }
        let ghost d = errs(warnings@);
        if let Some(pages) = &self.error_pages {
            let e = pages.validate();
            append_errors(&mut warnings, e);
        }
        assert(errs(warnings@) =~= spec_host_warnings(*self, route_facts@));
        warnings
    }
}

/// Whether every port text is a number that fits in 16 bits.
fn ports_valid(ports: &Vec<String>) -> (r: bool)
    ensures
        r == all_ports_valid(texts(ports@)),
{
    let mut i: usize = 0;
    while i < ports.len()
        invariant
            i <= ports@.len(),
            forall|j: int|
                0 <= j < i ==> parse_unsigned(#[trigger] texts(ports@)[j], u16::MAX as nat) is Some,
        decreases ports@.len() - i,
    {
        let p = chars_of(ports[i].as_str());
        assert(texts(ports@)[i as int] == ports@[i as int]@);
        if parse_unsigned_chars(&p, 65535).is_none() {
            return false;
        }
        i = i + 1;
    }
    true
}

/// Whether `v` holds the value `x`.
fn holds_value(v: &Vec<u64>, x: u64) -> (r: bool)
    ensures
        r == v@.contains(x),
{
    let mut i: usize = 0;
    while i < v.len()
        invariant
            i <= v@.len(),
            forall|j: int| 0 <= j < i ==> v@[j] != x,
        decreases v@.len() - i,
    {
        if v[i] == x {
            return true;
        }
        i = i + 1;
    }
    false
}

/// Adding one port text to the list: a value is seen in the longer list
/// exactly when it is seen in the shorter one or is the new port's value.
proof fn lemma_port_seen_push(ps: Seq<Seq<char>>, p: Seq<char>, v: nat)
    ensures
        port_seen(ps.push(p), v) <==> (port_seen(ps, v) || port_value(p) == Some(v)),
{
    let t = ps.push(p);
    if port_seen(t, v) {
        let j = choose|j: int| 0 <= j < t.len() && port_value(#[trigger] t[j]) == Some(v);
        if j < ps.len() {
            assert(t[j] == ps[j]);
        }
    }
    if port_seen(ps, v) {
        let j = choose|j: int| 0 <= j < ps.len() && port_value(#[trigger] ps[j]) == Some(v);
        assert(t[j] == ps[j]);
    }
    if port_value(p) == Some(v) {
        assert(t[ps.len() as int] == p);
    }
}

fn duplicate_port_warnings(ports: &Vec<String>) -> (r: Vec<ConfigError>)
    ensures
        errs(r@) == spec_duplicate_ports(texts(ports@)),
{
    let mut warnings: Vec<ConfigError> = Vec::new();
    let mut seen: Vec<u64> = Vec::new();
    let mut i: usize = 0;
    while i < ports.len()
        invariant
            i <= ports@.len(),
            errs(warnings@) == spec_duplicate_ports(texts(ports@).take(i as int)),
            forall|v: u64| #[trigger]
                seen@.contains(v) <==> port_seen(texts(ports@).take(i as int), v as nat),
        decreases ports@.len() - i,
    {
        let ghost pre = texts(ports@).take(i as int);
        let ghost t = texts(ports@).take(i + 1);
        let ghost before = errs(warnings@);
        let ghost s0 = seen@;
        proof {
            assert(t =~= pre.push(ports@[i as int]@));
        }
        let p = chars_of(ports[i].as_str());
        match parse_unsigned_chars(&p, 65535) {
            Some(n) => {
                if holds_value(&seen, n) {
                    push_warning(&mut warnings, owned("Host ports contains duplicate port"));
                } else {
                    seen.push(n);
                }
                assert forall|v: u64| #[trigger]
                    seen@.contains(v) <==> port_seen(t, v as nat) by {
                    lemma_port_seen_push(pre, ports@[i as int]@, v as nat);
                    if v == n && seen@ != s0 {
                        assert(seen@[s0.len() as int] == n);
                    }
                    if seen@ != s0 && seen@.contains(v) && v != n {
                        let k = choose|k: int| 0 <= k < seen@.len() && seen@[k] == v;
                        assert(s0[k] == v);
                    }
                    if seen@ != s0 && s0.contains(v) {
                        let k = choose|k: int| 0 <= k < s0.len() && s0[k] == v;
                        assert(seen@[k] == v);
                    }
                };
                proof {
                    assert(port_seen(pre, n as nat) == s0.contains(n));
                }
            },
            None => {
                assert forall|v: u64| #[trigger]
                    seen@.contains(v) <==> port_seen(t, v as nat) by {
                    lemma_port_seen_push(pre, ports@[i as int]@, v as nat);
                };
            },
        }
        assert(t.drop_last() =~= pre);
        assert(errs(warnings@) =~= spec_duplicate_ports(t));
        i = i + 1;
    }
    assert(texts(ports@).take(i as int) =~= texts(ports@));
    warnings
}

fn routes_warnings(routes: &Vec<Route>, facts: &Vec<PathFacts>) -> (r: Vec<ConfigError>)
    requires
        facts@.len() == routes@.len(),
    ensures
        errs(r@) == spec_routes_errors(routes@, facts@),
{
    let mut warnings: Vec<ConfigError> = Vec::new();
    let mut i: usize = 0;
    while i < routes.len()
        invariant
            i <= routes@.len(),
            facts@.len() == routes@.len(),
            errs(warnings@) == spec_routes_errors(routes@.take(i as int), facts@),
        decreases routes@.len() - i,
    {
        let e = routes[i].validate(&facts[i]);
        let ghost before = errs(warnings@);
        append_errors(&mut warnings, e);
        proof {
            let t = routes@.take(i + 1);
            assert(t.drop_last() =~= routes@.take(i as int));
        }
        i = i + 1;
    }
    assert(routes@.take(i as int) =~= routes@);
    warnings
}


// ============= The whole configuration =============
/// The configuration file: the hosts, and problems found while reading it.
#[derive(Debug)]
pub struct ServerConfig {
    pub servers: Vec<Host>,
    pub validation_errors: Vec<String>,
}

/// What the program learned about a host outside its configuration:
/// whether its address parses as an IP address, and what the file system
/// says of the paths of each of its routes.
#[derive(Debug)]
pub struct HostFacts {
    pub address_is_ip: bool,
    pub routes: Vec<PathFacts>,
}

/// The module name under which the problems of a host are logged.
pub open spec fn host_module(h: Host) -> Seq<char> {
    "CONFIG - "@ + match opt_text(h.server_name) {
        Some(n) => n,
        None => Seq::empty(),
    }
}

/// The log lines of one problem: critical ones as errors, warnings only
/// when they are asked for.
pub open spec fn problem_lines(e: ConfigErrorSpec, module: Seq<char>, with_warn: bool) -> Seq<(LogLevel, Seq<char>, Seq<char>)> {
    match e {
        ConfigErrorSpec::Critical(m) => seq![(LogLevel::ERROR, m, module)],
        ConfigErrorSpec::Warning(m) => if with_warn {
            seq![(LogLevel::WARN, m, module)]
        } else {
            Seq::empty()
        },
    }
}

/// The log lines of a list of problems, in order.
pub open spec fn problems_lines(es: Seq<ConfigErrorSpec>, module: Seq<char>, with_warn: bool) -> Seq<(LogLevel, Seq<char>, Seq<char>)>
    decreases es.len(),
{
    if es.len() == 0 {
        Seq::empty()
    } else {
        problems_lines(es.drop_last(), module, with_warn) + problem_lines(es.last(), module, with_warn)
    }
}

/// Whether one of the hosts marked kept has the server name `n`.
pub open spec fn name_taken(hs: Seq<Host>, ks: Seq<bool>, n: Option<String>) -> bool {
    exists|j: int| 0 <= j < hs.len() && #[trigger] ks[j] && opt_text(hs[j].server_name) == opt_text(n)
}

/// Which hosts are kept: those that pass the essential checks and whose
/// server name no earlier kept host has.
pub open spec fn spec_keep(hs: Seq<Host>, fs: Seq<HostFacts>) -> Seq<bool>
    decreases hs.len(),
{
    if hs.len() == 0 {
        Seq::empty()
    } else {
        let k = spec_keep(hs.drop_last(), fs);
        k.push(
            spec_essential(hs.last(), fs[hs.len() - 1].address_is_ip) is Ok && !name_taken(
                hs.drop_last(),
                k,
                hs.last().server_name,
            ),
        )
    }
}

/// One decision per host.
pub proof fn lemma_keep_len(hs: Seq<Host>, fs: Seq<HostFacts>)
    ensures
        spec_keep(hs, fs).len() == hs.len(),
    decreases hs.len(),
{
    if hs.len() > 0 {
        lemma_keep_len(hs.drop_last(), fs);
    }
}

/// The hosts kept from a configuration pass the essential checks, no two
/// of them have the same server name, and a host that passes the checks is
/// dropped only for an earlier kept host of the same name.
pub proof fn law_kept_hosts(hs: Seq<Host>, fs: Seq<HostFacts>)
    requires
        fs.len() >= hs.len(),
    ensures
        spec_keep(hs, fs).len() == hs.len(),
        forall|i: int|
            0 <= i < hs.len() && #[trigger] spec_keep(hs, fs)[i] ==> spec_essential(hs[i], fs[i].address_is_ip) is Ok,
        forall|i: int, j: int|
            0 <= i < j < hs.len() && #[trigger] spec_keep(hs, fs)[i] && #[trigger] spec_keep(hs, fs)[j]
                ==> opt_text(hs[i].server_name) != opt_text(hs[j].server_name),
        forall|i: int|
            0 <= i < hs.len() && spec_essential(hs[i], fs[i].address_is_ip) is Ok && !#[trigger] spec_keep(hs, fs)[i]
                ==> exists|j: int| 0 <= j < i && spec_keep(hs, fs)[j] && opt_text(hs[j].server_name) == opt_text(hs[i].server_name),
    decreases hs.len(),
{
    lemma_keep_len(hs, fs);
    if hs.len() > 0 {
        let pre = hs.drop_last();
        let k = spec_keep(pre, fs);
        law_kept_hosts(pre, fs);
        let n = hs.len() - 1;
        let ks = spec_keep(hs, fs);
        assert(ks == k.push(
            spec_essential(hs.last(), fs[n].address_is_ip) is Ok && !name_taken(pre, k, hs.last().server_name),
        ));
        assert forall|i: int| 0 <= i < hs.len() && #[trigger] ks[i] implies spec_essential(hs[i], fs[i].address_is_ip) is Ok by {
            if i < n {
                assert(ks[i] == k[i]);
                assert(hs[i] == pre[i]);
            }
        }
        assert forall|i: int, j: int|
            0 <= i < j < hs.len() && #[trigger] ks[i] && #[trigger] ks[j] implies opt_text(hs[i].server_name)
                != opt_text(hs[j].server_name) by {
            assert(ks[i] == k[i]);
            assert(hs[i] == pre[i]);
            if j < n {
                assert(ks[j] == k[j]);
                assert(hs[j] == pre[j]);
            } else {
                assert(!name_taken(pre, k, hs.last().server_name));
                assert(k[i] && opt_text(pre[i].server_name) == opt_text(hs.last().server_name) ==> name_taken(pre, k, hs.last().server_name));
            }
        }
        assert forall|i: int|
            0 <= i < hs.len() && spec_essential(hs[i], fs[i].address_is_ip) is Ok && !#[trigger] ks[i]
                implies exists|j: int| 0 <= j < i && ks[j] && opt_text(hs[j].server_name) == opt_text(hs[i].server_name) by {
            if i < n {
                assert(ks[i] == k[i]);
                assert(hs[i] == pre[i]);
                let j = choose|j: int| 0 <= j < i && k[j] && opt_text(pre[j].server_name) == opt_text(pre[i].server_name);
                assert(ks[j] == k[j]);
                assert(hs[j] == pre[j]);
            } else {
                assert(name_taken(pre, k, hs.last().server_name));
                let j = choose|j: int| 0 <= j < pre.len() && #[trigger] k[j] && opt_text(pre[j].server_name) == opt_text(hs.last().server_name);
                assert(ks[j] == k[j]);
                assert(hs[j] == pre[j]);
            }
        }
    }
}

/// The log lines of one host: its essential problem, if it has one;
/// nothing when an earlier host took its name; else its warnings.
pub open spec fn host_lines(h: Host, f: HostFacts, taken: bool, with_warn: bool) -> Seq<(LogLevel, Seq<char>, Seq<char>)> {
    match spec_essential(h, f.address_is_ip) {
        Err(e) => problem_lines(e, host_module(h), with_warn),
        Ok(()) => if taken {
            Seq::empty()
        } else {
            problems_lines(spec_host_warnings(h, f.routes@), host_module(h), with_warn)
        },
    }
}

/// The log lines of all the hosts, in order.
pub open spec fn hosts_lines(hs: Seq<Host>, fs: Seq<HostFacts>, with_warn: bool) -> Seq<(LogLevel, Seq<char>, Seq<char>)>
    decreases hs.len(),
{
    if hs.len() == 0 {
        Seq::empty()
    } else {
        let pre = hs.drop_last();
        hosts_lines(pre, fs, with_warn) + host_lines(
            hs.last(),
            fs[hs.len() - 1],
            name_taken(pre, spec_keep(pre, fs), hs.last().server_name),
            with_warn,
        )
    }
}

/// The hosts marked kept, in order.
pub open spec fn kept_hosts(hs: Seq<Host>, ks: Seq<bool>) -> Seq<Host>
    decreases hs.len(),
{
    if hs.len() == 0 {
        Seq::empty()
    } else {
        let rest = kept_hosts(hs.drop_last(), ks);
        if ks[hs.len() - 1] {
            rest.push(hs.last())
        } else {
            rest
        }
    }
}

/// The error lines of the reading problems.
pub open spec fn reading_lines(v: Seq<Seq<char>>) -> Seq<(LogLevel, Seq<char>, Seq<char>)> {
    v.map_values(|m: Seq<char>| (LogLevel::ERROR, m, "CONFIG"@))
}

/// Whether the facts fit the hosts: one for each host, with one entry
/// for each of its routes.
pub open spec fn facts_fit(hs: Seq<Host>, fs: Seq<HostFacts>) -> bool {
    &&& fs.len() == hs.len()
    &&& forall|i: int| 0 <= i < hs.len() ==> (#[trigger] fs[i]).routes@.len() == route_count(hs[i])
}

impl ServerConfig {
    /// Keeps the hosts that pass the essential checks, the first of each
    /// server name, and logs the problems of each host (warnings only when
    /// `with_warn`). With no host left, or with reading problems, the
    /// configuration is refused. `facts` holds, for each host, what the
    /// program learned outside of it. Returns the outcome and the lines to
    /// log.
    pub fn retain_valid_hosts(self, with_warn: bool, facts: &Vec<HostFacts>) -> (r: (Result<ServerConfig, ConfigError>, Vec<LogRecord>))
        requires
            facts_fit(self.servers@, facts@),
        ensures
            ({
                let kept = kept_hosts(self.servers@, spec_keep(self.servers@, facts@));
                let base = hosts_lines(self.servers@, facts@, with_warn);
                if kept.len() == 0 {
                    &&& r.0 matches Err(e) && e@ == critical("No valid server configuration found"@)
                    &&& lines(r.1@) == base.push(
                        (LogLevel::ERROR, "No valid server configuration found"@, "CONFIG"@),
                    )
                } else if self.validation_errors@.len() > 0 {
                    &&& r.0 matches Err(e) && e@ == critical("Invalid configuration"@)
                    &&& lines(r.1@) == base + reading_lines(texts(self.validation_errors@))
                } else {
                    &&& r.0 matches Ok(c) && c.servers@ == kept && c.validation_errors@
                        == self.validation_errors@
                    &&& lines(r.1@) == base
                }
            }),
    {
        let ghost hs = self.servers@;
        let (keep, mut logs) = host_decisions(&self.servers, with_warn, facts);
        let ServerConfig { servers, validation_errors } = self;
        let kept = take_kept(servers, &keep);
        if kept.len() == 0 {
            let ghost l0 = lines(logs@);
            logs.push(
                LogRecord {
                    level: LogLevel::ERROR,
                    message: owned("No valid server configuration found"),
                    module: owned("CONFIG"),
                },
            );
            assert(lines(logs@) =~= l0.push(
                (LogLevel::ERROR, "No valid server configuration found"@, "CONFIG"@),
            ));
            return (Err(ConfigError::Critical(owned("No valid server configuration found"))), logs);
        }
        if validation_errors.len() > 0 {
            let ghost l0 = lines(logs@);
            let mut i: usize = 0;
            while i < validation_errors.len()
                invariant
                    i <= validation_errors@.len(),
                    lines(logs@) == l0 + reading_lines(texts(validation_errors@).take(i as int)),
                decreases validation_errors@.len() - i,
            {
                let ghost before = lines(logs@);
                logs.push(
                    LogRecord {
                        level: LogLevel::ERROR,
                        message: owned(validation_errors[i].as_str()),
                        module: owned("CONFIG"),
                    },
                );
                assert(lines(logs@) =~= before.push(
                    (LogLevel::ERROR, validation_errors@[i as int]@, "CONFIG"@),
                ));
                assert(reading_lines(texts(validation_errors@).take(i + 1)) =~= reading_lines(
                    texts(validation_errors@).take(i as int),
                ).push((LogLevel::ERROR, validation_errors@[i as int]@, "CONFIG"@)));
                i = i + 1;
            }
            assert(texts(validation_errors@).take(i as int) =~= texts(validation_errors@));
            return (Err(ConfigError::Critical(owned("Invalid configuration"))), logs);
        }
        (Ok(ServerConfig { servers: kept, validation_errors }), logs)
    }
}

/// Whether an earlier kept host has the server name `name`.
fn name_is_taken(hs: &Vec<Host>, keep: &Vec<bool>, name: &Option<String>) -> (r: bool)
    requires
        keep@.len() <= hs@.len(),
    ensures
        r == name_taken(hs@.take(keep@.len() as int), keep@, *name),
{
    let ghost pre = hs@.take(keep@.len() as int);
    let mut j: usize = 0;
    while j < keep.len()
        invariant
            j <= keep@.len(),
            keep@.len() <= hs@.len(),
            pre == hs@.take(keep@.len() as int),
            forall|k: int|
                0 <= k < j ==> !(#[trigger] keep@[k] && opt_text(pre[k].server_name) == opt_text(
                    *name,
                )),
        decreases keep@.len() - j,
    {
        if keep[j] {
            let same = match (&hs[j].server_name, name) {
                (Some(a), Some(b)) => crate::text::str_eq(a.as_str(), b.as_str()),
                (None, None) => true,
                _ => false,
            };
            assert(pre[j as int] == hs@[j as int]);
            if same {
                return true;
            }
        }
        j = j + 1;
    }
    false
}

/// For each host, whether it is kept, and the lines it logs.
fn host_decisions(hs: &Vec<Host>, with_warn: bool, facts: &Vec<HostFacts>) -> (r: (Vec<bool>, Vec<LogRecord>))
    requires
        facts_fit(hs@, facts@),
    ensures
        r.0@ == spec_keep(hs@, facts@),
        r.0@.len() == hs@.len(),
        lines(r.1@) == hosts_lines(hs@, facts@, with_warn),
{
    let mut keep: Vec<bool> = Vec::new();
    let mut logs: Vec<LogRecord> = Vec::new();
    let mut i: usize = 0;
    while i < hs.len()
        invariant
            i <= hs@.len(),
            facts_fit(hs@, facts@),
            keep@ == spec_keep(hs@.take(i as int), facts@),
            lines(logs@) == hosts_lines(hs@.take(i as int), facts@, with_warn),
        decreases hs@.len() - i,
    {
        let h = &hs[i];
        let ghost pre = hs@.take(i as int);
        let ghost t = hs@.take(i + 1);
        proof {
            lemma_keep_len(pre, facts@);
            assert(t.drop_last() =~= pre);
            assert(t.last() == hs@[i as int]);
        }
        let taken = name_is_taken(hs, &keep, &h.server_name);
        let ghost before = lines(logs@);
        match h.is_valid_essential_config(facts[i].address_is_ip) {
            Ok(()) => {
                if !taken {
                    let warnings = h.collect_warnings(&facts[i].routes);
                    log_problems(&mut logs, warnings, h, with_warn);
                }
                keep.push(!taken);
            },
            Err(e) => {
                log_problems(&mut logs, vec![e], h, with_warn);
                keep.push(false);
                proof {
                    reveal_with_fuel(problems_lines, 2);
                }
            },
        }
        assert(keep@ =~= spec_keep(t, facts@));
        assert(lines(logs@) =~= hosts_lines(t, facts@, with_warn));
        i = i + 1;
    }
    assert(hs@.take(i as int) =~= hs@);
    proof {
        lemma_keep_len(hs@, facts@);
    }
    (keep, logs)
}

/// Appends the log lines of a list of problems of host `h`.
fn log_problems(logs: &mut Vec<LogRecord>, es: Vec<ConfigError>, h: &Host, with_warn: bool)
    ensures
        lines(final(logs)@) == lines(old(logs)@) + problems_lines(errs(es@), host_module(*h), with_warn),
{
    let mut module = chars_of("CONFIG - ");
    if let Some(n) = &h.server_name {
        push_str(&mut module, n.as_str());
    }
    assert(module@ =~= host_module(*h));
    let ghost l0 = lines(logs@);
    let mut i: usize = 0;
    while i < es.len()
        invariant
            i <= es@.len(),
            module@ == host_module(*h),
            lines(logs@) == l0 + problems_lines(errs(es@).take(i as int), host_module(*h), with_warn),
        decreases es@.len() - i,
    {
        let ghost before = lines(logs@);
        match &es[i] {
            ConfigError::Critical(m) => {
                logs.push(
                    LogRecord { level: LogLevel::ERROR, message: owned(m.as_str()), module: string_of(&module) },
                );
            },
            ConfigError::Warning(m) => {
                if with_warn {
                    logs.push(
                        LogRecord { level: LogLevel::WARN, message: owned(m.as_str()), module: string_of(&module) },
                    );
                }
            },
        }
        proof {
            let t = errs(es@).take(i + 1);
            assert(t.drop_last() =~= errs(es@).take(i as int));
            assert(t.last() == es@[i as int]@);
            assert(lines(logs@) =~= before + problem_lines(t.last(), host_module(*h), with_warn));
        }
        i = i + 1;
    }
    assert(errs(es@).take(i as int) =~= errs(es@));
}

/// The hosts marked kept, moved out of the list in order.
fn take_kept(hs: Vec<Host>, keep: &Vec<bool>) -> (r: Vec<Host>)
    requires
        keep@.len() == hs@.len(),
    ensures
        r@ == kept_hosts(hs@, keep@),
{
    let ghost all = hs@;
    let n: usize = hs.len();
    assert(all.len() == n);
    let mut rest = hs;
    let mut out: Vec<Host> = Vec::new();
    let mut i: usize = 0;
    while rest.len() > 0
        invariant
            i <= all.len(),
            all.len() <= usize::MAX,
            keep@.len() == all.len(),
            rest@ == all.skip(i as int),
            out@ == kept_hosts(all.take(i as int), keep@),
        decreases rest@.len(),
    {
        let h = rest.remove(0);
        proof {
            assert(h == all[i as int]);
            let t = all.take(i + 1);
            assert(t.drop_last() =~= all.take(i as int));
            assert(rest@ =~= all.skip(i + 1));
        }
        if keep[i] {
            out.push(h);
        }
        i = i + 1;
    }
    assert(all.take(i as int) =~= all);
    out
}

} // verus!
