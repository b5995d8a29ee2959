//! Routes of a host and how a request path is matched against them.
use vstd::prelude::*;
use crate::http::request::HttpMethod;
use crate::map::{StrMap, map_insert};
use crate::server::cgi::CGIConfig;
use crate::server::static_files::ServerStaticFiles;
use crate::text::{
    chars_of, owned, string_of, split, split_on, views, find_char, find, slice_chars, chars_eq,
    joined_path, join_path, trim_char_start, trim_start_matching, lemma_split_whole, lemma_split_last,
};

verus! {

/// How a route recognises request paths.
#[derive(Debug)]
pub enum RouteMatcher {
    /// The path itself.
    Exact(String),
    /// Paths of the same segments, where a segment starting with `:`
    /// stands for any segment.
    Dynamic(Vec<String>),
    /// Paths of existing files under a directory.
    StaticFile(String),
}

/// A route of a host.
#[derive(Debug)]
pub struct Route {
    pub path: String,
    pub methods: Vec<HttpMethod>,
    pub static_files: Option<ServerStaticFiles>,
    pub cgi_config: Option<CGIConfig>,
    pub redirect: Option<String>,
    pub session_required: Option<bool>,
    pub session_redirect: Option<String>,
    pub matcher: Option<RouteMatcher>,
    pub params: StrMap<String>,
}

/// The non-empty pieces, in order.
pub open spec fn nonempty(ps: Seq<Seq<char>>) -> Seq<Seq<char>>
    decreases ps.len(),
{
    if ps.len() == 0 {
        Seq::empty()
    } else if ps.last().len() == 0 {
        nonempty(ps.drop_last())
    } else {
        nonempty(ps.drop_last()).push(ps.last())
    }
}

/// The segments of a path: the non-empty pieces between `/`.
pub open spec fn path_segments(p: Seq<char>) -> Seq<Seq<char>> {
    nonempty(split(p, '/'))
}

/// Whether a segment stands for a parameter.
pub open spec fn is_param(s: Seq<char>) -> bool {
    s.len() > 0 && s[0] == ':'
}

/// Whether the segments of a path fit the segments of a route.
pub open spec fn segments_fit(segs: Seq<Seq<char>>, ps: Seq<Seq<char>>) -> bool {
    &&& segs.len() == ps.len()
    &&& forall|i: int| 0 <= i < segs.len() ==> is_param(#[trigger] segs[i]) || segs[i] == ps[i]
}

/// The parameters a path gives: for each parameter segment of the route
/// that has a path segment at its place, its name (without `:`) mapped to
/// that segment; a later parameter of the same name wins.
pub open spec fn params_of(segs: Seq<Seq<char>>, ps: Seq<Seq<char>>) -> Seq<(Seq<char>, Seq<char>)>
    decreases segs.len(),
{
    if segs.len() == 0 {
        Seq::empty()
    } else {
        let m = params_of(segs.drop_last(), ps);
        let i = segs.len() - 1;
        if is_param(segs.last()) && i < ps.len() {
            map_insert(m, segs.last().skip(1), ps[i])
        } else {
            m
        }
    }
}

/// The matcher of a route path, as plain values: `None` for a static file
/// matcher.
pub open spec fn spec_from_path(path: Seq<char>) -> Result<Seq<Seq<char>>, Seq<char>> {
    if find_char(path, ':') is Some {
        Ok(path_segments(path))
    } else {
        Err(path)
    }
}

/// A route path with parameters fits itself piece by piece: the matcher
/// made from a path recognises that path.
pub proof fn law_route_fits_own_path(path: Seq<char>)
    ensures
        segments_fit(path_segments(path), path_segments(path)),
{
}

/// The path made of segments: each one after a `/`.
pub open spec fn joined_segments(vs: Seq<Seq<char>>) -> Seq<char>
    decreases vs.len(),
{
    if vs.len() == 0 {
        Seq::empty()
    } else {
        joined_segments(vs.drop_last()) + seq!['/'] + vs.last()
    }
}

/// Segments that are not empty and hold no `/`.
pub open spec fn plain_segments(vs: Seq<Seq<char>>) -> bool {
    &&& forall|i: int, j: int| 0 <= i < vs.len() && 0 <= j < vs[i].len() ==> #[trigger] vs[i][j] != '/'
    &&& forall|i: int| 0 <= i < vs.len() ==> (#[trigger] vs[i]).len() > 0
}

proof fn lemma_split_joined(vs: Seq<Seq<char>>)
    requires
        plain_segments(vs),
    ensures
        split(joined_segments(vs), '/') == seq![Seq::<char>::empty()] + vs,
        path_segments(joined_segments(vs)) == vs,
    decreases vs.len(),
{
    if vs.len() == 0 {
        lemma_split_whole(Seq::<char>::empty(), '/');
        assert(seq![Seq::<char>::empty()] + vs =~= seq![Seq::<char>::empty()]);
        assert(seq![Seq::<char>::empty()].drop_last() =~= Seq::<Seq<char>>::empty());
        assert(nonempty(seq![Seq::<char>::empty()]) == nonempty(Seq::<Seq<char>>::empty()));
        assert(vs =~= Seq::<Seq<char>>::empty());
    } else {
        let pre = vs.drop_last();
        assert(plain_segments(pre)) by {
            assert forall|i: int, j: int| 0 <= i < pre.len() && 0 <= j < pre[i].len() implies #[trigger] pre[i][j]
                != '/' by {
                assert(pre[i] == vs[i]);
            }
            assert forall|i: int| 0 <= i < pre.len() implies (#[trigger] pre[i]).len() > 0 by {
                assert(pre[i] == vs[i]);
            }
        }
        lemma_split_joined(pre);
        let last = vs.last();
        assert(forall|j: int| 0 <= j < last.len() ==> last[j] == vs[vs.len() - 1][j]);
        lemma_split_last(joined_segments(pre), last, '/');
        let ps = seq![Seq::<char>::empty()] + vs;
        assert(split(joined_segments(vs), '/') =~= ps);
        assert(ps.drop_last() =~= seq![Seq::<char>::empty()] + pre);
        assert(ps.last() == last);
        assert(vs[vs.len() - 1].len() > 0);
        assert(nonempty(ps.drop_last()) == pre);
        assert(nonempty(ps) == nonempty(ps.drop_last()).push(last));
        assert(pre.push(last) =~= vs);
        assert(path_segments(joined_segments(vs)) == nonempty(ps));
    }
}

/// A path made by putting a value in place of each parameter segment of a
/// route (values not empty and free of `/`; the other segments as the
/// route has them) reads back as those segments, fits the route, and gives
/// each parameter name its value.
pub proof fn law_route_path_with_values(rs: Seq<Seq<char>>, vs: Seq<Seq<char>>)
    requires
        rs.len() == vs.len(),
        plain_segments(vs),
        forall|i: int| 0 <= i < rs.len() && !is_param(#[trigger] rs[i]) ==> rs[i] == vs[i],
    ensures
        path_segments(joined_segments(vs)) == vs,
        segments_fit(rs, path_segments(joined_segments(vs))),
        params_of(rs, path_segments(joined_segments(vs))) == params_of(rs, vs),
{
    lemma_split_joined(vs);
}

/// The segments of a path.
fn segments_of(p: &[char]) -> (r: Vec<Vec<char>>)
    ensures
        views(r@) == path_segments(p@),
{
    let pieces = split_on(p, '/');
    let mut r: Vec<Vec<char>> = Vec::new();
    let mut i: usize = 0;
    while i < pieces.len()
        invariant
            i <= pieces@.len(),
            views(r@) == nonempty(views(pieces@).take(i as int)),
        decreases pieces@.len() - i,
    {
        let ghost before = views(r@);
        proof {
            let t = views(pieces@).take(i + 1);
            assert(t.drop_last() =~= views(pieces@).take(i as int));
            assert(t.last() == pieces@[i as int]@);
        }
        if pieces[i].len() > 0 {
            r.push(slice_chars(&pieces[i], 0, pieces[i].len()));
            proof {
                assert(pieces@[i as int]@.subrange(0, pieces@[i as int]@.len() as int) =~= pieces@[i as int]@);
                assert(views(r@) =~= before.push(pieces@[i as int]@));
            }
        }
        i = i + 1;
    }
    assert(views(pieces@).take(i as int) =~= views(pieces@));
    r
}

/// The strings of a list of character vectors.
fn strings_of(v: &Vec<Vec<char>>) -> (r: Vec<String>)
    ensures
        r@.len() == v@.len(),
        forall|i: int| 0 <= i < v@.len() ==> (#[trigger] r@[i])@ == v@[i]@,
{
    let mut r: Vec<String> = Vec::new();
    let mut i: usize = 0;
    while i < v.len()
        invariant
            i <= v@.len(),
            r@.len() == i,
            forall|j: int| 0 <= j < i ==> (#[trigger] r@[j])@ == v@[j]@,
        decreases v@.len() - i,
    {
        r.push(string_of(&v[i]));
        i = i + 1;
    }
    r
}

/// The texts of a list of strings.
pub open spec fn texts_of(v: Seq<String>) -> Seq<Seq<char>> {
    v.map_values(|s: String| s@)
}

/// Whether the path segments `ps` fit the route segments `segs`.
fn segments_match(segs: &Vec<String>, ps: &Vec<Vec<char>>) -> (r: bool)
    ensures
        r == segments_fit(texts_of(segs@), views(ps@)),
{
    if ps.len() != segs.len() {
        return false;
    }
    let mut i: usize = 0;
    while i < segs.len()
        invariant
            i <= segs@.len(),
            ps@.len() == segs@.len(),
            forall|j: int|
                0 <= j < i ==> is_param(#[trigger] texts_of(segs@)[j]) || texts_of(segs@)[j]
                    == views(ps@)[j],
        decreases segs@.len() - i,
    {
        let s = chars_of(segs[i].as_str());
        assert(texts_of(segs@)[i as int] == s@);
        assert(views(ps@)[i as int] == ps@[i as int]@);
        if !(s.len() > 0 && s[0] == ':') && !chars_eq(&s, &ps[i]) {
            return false;
        }
        i = i + 1;
    }
    true
}

impl RouteMatcher {
    /// The matcher for a route path: by segments when the path has a
    /// parameter (a `:`), else the exact path.
    pub fn from_path(path: &str) -> (r: Self)
        ensures
            match spec_from_path(path@) {
                Ok(segs) => r matches RouteMatcher::Dynamic(v) && texts_of(v@) == segs,
                Err(p) => r matches RouteMatcher::Exact(e) && e@ == p,
            },
    {
        let p = chars_of(path);
        match find(&p, ':') {
            Some(_) => {
                let segs = segments_of(&p);
                let v = strings_of(&segs);
                assert(texts_of(v@) =~= views(segs@));
                RouteMatcher::Dynamic(v)
            },
            None => RouteMatcher::Exact(owned(path)),
        }
    }

    /// The file a static matcher looks for: the path without its leading
    /// `/`, under the matcher's directory.
    pub fn static_file_path(&self, path: &str) -> (r: Option<String>)
        ensures
            match self {
                RouteMatcher::StaticFile(base) => r matches Some(p) && p@ == joined_path(
                    base@,
                    trim_char_start(path@, '/'),
                ),
                _ => r is None,
            },
    {
        match self {
            RouteMatcher::StaticFile(base) => {
                let p = chars_of(path);
                let t = trim_start_matching(&p, '/');
                Some(join_path(base.as_str(), string_of(&t).as_str()))
            },
            _ => None,
        }
    }

    /// Whether the matcher recognises the path. For a static matcher,
    /// `file_exists` tells whether its file (`static_file_path`) exists.
    pub fn matches(&self, path: &str, file_exists: bool) -> (r: bool)
        ensures
            r == match self {
                RouteMatcher::Exact(e) => e@ == path@,
                RouteMatcher::Dynamic(segs) => segments_fit(texts_of(segs@), path_segments(path@)),
                RouteMatcher::StaticFile(_) => file_exists,
            },
    {
        match self {
            RouteMatcher::Exact(e) => crate::text::str_eq(e.as_str(), path),
            RouteMatcher::Dynamic(segs) => {
                let p = chars_of(path);
                let ps = segments_of(&p);
                segments_match(segs, &ps)
            },
            RouteMatcher::StaticFile(_) => file_exists,
        }
    }

    /// The parameters the path gives a matcher by segments (none for the
    /// other matchers).
    pub fn extract_params(&self, path: &str) -> (r: StrMap<String>)
        ensures
            r.wf(),
            r@ == match self {
                RouteMatcher::Dynamic(segs) => params_of(texts_of(segs@), path_segments(path@)),
                _ => Seq::empty(),
            },
    {
        let mut params: StrMap<String> = StrMap::new();
        if let RouteMatcher::Dynamic(segs) = self {
            let p = chars_of(path);
            let ps = segments_of(&p);
            let mut i: usize = 0;
            while i < segs.len()
                invariant
                    i <= segs@.len(),
                    params.wf(),
                    views(ps@) == path_segments(path@),
                    params@ == params_of(texts_of(segs@).take(i as int), views(ps@)),
                decreases segs@.len() - i,
            {
                let s = chars_of(segs[i].as_str());
                proof {
                    let t = texts_of(segs@).take(i + 1);
                    assert(t.drop_last() =~= texts_of(segs@).take(i as int));
                    assert(t.last() == s@);
                }
                if s.len() > 0 && s[0] == ':' && i < ps.len() {
                    let name = slice_chars(&s, 1, s.len());
                    assert(name@ =~= s@.skip(1));
                    assert(views(ps@)[i as int] == ps@[i as int]@);
                    params.insert(string_of(&name), string_of(&ps[i]));
                }
                i = i + 1;
            }
            assert(texts_of(segs@).take(i as int) =~= texts_of(segs@));
        }
        params
    }
}

impl Route {
    /// Whether the route accepts the method.
    pub fn is_method_allowed(&self, method: &HttpMethod) -> (r: bool)
        ensures
            r == self.methods@.contains(*method),
    {
        let mut i: usize = 0;
        while i < self.methods.len()
            invariant
                i <= self.methods@.len(),
                forall|j: int| 0 <= j < i ==> self.methods@[j] != *method,
            decreases self.methods@.len() - i,
        {
            if self.methods[i] == *method {
                return true;
            }
            i = i + 1;
        }
        false
    }
}

} // verus!
