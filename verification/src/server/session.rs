//! Sessions: what a session holds, the store that keeps them, the manager
//! that creates, finds and ends them through a cookie, and the check a
//! route that requires a session makes.
use vstd::prelude::*;
use crate::config::SessionConfig;
use crate::deps::new_session_id;
use crate::http::header::{
    Cookie, CookieOptions, CookieSpec, CookieOptionsSpec, Header, HeaderName, HeaderNameSpec,
    SameSitePolicy, spec_cookie_text, spec_cookie_parse, spec_default_options, opt_text, law_cookie_name_value,
};
use crate::http::request::{Request, header_read_from};
use crate::map::{StrMap, map_get, map_insert, map_remove, distinct_keys, lemma_get_after_insert, lemma_get_after_remove};
use crate::server::errors::{ServerError, SessionError};
use crate::server::route::Route;
use crate::sys::{TimeStamp, now};
use crate::text::{chars_of, chars_is, owned, push_str, string_of, lower_ascii, lower_ascii_text};

verus! {

/// A session: its identifier, its data, when it began and when it ends.
#[derive(Debug)]
pub struct Session {
    pub id: String,
    pub data: StrMap<String>,
    pub created_at: TimeStamp,
    pub expires_at: Option<TimeStamp>,
}

/// A session as plain values.
pub struct SessionView {
    pub id: Seq<char>,
    pub data: Seq<(Seq<char>, Seq<char>)>,
    pub created_at: TimeStamp,
    pub expires_at: Option<TimeStamp>,
}

impl View for Session {
    type V = SessionView;

    open spec fn view(&self) -> SessionView {
        SessionView { id: self.id@, data: self.data@, created_at: self.created_at, expires_at: self.expires_at }
    }
}

/// Whether `a` comes after `b`.
pub open spec fn later(a: TimeStamp, b: TimeStamp) -> bool {
    a.secs > b.secs || (a.secs == b.secs && a.nanos > b.nanos)
}

/// The latest second a clock time can hold.
pub open spec fn max_secs() -> int {
    i64::MAX as int
}

/// The end of a session begun at `now` that lasts `max_age` seconds, when
/// the clock can hold it (`None` when it cannot).
pub open spec fn spec_expiry(now: TimeStamp, max_age: Option<u64>) -> Option<Option<TimeStamp>> {
    match max_age {
        Some(age) => if now.secs + age <= max_secs() {
            Some(Some(TimeStamp { secs: (now.secs + age) as u64, nanos: now.nanos }))
        } else {
            None
        },
        None => Some(None),
    }
}

/// Whether a session ending at `expires` has ended at `now`.
pub open spec fn expired_at(expires: Option<TimeStamp>, now: TimeStamp) -> bool {
    match expires {
        Some(e) => later(now, e),
        None => false,
    }
}

/// The time `secs` seconds after `now`, when the clock can hold it.
fn add_secs(now: TimeStamp, secs: u64) -> (r: Option<TimeStamp>)
    ensures
        now.secs + secs <= max_secs() ==> r == Some(TimeStamp { secs: (now.secs + secs) as u64, nanos: now.nanos }),
        now.secs + secs > max_secs() ==> r is None,
{
    if now.secs > 9223372036854775807u64 || secs > 9223372036854775807u64 - now.secs {
        None
    } else {
        Some(TimeStamp { secs: now.secs + secs, nanos: now.nanos })
    }
}

impl Clone for Session {
    fn clone(&self) -> (r: Self)
        ensures
            r@ == self@,
    {
        Session {
            id: owned(self.id.as_str()),
            data: self.data.duplicate(),
            created_at: self.created_at,
            expires_at: self.expires_at,
        }
    }
}

impl Session {
    /// A session begun at `now`, lasting `max_age` seconds (for ever with
    /// none), with an empty identifier and no data; `None` when its end is
    /// later than the clock can hold.
    pub fn new_at(now: TimeStamp, max_age: Option<u64>) -> (r: Option<Session>)
        ensures
            match spec_expiry(now, max_age) {
                Some(e) => r matches Some(s) && s@ == (SessionView {
                    id: Seq::empty(),
                    data: Seq::empty(),
                    created_at: now,
                    expires_at: e,
                }) && s.data.wf(),
                None => r is None,
            },
    {
        let expires_at = match max_age {
            Some(age) => match add_secs(now, age) {
                Some(t) => Some(t),
                None => {
                    return None;
                },
            },
            None => None,
        };
        let id = String::new();
        proof {
            assert(id@ =~= Seq::<char>::empty());
        }
        Some(Session { id, data: StrMap::new(), created_at: now, expires_at })
    }

    /// A session begun now (see `new_at`); `None` when its end is later
    /// than the clock can hold.
    pub fn new(max_age: Option<u64>) -> (r: Option<Session>)
        ensures
            max_age is None ==> (r matches Some(s) && s.id@ == Seq::<char>::empty() && s.data@
                == Seq::<(Seq<char>, Seq<char>)>::empty() && s.expires_at is None),
            r matches Some(s) ==> s.id@ == Seq::<char>::empty() && s.data@ == Seq::<(Seq<char>, Seq<char>)>::empty()
                && spec_expiry(s.created_at, max_age) == Some(s.expires_at),
    {
        let t = now();
        Session::new_at(t, max_age)
    }

    /// Whether the session has ended at `now`.
    pub fn is_expired_at(&self, now: TimeStamp) -> (r: bool)
        ensures
            r == expired_at(self.expires_at, now),
    {
        match self.expires_at {
            Some(e) => now.secs > e.secs || (now.secs == e.secs && now.nanos > e.nanos),
            None => false,
        }
    }

    /// Whether the session has ended by the clock (a session without an
    /// end never has): `is_expired_at` at the clock's reading.
    pub fn is_expired(&self) -> (r: bool)
        ensures
            self.expires_at is None ==> !r,
            exists|t: TimeStamp| t.nanos < 1_000_000_000 && r == #[trigger] expired_at(self.expires_at, t),
    {
        let t = now();
        self.is_expired_at(t)
    }

    pub fn set_id(&mut self, id: String)
        ensures
            final(self)@ == (SessionView { id: id@, ..old(self)@ }),
            final(self).data.wf() == old(self).data.wf(),
    {
        self.id = id;
    }
}

// ============= The store =============
/// Sessions kept in memory, by identifier.
#[derive(Debug)]
pub struct MemorySessionStore {
    sessions: StrMap<Session>,
}

impl MemorySessionStore {
    pub closed spec fn sessions_view(&self) -> Seq<(Seq<char>, SessionView)> {
        self.sessions@
    }

    /// No identifier occurs twice.
    pub closed spec fn wf(&self) -> bool {
        self.sessions.wf()
    }

    pub fn new() -> (r: Self)
        ensures
            r.sessions_view() == Seq::<(Seq<char>, SessionView)>::empty(),
            r.wf(),
    {
        MemorySessionStore { sessions: StrMap::new() }
    }

    /// The session stored under `id`, if any (the store never fails).
    pub fn get(&self, id: &str) -> (r: Result<Option<Session>, ServerError>)
        ensures
            r matches Ok(o) && match map_get(self.sessions_view(), id@) {
                Some(v) => o matches Some(s) && s@ == v,
                None => o is None,
            },
    {
        match self.sessions.get(id) {
            Some(s) => Ok(Some(s.clone())),
            None => Ok(None),
        }
    }

    /// Stores the session under its identifier, replacing any session
    /// stored under it.
    pub fn set(&mut self, session: Session) -> (r: Result<(), ServerError>)
        requires
            old(self).wf(),
        ensures
            r is Ok,
            final(self).wf(),
            final(self).sessions_view() == map_insert(old(self).sessions_view(), session.id@, session@),
    {
        let id = owned(session.id.as_str());
        self.sessions.insert(id, session);
        Ok(())
    }

    /// Removes the session stored under `id`, if any.
    pub fn delete(&mut self, id: &str) -> (r: Result<(), ServerError>)
        requires
            old(self).wf(),
        ensures
            r is Ok,
            final(self).wf(),
            final(self).sessions_view() == map_remove(old(self).sessions_view(), id@),
    {
        self.sessions.remove(id);
        Ok(())
    }

    /// Removes the sessions that have ended at `now`.
    pub fn cleanup_expired_at(&mut self, now: TimeStamp) -> (r: Result<(), ServerError>)
        requires
            old(self).wf(),
        ensures
            r is Ok,
            final(self).wf(),
            final(self).sessions_view() == unexpired(old(self).sessions_view(), now),
    {
        let mut kept: StrMap<Session> = StrMap::new();
        let ghost all = self.sessions@;
        let mut i: usize = 0;
        while i < self.sessions.len()
            invariant
                i <= all.len(),
                all == self.sessions@,
                self.sessions.wf(),
                kept.wf(),
                kept@ == unexpired(all.take(i as int), now),
                forall|k: Seq<char>| #[trigger] crate::map::key_index(kept@, k) is Some ==> exists|j: int| 0 <= j < i && all[j].0 == k,
            decreases all.len() - i,
        {
            let (id, s) = self.sessions.entry(i);
            let ghost t = all.take(i + 1);
            proof {
                assert(t.drop_last() =~= all.take(i as int));
                assert(t.last() == all[i as int]);
            }
            if !s.is_expired_at(now) {
                proof {
                    crate::map::lemma_key_index(kept@, id@);
                    if crate::map::key_index(kept@, id@) is Some {
                        let j = choose|j: int| 0 <= j < i && all[j].0 == id@;
                        assert(all[j].0 != all[i as int].0);
                    }
                }
                let ghost before = kept@;
                kept.insert(owned(id.as_str()), s.clone());
                proof {
                    assert(kept@ =~= before.push((id@, s@)));
                    assert forall|k: Seq<char>| #[trigger] crate::map::key_index(kept@, k) is Some implies exists|j: int| 0 <= j < i + 1 && all[j].0 == k by {
                        crate::map::lemma_key_index(kept@, k);
                        crate::map::lemma_key_index(before, k);
                        let m = crate::map::key_index(kept@, k)->0;
                        if m < before.len() {
                            assert(kept@[m] == before[m]);
                            crate::map::lemma_key_index_at(before, k, m);
                        } else {
                            assert(all[i as int].0 == k);
                        }
                    }
                }
            }
            i = i + 1;
        }
        assert(all.take(i as int) =~= all);
        self.sessions = kept;
        Ok(())
    }

    /// Removes the sessions that have ended by the clock (read once).
    pub fn cleanup_expired(&mut self) -> (r: Result<(), ServerError>)
        requires
            old(self).wf(),
        ensures
            r is Ok,
            final(self).wf(),
            exists|t: TimeStamp| final(self).sessions_view() == unexpired(old(self).sessions_view(), t),
    {
        let t = now();
        self.cleanup_expired_at(t)
    }

    /// Copies of the stored sessions, in order.
    pub fn list_sessions(&self) -> (r: Result<Vec<Session>, ServerError>)
        ensures
            r matches Ok(v) && v@.len() == self.sessions_view().len() && forall|i: int|
                0 <= i < v@.len() ==> (#[trigger] v@[i])@ == self.sessions_view()[i].1,
    {
        let mut v: Vec<Session> = Vec::new();
        let mut i: usize = 0;
        while i < self.sessions.len()
            invariant
                i <= self.sessions@.len(),
                v@.len() == i,
                forall|j: int| 0 <= j < i ==> (#[trigger] v@[j])@ == self.sessions@[j].1,
            decreases self.sessions@.len() - i,
        {
            let (_, s) = self.sessions.entry(i);
            v.push(s.clone());
            i = i + 1;
        }
        Ok(v)
    }
}

/// The identifiers of a well-formed store are distinct.
pub proof fn lemma_store_distinct(s: MemorySessionStore)
    requires
        s.wf(),
    ensures
        distinct_keys(s.sessions_view()),
{
}

/// The sessions that have not ended at `now`, in order.
pub open spec fn unexpired(s: Seq<(Seq<char>, SessionView)>, now: TimeStamp) -> Seq<(Seq<char>, SessionView)>
    decreases s.len(),
{
    if s.len() == 0 {
        Seq::empty()
    } else {
        let rest = unexpired(s.drop_last(), now);
        if expired_at(s.last().1.expires_at, now) {
            rest
        } else {
            rest.push(s.last())
        }
    }
}

/// After a session is stored, looking its identifier up gives it, and
/// every other identifier gives what it gave before.
pub proof fn law_get_after_set(m: Seq<(Seq<char>, SessionView)>, s: SessionView, q: Seq<char>)
    requires
        distinct_keys(m),
    ensures
        map_get(map_insert(m, s.id, s), q) == if q == s.id {
            Some(s)
        } else {
            map_get(m, q)
        },
{
    lemma_get_after_insert(m, s.id, s, q);
}

/// After the session of an identifier is deleted, looking it up gives
/// nothing, and every other identifier gives what it gave before.
pub proof fn law_get_after_delete(m: Seq<(Seq<char>, SessionView)>, id: Seq<char>, q: Seq<char>)
    requires
        distinct_keys(m),
    ensures
        map_get(map_remove(m, id), q) == if q == id {
            None
        } else {
            map_get(m, q)
        },
{
    lemma_get_after_remove(m, id, q);
}

/// A text a cookie can carry as it is: no `;`, no `=`, no spaces around.
pub open spec fn plain_cookie_text(s: Seq<char>) -> bool {
    &&& forall|j: int| 0 <= j < s.len() ==> s[j] != ';' && s[j] != '='
    &&& crate::text::trim(s) == s
}

/// A session just created (stored under `id` over the sessions `before`,
/// with the cookie planned for it) is found again from a `Cookie` header
/// that sends back the text of its `set-cookie` header, at any time `t`
/// before it ends; the store is left as it was. The identifier and the
/// cookie name are plain cookie texts (as the identifiers made by
/// `create_session` are).
pub proof fn law_created_session_found(
    config: SessionConfig,
    now: TimeStamp,
    id: Seq<char>,
    s: SessionView,
    before: Seq<(Seq<char>, SessionView)>,
    store: MemorySessionStore,
    after: MemorySessionStore,
    r: Result<Option<Session>, ServerError>,
    t: TimeStamp,
)
    requires
        distinct_keys(before),
        planned_cookie(config, now, id) is Some,
        plain_cookie_text(id),
        plain_cookie_text(cookie_name(config)),
        store.sessions_view() == map_insert(before, id, s),
        !expired_at(s.expires_at, t),
        session_lookup(store, after, r, cookie_value(spec_cookie_text(planned_cookie(config, now, id)->0)), t),
    ensures
        cookie_value(spec_cookie_text(planned_cookie(config, now, id)->0)) == Some(id),
        r matches Ok(Some(x)) && x@ == s,
        after == store,
{
    let c = planned_cookie(config, now, id)->0;
    law_cookie_name_value(c, t);
    lemma_get_after_insert(before, id, s, id);
}

// ============= The manager =============
/// Creates, finds and ends sessions, through a cookie configured by the
/// session settings.
#[derive(Debug)]
pub struct SessionManager {
    pub config: SessionConfig,
    pub store: MemorySessionStore,
}

/// The `SameSite` policy a setting names (in ASCII lower case: `strict`,
/// `lax` or `none`); `Strict` for any other setting or none.
pub open spec fn spec_same_site(s: Option<Seq<char>>) -> SameSitePolicy {
    match s {
        Some(v) => {
            let l = lower_ascii_text(v);
            if l == "strict"@ {
                SameSitePolicy::Strict
            } else if l == "lax"@ {
                SameSitePolicy::Lax
            } else if l == "none"@ {
                SameSitePolicy::CrossSite
            } else {
                SameSitePolicy::Strict
            }
        },
        None => SameSitePolicy::Strict,
    }
}

/// Whether a session can be made at `now` under the settings: the
/// configured `expires` and `max_age`, counted from `now`, are times the
/// clock can hold.
pub open spec fn creation_fits(c: SessionConfig, now: TimeStamp) -> bool {
    match c.options {
        Some(o) => spec_expiry(now, o.expires) is Some && spec_expiry(now, o.max_age) is Some,
        None => true,
    }
}

/// The name of the session cookie (empty when none is configured).
pub open spec fn cookie_name(c: SessionConfig) -> Seq<char> {
    match opt_text(c.name) {
        Some(n) => n,
        None => Seq::empty(),
    }
}

/// The session cookie for identifier `id`, made at `now`: with the
/// configured attributes (an `expires` setting counts seconds from `now`),
/// or the default attributes when none are configured; `None` when the
/// expiry is later than the clock can hold.
pub open spec fn planned_cookie(c: SessionConfig, now: TimeStamp, id: Seq<char>) -> Option<CookieSpec> {
    match c.options {
        Some(o) => match spec_expiry(now, o.expires) {
            Some(expires) => Some(
                CookieSpec {
                    name: cookie_name(c),
                    value: id,
                    options: CookieOptionsSpec {
                        http_only: o.http_only == Some(true),
                        secure: o.secure == Some(true),
                        max_age: o.max_age,
                        path: opt_text(o.path),
                        expires,
                        domain: opt_text(o.domain),
                        same_site: spec_same_site(opt_text(o.same_site)),
                    },
                },
            ),
            None => None,
        },
        None => Some(CookieSpec { name: cookie_name(c), value: id, options: spec_default_options() }),
    }
}

/// The value of the cookie a `Cookie` header carries: the trimmed text
/// after the first `=` of the part before the first `;`.
pub open spec fn cookie_value(s: Seq<char>) -> Option<Seq<char>> {
    let nv = crate::text::split(crate::text::split(s, ';')[0], '=');
    if nv.len() < 2 {
        None
    } else {
        Some(crate::text::trim(nv[1]))
    }
}

/// The position of the first `Cookie` header.
pub open spec fn first_cookie(hs: Seq<Header>) -> Option<int>
    decreases hs.len(),
{
    if hs.len() == 0 {
        None
    } else if hs[0]@.name == HeaderNameSpec::Cookie {
        Some(0)
    } else {
        match first_cookie(hs.drop_first()) {
            Some(i) => Some(i + 1),
            None => None,
        }
    }
}

/// The identifier a `Cookie` header names, if any.
pub open spec fn header_session_id(h: Option<&Header>) -> Option<Seq<char>> {
    match h {
        Some(h) => cookie_value(h@.value),
        None => None,
    }
}

/// The cookie that ends a session: empty value, default attributes and
/// `Max-Age=0`.
pub open spec fn ending_cookie(c: SessionConfig) -> CookieSpec {
    CookieSpec {
        name: cookie_name(c),
        value: Seq::empty(),
        options: CookieOptionsSpec { max_age: Some(0), ..spec_default_options() },
    }
}

/// What looking up the session a header names does at `now`, from store
/// `before` to store `after` with result `r`: nothing found gives `None`;
/// a session that has not ended is given; one that has ended is deleted
/// and reported expired with its identifier.
pub open spec fn session_lookup(
    before: MemorySessionStore,
    after: MemorySessionStore,
    r: Result<Option<Session>, ServerError>,
    id: Option<Seq<char>>,
    now: TimeStamp,
) -> bool {
    match id {
        None => r matches Ok(None) && after == before,
        Some(v) => match map_get(before.sessions_view(), v) {
            None => r matches Ok(None) && after == before,
            Some(sv) => if expired_at(sv.expires_at, now) {
                (r matches Err(ServerError::SessionError(SessionError::SessionExpired(m))) && m@ == v)
                    && after.sessions_view() == map_remove(before.sessions_view(), v)
            } else {
                (r matches Ok(Some(s)) && s@ == sv) && after == before
            },
        },
    }
}

fn copy_opt(o: &Option<String>) -> (r: Option<String>)
    ensures
        opt_text(r) == opt_text(*o),
{
    match o {
        Some(s) => Some(owned(s.as_str())),
        None => None,
    }
}

impl SessionManager {
    pub fn new(config: SessionConfig, store: MemorySessionStore) -> (r: Self)
        ensures
            r.config == config,
            r.store == store,
    {
        SessionManager { config, store }
    }

    fn name(&self) -> (r: String)
        ensures
            r@ == cookie_name(self.config),
    {
        match &self.config.name {
            Some(n) => owned(n.as_str()),
            None => {
                let e = String::new();
                assert(e@ =~= Seq::<char>::empty());
                e
            },
        }
    }

    /// The session cookie for `id` at `now` (see `planned_cookie`).
    fn make_cookie(&self, now: TimeStamp, id: &str) -> (r: Option<Cookie>)
        requires
            now.nanos < 1_000_000_000,
        ensures
            match planned_cookie(self.config, now, id@) {
                Some(c) => r matches Some(k) && k@ == c && k.options.times_valid(),
                None => r is None,
            },
    {
        let name = self.name();
        match &self.config.options {
            Some(opts) => {
                let expires = match opts.expires {
                    Some(secs) => match add_secs(now, secs) {
                        Some(t) => Some(t),
                        None => {
                            return None;
                        },
                    },
                    None => None,
                };
                let same_site = match &opts.same_site {
                    Some(v) => {
                        let l = lower_ascii(&chars_of(v.as_str()));
                        if chars_is(&l, "strict") {
                            SameSitePolicy::Strict
                        } else if chars_is(&l, "lax") {
                            SameSitePolicy::Lax
                        } else if chars_is(&l, "none") {
                            SameSitePolicy::CrossSite
                        } else {
                            SameSitePolicy::Strict
                        }
                    },
                    None => SameSitePolicy::Strict,
                };
                let options = CookieOptions {
                    http_only: match opts.http_only {
                        Some(b) => b,
                        None => false,
                    },
                    secure: match opts.secure {
                        Some(b) => b,
                        None => false,
                    },
                    max_age: opts.max_age,
                    path: copy_opt(&opts.path),
                    expires,
                    domain: copy_opt(&opts.domain),
                    same_site,
                };
                Some(Cookie::with_options(name.as_str(), id, options))
            },
            None => Some(Cookie::new(name.as_str(), id)),
        }
    }

    /// Creates a session at `now` under identifier `id`: the cookie for it
    /// (see `planned_cookie`), a session lasting the cookie's `Max-Age`,
    /// stored, and the `set-cookie` header. `None` when a time involved is
    /// later than the clock can hold.
    pub fn create_session_with(&mut self, now: TimeStamp, id: String) -> (r: Option<(Session, Header)>)
        requires
            now.nanos < 1_000_000_000,
            old(self).store.wf(),
        ensures
            final(self).store.wf(),
            final(self).config == old(self).config,
            match planned_cookie(old(self).config, now, id@) {
                Some(c) => match spec_expiry(now, c.options.max_age) {
                    Some(e) => r matches Some((s, h)) && s@ == (SessionView {
                        id: id@,
                        data: Seq::empty(),
                        created_at: now,
                        expires_at: e,
                    }) && header_read_from(h@, "set-cookie"@, spec_cookie_text(c))
                        && final(self).store.sessions_view() == map_insert(
                        old(self).store.sessions_view(),
                        id@,
                        s@,
                    ),
                    None => r is None && final(self).store == old(self).store,
                },
                None => r is None && final(self).store == old(self).store,
            },
    {
        let cookie = match self.make_cookie(now, id.as_str()) {
            Some(c) => c,
            None => {
                return None;
            },
        };
        let mut session = match Session::new_at(now, cookie.options.max_age) {
            Some(s) => s,
            None => {
                return None;
            },
        };
        session.set_id(id);
        let copy = session.clone();
        let _ = self.store.set(copy);
        let text = cookie.to_string();
        let header = Header::from_str("set-cookie", text.as_str());
        Some((session, header))
    }

    /// Creates a session with a new random identifier at the time of the
    /// clock (see `create_session_with`); `None` only when a time involved
    /// is later than the clock can hold (see `creation_fits`), so never
    /// when the settings give no `expires` and no `max_age`.
    pub fn create_session(&mut self) -> (r: Option<(Session, Header)>)
        requires
            old(self).store.wf(),
        ensures
            final(self).store.wf(),
            final(self).config == old(self).config,
            r is None ==> exists|t: TimeStamp| t.nanos < 1_000_000_000 && !#[trigger] creation_fits(old(self).config, t),
            r matches Some((s, h)) ==> s.id@.len() == 36 && exists|t: TimeStamp, c: CookieSpec|
                planned_cookie(old(self).config, t, s.id@) == Some(c) && header_read_from(
                    h@,
                    "set-cookie"@,
                    spec_cookie_text(c),
                ) && spec_expiry(t, c.options.max_age) == Some(s.expires_at) && s.created_at == t
                    && final(self).store.sessions_view() == map_insert(
                    old(self).store.sessions_view(),
                    s.id@,
                    s@,
                ),
            r is None ==> final(self).store == old(self).store,
    {
        let id = new_session_id();
        let t = now();
        let ghost config = self.config;
        let r = self.create_session_with(t, id);
        proof {
            if r is None {
                assert(!creation_fits(config, t));
            }
        }
        r
    }

    /// The session a `Cookie` header names, at `now`: nothing without a
    /// header, a cookie or a stored session; a stored session that has not
    /// ended; a session that has ended is deleted and reported expired
    /// with the identifier.
    pub fn get_session_at(&mut self, cookie_header: Option<&Header>, now: TimeStamp) -> (r: Result<Option<Session>, ServerError>)
        requires
            old(self).store.wf(),
        ensures
            final(self).store.wf(),
            final(self).config == old(self).config,
            session_lookup(
                old(self).store,
                final(self).store,
                r,
                header_session_id(cookie_header),
                now,
            ),
    {
        if let Some(header) = cookie_header {
            if let Some(cookie) = Cookie::parse(header.value.value.as_str()) {
                let found = self.store.get(cookie.value.as_str());
                if let Ok(Some(session)) = found {
                    if !session.is_expired_at(now) {
                        return Ok(Some(session));
                    }
                    let _ = self.store.delete(cookie.value.as_str());
                    return Err(ServerError::SessionError(SessionError::SessionExpired(cookie.value)));
                }
            }
        }
        Ok(None)
    }

    /// The session a `Cookie` header names, at the time of the clock (see
    /// `get_session_at`).
    pub fn get_session(&mut self, cookie_header: Option<&Header>) -> (r: Result<Option<Session>, ServerError>)
        requires
            old(self).store.wf(),
        ensures
            final(self).store.wf(),
            final(self).config == old(self).config,
            exists|t: TimeStamp|
                #[trigger] session_lookup(
                    old(self).store,
                    final(self).store,
                    r,
                    header_session_id(cookie_header),
                    t,
                ),
    {
        let t = now();
        self.get_session_at(cookie_header, t)
    }

    /// Ends a session: deletes it, and gives the `set-cookie` header that
    /// clears the cookie.
    pub fn destroy_session(&mut self, session_id: &str) -> (r: Result<Header, ServerError>)
        requires
            old(self).store.wf(),
        ensures
            final(self).store.wf(),
            final(self).config == old(self).config,
            final(self).store.sessions_view() == map_remove(old(self).store.sessions_view(), session_id@),
            r matches Ok(h) && header_read_from(h@, "set-cookie"@, spec_cookie_text(ending_cookie(old(self).config))),
    {
        let _ = self.store.delete(session_id);
        let mut options = CookieOptions::default();
        options.max_age = Some(0);
        let name = self.name();
        let empty = String::new();
        assert(empty@ =~= Seq::<char>::empty());
        let cookie = Cookie::with_options(name.as_str(), empty.as_str(), options);
        let text = cookie.to_string();
        Ok(Header::from_str("set-cookie", text.as_str()))
    }
}

impl Default for SessionManager {
    /// No session settings, an empty store.
    fn default() -> (r: Self)
        ensures
            r.config.enabled is None,
            r.config.name is None,
            r.config.options is None,
            r.store.sessions_view() == Seq::<(Seq<char>, SessionView)>::empty(),
            r.store.wf(),
    {
        SessionManager { config: SessionConfig::default(), store: MemorySessionStore::new() }
    }
}

// ============= The check of a route =============
/// The check a route that requires a session makes.
#[derive(Debug)]
pub struct SessionMiddleware {}

/// The first `Cookie` header of a list, if any.
pub(crate) fn find_cookie_header(hs: &Vec<Header>) -> (r: Option<&Header>)
    ensures
        match first_cookie(hs@) {
            Some(i) => r matches Some(h) && *h == hs@[i],
            None => r is None,
        },
{
    let mut i: usize = 0;
    let cookie = HeaderName::Cookie;
    while i < hs.len()
        invariant
            i <= hs@.len(),
            cookie@ == HeaderNameSpec::Cookie,
            forall|j: int| 0 <= j < i ==> (#[trigger] hs@[j])@.name != HeaderNameSpec::Cookie,
        decreases hs@.len() - i,
    {
        if hs[i].name.same(&cookie) {
            proof {
                lemma_first_cookie_at(hs@, i as int);
            }
            return Some(&hs[i]);
        }
        i = i + 1;
    }
    proof {
        lemma_first_cookie_none(hs@);
    }
    None
}

proof fn lemma_first_cookie_at(hs: Seq<Header>, i: int)
    requires
        0 <= i < hs.len(),
        hs[i]@.name == HeaderNameSpec::Cookie,
        forall|j: int| 0 <= j < i ==> (#[trigger] hs[j])@.name != HeaderNameSpec::Cookie,
    ensures
        first_cookie(hs) == Some(i),
    decreases i,
{
    if i > 0 {
        let t = hs.drop_first();
        assert forall|j: int| 0 <= j < i - 1 implies (#[trigger] t[j])@.name != HeaderNameSpec::Cookie by {
            assert(t[j] == hs[j + 1]);
        }
        lemma_first_cookie_at(t, i - 1);
    }
}

proof fn lemma_first_cookie_none(hs: Seq<Header>)
    requires
        forall|j: int| 0 <= j < hs.len() ==> (#[trigger] hs[j])@.name != HeaderNameSpec::Cookie,
    ensures
        first_cookie(hs) is None,
    decreases hs.len(),
{
    if hs.len() > 0 {
        let t = hs.drop_first();
        assert forall|j: int| 0 <= j < t.len() implies (#[trigger] t[j])@.name != HeaderNameSpec::Cookie by {
            assert(t[j] == hs[j + 1]);
        }
        lemma_first_cookie_none(t);
    }
}

/// The identifier the first `Cookie` header of a request names, if any.
pub open spec fn request_session_id(req: Request) -> Option<Seq<char>> {
    match first_cookie(req.headers@) {
        Some(i) => cookie_value(req.headers@[i]@.value),
        None => None,
    }
}

/// The error for a request without a session on a route that requires
/// one: a redirection to the configured page, or an expired session.
pub open spec fn no_session_error(route: Route, e: ServerError) -> bool {
    match route.session_redirect {
        Some(url) => e matches ServerError::SessionError(SessionError::SessionExpiredRedirect(u)) && u@ == url@,
        None => e matches ServerError::SessionError(SessionError::SessionExpired(m)) && m@ == "Session expired"@,
    }
}

/// What the session check of a request on a route gives at clock reading
/// `now`, with the session manager before and after it: a route that does
/// not require a session gets none; otherwise the session the first
/// `Cookie` header names is given while it has not ended, deleted and
/// refused as expired (with its identifier) once it has, and a request
/// without a stored session is refused (see `no_session_error`).
pub open spec fn session_outcome_at(
    route: Route,
    req: Request,
    before: SessionManager,
    after: SessionManager,
    now: TimeStamp,
    r: Result<Option<Session>, ServerError>,
) -> bool {
    (route.session_required != Some(true) ==> (r matches Ok(None) && after.store == before.store))
    && (route.session_required == Some(true) ==> match request_session_id(req) {
        Some(v) => match map_get(before.store.sessions_view(), v) {
            Some(sv) => if expired_at(sv.expires_at, now) {
                (r matches Err(ServerError::SessionError(SessionError::SessionExpired(m))) && m@ == v)
                    && after.store.sessions_view() == map_remove(before.store.sessions_view(), v)
            } else {
                (r matches Ok(Some(s)) && s@ == sv) && after.store == before.store
            },
            None => (r matches Err(e) && no_session_error(route, e)) && after.store == before.store,
        },
        None => (r matches Err(e) && no_session_error(route, e)) && after.store == before.store,
    })
}

impl SessionMiddleware {
    /// The session check at the clock's reading: `process_at` at the time
    /// read.
    pub fn process(&self, req: &Request, route: &Route, current_manager: &mut SessionManager) -> (r: Result<Option<Session>, ServerError>)
        requires
            old(current_manager).store.wf(),
        ensures
            final(current_manager).store.wf(),
            final(current_manager).config == old(current_manager).config,
            exists|t: TimeStamp|
                t.nanos < 1_000_000_000 && #[trigger] session_outcome_at(
                    *route,
                    *req,
                    *old(current_manager),
                    *final(current_manager),
                    t,
                    r,
                ),
    {
        let t = now();
        self.process_at(req, route, current_manager, t)
    }

    /// The session of a request on a route at clock reading `now` (see
    /// `session_outcome_at`).
    pub fn process_at(&self, req: &Request, route: &Route, current_manager: &mut SessionManager, now: TimeStamp) -> (r: Result<Option<Session>, ServerError>)
        requires
            old(current_manager).store.wf(),
        ensures
            final(current_manager).store.wf(),
            final(current_manager).config == old(current_manager).config,
            session_outcome_at(*route, *req, *old(current_manager), *final(current_manager), now, r),
    {
        match route.session_required {
            Some(required) => {
                if !required {
                    return Ok(None);
                }
            },
            None => {
                return Ok(None);
            },
        }
        let cookie_header = find_cookie_header(&req.headers);
        match current_manager.get_session_at(cookie_header, now) {
            Ok(Some(session)) => {
                if session.is_expired_at(now) {
                    let _ = current_manager.destroy_session(session.id.as_str());
                    if let Some(redirect_url) = &route.session_redirect {
                        let mut m = chars_of("Redirect to: ");
                        push_str(&mut m, redirect_url.as_str());
                        return Err(ServerError::SessionError(SessionError::SessionExpired(string_of(&m))));
                    }
                    return Err(ServerError::SessionError(SessionError::SessionExpired(session.id)));
                }
                Ok(Some(session))
            },
            Ok(None) => {
                if let Some(redirect) = &route.session_redirect {
                    return Err(ServerError::SessionError(SessionError::SessionExpiredRedirect(owned(redirect.as_str()))));
                }
                Err(ServerError::SessionError(SessionError::SessionExpired(owned("Session expired"))))
            },
            Err(e) => Err(e),
        }
    }
}

} // verus!
