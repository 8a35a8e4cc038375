//! Admin panel state: the request log, admin sessions and the admin session cookie.
//!
//! Times are milliseconds: `*_ms` values read from a monotonic clock, `*_epoch_ms` values
//! from the wall clock.

use vstd::prelude::*;
use crate::auth::{
    admin_token, admin_ttl_secs, bearer_token, elapsed, elapsed_ms, live_at,
    prefix_cuttable, token_prefix, token_prefix_of, AuthView, CreatedAdminToken, OAuthState,
    TokenEntry, TOKEN_TTL_SECS,
};
use crate::keyed::{
    keys_unique, lemma_filter_keeps_unique, lookup, remove_by_key, remove_key, upsert,
    upsert_key, views, find_key, Keyed,
};
use crate::bindings::{new_uuid_string, uuid_text};
use crate::strings::{
    chars_of, clone_opt, starts_with, string_from_chars, strip_prefix, trim, trimmed,
};

verus! {

broadcast use vstd::string::group_string_axioms;

/// The request log keeps at most this many entries, dropping the oldest first.
pub const MAX_LOG_ENTRIES: usize = 1000;

/// An admin session lasts 24 hours.
pub const ADMIN_SESSION_TTL_MS: u64 = 86_400_000;

/// Largest request body buffered for logging (1 MiB); larger requests are refused with 413.
pub const MAX_LOGGED_BODY_BYTES: usize = 1_048_576;

/// Logs pages hold 50 entries unless asked otherwise, and never more than 200.
pub const DEFAULT_LOG_PAGE: usize = 50;

/// Upper bound on the size of a logs page.
pub const MAX_LOG_PAGE: usize = 200;

/// One logged JSON-RPC call to the MCP endpoint.
pub struct RequestLogEntry {
    pub id: u64,
    pub timestamp_epoch_ms: u64,
    pub method: String,
    pub tool_name: Option<String>,
    pub params_summary: Option<String>,
    pub duration_ms: u64,
    pub success: bool,
    pub token_prefix: Option<String>,
}

/// What a log entry holds.
pub struct LogEntryView {
    pub id: u64,
    pub timestamp_epoch_ms: u64,
    pub method: Seq<char>,
    pub tool_name: Option<Seq<char>>,
    pub params_summary: Option<Seq<char>>,
    pub duration_ms: u64,
    pub success: bool,
    pub token_prefix: Option<Seq<char>>,
}

impl View for RequestLogEntry {
    type V = LogEntryView;

    open spec fn view(&self) -> LogEntryView {
        LogEntryView {
            id: self.id,
            timestamp_epoch_ms: self.timestamp_epoch_ms,
            method: self.method@,
            tool_name: self.tool_name.deep_view(),
            params_summary: self.params_summary.deep_view(),
            duration_ms: self.duration_ms,
            success: self.success,
            token_prefix: self.token_prefix.deep_view(),
        }
    }
}

impl RequestLogEntry {
    /// A copy of the entry.
    pub fn copy(&self) -> (r: Self)
        ensures
            r@ == self@,
    {
        RequestLogEntry {
            id: self.id,
            timestamp_epoch_ms: self.timestamp_epoch_ms,
            method: self.method.clone(),
            tool_name: clone_opt(&self.tool_name),
            params_summary: clone_opt(&self.params_summary),
            duration_ms: self.duration_ms,
            success: self.success,
            token_prefix: clone_opt(&self.token_prefix),
        }
    }
}

/// An admin session, opened by logging in with the admin password.
pub struct AdminSession {
    pub session_id: String,
    pub created_at_ms: u64,
}

/// What a session holds.
pub struct SessionView {
    pub session_id: Seq<char>,
    pub created_at_ms: u64,
}

impl View for AdminSession {
    type V = SessionView;

    open spec fn view(&self) -> SessionView {
        SessionView { session_id: self.session_id@, created_at_ms: self.created_at_ms }
    }
}

impl Keyed for AdminSession {
    open spec fn key_of(v: SessionView) -> Seq<char> {
        v.session_id
    }

    fn key(&self) -> (k: &String) {
        &self.session_id
    }
}

/// A session is valid for 24 hours after login.
pub open spec fn session_live(s: SessionView, now_ms: u64) -> bool {
    elapsed_ms(s.created_at_ms, now_ms) < ADMIN_SESSION_TTL_MS
}

/// The test that keeps live sessions.
pub open spec fn session_live_at(now_ms: u64) -> spec_fn(SessionView) -> bool {
    |s: SessionView| session_live(s, now_ms)
}

/// Everything the admin panel keeps.
pub struct AdminView {
    pub log: Seq<LogEntryView>,
    pub sessions: Seq<SessionView>,
    pub start_time_ms: u64,
    pub next_log_id: u64,
}

/// The admin panel's state.
pub struct AdminState {
    request_log: Vec<RequestLogEntry>,
    admin_sessions: Vec<AdminSession>,
    start_time_ms: u64,
    next_log_id: u64,
}

impl View for AdminState {
    type V = AdminView;

    closed spec fn view(&self) -> AdminView {
        AdminView {
            log: views(self.request_log@),
            sessions: views(self.admin_sessions@),
            start_time_ms: self.start_time_ms,
            next_log_id: self.next_log_id,
        }
    }
}

/// The invariant: the log holds at most `MAX_LOG_ENTRIES` entries and session ids are unique.
pub open spec fn admin_wf(v: AdminView) -> bool {
    &&& v.log.len() <= MAX_LOG_ENTRIES
    &&& keys_unique::<AdminSession>(v.sessions)
}

/// The log's ids rise from its oldest entry to its newest, and all lie below the next id.
pub open spec fn log_ids_ordered(v: AdminView) -> bool {
    &&& forall|i: int, j: int| 0 <= i < j < v.log.len() ==> v.log[i].id < v.log[j].id
    &&& forall|i: int| 0 <= i < v.log.len() ==> v.log[i].id < v.next_log_id
}

/// `log` with `e` appended, the oldest entry dropped when it already holds `MAX_LOG_ENTRIES`.
pub open spec fn append_capped(log: Seq<LogEntryView>, e: LogEntryView) -> Seq<LogEntryView> {
    if log.len() >= MAX_LOG_ENTRIES {
        log.drop_first().push(e)
    } else {
        log.push(e)
    }
}

/// The fields of a call that the log records, read from the request body.
pub struct LoggedCall {
    pub method: Option<String>,
    pub tool_name: Option<String>,
    pub params_summary: Option<String>,
}

/// The entry that logging a call records.
pub open spec fn log_entry(
    id: u64,
    call: LoggedCall,
    duration_ms: u64,
    success: bool,
    token_prefix: Option<Seq<char>>,
    now_epoch_ms: u64,
) -> LogEntryView {
    LogEntryView {
        id,
        timestamp_epoch_ms: now_epoch_ms,
        method: call.method.deep_view().unwrap(),
        tool_name: call.tool_name.deep_view(),
        params_summary: call.params_summary.deep_view(),
        duration_ms,
        success,
        token_prefix,
    }
}

/// The log, newest entry first.
pub open spec fn newest_first(log: Seq<LogEntryView>) -> Seq<LogEntryView> {
    log.reverse()
}

/// The size of a logs page: the requested one (50 by default), at most 200.
pub open spec fn page_size(limit: Option<usize>) -> int {
    let l = match limit {
        Some(l) => l as int,
        None => DEFAULT_LOG_PAGE as int,
    };
    if l < MAX_LOG_PAGE {
        l
    } else {
        MAX_LOG_PAGE as int
    }
}

/// The entries of a logs page: newest first, skipping `offset`, at most `page_size(limit)`.
pub open spec fn log_page(
    log: Seq<LogEntryView>,
    limit: Option<usize>,
    offset: Option<usize>,
) -> Seq<LogEntryView> {
    let all = newest_first(log);
    let start = match offset {
        Some(o) => if o < all.len() {
            o as int
        } else {
            all.len() as int
        },
        None => 0,
    };
    let end = if start + page_size(limit) < all.len() {
        start + page_size(limit)
    } else {
        all.len() as int
    };
    all.subrange(start, end)
}

/// A page of the request log.
pub struct LogsPage {
    pub entries: Vec<RequestLogEntry>,
    pub total: usize,
}

/// Number of entries at the end of the log stamped at or after `since_epoch_ms`, counting back
/// from the newest and stopping at the first older one.
pub open spec fn recent_run(log: Seq<LogEntryView>, since_epoch_ms: int) -> nat
    decreases log.len(),
{
    if log.len() > 0 && log.last().timestamp_epoch_ms >= since_epoch_ms {
        recent_run(log.drop_last(), since_epoch_ms) + 1
    } else {
        0
    }
}

/// The start of the minute before `now_epoch_ms` (clamped at zero).
pub open spec fn minute_before(now_epoch_ms: u64) -> int {
    if now_epoch_ms >= 60_000 {
        now_epoch_ms - 60_000
    } else {
        0
    }
}

/// The figures of the admin dashboard.
pub struct Dashboard {
    pub total_requests: usize,
    pub active_clients: usize,
    pub active_tokens: usize,
    pub requests_last_minute: usize,
    pub uptime_secs: u64,
}

/// Name of the admin session cookie, with its `=`.
pub const SESSION_COOKIE_PREFIX: &'static str = "admin_session=";

/// Attributes of the admin session cookie.
pub const SESSION_COOKIE_ATTRIBUTES: &'static str = "; HttpOnly; SameSite=Strict; Path=/admin";

/// The `Set-Cookie` value that ends an admin session.
pub const LOGOUT_COOKIE: &'static str = "admin_session=; HttpOnly; SameSite=Strict; Path=/admin; Max-Age=0";

/// The `Set-Cookie` value that opens an admin session.
pub open spec fn session_cookie_spec(session_id: Seq<char>) -> Seq<char> {
    SESSION_COOKIE_PREFIX@ + session_id + SESSION_COOKIE_ATTRIBUTES@
}

/// The `Set-Cookie` value that opens the session `session_id`.
pub fn session_cookie(session_id: &str) -> (c: String)
    ensures
        c@ == session_cookie_spec(session_id@),
{
    let mut c = SESSION_COOKIE_PREFIX.to_owned();
    c.append(session_id);
    c.append(SESSION_COOKIE_ATTRIBUTES);
    c
}

/// Whether `i` is the position of the first `;` in `s`.
pub open spec fn first_semicolon_at(s: Seq<char>, i: int) -> bool {
    &&& 0 <= i < s.len()
    &&& s[i] == ';'
    &&& forall|k: int| 0 <= k < i ==> s[k] != ';'
}

/// The end of the first `;`-separated part of `s`.
pub open spec fn first_part_end(s: Seq<char>) -> int {
    if exists|i: int| first_semicolon_at(s, i) {
        choose|i: int| first_semicolon_at(s, i)
    } else {
        s.len() as int
    }
}

/// The value of the first part of the `Cookie` header `s` (split at `;`, each part trimmed)
/// that starts with `admin_session=`.
pub open spec fn session_cookie_value(s: Seq<char>) -> Option<Seq<char>>
    decreases s.len(),
{
    let end = first_part_end(s);
    let part = trim(s.subrange(0, end));
    if starts_with(part, SESSION_COOKIE_PREFIX@) {
        Some(part.subrange(SESSION_COOKIE_PREFIX@.len() as int, part.len() as int))
    } else if end < s.len() {
        session_cookie_value(s.subrange(end + 1, s.len() as int))
    } else {
        None
    }
}

/// The first `;` of `s`, where there is one, ends its first part.
pub proof fn lemma_first_semicolon_unique(s: Seq<char>, i: int)
    requires
        first_semicolon_at(s, i),
    ensures
        first_part_end(s) == i,
{
    let j = choose|j: int| first_semicolon_at(s, j);
    assert(first_semicolon_at(s, j));
    if j < i {
        assert(s[j] == ';');
    } else if i < j {
        assert(s[i] == ';');
    }
}

/// The admin session id carried by a `Cookie` header.
pub fn parse_admin_session_cookie(cookie_header: &str) -> (r: Option<String>)
    ensures
        r.deep_view() == session_cookie_value(cookie_header@),
{
    let v = chars_of(cookie_header);
    let n = v.len();
    let mut start: usize = 0;
    assert(v@.subrange(0, n as int) =~= v@);
    loop
        invariant
            n == v@.len(),
            v@ == cookie_header@,
            start <= n,
            session_cookie_value(cookie_header@) == session_cookie_value(
                v@.subrange(start as int, n as int),
            ),
        decreases n - start,
    {
        let ghost rest = v@.subrange(start as int, n as int);
        let mut end = start;
        while end < n && v[end] != ';'
            invariant
                start <= end <= n == v@.len(),
                rest == v@.subrange(start as int, n as int),
                forall|k: int| start <= k < end ==> v@[k] != ';',
            decreases n - end,
        {
            end = end + 1;
        }
        proof {
            if end < n {
                assert(first_semicolon_at(rest, end - start));
                lemma_first_semicolon_unique(rest, end - start);
            } else {
                assert(!exists|i: int| first_semicolon_at(rest, i));
            }
            assert(rest.subrange(0, end - start) =~= v@.subrange(start as int, end as int));
        }
        let segment = string_from_chars(&v, start, end);
        let part = trimmed(segment.as_str());
        match strip_prefix(part.as_str(), SESSION_COOKIE_PREFIX) {
            Some(value) => {
                return Some(value);
            },
            None => {},
        }
        if end == n {
            return None;
        }
        assert(rest.subrange(end - start + 1, rest.len() as int) =~= v@.subrange(
            end + 1,
            n as int,
        ));
        start = end + 1;
    }
}

/// The token prefix that the log records for a request with this `Authorization` header.
pub open spec fn logged_token_prefix(header: Option<Seq<char>>) -> Option<Seq<char>> {
    match bearer_token(header) {
        Some(t) => Some(token_prefix(t)),
        None => None,
    }
}

/// The prefix of the bearer token of a request, as the log records it.
pub fn bearer_token_prefix(authorization: Option<&str>) -> (r: Option<String>)
    requires
        bearer_token(authorization.deep_view()) matches Some(t) ==> prefix_cuttable(t),
    ensures
        r.deep_view() == logged_token_prefix(authorization.deep_view()),
{
    match authorization {
        Some(h) => match strip_prefix(h, "Bearer ") {
            Some(t) => Some(token_prefix_of(t.as_str())),
            None => None,
        },
        None => None,
    }
}

impl AdminState {
    /// The state's invariant.
    pub open spec fn wf(&self) -> bool {
        admin_wf(self@)
    }

    /// An empty log and no sessions; the server started at `start_time_ms`.
    pub fn new(start_time_ms: u64) -> (s: Self)
        ensures
            s.wf(),
            log_ids_ordered(s@),
            s@ == (AdminView {
                log: Seq::empty(),
                sessions: Seq::empty(),
                start_time_ms,
                next_log_id: 1,
            }),
    {
        let s = AdminState {
            request_log: Vec::new(),
            admin_sessions: Vec::new(),
            start_time_ms,
            next_log_id: 1,
        };
        assert(s@.log =~= Seq::empty());
        assert(s@.sessions =~= Seq::empty());
        s
    }

    /// Records a finished call to the MCP endpoint; only JSON-RPC calls (those with a method)
    /// are recorded. Ids count up from 1, wrapping around at `u64::MAX`.
    pub fn log_request(
        &mut self,
        call: LoggedCall,
        duration_ms: u64,
        success: bool,
        token_prefix: Option<String>,
        now_epoch_ms: u64,
    )
        requires
            old(self).wf(),
        ensures
            final(self).wf(),
            call.method is None ==> final(self)@ == old(self)@,
            call.method is Some ==> final(self)@ == (AdminView {
                log: append_capped(
                    old(self)@.log,
                    log_entry(
                        old(self)@.next_log_id,
                        call,
                        duration_ms,
                        success,
                        token_prefix.deep_view(),
                        now_epoch_ms,
                    ),
                ),
                next_log_id: old(self)@.next_log_id.wrapping_add(1),
                ..old(self)@
            }),
    {
        let method = match call.method {
            Some(m) => m,
            None => return,
        };
        let id = self.next_log_id;
        self.next_log_id = id.wrapping_add(1);
        let entry = RequestLogEntry {
            id,
            timestamp_epoch_ms: now_epoch_ms,
            method,
            tool_name: call.tool_name,
            params_summary: call.params_summary,
            duration_ms,
            success,
            token_prefix,
        };
        let ghost before = views(self.request_log@);
        let ghost ev = entry@;
        if self.request_log.len() >= MAX_LOG_ENTRIES {
            let _oldest = self.request_log.remove(0);
            assert(views(self.request_log@) =~= before.drop_first());
        }
        self.request_log.push(entry);
        assert(views(self.request_log@) =~= append_capped(before, ev));
    }

    /// A page of the log, newest entry first, and the number of entries held.
    pub fn logs_page(&self, limit: Option<usize>, offset: Option<usize>) -> (p: LogsPage)
        ensures
            views(p.entries@) == log_page(self@.log, limit, offset),
            p.total == self@.log.len(),
    {
        let ghost all = newest_first(self@.log);
        let n = self.request_log.len();
        let size: usize = match limit {
            Some(l) => if l < MAX_LOG_PAGE {
                l
            } else {
                MAX_LOG_PAGE
            },
            None => DEFAULT_LOG_PAGE,
        };
        let start: usize = match offset {
            Some(o) => if o < n {
                o
            } else {
                n
            },
            None => 0,
        };
        let end: usize = if size < n - start {
            start + size
        } else {
            n
        };
        let mut entries: Vec<RequestLogEntry> = Vec::new();
        let mut k = start;
        while k < end
            invariant
                n == self.request_log@.len(),
                all == newest_first(self@.log),
                start <= k <= end <= n,
                views(entries@) == all.subrange(start as int, k as int),
            decreases end - k,
        {
            let e = self.request_log[n - 1 - k].copy();
            assert(all[k as int] == self@.log[n - 1 - k]);
            assert(self@.log[n - 1 - k] == self.request_log@[n - 1 - k]@);
            let ghost prev = views(entries@);
            entries.push(e);
            assert(views(entries@) =~= prev.push(all[k as int]));
            k = k + 1;
            assert(views(entries@) =~= all.subrange(start as int, k as int));
        }
        LogsPage { entries, total: n }
    }

    /// Number of calls logged in the minute before `now_epoch_ms`, counted back from the newest.
    pub fn requests_last_minute(&self, now_epoch_ms: u64) -> (c: usize)
        ensures
            c == recent_run(self@.log, minute_before(now_epoch_ms)),
    {
        let since = now_epoch_ms.saturating_sub(60_000);
        let ghost log = self@.log;
        let n = self.request_log.len();
        let mut c: usize = 0;
        assert(log.subrange(0, n as int) =~= log);
        while c < n && self.request_log[n - 1 - c].timestamp_epoch_ms >= since
            invariant
                n == self.request_log@.len(),
                log == self@.log,
                c <= n,
                since == minute_before(now_epoch_ms),
                recent_run(log, since as int) == recent_run(log.subrange(0, n - c), since as int)
                    + c,
            decreases n - c,
        {
            assert(log[n - 1 - c] == self.request_log@[n - 1 - c]@);
            assert(log.subrange(0, n - c).drop_last() =~= log.subrange(0, n - c - 1));
            c = c + 1;
        }
        assert(log.subrange(0, n as int) =~= log);
        proof {
            if c < n {
                assert(log[n - 1 - c] == self.request_log@[n - 1 - c]@);
            }
        }
        c
    }

    /// The dashboard figures at the given times.
    pub fn dashboard(&self, oauth: &OAuthState, now_ms: u64, now_epoch_ms: u64) -> (d: Dashboard)
        requires
            oauth.wf(),
        ensures
            d.total_requests == self@.log.len(),
            d.active_clients == oauth@.clients.len(),
            d.active_tokens == oauth@.tokens.filter(live_at(now_ms)).len(),
            d.requests_last_minute == recent_run(self@.log, minute_before(now_epoch_ms)),
            d.uptime_secs == elapsed_ms(self@.start_time_ms, now_ms) / 1000,
    {
        Dashboard {
            total_requests: self.request_log.len(),
            active_clients: oauth.active_client_count(),
            active_tokens: oauth.active_token_count(now_ms),
            requests_last_minute: self.requests_last_minute(now_epoch_ms),
            uptime_secs: elapsed(self.start_time_ms, now_ms) / 1000,
        }
    }

    /// Opens the session `session_id` if `password` is the admin password; answers whether it
    /// did.
    pub fn login_with(
        &mut self,
        oauth: &OAuthState,
        password: &str,
        session_id: String,
        now_ms: u64,
    ) -> (ok: bool)
        requires
            old(self).wf(),
        ensures
            final(self).wf(),
            ok == (password@ == oauth@.admin_password),
            ok ==> final(self)@ == (AdminView {
                sessions: upsert::<AdminSession>(
                    old(self)@.sessions,
                    SessionView { session_id: session_id@, created_at_ms: now_ms },
                ),
                ..old(self)@
            }),
            !ok ==> final(self)@ == old(self)@,
    {
        if !oauth.verify_admin_password(password) {
            return false;
        }
        upsert_key(&mut self.admin_sessions, AdminSession { session_id, created_at_ms: now_ms });
        true
    }

    /// Logs in with `password`: opens a session under a fresh random id and answers the
    /// `Set-Cookie` value for it, or `None` for a wrong password.
    pub fn login(&mut self, oauth: &OAuthState, password: &str, now_ms: u64) -> (cookie: Option<
        String,
    >)
        requires
            old(self).wf(),
        ensures
            final(self).wf(),
            cookie is Some == (password@ == oauth@.admin_password),
            cookie is None ==> final(self)@ == old(self)@,
            cookie matches Some(c) ==> exists|sid: Seq<char>|
                #![trigger session_cookie_spec(sid)]
                uuid_text(sid) && c@ == session_cookie_spec(sid) && final(self)@ == (AdminView {
                    sessions: upsert::<AdminSession>(
                        old(self)@.sessions,
                        SessionView { session_id: sid, created_at_ms: now_ms },
                    ),
                    ..old(self)@
                }),
    {
        let session_id = new_uuid_string();
        let cookie = session_cookie(session_id.as_str());
        if self.login_with(oauth, password, session_id, now_ms) {
            Some(cookie)
        } else {
            None
        }
    }

    /// Ends the session named by the `Cookie` header, if any.
    pub fn logout(&mut self, cookie_header: Option<&str>)
        requires
            old(self).wf(),
        ensures
            final(self).wf(),
            final(self)@ == match cookie_header {
                Some(h) => match session_cookie_value(h@) {
                    Some(sid) => AdminView {
                        sessions: remove_key::<AdminSession>(old(self)@.sessions, sid),
                        ..old(self)@
                    },
                    None => old(self)@,
                },
                None => old(self)@,
            },
    {
        match cookie_header {
            Some(h) => match parse_admin_session_cookie(h) {
                Some(sid) => {
                    let _ended = remove_by_key(&mut self.admin_sessions, &sid);
                },
                None => {},
            },
            None => {},
        }
    }

    /// Whether a request with this `Cookie` header belongs to a live admin session.
    pub fn session_valid(&self, cookie_header: Option<&str>, now_ms: u64) -> (ok: bool)
        requires
            self.wf(),
        ensures
            ok == match cookie_header {
                Some(h) => match session_cookie_value(h@) {
                    Some(sid) => match lookup::<AdminSession>(self@.sessions, sid) {
                        Some(s) => session_live(s, now_ms),
                        None => false,
                    },
                    None => false,
                },
                None => false,
            },
    {
        match cookie_header {
            Some(h) => match parse_admin_session_cookie(h) {
                Some(sid) => match find_key(&self.admin_sessions, &sid) {
                    Some(i) => {
                        assert(views(self.admin_sessions@)[i as int]
                            == self.admin_sessions@[i as int]@);
                        elapsed(self.admin_sessions[i].created_at_ms, now_ms)
                            < ADMIN_SESSION_TTL_MS
                    },
                    None => false,
                },
                None => false,
            },
            None => false,
        }
    }

    /// Drops sessions older than 24 hours; answers how many were dropped.
    pub fn evict_expired_sessions(&mut self, now_ms: u64) -> (evicted: usize)
        requires
            old(self).wf(),
        ensures
            final(self).wf(),
            final(self)@ == (AdminView {
                sessions: old(self)@.sessions.filter(session_live_at(now_ms)),
                ..old(self)@
            }),
            evicted == old(self)@.sessions.len() - final(self)@.sessions.len(),
    {
        let ghost before = self@;
        let count_before = self.admin_sessions.len();
        let mut old_sessions: Vec<AdminSession> = Vec::new();
        std::mem::swap(&mut old_sessions, &mut self.admin_sessions);
        let ghost all = views(old_sessions@);
        let mut kept: Vec<AdminSession> = Vec::new();
        for s in it: old_sessions.into_iter()
            invariant
                it.seq() == old_sessions@,
                all == views(old_sessions@),
                views(kept@) == all.take(it.index() as int).filter(session_live_at(now_ms)),
        {
            let ghost k = it.index() as int;
            proof {
                assert(all.take(k + 1) =~= all.take(k).push(s@));
                all.take(k).lemma_filter_push(s@, session_live_at(now_ms));
            }
            if elapsed(s.created_at_ms, now_ms) < ADMIN_SESSION_TTL_MS {
                kept.push(s);
                assert(views(kept@) =~= all.take(k).filter(session_live_at(now_ms)).push(s@));
            }
        }
        assert(all.take(all.len() as int) =~= all);
        self.admin_sessions = kept;
        proof {
            lemma_filter_keeps_unique::<AdminSession>(before.sessions, session_live_at(now_ms));
            before.sessions.lemma_filter_len(session_live_at(now_ms));
        }
        count_before - self.admin_sessions.len()
    }
}


/// A request from the admin panel to mint a bearer token.
pub struct CreateTokenRequest {
    pub label: Option<String>,
    pub expires_in_secs: Option<u64>,
}

/// The answer to a request for a token without lifetime.
pub const ZERO_LIFETIME_ERROR: &'static str = "expires_in_secs must be > 0";

/// The lifetime asked for a minted token, in seconds: the requested one, or one hour.
pub open spec fn requested_ttl_secs(expires_in_secs: Option<u64>) -> u64 {
    match expires_in_secs {
        Some(s) => s,
        None => TOKEN_TTL_SECS,
    }
}

/// The label a minted token carries: the requested one trimmed, and none when that is empty.
pub open spec fn minted_label(label: Option<Seq<char>>) -> Option<Seq<char>> {
    match label {
        Some(s) => if trim(s).len() == 0 {
            None
        } else {
            Some(trim(s))
        },
        None => None,
    }
}

/// Handles the admin panel's request to mint a token: refuses a zero lifetime (`None`), and
/// otherwise mints a fresh token with the trimmed label and the requested lifetime (one hour
/// by default, at most 365 days).
pub fn create_token_request(
    oauth: &mut OAuthState,
    req: CreateTokenRequest,
    now_ms: u64,
    now_epoch_ms: u64,
) -> (r: Option<CreatedAdminToken>)
    requires
        old(oauth).wf(),
    ensures
        final(oauth).wf(),
        r is None <==> requested_ttl_secs(req.expires_in_secs) == 0,
        r is None ==> final(oauth)@ == old(oauth)@,
        r matches Some(created) ==> {
            &&& final(oauth)@ == (AuthView {
                tokens: upsert::<TokenEntry>(
                    old(oauth)@.tokens,
                    admin_token(
                        created.access_token@,
                        minted_label(req.label.deep_view()),
                        requested_ttl_secs(req.expires_in_secs),
                        now_ms,
                        now_epoch_ms,
                    ),
                ),
                ..old(oauth)@
            })
            &&& uuid_text(created.access_token@)
            &&& created.token_prefix@ == token_prefix(created.access_token@)
            &&& created.label.deep_view() == minted_label(req.label.deep_view())
            &&& created.expires_in_secs == admin_ttl_secs(requested_ttl_secs(req.expires_in_secs))
        },
{
    let label = match &req.label {
        Some(s) => {
            let t = trimmed(s.as_str());
            if t.as_str().is_empty() {
                None
            } else {
                Some(t)
            }
        },
        None => None,
    };
    let ttl = match req.expires_in_secs {
        Some(s) => s,
        None => TOKEN_TTL_SECS,
    };
    if ttl == 0 {
        return None;
    }
    Some(oauth.create_admin_token(label, ttl, now_ms, now_epoch_ms))
}

} // verus!
