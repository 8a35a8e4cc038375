//! Properties of the admin panel state that span several operations.

use vstd::prelude::*;
use crate::admin::{
    append_capped, log_entry, log_page, log_ids_ordered, AdminView, LoggedCall, first_part_end, first_semicolon_at, lemma_first_semicolon_unique,
    session_cookie_value,
    session_live, session_live_at, AdminSession, LogEntryView, SessionView, ADMIN_SESSION_TTL_MS,
    MAX_LOG_ENTRIES,
    SESSION_COOKIE_PREFIX,
};
use crate::auth::elapsed_ms;
use crate::bindings::{uuid_char, uuid_text};
use crate::keyed::{
    has_key, keys_unique, lemma_key_index_unique, lemma_lookup_filter,
    lemma_lookup_remove, lemma_lookup_upsert, lookup, remove_key, upsert,
};
use crate::strings::{starts_with, trim, trim_end, trim_start, white_space};

verus! {

/// The log keeps the newest entries: after an append it holds the last
/// `min(n + 1, MAX_LOG_ENTRIES)` entries of the old log followed by the new one.
pub proof fn law_log_keeps_newest(log: Seq<LogEntryView>, e: LogEntryView)
    requires
        log.len() <= MAX_LOG_ENTRIES,
    ensures
        append_capped(log, e).len() <= MAX_LOG_ENTRIES,
        append_capped(log, e) == log.push(e).subrange(
            log.push(e).len() - append_capped(log, e).len(),
            log.push(e).len() as int,
        ),
        append_capped(log, e).len() == if log.len() + 1 < MAX_LOG_ENTRIES {
            log.len() + 1
        } else {
            MAX_LOG_ENTRIES as nat
        },
{
    let p = log.push(e);
    if log.len() >= MAX_LOG_ENTRIES {
        assert(append_capped(log, e) =~= p.subrange(1, p.len() as int));
    } else {
        assert(append_capped(log, e) =~= p.subrange(0, p.len() as int));
    }
}

/// A `Cookie` header that holds just `admin_session=<id>` carries `id`, when the id has no
/// `;` and does not end in white space.
pub proof fn law_session_cookie_round_trip(sid: Seq<char>)
    requires
        !sid.contains(';'),
        sid.len() == 0 || !white_space(sid.last()),
    ensures
        session_cookie_value(SESSION_COOKIE_PREFIX@ + sid) == Some(sid),
{
    reveal_strlit("admin_session=");
    let p = SESSION_COOKIE_PREFIX@;
    let s = p + sid;
    assert(p.len() == 14);
    assert forall|i: int| 0 <= i < s.len() implies s[i] != ';' by {
        if i >= 14 {
            assert(s[i] == sid[i - 14]);
        }
    }
    assert(!exists|i: int| first_semicolon_at(s, i));
    assert(first_part_end(s) == s.len());
    assert(s.subrange(0, s.len() as int) =~= s);
    assert(!white_space(s[0]));
    assert(trim_start(s) == s);
    if sid.len() == 0 {
        assert(s.last() == '=');
    } else {
        assert(s.last() == sid.last());
    }
    assert(trim_end(s) == s);
    assert(trim(s) == s);
    assert(s.subrange(0, 14) =~= p);
    assert(starts_with(s, p));
    assert(s.subrange(14, s.len() as int) =~= sid);
}

/// After logging in under `sid`, the session is recognized for 24 hours.
pub proof fn law_session_valid_after_login(
    sessions: Seq<SessionView>,
    sid: Seq<char>,
    login_ms: u64,
    later_ms: u64,
)
    requires
        keys_unique::<AdminSession>(sessions),
        elapsed_ms(login_ms, later_ms) < ADMIN_SESSION_TTL_MS,
    ensures
        lookup::<AdminSession>(
            upsert::<AdminSession>(sessions, SessionView { session_id: sid, created_at_ms: login_ms }),
            sid,
        ) matches Some(s) && session_live(s, later_ms),
{
    lemma_lookup_upsert::<AdminSession>(
        sessions,
        SessionView { session_id: sid, created_at_ms: login_ms },
        sid,
    );
}

/// After logging out of `sid`, the session is gone.
pub proof fn law_logout_ends_session(sessions: Seq<SessionView>, sid: Seq<char>)
    requires
        keys_unique::<AdminSession>(sessions),
    ensures
        lookup::<AdminSession>(remove_key::<AdminSession>(sessions, sid), sid) is None,
{
    lemma_lookup_remove::<AdminSession>(sessions, sid, sid);
}

/// Evicting expired sessions does not change which sessions are recognized at that time.
pub proof fn law_session_eviction_keeps_validity(
    sessions: Seq<SessionView>,
    sid: Seq<char>,
    now_ms: u64,
)
    requires
        keys_unique::<AdminSession>(sessions),
    ensures
        (lookup::<AdminSession>(sessions.filter(session_live_at(now_ms)), sid) matches Some(s)
            && session_live(s, now_ms)) == (lookup::<AdminSession>(sessions, sid) matches Some(
            s,
        ) && session_live(s, now_ms)),
{
    lemma_lookup_filter::<AdminSession>(sessions, session_live_at(now_ms), sid);
}

/// Once 24 hours have passed since logging in under `sid`, the session is no longer
/// recognized.
pub proof fn law_session_expires(
    sessions: Seq<SessionView>,
    sid: Seq<char>,
    login_ms: u64,
    later_ms: u64,
)
    requires
        keys_unique::<AdminSession>(sessions),
        elapsed_ms(login_ms, later_ms) >= ADMIN_SESSION_TTL_MS,
    ensures
        lookup::<AdminSession>(
            upsert::<AdminSession>(sessions, SessionView { session_id: sid, created_at_ms: login_ms }),
            sid,
        ) matches Some(s) && !session_live(s, later_ms),
{
    lemma_lookup_upsert::<AdminSession>(
        sessions,
        SessionView { session_id: sid, created_at_ms: login_ms },
        sid,
    );
}

/// Parts of a `Cookie` header that carry no admin session can be skipped: what follows them
/// decides.
proof fn lemma_cookie_skip(c: Seq<char>, rest: Seq<char>)
    requires
        session_cookie_value(c) is None,
    ensures
        session_cookie_value(c + ";"@ + rest) == session_cookie_value(rest),
    decreases c.len(),
{
    reveal_strlit(";");
    let s = c + ";"@ + rest;
    assert(s[c.len() as int] == ';');
    if exists|i: int| first_semicolon_at(c, i) {
        let i = choose|i: int| first_semicolon_at(c, i);
        lemma_first_semicolon_unique(c, i);
        assert forall|k: int| 0 <= k <= i implies s[k] == c[k] by {}
        assert(first_semicolon_at(s, i));
        lemma_first_semicolon_unique(s, i);
        assert(s.subrange(0, i) =~= c.subrange(0, i));
        let c2 = c.subrange(i + 1, c.len() as int);
        assert(s.subrange(i + 1, s.len() as int) =~= c2 + ";"@ + rest);
        lemma_cookie_skip(c2, rest);
    } else {
        assert(first_part_end(c) == c.len());
        assert(c.subrange(0, c.len() as int) =~= c);
        assert forall|k: int| 0 <= k < c.len() implies s[k] != ';' by {
            assert(s[k] == c[k]);
            if c[k] == ';' {
                lemma_first_semicolon_exists(c, k);
            }
        }
        assert(first_semicolon_at(s, c.len() as int));
        lemma_first_semicolon_unique(s, c.len() as int);
        assert(s.subrange(0, c.len() as int) =~= c);
        assert(s.subrange(c.len() as int + 1, s.len() as int) =~= rest);
    }
}

/// A `;` in `s` means there is a first one.
proof fn lemma_first_semicolon_exists(s: Seq<char>, k: int)
    requires
        0 <= k < s.len(),
        s[k] == ';',
    ensures
        exists|i: int| first_semicolon_at(s, i),
    decreases k,
{
    if exists|m: int| 0 <= m < k && s[m] == ';' {
        let m = choose|m: int| 0 <= m < k && s[m] == ';';
        lemma_first_semicolon_exists(s, m);
    } else {
        assert(first_semicolon_at(s, k));
    }
}

/// A first part without `;` that trims to `admin_session=<id>` carries `id`, whatever follows.
proof fn lemma_cookie_first_part(p: Seq<char>, sid: Seq<char>, rest: Seq<char>)
    requires
        !p.contains(';'),
        trim(p) == SESSION_COOKIE_PREFIX@ + sid,
    ensures
        session_cookie_value(p + ";"@ + rest) == Some(sid),
        session_cookie_value(p) == Some(sid),
{
    reveal_strlit("admin_session=");
    reveal_strlit(";");
    let pre = SESSION_COOKIE_PREFIX@;
    let t = pre + sid;
    assert(t.subrange(0, pre.len() as int) =~= pre);
    assert(t.subrange(pre.len() as int, t.len() as int) =~= sid);
    let s = p + ";"@ + rest;
    assert forall|k: int| 0 <= k < p.len() implies s[k] != ';' by {
        assert(s[k] == p[k]);
    }
    assert(first_semicolon_at(s, p.len() as int));
    lemma_first_semicolon_unique(s, p.len() as int);
    assert(s.subrange(0, p.len() as int) =~= p);
    if exists|i: int| first_semicolon_at(p, i) {
        let i = choose|i: int| first_semicolon_at(p, i);
        assert(p.contains(p[i]));
    }
    assert(p.subrange(0, p.len() as int) =~= p);
}

/// `admin_session=<id>` holds no `;` when the id holds none.
proof fn lemma_prefixed_no_semicolon(sid: Seq<char>)
    requires
        !sid.contains(';'),
    ensures
        !(SESSION_COOKIE_PREFIX@ + sid).contains(';'),
{
    reveal_strlit("admin_session=");
    let t = SESSION_COOKIE_PREFIX@ + sid;
    if t.contains(';') {
        let k = choose|k: int| 0 <= k < t.len() && t[k] == ';';
        if k >= 14 {
            assert(sid[k - 14] == t[k]);
            assert(sid.contains(sid[k - 14]));
        }
    }
}

/// The part ` admin_session=<id>` trims to `admin_session=<id>`, when the id does not end in
/// white space, and holds no `;` when the id holds none.
proof fn lemma_spaced_part(sid: Seq<char>)
    requires
        !sid.contains(';'),
        sid.len() == 0 || !white_space(sid.last()),
    ensures
        !(" "@ + (SESSION_COOKIE_PREFIX@ + sid)).contains(';'),
        trim(" "@ + (SESSION_COOKIE_PREFIX@ + sid)) == SESSION_COOKIE_PREFIX@ + sid,
{
    reveal_strlit(" ");
    let t = SESSION_COOKIE_PREFIX@ + sid;
    let p = " "@ + t;
    assert(p.drop_first() =~= t);
    assert(white_space(p[0]));
    lemma_trim_of_prefixed(sid);
    lemma_prefixed_no_semicolon(sid);
    assert(trim_start(p) == trim_start(t));
    if p.contains(';') {
        let k = choose|k: int| 0 <= k < p.len() && p[k] == ';';
        assert(t[k - 1] == p[k]);
        assert(t.contains(t[k - 1]));
    }
}

/// A `Cookie` header carries the id of `admin_session=<id>` among other cookies: after parts
/// that carry no admin session, and whatever follows it, when the id holds no `;` and does not
/// end in white space.
pub proof fn law_session_cookie_among_others(before: Seq<char>, sid: Seq<char>, after: Seq<char>)
    requires
        session_cookie_value(before) is None,
        !sid.contains(';'),
        sid.len() == 0 || !white_space(sid.last()),
    ensures
        session_cookie_value(SESSION_COOKIE_PREFIX@ + sid + "; "@ + after) == Some(sid),
        session_cookie_value(before + "; "@ + SESSION_COOKIE_PREFIX@ + sid) == Some(sid),
        session_cookie_value(before + "; "@ + SESSION_COOKIE_PREFIX@ + sid + "; "@ + after)
            == Some(sid),
{
    reveal_strlit("; ");
    reveal_strlit(" ");
    reveal_strlit(";");
    let t = SESSION_COOKIE_PREFIX@ + sid;
    let part = " "@ + t;
    let tail = " "@ + after;
    lemma_spaced_part(sid);
    lemma_trim_of_prefixed(sid);
    lemma_prefixed_no_semicolon(sid);
    // `admin_session=<id>; <after>`
    lemma_cookie_first_part(t, sid, tail);
    assert(SESSION_COOKIE_PREFIX@ + sid + "; "@ + after =~= t + ";"@ + tail);
    // `<before>; admin_session=<id>`
    lemma_cookie_first_part(part, sid, tail);
    lemma_cookie_skip(before, part);
    assert(before + "; "@ + SESSION_COOKIE_PREFIX@ + sid =~= before + ";"@ + part);
    // `<before>; admin_session=<id>; <after>`
    lemma_cookie_skip(before, part + ";"@ + tail);
    assert(before + "; "@ + SESSION_COOKIE_PREFIX@ + sid + "; "@ + after =~= before + ";"@ + (
    part + ";"@ + tail));
}

/// `admin_session=<id>` is left as it is by trimming, when the id does not end in white space.
proof fn lemma_trim_of_prefixed(sid: Seq<char>)
    requires
        sid.len() == 0 || !white_space(sid.last()),
    ensures
        trim(SESSION_COOKIE_PREFIX@ + sid) == SESSION_COOKIE_PREFIX@ + sid,
{
    reveal_strlit("admin_session=");
    let t = SESSION_COOKIE_PREFIX@ + sid;
    assert(!white_space(t[0]));
    assert(trim_start(t) == t);
    if sid.len() == 0 {
        assert(t.last() == '=');
    } else {
        assert(t.last() == sid.last());
    }
    assert(trim_end(t) == t);
}

/// Logging out of a session opened by a login under an id that was not in use restores the
/// sessions held before that login.
pub proof fn law_logout_undoes_login(sessions: Seq<SessionView>, sid: Seq<char>, login_ms: u64)
    requires
        keys_unique::<AdminSession>(sessions),
        !has_key::<AdminSession>(sessions, sid),
    ensures
        remove_key::<AdminSession>(
            upsert::<AdminSession>(sessions, SessionView { session_id: sid, created_at_ms: login_ms }),
            sid,
        ) == sessions,
{
    let v = SessionView { session_id: sid, created_at_ms: login_ms };
    let u = upsert::<AdminSession>(sessions, v);
    lemma_lookup_upsert::<AdminSession>(sessions, v, sid);
    assert(u == sessions.push(v));
    lemma_key_index_unique::<AdminSession>(u, sessions.len() as int);
    assert(u.remove(sessions.len() as int) =~= sessions);
}

/// The session id that a login hands out comes back from the `Cookie` header that carries it:
/// alone, or among other cookies after parts that carry no admin session.
pub proof fn law_login_cookie_round_trip(sid: Seq<char>, before: Seq<char>, after: Seq<char>)
    requires
        uuid_text(sid),
        session_cookie_value(before) is None,
    ensures
        session_cookie_value(SESSION_COOKIE_PREFIX@ + sid) == Some(sid),
        session_cookie_value(SESSION_COOKIE_PREFIX@ + sid + "; "@ + after) == Some(sid),
        session_cookie_value(before + "; "@ + SESSION_COOKIE_PREFIX@ + sid) == Some(sid),
        session_cookie_value(before + "; "@ + SESSION_COOKIE_PREFIX@ + sid + "; "@ + after)
            == Some(sid),
{
    if sid.contains(';') {
        let k = choose|k: int| 0 <= k < sid.len() && sid[k] == ';';
        lemma_uuid_char(sid, k);
    }
    lemma_uuid_char(sid, sid.len() - 1);
    law_session_cookie_round_trip(sid);
    law_session_cookie_among_others(before, sid, after);
}

/// The character at `k` of a UUID text is a hexadecimal digit or `-`.
proof fn lemma_uuid_char(sid: Seq<char>, k: int)
    requires
        uuid_text(sid),
        0 <= k < sid.len(),
    ensures
        sid[k] != ';',
        !white_space(sid[k]),
{
    assert(uuid_char(sid[k]));
}

/// Logging a call keeps the log's ids rising from oldest to newest, as long as the id counter
/// has not reached `u64::MAX` (where it wraps around to zero).
pub proof fn law_log_ids_rise(
    v: AdminView,
    call: LoggedCall,
    duration_ms: u64,
    success: bool,
    token_prefix: Option<Seq<char>>,
    now_epoch_ms: u64,
)
    requires
        log_ids_ordered(v),
        v.next_log_id < u64::MAX,
    ensures
        log_ids_ordered(
            AdminView {
                log: append_capped(
                    v.log,
                    log_entry(v.next_log_id, call, duration_ms, success, token_prefix, now_epoch_ms),
                ),
                next_log_id: v.next_log_id.wrapping_add(1),
                ..v
            },
        ),
{
    let e = log_entry(v.next_log_id, call, duration_ms, success, token_prefix, now_epoch_ms);
    let l = append_capped(v.log, e);
    assert(v.next_log_id.wrapping_add(1) == v.next_log_id + 1);
    if v.log.len() >= MAX_LOG_ENTRIES {
        assert forall|i: int| 0 <= i < l.len() - 1 implies l[i] == v.log[i + 1] by {}
    }
    assert(l.last() == e);
}

/// A logs page lists the entries newest first: it skips `offset` of them (none by default)
/// and then holds the requested number (50 by default, at most 200), or all that are left.
pub proof fn law_logs_page(log: Seq<LogEntryView>, limit: Option<usize>, offset: Option<usize>)
    ensures
        ({
            let n = log.len() as int;
            let size: int = match limit {
                Some(l) => if l < 200 {
                    l as int
                } else {
                    200
                },
                None => 50,
            };
            let start: int = match offset {
                Some(o) => if (o as int) < n {
                    o as int
                } else {
                    n
                },
                None => 0,
            };
            let count: int = if start + size < n {
                size
            } else {
                n - start
            };
            &&& log_page(log, limit, offset).len() == count
            &&& forall|k: int|
                0 <= k < count ==> #[trigger] log_page(log, limit, offset)[k] == log[n - 1 - start - k]
        }),
{
}

} // verus!
