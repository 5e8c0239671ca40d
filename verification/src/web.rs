//! The HTTP rules of the board: which requests are refused and how, the
//! client key that requests are counted under, response headers and assets.

use vstd::prelude::*;
use crate::domain::Session;
use crate::config::{split_seq, Config};
use crate::rate_limit::{allow_outcome, bucket_key, RateLimiter};
use crate::text::{chars_of, concat, str_eq, string_of, to_string, trim, trim_seq};

verus! {

/// A refused request: the status code and the body text.
pub struct Refusal {
    pub status: u16,
    pub message: String,
}

/// The requests that change data on behalf of a signed-in user.
#[derive(Debug, Clone, Copy, PartialEq, Eq, Structural)]
pub enum Mutation {
    CreateIdea,
    UpdateIdea,
    SetIdeaStatus,
    DeleteIdea,
    SetUpvote,
    CreateComment,
    SetCommentUpvote,
    UpdateComment,
    DeleteComment,
}

/// How many requests one client may make in a window, and what a refusal says.
pub struct RateRule {
    pub scope: &'static str,
    pub limit: u32,
    pub window_ms: u64,
    pub message: &'static str,
}

pub const AUTH_LOGIN_LIMIT: u32 = 10;
pub const AUTH_LOGIN_WINDOW_MS: u64 = 60_000;
pub const CREATE_IDEA_LIMIT: u32 = 5;
pub const CREATE_IDEA_WINDOW_MS: u64 = 3_600_000;
pub const UPVOTE_LIMIT: u32 = 120;
pub const UPVOTE_WINDOW_MS: u64 = 60_000;
pub const COMMENT_LIMIT: u32 = 5;
pub const COMMENT_WINDOW_MS: u64 = 300_000;

/// The rate rule of a mutation, if it has one: (scope, limit, window, message).
pub open spec fn rate_rule_spec(m: Mutation) -> Option<(Seq<char>, u32, u64, Seq<char>)> {
    match m {
        Mutation::CreateIdea => Some(
            ("create_idea"@, CREATE_IDEA_LIMIT, CREATE_IDEA_WINDOW_MS, "Too many idea submissions"@),
        ),
        Mutation::SetUpvote => Some(
            ("upvote"@, UPVOTE_LIMIT, UPVOTE_WINDOW_MS, "Too many upvote changes"@),
        ),
        Mutation::CreateComment => Some(
            ("comment"@, COMMENT_LIMIT, COMMENT_WINDOW_MS, "Too many comments"@),
        ),
        Mutation::SetCommentUpvote => Some(
            ("comment-upvote"@, UPVOTE_LIMIT, UPVOTE_WINDOW_MS, "Too many upvote changes"@),
        ),
        _ => None,
    }
}

pub fn rate_rule(m: Mutation) -> (r: Option<RateRule>)
    ensures
        match rate_rule_spec(m) {
            Some(spec) => r matches Some(rule) && (rule.scope@, rule.limit, rule.window_ms,
                rule.message@) == spec,
            None => r is None,
        },
{
    match m {
        Mutation::CreateIdea => Some(
            RateRule {
                scope: "create_idea",
                limit: CREATE_IDEA_LIMIT,
                window_ms: CREATE_IDEA_WINDOW_MS,
                message: "Too many idea submissions",
            },
        ),
        Mutation::SetUpvote => Some(
            RateRule {
                scope: "upvote",
                limit: UPVOTE_LIMIT,
                window_ms: UPVOTE_WINDOW_MS,
                message: "Too many upvote changes",
            },
        ),
        Mutation::CreateComment => Some(
            RateRule {
                scope: "comment",
                limit: COMMENT_LIMIT,
                window_ms: COMMENT_WINDOW_MS,
                message: "Too many comments",
            },
        ),
        Mutation::SetCommentUpvote => Some(
            RateRule {
                scope: "comment-upvote",
                limit: UPVOTE_LIMIT,
                window_ms: UPVOTE_WINDOW_MS,
                message: "Too many upvote changes",
            },
        ),
        _ => None,
    }
}

/// Whether the `x-csrf-token` header, if sent, is the session's token.
pub open spec fn csrf_matches(header: Option<Seq<char>>, token: Seq<char>) -> bool {
    header == Some(token)
}

pub fn csrf_ok(header: Option<&str>, token: &str) -> (r: bool)
    ensures
        r == csrf_matches(
            match header {
                Some(h) => Some(h@),
                None => None,
            },
            token@,
        ),
{
    match header {
        Some(h) => str_eq(h, token),
        None => false,
    }
}

pub open spec fn header_view(header: Option<&str>) -> Option<Seq<char>> {
    match header {
        Some(h) => Some(h@),
        None => None,
    }
}

/// The key a signed-in user's requests are counted under.
pub open spec fn user_key(user_id: Seq<char>) -> Seq<char> {
    "user:"@ + user_id
}

/// Why a mutation by the signed-in `session` is refused once it passed the rate limit,
/// if it is: a bad CSRF token, then a payload that does not validate, then a
/// status change by someone who is not a moderator.
pub open spec fn refusal_after_rate(
    m: Mutation,
    session: Session,
    csrf_header: Option<Seq<char>>,
    payload: Result<(), String>,
    actor_is_moderator: bool,
) -> Option<(u16, Seq<char>)> {
    if !csrf_matches(csrf_header, session.csrf_token@) {
        Some((403, "Bad CSRF token"@))
    } else if payload is Err {
        Some((400, payload->Err_0@))
    } else if m == Mutation::SetIdeaStatus && !actor_is_moderator {
        Some((403, "Only moderators can update idea status"@))
    } else {
        None
    }
}

pub open spec fn refusal_view(r: Result<(), Refusal>) -> Option<(u16, Seq<char>)> {
    match r {
        Ok(()) => None,
        Err(f) => Some((f.status, f.message@)),
    }
}

fn refuse(status: u16, message: &str) -> (r: Result<(), Refusal>)
    ensures
        refusal_view(r) == Some((status, message@)),
{
    Err(Refusal { status, message: to_string(message) })
}

/// Decides whether a mutation may go ahead, counting it against its rate limit.
///
/// Refused without a session (401, nothing counted); then when over the rate
/// limit (429); then as `refusal_after_rate` says.
pub fn check_mutation(
    m: Mutation,
    session: &Option<Session>,
    limiter: &mut RateLimiter,
    csrf_header: Option<&str>,
    payload: Result<(), String>,
    actor_is_moderator: bool,
    now_ms: u64,
) -> (r: Result<(), Refusal>)
    ensures
        match *session {
            None => refusal_view(r) == Some((401u16, Seq::<char>::empty())) && final(limiter)@
                == old(limiter)@,
            Some(s) => match rate_rule_spec(m) {
                Some((scope, limit, window, message)) => {
                    let (after, allowed) = allow_outcome(
                        old(limiter)@,
                        bucket_key(scope, user_key(s.user_id@)),
                        limit,
                        window,
                        now_ms,
                    );
                    &&& final(limiter)@ == after
                    &&& refusal_view(r) == if allowed {
                        refusal_after_rate(
                            m,
                            s,
                            header_view(csrf_header),
                            payload,
                            actor_is_moderator,
                        )
                    } else {
                        Some((429u16, message))
                    }
                },
                None => {
                    &&& final(limiter)@ == old(limiter)@
                    &&& refusal_view(r) == refusal_after_rate(
                        m,
                        s,
                        header_view(csrf_header),
                        payload,
                        actor_is_moderator,
                    )
                },
            },
        },
{
    let s = match session {
        None => {
            proof {
                reveal_strlit("");
            }
            return refuse(401, "");
        },
        Some(s) => s,
    };
    match rate_rule(m) {
        Some(rule) => {
            let key = concat("user:", s.user_id.as_str());
            if !limiter.allow(rule.scope, key.as_str(), rule.limit, rule.window_ms, now_ms) {
                return refuse(429, rule.message);
            }
        },
        None => {},
    }
    if !csrf_ok(csrf_header, s.csrf_token.as_str()) {
        return refuse(403, "Bad CSRF token");
    }
    match payload {
        Err(msg) => {
            return Err(Refusal { status: 400, message: msg });
        },
        Ok(()) => {},
    }
    if m == Mutation::SetIdeaStatus && !actor_is_moderator {
        return refuse(403, "Only moderators can update idea status");
    }
    Ok(())
}

/// Decides whether a sign-in may start: counted against the sign-in rate limit
/// under `rate_key`, then refused while sign-in is disabled or not configured.
pub fn check_login(config: &Config, limiter: &mut RateLimiter, rate_key: &str, now_ms: u64) -> (r:
    Result<(), Refusal>)
    ensures
        ({
            let (after, allowed) = allow_outcome(
                old(limiter)@,
                bucket_key("auth_login"@, rate_key@),
                AUTH_LOGIN_LIMIT,
                AUTH_LOGIN_WINDOW_MS,
                now_ms,
            );
            &&& final(limiter)@ == after
            &&& refusal_view(r) == if !allowed {
                Some((429u16, "Too many login attempts"@))
            } else if !config.github_login_enabled {
                Some((503u16, "GitHub login is temporarily disabled."@))
            } else if config.github_client_id@.len() == 0 {
                Some((503u16, "Missing GITHUB_CLIENT_ID"@))
            } else {
                None
            }
        }),
{
    if !limiter.allow("auth_login", rate_key, AUTH_LOGIN_LIMIT, AUTH_LOGIN_WINDOW_MS, now_ms) {
        return refuse(429, "Too many login attempts");
    }
    if !config.github_login_enabled {
        return refuse(503, "GitHub login is temporarily disabled.");
    }
    if config.github_client_id.as_str().is_empty() {
        return refuse(503, "Missing GITHUB_CLIENT_ID");
    }
    Ok(())
}

/// The first entry of a forwarded-for list, trimmed.
pub open spec fn first_forwarded(forwarded: Seq<char>) -> Seq<char> {
    trim_seq(split_seq(forwarded, ',')[0])
}

/// The key an anonymous or signed-in client's requests are counted under: the user,
/// else the session cookie, else the first forwarded address, else `anonymous`.
pub open spec fn client_key(
    user_id: Option<Seq<char>>,
    sid: Option<Seq<char>>,
    forwarded: Option<Seq<char>>,
) -> Seq<char> {
    match user_id {
        Some(u) => "user:"@ + u,
        None => match sid {
            Some(s) => "sid:"@ + s,
            None => match forwarded {
                Some(f) if first_forwarded(f).len() > 0 => "ip:"@ + first_forwarded(f),
                _ => "anonymous"@,
            },
        },
    }
}

proof fn lemma_split_first_piece(s: Seq<char>, i: int)
    requires
        0 <= i <= s.len(),
        forall|k: int| 0 <= k < i ==> s[k] != ',',
    ensures
        split_seq(s.take(i), ',')[0] == s.take(i),
        split_seq(s.take(i), ',').len() == 1,
    decreases i,
{
    if i > 0 {
        lemma_split_first_piece(s, i - 1);
        assert(s.take(i).drop_last() == s.take(i - 1));
        assert(s.take(i).last() == s[i - 1]);
        assert(s.take(i - 1).push(s[i - 1]) == s.take(i));
    }
}

proof fn lemma_split_prefix_first(s: Seq<char>, n: int)
    requires
        0 <= n <= s.len(),
        split_seq(s.take(n), ',').len() >= 2,
    ensures
        split_seq(s, ',')[0] == split_seq(s.take(n), ',')[0],
    decreases s.len() - n,
{
    if n < s.len() {
        let t = s.take(n + 1);
        assert(t.drop_last() == s.take(n));
        assert(t.take(n) == s.take(n));
        lemma_split_prefix_first(s, n + 1);
    } else {
        assert(s.take(n) == s);
    }
}

/// The part of `v` before its first comma.
fn before_first_comma(v: &Vec<char>) -> (r: Vec<char>)
    ensures
        r@ == split_seq(v@, ',')[0],
{
    let mut r: Vec<char> = Vec::new();
    let mut i: usize = 0;
    while i < v.len() && v[i] != ','
        invariant
            i <= v@.len(),
            r@ == v@.take(i as int),
            forall|k: int| 0 <= k < i ==> v@[k] != ',',
        decreases v@.len() - i,
    {
        r.push(v[i]);
        assert(v@.take(i + 1) == v@.take(i as int).push(v@[i as int]));
        i = i + 1;
    }
    proof {
        lemma_split_first_piece(v@, i as int);
        if i < v@.len() {
            let t = v@.take(i + 1);
            assert(t.drop_last() == v@.take(i as int));
            assert(t.last() == ',');
            lemma_split_prefix_first(v@, i + 1);
        } else {
            assert(v@.take(i as int) == v@);
        }
    }
    r
}

pub fn rate_limit_key(user_id: Option<&str>, sid: Option<&str>, forwarded: Option<&str>) -> (r:
    String)
    ensures
        r@ == client_key(header_view(user_id), header_view(sid), header_view(forwarded)),
{
    if let Some(u) = user_id {
        return concat("user:", u);
    }
    if let Some(s) = sid {
        return concat("sid:", s);
    }
    if let Some(f) = forwarded {
        let chars = chars_of(f);
        let first = before_first_comma(&chars);
        let first_text = string_of(&first);
        let ip = trim(first_text.as_str());
        if !ip.as_str().is_empty() {
            return concat("ip:", ip.as_str());
        }
    }
    to_string("anonymous")
}

/// What signing out does.
#[derive(Debug, Clone, Copy, PartialEq, Eq, Structural)]
pub enum LogoutAction {
    /// Refuse with 403: the CSRF token does not match the session's.
    RefuseBadToken,
    /// Delete the session, clear the cookie, answer 204.
    EndSession,
    /// No session: clear the cookie, answer 204.
    ClearCookie,
}

pub fn logout_action(session: &Option<Session>, csrf_header: Option<&str>) -> (a: LogoutAction)
    ensures
        a == match *session {
            None => LogoutAction::ClearCookie,
            Some(s) => if csrf_matches(header_view(csrf_header), s.csrf_token@) {
                LogoutAction::EndSession
            } else {
                LogoutAction::RefuseBadToken
            },
        },
{
    match session {
        None => LogoutAction::ClearCookie,
        Some(s) => {
            if csrf_ok(csrf_header, s.csrf_token.as_str()) {
                LogoutAction::EndSession
            } else {
                LogoutAction::RefuseBadToken
            }
        },
    }
}

/// The health check's answer: 200 with status `ok` when the database answered,
/// else 503 with status `error`.
pub fn health_report(database_ok: bool) -> (r: (u16, &'static str))
    ensures
        r.0 == if database_ok {
            200u16
        } else {
            503u16
        },
        r.1@ == if database_ok {
            "ok"@
        } else {
            "error"@
        },
{
    if database_ok {
        (200, "ok")
    } else {
        (503, "error")
    }
}

/// The first decision on GitHub's redirect back after sign-in.
pub enum CallbackStart {
    /// GitHub reported an error: drop the state, if given, and go home.
    GiveUp { pending_state: Option<String> },
    /// A required query value is missing: answer 400.
    Refuse(Refusal),
    /// Check the state, then exchange the code.
    Proceed { code: String, state: String },
}

pub fn callback_start(error: Option<String>, code: Option<String>, state: Option<String>) -> (r:
    CallbackStart)
    ensures
        error is Some ==> (r matches CallbackStart::GiveUp { pending_state: s } && s == state),
        error is None && code is None ==> (r matches CallbackStart::Refuse(f) && f.status == 400
            && f.message@ == "Missing code"@),
        error is None && code is Some && state is None ==> (r matches CallbackStart::Refuse(f)
            && f.status == 400 && f.message@ == "Missing state"@),
        error is None && code is Some && state is Some ==> (r matches CallbackStart::Proceed {
            code: c,
            state: s,
        } && Some(c) == code && Some(s) == state),
{
    if error.is_some() {
        return CallbackStart::GiveUp { pending_state: state };
    }
    match code {
        None => CallbackStart::Refuse(Refusal { status: 400, message: to_string("Missing code") }),
        Some(c) => match state {
            None => CallbackStart::Refuse(
                Refusal { status: 400, message: to_string("Missing state") },
            ),
            Some(s) => CallbackStart::Proceed { code: c, state: s },
        },
    }
}

/// An OAuth state is accepted when it was stored at most ten minutes ago.
pub const OAUTH_STATE_TTL_SEC: i64 = 600;

pub fn oauth_state_fresh(created_at: Option<i64>, now: i64) -> (r: bool)
    requires
        now >= i64::MIN + OAUTH_STATE_TTL_SEC,
    ensures
        r == (created_at matches Some(t) && t >= now - OAUTH_STATE_TTL_SEC),
{
    match created_at {
        Some(t) => t >= now - OAUTH_STATE_TTL_SEC,
        None => false,
    }
}

/// The name of the cookie that carries the session id.
pub const SESSION_COOKIE_NAME: &'static str = "sid";

/// The session cookie as the browser is told to store it.
pub struct SessionCookie {
    pub name: &'static str,
    pub value: String,
    pub http_only: bool,
    pub secure: bool,
    pub same_site_lax: bool,
    pub path: &'static str,
    pub max_age_sec: i64,
}

/// The flags every session cookie carries: named `sid`, hidden from scripts,
/// sent on top-level navigation only, for the whole site, and marked secure
/// exactly when the board is served over HTTPS.
pub open spec fn session_cookie_flags(c: SessionCookie, base_url: Seq<char>) -> bool {
    &&& c.name@ == SESSION_COOKIE_NAME@
    &&& c.http_only
    &&& c.same_site_lax
    &&& c.path@ == "/"@
    &&& c.secure == "https://"@.is_prefix_of(base_url)
}

/// The cookie that holds session `sid` for the session's lifetime.
pub fn session_cookie(config: &Config, sid: &str) -> (c: SessionCookie)
    ensures
        session_cookie_flags(c, config.base_url@),
        c.value@ == sid@,
        c.max_age_sec == config.session_ttl_sec,
{
    SessionCookie {
        name: SESSION_COOKIE_NAME,
        value: to_string(sid),
        http_only: true,
        secure: config.secure_cookies(),
        same_site_lax: true,
        path: "/",
        max_age_sec: config.session_ttl_sec,
    }
}

/// The cookie that tells the browser to forget the session.
pub fn cleared_cookie(config: &Config) -> (c: SessionCookie)
    ensures
        session_cookie_flags(c, config.base_url@),
        c.value@ == Seq::<char>::empty(),
        c.max_age_sec == 0,
{
    proof {
        reveal_strlit("");
    }
    SessionCookie {
        name: SESSION_COOKIE_NAME,
        value: to_string(""),
        http_only: true,
        secure: config.secure_cookies(),
        same_site_lax: true,
        path: "/",
        max_age_sec: 0,
    }
}

/// What one outside step of the sign-in callback reported, after `callback_start`
/// said to proceed.
pub enum CallbackEvent {
    /// The one-time state was looked up and deleted: `Some(fresh)`, or `None`
    /// when the store failed.
    StateConsumed(Option<bool>),
    /// Whether GitHub exchanged the code for a token.
    CodeExchanged(bool),
    /// Whether GitHub gave the signed-in user's profile.
    UserFetched(bool),
    /// Whether the user was stored.
    UserStored(bool),
    /// The id of the new session, or `None` when the store failed.
    SessionCreated(Option<String>),
}

/// What the sign-in callback does next.
pub enum CallbackAction {
    /// Answer with this refusal and stop.
    Refuse(Refusal),
    /// Exchange the code for a token at GitHub.
    ExchangeCode,
    /// Fetch the GitHub user with the token.
    FetchUser,
    /// Store the user, by GitHub id.
    StoreUser,
    /// Create a session for the stored user.
    CreateSession,
    /// Set this cookie and redirect to `/`.
    SignIn(SessionCookie),
}

/// The answer when a store step of the callback fails: 500 with no body.
pub open spec fn store_failed(a: CallbackAction) -> bool {
    a matches CallbackAction::Refuse(f) && f.status == 500 && f.message@.len() == 0
}

/// The answer when a GitHub step of the callback fails.
pub open spec fn github_failed(a: CallbackAction) -> bool {
    a matches CallbackAction::Refuse(f) && f.status == 502 && f.message@ == "GitHub sign-in failed"@
}

/// Decides the sign-in callback's next step from what the last one reported.
pub fn callback_step(config: &Config, event: CallbackEvent) -> (a: CallbackAction)
    ensures
        match event {
            CallbackEvent::StateConsumed(None) => store_failed(a),
            CallbackEvent::StateConsumed(Some(fresh)) => if fresh {
                a is ExchangeCode
            } else {
                a matches CallbackAction::Refuse(f) && f.status == 400 && f.message@
                    == "Invalid or expired state"@
            },
            CallbackEvent::CodeExchanged(ok) => if ok {
                a is FetchUser
            } else {
                github_failed(a)
            },
            CallbackEvent::UserFetched(ok) => if ok {
                a is StoreUser
            } else {
                github_failed(a)
            },
            CallbackEvent::UserStored(ok) => if ok {
                a is CreateSession
            } else {
                store_failed(a)
            },
            CallbackEvent::SessionCreated(None) => store_failed(a),
            CallbackEvent::SessionCreated(Some(sid)) => a matches CallbackAction::SignIn(c)
                && session_cookie_flags(c, config.base_url@) && c.value@ == sid@ && c.max_age_sec
                == config.session_ttl_sec,
        },
{
    proof {
        reveal_strlit("");
    }
    let store_failure = CallbackAction::Refuse(Refusal { status: 500, message: to_string("") });
    match event {
        CallbackEvent::StateConsumed(None) => store_failure,
        CallbackEvent::StateConsumed(Some(fresh)) => {
            if fresh {
                CallbackAction::ExchangeCode
            } else {
                CallbackAction::Refuse(
                    Refusal { status: 400, message: to_string("Invalid or expired state") },
                )
            }
        },
        CallbackEvent::CodeExchanged(ok) => {
            if ok {
                CallbackAction::FetchUser
            } else {
                CallbackAction::Refuse(
                    Refusal { status: 502, message: to_string("GitHub sign-in failed") },
                )
            }
        },
        CallbackEvent::UserFetched(ok) => {
            if ok {
                CallbackAction::StoreUser
            } else {
                CallbackAction::Refuse(
                    Refusal { status: 502, message: to_string("GitHub sign-in failed") },
                )
            }
        },
        CallbackEvent::UserStored(ok) => {
            if ok {
                CallbackAction::CreateSession
            } else {
                store_failure
            }
        },
        CallbackEvent::SessionCreated(None) => store_failure,
        CallbackEvent::SessionCreated(Some(sid)) => CallbackAction::SignIn(
            session_cookie(config, sid.as_str()),
        ),
    }
}

/// The sweep deletes sessions that expired before the first bound and OAuth
/// states stored before the second.
pub fn sweep_cutoffs(now: i64) -> (r: (i64, i64))
    requires
        now >= i64::MIN + OAUTH_STATE_TTL_SEC,
    ensures
        r == (now, (now - OAUTH_STATE_TTL_SEC) as i64),
{
    (now, now - OAUTH_STATE_TTL_SEC)
}

/// When a session created at `now` with lifetime `ttl_sec` expires.
pub fn session_expiry(now: i64, ttl_sec: i64) -> (r: i64)
    requires
        i64::MIN <= now + ttl_sec <= i64::MAX,
    ensures
        r == now + ttl_sec,
{
    now + ttl_sec
}

/// A session is live while its expiry lies in the future.
pub fn session_live(expires_at: i64, now: i64) -> (r: bool)
    ensures
        r == (expires_at > now),
{
    expires_at > now
}

pub const CONTENT_SECURITY_POLICY: &'static str = "default-src 'self'; base-uri 'self'; object-src 'none'; frame-ancestors 'none'; img-src 'self' https: data:; style-src 'self' 'unsafe-inline'; script-src 'self' 'unsafe-inline'; connect-src 'self'; form-action 'self' https://github.com";

/// The security headers every response carries; HSTS only when served over HTTPS.
pub open spec fn security_header_list(secure: bool) -> Seq<(Seq<char>, Seq<char>)> {
    let base = seq![
        ("content-security-policy"@, CONTENT_SECURITY_POLICY@),
        ("x-content-type-options"@, "nosniff"@),
        ("referrer-policy"@, "strict-origin-when-cross-origin"@),
        ("x-frame-options"@, "DENY"@),
        ("permissions-policy"@, "camera=(), microphone=(), geolocation=()"@),
    ];
    if secure {
        base.push(("strict-transport-security"@, "max-age=31536000; includeSubDomains"@))
    } else {
        base
    }
}

pub fn security_headers(secure: bool) -> (r: Vec<(&'static str, &'static str)>)
    ensures
        r@.map_values(|p: (&'static str, &'static str)| (p.0@, p.1@)) == security_header_list(
            secure,
        ),
{
    let mut r: Vec<(&'static str, &'static str)> = Vec::new();
    r.push(("content-security-policy", CONTENT_SECURITY_POLICY));
    r.push(("x-content-type-options", "nosniff"));
    r.push(("referrer-policy", "strict-origin-when-cross-origin"));
    r.push(("x-frame-options", "DENY"));
    r.push(("permissions-policy", "camera=(), microphone=(), geolocation=()"));
    if secure {
        r.push(("strict-transport-security", "max-age=31536000; includeSubDomains"));
    }
    assert(r@.map_values(|p: (&'static str, &'static str)| (p.0@, p.1@)) =~= security_header_list(
        secure,
    ));
    r
}

/// The URL that `url::Url` makes of `base` with the query pairs appended in order,
/// each `application/x-www-form-urlencoded`; `None` when `base` does not parse.
pub uninterp spec fn url_with_query(base: Seq<char>, pairs: Seq<(Seq<char>, Seq<char>)>) -> Option<
    Seq<char>,
>;

pub open spec fn pair_views(pairs: Seq<(String, String)>) -> Seq<(Seq<char>, Seq<char>)> {
    pairs.map_values(|p: (String, String)| (p.0@, p.1@))
}

/// `reqwest::Url::parse(base)`, then `query_pairs_mut().append_pair(..)` for each pair.
/// The contract claims only that the outcome depends on the arguments alone; the
/// URL grammar and the encoding are not stated.
#[verifier::external_body]
fn append_query(base: &str, pairs: &Vec<(String, String)>) -> (r: Option<String>)
    ensures
        match r {
            Some(u) => url_with_query(base@, pair_views(pairs@)) == Some(u@),
            None => url_with_query(base@, pair_views(pairs@)) is None,
        },
{
    let mut url = reqwest::Url::parse(base).ok()?;
    {
        let mut query = url.query_pairs_mut();
        for (name, value) in pairs.iter() {
            query.append_pair(name, value);
        }
    }
    Some(url.as_str().to_string())
}

pub const GITHUB_AUTHORIZE_URL: &'static str = "https://github.com/login/oauth/authorize";

/// The query of the GitHub sign-in page: the app, the one-time state, the
/// address to come back to, and that new accounts may sign up.
pub open spec fn authorize_pairs(client_id: Seq<char>, state: Seq<char>, redirect: Seq<char>) -> Seq<
    (Seq<char>, Seq<char>),
> {
    seq![
        ("client_id"@, client_id),
        ("state"@, state),
        ("redirect_uri"@, redirect),
        ("allow_signup"@, "true"@),
    ]
}

/// Where to send the browser to sign in with GitHub.
pub fn authorize_url(config: &Config, state: &str) -> (r: Option<String>)
    ensures
        ({
            let expected = url_with_query(
                GITHUB_AUTHORIZE_URL@,
                authorize_pairs(
                    config.github_client_id@,
                    state@,
                    config.base_url@ + "/api/auth/callback"@,
                ),
            );
            match r {
                Some(u) => expected == Some(u@),
                None => expected is None,
            }
        }),
{
    let mut pairs: Vec<(String, String)> = Vec::new();
    pairs.push((to_string("client_id"), config.github_client_id.clone()));
    pairs.push((to_string("state"), to_string(state)));
    pairs.push((to_string("redirect_uri"), config.callback_url()));
    pairs.push((to_string("allow_signup"), to_string("true")));
    assert(pair_views(pairs@) =~= authorize_pairs(
        config.github_client_id@,
        state@,
        config.base_url@ + "/api/auth/callback"@,
    ));
    append_query(GITHUB_AUTHORIZE_URL, &pairs)
}

/// Law: once the session's own CSRF token came with a valid payload, only a status
/// change is refused at this point, and only for someone who is not a moderator;
/// every other mutation, deleting or editing an idea included, goes on to the store,
/// which checks authorship.
pub proof fn lemma_only_status_change_needs_moderator(
    m: Mutation,
    session: Session,
    actor_is_moderator: bool,
)
    ensures
        m != Mutation::SetIdeaStatus ==> refusal_after_rate(
            m,
            session,
            Some(session.csrf_token@),
            Ok(()),
            actor_is_moderator,
        ) is None,
        m == Mutation::SetIdeaStatus ==> refusal_after_rate(
            m,
            session,
            Some(session.csrf_token@),
            Ok(()),
            actor_is_moderator,
        ) == if actor_is_moderator {
            None
        } else {
            Some((403u16, "Only moderators can update idea status"@))
        },
{
}

/// Law: which requests are rate-limited and how: idea submissions 5 an hour,
/// comments 5 in five minutes, idea and comment upvote changes 120 a minute each;
/// no other mutation is counted.
pub proof fn lemma_rate_rules(m: Mutation)
    ensures
        rate_rule_spec(m) is Some <==> (m == Mutation::CreateIdea || m == Mutation::CreateComment
            || m == Mutation::SetUpvote || m == Mutation::SetCommentUpvote),
        m == Mutation::CreateIdea ==> rate_rule_spec(m) == Some(
            ("create_idea"@, 5u32, 3_600_000u64, "Too many idea submissions"@),
        ),
        m == Mutation::CreateComment ==> rate_rule_spec(m) == Some(
            ("comment"@, 5u32, 300_000u64, "Too many comments"@),
        ),
        m == Mutation::SetUpvote ==> rate_rule_spec(m) == Some(
            ("upvote"@, 120u32, 60_000u64, "Too many upvote changes"@),
        ),
        m == Mutation::SetCommentUpvote ==> rate_rule_spec(m) == Some(
            ("comment-upvote"@, 120u32, 60_000u64, "Too many upvote changes"@),
        ),
{
}

/// Law: each kind of rate-limited request is counted under a scope of its own, so
/// for any client key the buckets of two kinds differ and requests of one kind
/// never use up another kind's limit.
pub proof fn lemma_rate_scopes_apart(m1: Mutation, m2: Mutation, key: Seq<char>)
    requires
        m1 != m2,
        rate_rule_spec(m1) is Some,
        rate_rule_spec(m2) is Some,
    ensures
        rate_rule_spec(m1).unwrap().0 != rate_rule_spec(m2).unwrap().0,
        bucket_key(rate_rule_spec(m1).unwrap().0, key) != bucket_key(rate_rule_spec(m2).unwrap().0, key),
{
    reveal_strlit("create_idea");
    reveal_strlit("comment");
    reveal_strlit("upvote");
    reveal_strlit("comment-upvote");
    reveal_strlit(":");
    let s1 = rate_rule_spec(m1).unwrap().0;
    let s2 = rate_rule_spec(m2).unwrap().0;
    assert(s1.len() != s2.len());
    assert(bucket_key(s1, key).len() != bucket_key(s2, key).len());
}

/// Law: with the session's own CSRF token, a payload that does not validate is
/// refused with 400 and its own message, whoever sends it.
pub proof fn lemma_invalid_payload_is_bad_request(
    m: Mutation,
    session: Session,
    message: String,
    actor_is_moderator: bool,
)
    ensures
        refusal_after_rate(
            m,
            session,
            Some(session.csrf_token@),
            Err(message),
            actor_is_moderator,
        ) == Some((400u16, message@)),
{
}

/// Law: the security headers and their values.
pub proof fn lemma_security_header_values(secure: bool)
    ensures
        security_header_list(secure).take(5) == seq![
            ("content-security-policy"@, CONTENT_SECURITY_POLICY@),
            ("x-content-type-options"@, "nosniff"@),
            ("referrer-policy"@, "strict-origin-when-cross-origin"@),
            ("x-frame-options"@, "DENY"@),
            ("permissions-policy"@, "camera=(), microphone=(), geolocation=()"@),
        ],
{
    assert(security_header_list(secure).take(5) =~= seq![
        ("content-security-policy"@, CONTENT_SECURITY_POLICY@),
        ("x-content-type-options"@, "nosniff"@),
        ("referrer-policy"@, "strict-origin-when-cross-origin"@),
        ("x-frame-options"@, "DENY"@),
        ("permissions-policy"@, "camera=(), microphone=(), geolocation=()"@),
    ]);
}

/// Law: a mutation that passes the checks after the rate limit was sent with the
/// session's own CSRF token and a valid payload, and a status change only by a moderator.
pub proof fn lemma_admitted_mutations_carry_the_token(
    m: Mutation,
    session: Session,
    csrf_header: Option<Seq<char>>,
    payload: Result<(), String>,
    actor_is_moderator: bool,
)
    requires
        refusal_after_rate(m, session, csrf_header, payload, actor_is_moderator) is None,
    ensures
        csrf_header == Some(session.csrf_token@),
        payload is Ok,
        m == Mutation::SetIdeaStatus ==> actor_is_moderator,
{
}

/// Law: a mutation sent without the session's CSRF token is refused with 403,
/// whatever its payload.
pub proof fn lemma_missing_token_forbidden(
    m: Mutation,
    session: Session,
    csrf_header: Option<Seq<char>>,
    payload: Result<(), String>,
    actor_is_moderator: bool,
)
    requires
        csrf_header != Some(session.csrf_token@),
    ensures
        refusal_after_rate(m, session, csrf_header, payload, actor_is_moderator) == Some(
            (403u16, "Bad CSRF token"@),
        ),
{
}

/// Law: HSTS is sent exactly when the board is served over HTTPS; the other
/// security headers always are.
pub proof fn lemma_hsts_only_when_secure(secure: bool)
    ensures
        security_header_list(secure).len() == if secure {
            6int
        } else {
            5int
        },
        security_header_list(secure).take(5) == security_header_list(false),
        secure ==> security_header_list(secure)[5] == (
            "strict-transport-security"@,
            "max-age=31536000; includeSubDomains"@,
        ),
{
    assert(security_header_list(false).take(5) == security_header_list(false));
}

} // verus!
