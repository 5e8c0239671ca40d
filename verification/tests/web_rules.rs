use ideas::assets::{asset_headers, asset_path, is_cached_forever};
use ideas::config::Config;
use ideas::domain::{Session, User};
use ideas::rate_limit::RateLimiter;
use ideas::web::{
    authorize_url, callback_start, callback_step, check_login, check_mutation, cleared_cookie,
    csrf_ok, health_report, logout_action, oauth_state_fresh, rate_limit_key, security_headers,
    session_cookie, session_expiry, session_live, sweep_cutoffs, CallbackAction, CallbackEvent,
    CallbackStart, LogoutAction, Mutation, SessionCookie, CONTENT_SECURITY_POLICY,
};

fn session(user_id: &str, csrf: &str) -> Session {
    Session {
        sid: "sid".to_string(),
        user_id: user_id.to_string(),
        csrf_token: csrf.to_string(),
        expires_at: 100,
        user: User {
            id: user_id.to_string(),
            github_id: 1,
            login: "carol".to_string(),
            avatar_url: "https://example.com/c.png".to_string(),
            created_at: 0,
            updated_at: 0,
        },
    }
}

fn config(client_id: &str, enabled: bool, base_url: &str) -> Config {
    Config {
        github_client_id: client_id.to_string(),
        github_client_secret: "client-secret".to_string(),
        github_login_enabled: enabled,
        base_url: base_url.to_string(),
        session_ttl_sec: 3600,
        moderator_logins: Vec::new(),
    }
}

fn status(r: Result<(), ideas::web::Refusal>) -> Option<(u16, String)> {
    r.err().map(|f| (f.status, f.message))
}

#[test]
fn mutation_without_session_is_unauthorized_and_not_counted() {
    let mut limiter = RateLimiter::new();
    for _ in 0..10 {
        assert_eq!(
            status(check_mutation(Mutation::CreateIdea, &None, &mut limiter, None, Ok(()), false, 0)),
            Some((401, String::new()))
        );
    }
    let s = Some(session("u1", "tok"));
    assert_eq!(
        status(check_mutation(Mutation::CreateIdea, &s, &mut limiter, Some("tok"), Ok(()), false, 0)),
        None
    );
}

#[test]
fn mutation_checks_in_order() {
    let mut limiter = RateLimiter::new();
    let s = Some(session("u1", "tok"));
    assert_eq!(
        status(check_mutation(Mutation::UpdateIdea, &s, &mut limiter, Some("bad"), Err("Title".to_string()), false, 0)),
        Some((403, "Bad CSRF token".to_string()))
    );
    assert_eq!(
        status(check_mutation(Mutation::UpdateIdea, &s, &mut limiter, None, Ok(()), false, 0)),
        Some((403, "Bad CSRF token".to_string()))
    );
    assert_eq!(
        status(check_mutation(Mutation::UpdateIdea, &s, &mut limiter, Some("tok"), Err("Title".to_string()), false, 0)),
        Some((400, "Title".to_string()))
    );
    assert_eq!(
        status(check_mutation(Mutation::SetIdeaStatus, &s, &mut limiter, Some("tok"), Ok(()), false, 0)),
        Some((403, "Only moderators can update idea status".to_string()))
    );
    assert_eq!(
        status(check_mutation(Mutation::SetIdeaStatus, &s, &mut limiter, Some("tok"), Ok(()), true, 0)),
        None
    );
    assert_eq!(
        status(check_mutation(Mutation::DeleteComment, &s, &mut limiter, Some("tok"), Ok(()), false, 0)),
        None
    );
}

#[test]
fn idea_creation_is_rate_limited_per_user() {
    let mut limiter = RateLimiter::new();
    let s = Some(session("u1", "tok"));
    for _ in 0..5 {
        assert_eq!(
            status(check_mutation(Mutation::CreateIdea, &s, &mut limiter, Some("tok"), Ok(()), false, 0)),
            None
        );
    }
    assert_eq!(
        status(check_mutation(Mutation::CreateIdea, &s, &mut limiter, Some("tok"), Ok(()), false, 0)),
        Some((429, "Too many idea submissions".to_string()))
    );
    // The rate limit comes before the CSRF check.
    assert_eq!(
        status(check_mutation(Mutation::CreateIdea, &s, &mut limiter, Some("bad"), Ok(()), false, 0)),
        Some((429, "Too many idea submissions".to_string()))
    );
    let other = Some(session("u2", "tok2"));
    assert_eq!(
        status(check_mutation(Mutation::CreateIdea, &other, &mut limiter, Some("tok2"), Ok(()), false, 0)),
        None
    );
    assert_eq!(
        status(check_mutation(Mutation::CreateIdea, &s, &mut limiter, Some("tok"), Ok(()), false, 3_600_001)),
        None
    );
}

#[test]
fn comments_and_upvotes_have_their_own_limits() {
    let mut limiter = RateLimiter::new();
    let s = Some(session("u1", "tok"));
    for _ in 0..5 {
        assert!(check_mutation(Mutation::CreateComment, &s, &mut limiter, Some("tok"), Ok(()), false, 0).is_ok());
    }
    assert_eq!(
        status(check_mutation(Mutation::CreateComment, &s, &mut limiter, Some("tok"), Ok(()), false, 0)),
        Some((429, "Too many comments".to_string()))
    );
    for _ in 0..120 {
        assert!(check_mutation(Mutation::SetUpvote, &s, &mut limiter, Some("tok"), Ok(()), false, 0).is_ok());
    }
    assert_eq!(
        status(check_mutation(Mutation::SetUpvote, &s, &mut limiter, Some("tok"), Ok(()), false, 0)),
        Some((429, "Too many upvote changes".to_string()))
    );
    assert!(check_mutation(Mutation::SetCommentUpvote, &s, &mut limiter, Some("tok"), Ok(()), false, 0).is_ok());
}

#[test]
fn login_checks() {
    let mut limiter = RateLimiter::new();
    let good = config("client-id", true, "http://localhost:4321");
    for _ in 0..10 {
        assert_eq!(status(check_login(&good, &mut limiter, "ip:203.0.113.1", 0)), None);
    }
    assert_eq!(
        status(check_login(&good, &mut limiter, "ip:203.0.113.1", 0)),
        Some((429, "Too many login attempts".to_string()))
    );
    assert_eq!(
        status(check_login(&config("id", false, ""), &mut limiter, "k", 0)),
        Some((503, "GitHub login is temporarily disabled.".to_string()))
    );
    assert_eq!(
        status(check_login(&config("", true, ""), &mut limiter, "k", 0)),
        Some((503, "Missing GITHUB_CLIENT_ID".to_string()))
    );
}

#[test]
fn client_keys() {
    assert_eq!(rate_limit_key(Some("u"), Some("s"), Some("1.2.3.4")), "user:u");
    assert_eq!(rate_limit_key(None, Some("s"), Some("1.2.3.4")), "sid:s");
    assert_eq!(rate_limit_key(None, None, Some(" 203.0.113.1 , 10.0.0.1")), "ip:203.0.113.1");
    assert_eq!(rate_limit_key(None, None, Some("  ,10.0.0.1")), "anonymous");
    assert_eq!(rate_limit_key(None, None, None), "anonymous");
}

#[test]
fn csrf_and_logout() {
    assert!(csrf_ok(Some("tok"), "tok"));
    assert!(!csrf_ok(Some("tok "), "tok"));
    assert!(!csrf_ok(None, "tok"));
    let s = Some(session("u", "tok"));
    assert_eq!(logout_action(&s, Some("tok")), LogoutAction::EndSession);
    assert_eq!(logout_action(&s, Some("other")), LogoutAction::RefuseBadToken);
    assert_eq!(logout_action(&None, None), LogoutAction::ClearCookie);
}

#[test]
fn callback_decisions() {
    match callback_start(Some("access_denied".to_string()), None, Some("st".to_string())) {
        CallbackStart::GiveUp { pending_state } => assert_eq!(pending_state.as_deref(), Some("st")),
        _ => panic!("expected give up"),
    }
    match callback_start(None, None, Some("st".to_string())) {
        CallbackStart::Refuse(f) => assert_eq!((f.status, f.message.as_str()), (400, "Missing code")),
        _ => panic!("expected refusal"),
    }
    match callback_start(None, Some("c".to_string()), None) {
        CallbackStart::Refuse(f) => assert_eq!((f.status, f.message.as_str()), (400, "Missing state")),
        _ => panic!("expected refusal"),
    }
    match callback_start(None, Some("c".to_string()), Some("st".to_string())) {
        CallbackStart::Proceed { code, state } => assert_eq!((code.as_str(), state.as_str()), ("c", "st")),
        _ => panic!("expected to proceed"),
    }
}

#[test]
fn session_and_state_times() {
    assert!(oauth_state_fresh(Some(400), 1000));
    assert!(!oauth_state_fresh(Some(399), 1000));
    assert!(!oauth_state_fresh(None, 1000));
    assert_eq!(sweep_cutoffs(1000), (1000, 400));
    assert_eq!(session_expiry(1000, 3600), 4600);
    assert!(session_live(1001, 1000));
    assert!(!session_live(1000, 1000));
}

#[test]
fn security_header_set() {
    let plain = security_headers(false);
    assert_eq!(plain.len(), 5);
    assert_eq!(plain[0], ("content-security-policy", CONTENT_SECURITY_POLICY));
    assert!(plain.contains(&("x-frame-options", "DENY")));
    assert!(plain.contains(&("x-content-type-options", "nosniff")));
    assert!(!plain.iter().any(|(name, _)| *name == "strict-transport-security"));
    let secure = security_headers(true);
    assert!(secure.contains(&("strict-transport-security", "max-age=31536000; includeSubDomains")));
}

#[test]
fn github_authorize_url_carries_the_query() {
    let url = authorize_url(&config("client-id", true, "http://localhost:4321"), "st-1").expect("valid url");
    assert_eq!(
        url,
        "https://github.com/login/oauth/authorize?client_id=client-id&state=st-1&redirect_uri=http%3A%2F%2Flocalhost%3A4321%2Fapi%2Fauth%2Fcallback&allow_signup=true"
    );
}

#[test]
fn asset_rules() {
    assert_eq!(asset_path("/"), "index.html");
    assert_eq!(asset_path(""), "index.html");
    assert_eq!(asset_path("//_app/x.js"), "_app/x.js");
    assert!(is_cached_forever("_app/immutable/a.js"));
    assert!(is_cached_forever("_astro/a"));
    assert!(is_cached_forever("favicon.png"));
    assert!(!is_cached_forever("index.html"));
    assert!(!is_cached_forever("about"));
    let css = asset_headers("styles/app.css");
    assert_eq!(css.content_type, "text/css");
    assert!(css.cache_forever);
    let unknown = asset_headers("LICENSE");
    assert_eq!(unknown.content_type, "application/octet-stream");
    assert!(!unknown.cache_forever);
}

fn refusal_of(a: CallbackAction) -> Option<(u16, String)> {
    match a {
        CallbackAction::Refuse(f) => Some((f.status, f.message)),
        _ => None,
    }
}

fn cookie_parts(c: &SessionCookie) -> (&str, &str, bool, bool, bool, &str, i64) {
    (c.name, c.value.as_str(), c.http_only, c.secure, c.same_site_lax, c.path, c.max_age_sec)
}

#[test]
fn session_cookie_flags_follow_the_base_url() {
    let https = config("id", true, "https://ideas.example.com");
    let c = session_cookie(&https, "abc");
    assert_eq!(cookie_parts(&c), ("sid", "abc", true, true, true, "/", 3600));
    let http = config("id", true, "http://localhost:3000");
    let c = session_cookie(&http, "abc");
    assert_eq!(cookie_parts(&c), ("sid", "abc", true, false, true, "/", 3600));
}

#[test]
fn cleared_cookie_expires_at_once() {
    let https = config("id", true, "https://ideas.example.com");
    assert_eq!(cookie_parts(&cleared_cookie(&https)), ("sid", "", true, true, true, "/", 0));
    let http = config("id", true, "http://localhost:3000");
    assert_eq!(cookie_parts(&cleared_cookie(&http)), ("sid", "", true, false, true, "/", 0));
}

#[test]
fn callback_refuses_a_stale_or_unknown_state() {
    let c = config("id", true, "https://ideas.example.com");
    assert_eq!(
        refusal_of(callback_step(&c, CallbackEvent::StateConsumed(Some(false)))),
        Some((400, "Invalid or expired state".to_string()))
    );
    assert_eq!(
        refusal_of(callback_step(&c, CallbackEvent::StateConsumed(None))),
        Some((500, String::new()))
    );
    assert!(matches!(
        callback_step(&c, CallbackEvent::StateConsumed(Some(true))),
        CallbackAction::ExchangeCode
    ));
}

#[test]
fn callback_steps_through_github_and_the_store() {
    let c = config("id", true, "https://ideas.example.com");
    let failed = Some((502, "GitHub sign-in failed".to_string()));
    assert_eq!(refusal_of(callback_step(&c, CallbackEvent::CodeExchanged(false))), failed);
    assert_eq!(refusal_of(callback_step(&c, CallbackEvent::UserFetched(false))), failed);
    assert_eq!(
        refusal_of(callback_step(&c, CallbackEvent::UserStored(false))),
        Some((500, String::new()))
    );
    assert_eq!(
        refusal_of(callback_step(&c, CallbackEvent::SessionCreated(None))),
        Some((500, String::new()))
    );
    assert!(matches!(
        callback_step(&c, CallbackEvent::CodeExchanged(true)),
        CallbackAction::FetchUser
    ));
    assert!(matches!(
        callback_step(&c, CallbackEvent::UserFetched(true)),
        CallbackAction::StoreUser
    ));
    assert!(matches!(
        callback_step(&c, CallbackEvent::UserStored(true)),
        CallbackAction::CreateSession
    ));
}

#[test]
fn callback_signs_in_with_the_session_cookie() {
    let c = config("id", true, "https://ideas.example.com");
    match callback_step(&c, CallbackEvent::SessionCreated(Some("s-1".to_string()))) {
        CallbackAction::SignIn(cookie) => {
            assert_eq!(cookie_parts(&cookie), ("sid", "s-1", true, true, true, "/", 3600));
        }
        _ => panic!("expected a sign-in"),
    }
}

#[test]
fn health_report_follows_the_database() {
    assert_eq!(health_report(true), (200, "ok"));
    assert_eq!(health_report(false), (503, "error"));
}
