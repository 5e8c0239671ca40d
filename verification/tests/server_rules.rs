use ideas::config::Config;
use ideas::rate_limit::RateLimiter;
use ideas::validate::{validate_comment, validate_idea};

#[test]
fn validates_idea_lengths() {
    assert!(validate_idea(
        "A valid title",
        "This body is definitely longer than thirty chars."
    )
    .is_ok());
    assert!(validate_idea("short", "This body is definitely longer than thirty chars.").is_err());
}

#[test]
fn moderator_login_matching_is_case_insensitive() {
    let config = Config {
        github_client_id: String::new(),
        github_client_secret: String::new(),
        github_login_enabled: true,
        base_url: "http://localhost:4321".to_string(),
        session_ttl_sec: 3600,
        moderator_logins: vec!["alice".to_string()],
    };

    assert!(config.is_moderator("Alice"));
    assert!(config.is_moderator("ALICE"));
    assert!(!config.is_moderator("bob"));
}

#[test]
fn rate_limiter_enforces_window_limit() {
    let mut limiter = RateLimiter::default();
    assert!(limiter.allow("test", "key", 1, 60_000, 0));
    assert!(!limiter.allow("test", "key", 1, 60_000, 0));
}

#[test]
fn idea_validation_messages_name_the_field() {
    assert_eq!(
        validate_idea("short", "This body is definitely longer than thirty chars."),
        Err("Title must be 10–300 characters".to_string())
    );
    assert_eq!(
        validate_idea("A valid title", "too short"),
        Err("Body must be 30–10000 characters".to_string())
    );
    // Surrounding white space does not count towards the length.
    assert!(validate_idea("   short    ", &"x".repeat(40)).is_err());
    assert!(validate_idea(&"t".repeat(300), &"b".repeat(10_000)).is_ok());
    assert!(validate_idea(&"t".repeat(301), &"b".repeat(40)).is_err());
    assert!(validate_idea(&"t".repeat(10), &"b".repeat(10_001)).is_err());
}

#[test]
fn comment_validation_bounds() {
    assert!(validate_comment("a").is_ok());
    assert_eq!(
        validate_comment("   \n\t "),
        Err("Comment must be 1–2000 characters".to_string())
    );
    assert!(validate_comment(&"c".repeat(2000)).is_ok());
    assert!(validate_comment(&"c".repeat(2001)).is_err());
}

#[test]
fn rate_limiter_window_resets_and_keys_are_separate() {
    let mut limiter = RateLimiter::new();
    assert!(limiter.allow("scope", "a", 2, 1_000, 0));
    assert!(limiter.allow("scope", "a", 2, 1_000, 10));
    assert!(!limiter.allow("scope", "a", 2, 1_000, 20));
    // Another key and another scope are counted apart.
    assert!(limiter.allow("scope", "b", 2, 1_000, 20));
    assert!(limiter.allow("other", "a", 2, 1_000, 20));
    // Once the window has run out, the key starts afresh.
    assert!(limiter.allow("scope", "a", 2, 1_000, 1_001));
    assert!(limiter.allow("scope", "a", 2, 1_000, 1_002));
    assert!(!limiter.allow("scope", "a", 2, 1_000, 1_003));
    // A zero limit refuses everything.
    assert!(!limiter.allow("none", "a", 0, 1_000, 0));
}

#[test]
fn config_from_settings_defaults_and_parsing() {
    let config = Config::from_settings(None, None, None, None, None);
    assert!(config.github_login_enabled);
    assert_eq!(config.base_url, "http://localhost:4321");
    assert_eq!(config.session_ttl_sec, 7 * 24 * 3600);
    assert!(config.moderator_logins.is_empty());
    assert!(!config.secure_cookies());

    let config = Config::from_settings(
        Some("id".to_string()),
        Some("secret".to_string()),
        Some("false".to_string()),
        Some("https://ideas.example.com".to_string()),
        Some(" Alice, bob ,,ALICE, ".to_string()),
    );
    assert!(!config.github_login_enabled);
    assert!(config.secure_cookies());
    assert_eq!(config.github_client_id, "id");
    let mut logins = config.moderator_logins.clone();
    logins.sort();
    assert_eq!(logins, vec!["alice".to_string(), "bob".to_string()]);
    assert!(config.is_moderator("BOB"));
    assert_eq!(config.callback_url(), "https://ideas.example.com/api/auth/callback");

    let enabled = Config::from_settings(None, None, Some("no".to_string()), None, None);
    assert!(enabled.github_login_enabled);
}

#[test]
fn login_list_parsing() {
    assert!(ideas::config::parse_login_list("").is_empty());
    assert!(ideas::config::parse_login_list(" , ,").is_empty());
    assert_eq!(
        ideas::config::parse_login_list("Carol"),
        vec!["carol".to_string()]
    );
}

#[test]
fn database_urls() {
    assert_eq!(ideas::config::database_url("./data/ideas.db"), "sqlite://./data/ideas.db");
    assert_eq!(ideas::config::database_url("sqlite::memory:"), "sqlite::memory:");
}

#[test]
fn rate_limiter_counts_a_key_across_interleaved_calls() {
    let mut limiter = RateLimiter::new();
    assert!(limiter.allow("scope", "a", 3, 1_000, 100));
    // Calls for other keys, with their own limits and windows, fall in between.
    assert!(limiter.allow("scope", "b", 1, 600, 300));
    assert!(!limiter.allow("scope", "b", 1, 600, 400));
    assert!(limiter.allow("scope", "a", 3, 1_000, 500));
    assert!(limiter.allow("other", "a", 5, 2_000, 700));
    assert!(limiter.allow("scope", "a", 3, 1_000, 900));
    // The fourth call for the key within its window is refused, and so is every later one.
    assert!(!limiter.allow("scope", "a", 3, 1_000, 1_000));
    assert!(!limiter.allow("scope", "a", 3, 1_000, 1_100));
}
