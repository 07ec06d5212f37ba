use argon2::password_hash::SaltString;
use argon2::{Argon2, PasswordHasher};
use zblog_server::config::Config;
use zblog_server::domain::article::{Article, ArticleStatus};
use zblog_server::error::AppError;
use zblog_server::interfaces::http::admin::{check_password, deletion_result, found_or_not_found, require_title};
use zblog_server::interfaces::http::articles::published_only;
use zblog_server::interfaces::http::dto::{DailyQuery, LimitQuery};
use zblog_server::interfaces::http::middleware::{session_is_valid, AUTH_COOKIE, AUTH_VALUE};
use zblog_server::interfaces::http::pageviews::pageview_from_request;
use axum_extra::extract::cookie::Key;
use zblog_server::interfaces::http::session::{cookie_key_material, session_key};
use zblog_server::interfaces::http::stats::days_modifier;

fn article(status: ArticleStatus) -> Article {
    Article {
        id: 1,
        title: "Alpha Notes".to_string(),
        slug: "alpha-notes".to_string(),
        markdown: "# alpha body".to_string(),
        status,
        created_at: "2026-01-01 00:00:00".to_string(),
        updated_at: "2026-01-01 00:00:00".to_string(),
        published_at: None,
    }
}

#[test]
fn drafts_are_invisible_to_visitors() {
    assert!(published_only(Some(article(ArticleStatus::Published))).is_ok());
    assert!(matches!(published_only(Some(article(ArticleStatus::Draft))), Err(AppError::NotFound)));
    assert!(matches!(published_only(None), Err(AppError::NotFound)));
}

#[test]
fn blank_titles_are_rejected() {
    assert!(require_title("Draft One").is_ok());
    match require_title("  ") {
        Err(AppError::BadRequest(m)) => assert_eq!(m, "title must not be empty"),
        _ => panic!("expected a bad request"),
    }
    assert!(require_title("\t\n\u{3000}").is_err());
    assert!(require_title("").is_err());
}

#[test]
fn admin_lookups_and_deletes() {
    assert!(found_or_not_found(Some(article(ArticleStatus::Draft))).is_ok());
    assert!(matches!(found_or_not_found(None), Err(AppError::NotFound)));
    assert!(matches!(deletion_result(0), Err(AppError::NotFound)));
    assert!(deletion_result(1).is_ok());
}

#[test]
fn pageview_reports() {
    match pageview_from_request(String::new(), None, "1.1.1.1".into(), None, None) {
        Err(AppError::BadRequest(m)) => assert_eq!(m, "path must not be empty"),
        _ => panic!("expected a bad request"),
    }
    let pv = pageview_from_request("/posts/x".into(), Some(3), "127.0.0.1".into(), Some("curl-test".into()), None).unwrap();
    assert_eq!(pv.path, "/posts/x");
    assert_eq!(pv.article_id, Some(3));
    assert_eq!(pv.ip, "127.0.0.1");
    assert_eq!(pv.user_agent, "curl-test");
    assert_eq!(pv.referer, "");
}

#[test]
fn stats_query_defaults_and_window() {
    assert_eq!(DailyQuery { days: None }.days_or_default(), 30);
    assert_eq!(DailyQuery { days: Some(7) }.days_or_default(), 7);
    assert_eq!(LimitQuery { limit: None }.limit_or_default(), 20);
    assert_eq!(LimitQuery { limit: Some(5) }.limit_or_default(), 5);
    assert_eq!(days_modifier(30), "-30 days");
    assert_eq!(days_modifier(0), "-0 days");
    assert_eq!(days_modifier(-5), "--5 days");
    assert_eq!(days_modifier(i64::MIN), "--9223372036854775808 days");
}

#[test]
fn session_cookie_check() {
    assert_eq!(AUTH_COOKIE, "zblog_auth");
    assert!(session_is_valid(Some(AUTH_VALUE)));
    assert!(!session_is_valid(Some("authenticated ")));
    assert!(!session_is_valid(None));
}

#[test]
fn cookie_key_material_cycles_the_secret() {
    let m = cookie_key_material("test-secret");
    assert_eq!(m.len(), 64);
    assert_eq!(&m[..11], b"test-secret");
    assert_eq!(&m[11..22], b"test-secret");
    assert_eq!(m[63], b"test-secret"[63 % 11]);
    assert_eq!(cookie_key_material(""), vec![0u8; 64]);
}

#[test]
fn config_defaults_and_missing_variables() {
    let c = Config::from_vars(None, None, Some("h".into()), Some("s".into())).unwrap();
    assert_eq!(c.bind_addr, "127.0.0.1:8080");
    assert_eq!(c.database_url, "sqlite:zblog.db");
    assert_eq!(c.password_hash, "h");
    assert_eq!(c.session_secret, "s");
    let c = Config::from_vars(Some("0.0.0.0:80".into()), Some("sqlite:x.db".into()), Some("h".into()), Some("s".into())).unwrap();
    assert_eq!(c.bind_addr, "0.0.0.0:80");
    assert_eq!(c.database_url, "sqlite:x.db");
    match Config::from_vars(None, None, None, None) {
        Err(AppError::Internal(m)) => assert_eq!(m, "missing env var ZBLOG_PASSWORD_HASH"),
        _ => panic!("expected a missing variable"),
    }
    match Config::from_vars(None, None, Some("h".into()), None) {
        Err(AppError::Internal(m)) => assert_eq!(m, "missing env var ZBLOG_SESSION_SECRET"),
        _ => panic!("expected a missing variable"),
    }
}

#[test]
fn error_statuses_and_messages() {
    assert_eq!(AppError::NotFound.status_code(), 404);
    assert_eq!(AppError::NotFound.message(), "not found");
    assert_eq!(AppError::Unauthorized.status_code(), 401);
    assert_eq!(AppError::Unauthorized.message(), "unauthorized");
    assert_eq!(AppError::BadRequest("x".into()).status_code(), 400);
    assert_eq!(AppError::BadRequest("x".into()).message(), "bad request: x");
    assert_eq!(AppError::TooManyAttempts(12).status_code(), 429);
    assert_eq!(AppError::TooManyAttempts(12).message(), "too_many_attempts");
    assert_eq!(AppError::TooManyAttempts(12).retry_after(), Some(12));
    assert_eq!(AppError::NotFound.retry_after(), None);
    assert_eq!(AppError::Internal("boom".into()).status_code(), 500);
    assert_eq!(AppError::Internal("boom".into()).message(), "internal error: boom");
    let db = AppError::Db(sqlx::Error::RowNotFound);
    assert_eq!(db.status_code(), 500);
    assert!(db.message().starts_with("database error: "));
}

#[test]
fn password_checks() {
    match check_password("x", "") {
        Err(AppError::Internal(m)) => {
            assert_eq!(m, "invalid ZBLOG_PASSWORD_HASH: password hash string missing field")
        }
        _ => panic!("expected an invalid hash"),
    }
    assert!(matches!(check_password("x", "not-a-phc-string"), Err(AppError::Internal(_))));
    let salt = SaltString::from_b64("c29tZXNhbHQ").unwrap();
    let hash = Argon2::default()
        .hash_password(b"test-password", &salt)
        .unwrap()
        .to_string();
    assert!(check_password("test-password", &hash).is_ok());
    assert!(matches!(check_password("wrong", &hash), Err(AppError::Unauthorized)));
}

#[test]
fn session_key_is_built_from_the_cycled_secret() {
    let expected = Key::from(&cookie_key_material("test-secret"));
    assert!(session_key("test-secret") == expected);
    assert!(session_key("other-secret") != expected);
    assert!(session_key("") == Key::from(&[0u8; 64]));
}
