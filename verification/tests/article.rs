use zblog_server::domain::article::{slugify, ArticleStatus};
use zblog_server::error::AppError;

#[test]
fn slugify_basic_ascii() {
    assert_eq!(slugify("Hello World"), "hello-world");
}

#[test]
fn slugify_strips_punctuation_and_collapses_dashes() {
    assert_eq!(slugify("Rust 1.0:  新特性!"), "rust-1-0");
}

#[test]
fn slugify_chinese_only_is_empty() {
    assert_eq!(slugify("中文标题"), "");
}

#[test]
fn status_roundtrip() {
    assert_eq!(ArticleStatus::parse("draft").unwrap(), ArticleStatus::Draft);
    assert_eq!(
        ArticleStatus::parse("published").unwrap().as_str(),
        "published"
    );
    assert!(ArticleStatus::parse("archived").is_err());
}

#[test]
fn status_parse_error_names_the_value() {
    match ArticleStatus::parse("archived") {
        Err(AppError::Internal(m)) => assert_eq!(m, "unknown article status: archived"),
        other => panic!("unexpected {other:?}"),
    }
}

#[test]
fn status_as_str_parses_back() {
    for s in [ArticleStatus::Draft, ArticleStatus::Published] {
        assert_eq!(ArticleStatus::parse(s.as_str()).unwrap(), s);
    }
    assert_eq!(ArticleStatus::Draft.as_str(), "draft");
}

#[test]
fn slugify_edges() {
    assert_eq!(slugify(""), "");
    assert_eq!(slugify("---"), "");
    assert_eq!(slugify("  Leading and trailing  "), "leading-and-trailing");
    assert_eq!(slugify("a--b__c"), "a-b-c");
    assert_eq!(slugify("ABC123"), "abc123");
}

#[test]
fn slugify_uses_unicode_lowercase() {
    // KELVIN SIGN lower-cases to an ASCII 'k'.
    assert_eq!(slugify("\u{212A}elvin"), "kelvin");
    // Accented letters are not ASCII and separate runs.
    assert_eq!(slugify("Café Crème"), "caf-cr-me");
}

#[test]
fn slug_is_its_own_slug() {
    for title in ["Hello World", "Rust 1.0:  新特性!", "x-1-y", "post-2"] {
        let s = slugify(title);
        assert_eq!(slugify(&s), s);
    }
}
