use zblog_server::domain::article::ArticleStatus;
use zblog_server::error::AppError;
use zblog_server::infrastructure::article_repo::{
    changed_row, check_update_slug, found_row, rows_to_articles, update_result, ArticleRow,
    CreateAction, InsertOutcome, SlugAllocation, UpdateOutcome,
};
use zblog_server::domain::article::Article;

fn row(id: i64, slug: &str, status: &str) -> ArticleRow {
    ArticleRow {
        id,
        title: format!("Title {id}"),
        slug: slug.to_string(),
        markdown: "# body".to_string(),
        status: status.to_string(),
        created_at: "2026-01-01 00:00:00".to_string(),
        updated_at: "2026-01-01 00:00:00".to_string(),
        published_at: None,
    }
}

fn tried(title: &str, refusals: usize) -> Vec<String> {
    let mut alloc = SlugAllocation::for_title(title);
    let mut slugs = Vec::new();
    let mut action = alloc.first_action();
    loop {
        match action {
            CreateAction::TryInsert(slug) => {
                slugs.push(slug.clone());
                if slugs.len() > refusals {
                    return slugs;
                }
                action = alloc.on_outcome(InsertOutcome::SlugTaken);
            }
            CreateAction::Finish(_) => return slugs,
        }
    }
}

#[test]
fn create_tries_base_then_numbered_slugs() {
    assert_eq!(tried("Hello World", 2), vec!["hello-world", "hello-world-2", "hello-world-3"]);
    assert_eq!(tried("中文标题", 1), vec!["post", "post-2"]);
}

#[test]
fn create_gives_up_after_a_hundred_slugs() {
    let slugs = tried("Hello World", 1000);
    assert_eq!(slugs.len(), 100);
    assert_eq!(slugs[99], "hello-world-100");
    let mut alloc = SlugAllocation::for_title("Hello World");
    let mut last = alloc.first_action();
    for _ in 0..100 {
        last = alloc.on_outcome(InsertOutcome::SlugTaken);
    }
    match last {
        CreateAction::Finish(Err(AppError::Internal(m))) => {
            assert_eq!(m, "could not allocate a unique slug")
        }
        _ => panic!("expected to give up"),
    }
}

#[test]
fn create_finishes_with_the_inserted_draft() {
    let mut alloc = SlugAllocation::for_title("Hello World");
    match alloc.on_outcome(InsertOutcome::Inserted(row(5, "hello-world", "draft"))) {
        CreateAction::Finish(Ok(a)) => {
            assert_eq!(a.id, 5);
            assert_eq!(a.slug, "hello-world");
            assert_eq!(a.status, ArticleStatus::Draft);
            assert!(a.published_at.is_none());
        }
        _ => panic!("expected the article"),
    }
}

#[test]
fn update_rejects_empty_slug_before_the_query() {
    assert!(check_update_slug("delta-renamed").is_ok());
    match check_update_slug("") {
        Err(AppError::BadRequest(m)) => assert_eq!(m, "slug must not be empty"),
        _ => panic!("expected a bad request"),
    }
}

#[test]
fn update_answers() {
    let a = update_result(UpdateOutcome::Updated(row(1, "delta-renamed", "draft"))).unwrap();
    assert_eq!(a.slug, "delta-renamed");
    assert!(matches!(update_result(UpdateOutcome::NoRow), Err(AppError::NotFound)));
    match update_result(UpdateOutcome::SlugTaken) {
        Err(AppError::BadRequest(m)) => assert_eq!(m, "slug already exists"),
        _ => panic!("expected a bad request"),
    }
}

#[test]
fn status_change_and_lookup_answers() {
    assert!(matches!(changed_row(None), Err(AppError::NotFound)));
    let a = changed_row(Some(row(2, "gamma-post", "published"))).unwrap();
    assert_eq!(a.status, ArticleStatus::Published);
    assert!(found_row(None).unwrap().is_none());
    let found: Option<Article> = found_row(Some(row(3, "x", "draft"))).unwrap();
    assert_eq!(found.unwrap().id, 3);
    assert!(found_row(Some(row(3, "x", "archived"))).is_err());
}

#[test]
fn listing_keeps_order_and_fails_on_a_bad_row() {
    let list = rows_to_articles(vec![row(2, "b", "published"), row(1, "a", "draft")]).unwrap();
    assert_eq!(list.iter().map(|a| a.id).collect::<Vec<_>>(), vec![2, 1]);
    assert!(rows_to_articles(vec![row(1, "a", "draft"), row(2, "b", "weird")]).is_err());
    assert!(rows_to_articles(Vec::new()).unwrap().is_empty());
}
