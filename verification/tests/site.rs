use zblog_server::interfaces::http::site::{resolve_site_path, SiteReply};

fn fixture() -> Vec<String> {
    [
        "index.html",
        "404.html",
        "assets/app.js",
        "about/index.html",
        "posts/index.html",
        "admin/index.html",
        "admin/edit/index.html",
    ]
    .iter()
    .map(|s| s.to_string())
    .collect()
}

fn served(path: &str) -> String {
    match resolve_site_path(path, &fixture()) {
        SiteReply::Asset { path, .. } => path,
        SiteReply::ApiNotFound => "<api>".to_string(),
        SiteReply::NotFoundPage => "<404 page>".to_string(),
        SiteReply::BareNotFound => "<404>".to_string(),
    }
}

#[test]
fn serves_exact_asset_with_its_content_type() {
    match resolve_site_path("assets/app.js", &fixture()) {
        SiteReply::Asset { path, content_type } => {
            assert_eq!(path, "assets/app.js");
            assert!(content_type.contains("javascript"));
        }
        _ => panic!("expected the asset"),
    }
}

#[test]
fn directory_index_for_shell_routes_resolves() {
    assert_eq!(served("about"), "about/index.html");
    assert_eq!(served(""), "index.html");
    assert_eq!(served("/"), "index.html");
    assert_eq!(served("/about/"), "about/index.html");
}

#[test]
fn spa_falls_back_to_ancestor_index_resolves() {
    assert_eq!(served("posts/hello-world"), "posts/index.html");
    assert_eq!(served("admin/edit/3"), "admin/edit/index.html");
    assert_eq!(served("admin"), "admin/index.html");
    assert_eq!(served("admin/other/deep/path"), "admin/index.html");
}

#[test]
fn unknown_path_gets_the_404_page() {
    assert_eq!(served("no-such-page"), "<404 page>");
    let without_page: Vec<String> = vec!["index.html".to_string()];
    assert!(matches!(
        resolve_site_path("no-such-page", &without_page),
        SiteReply::BareNotFound
    ));
}

#[test]
fn parent_directory_segments_are_refused() {
    assert_eq!(served("../../etc/passwd"), "<404 page>");
    assert_eq!(served("assets/../index.html"), "<404 page>");
    // A dotted name that is not a whole `..` segment is looked up normally.
    assert_eq!(served("a..b"), "<404 page>");
}

#[test]
fn unknown_api_path_is_the_api_not_found() {
    assert_eq!(served("api/nope"), "<api>");
    assert_eq!(served("/api"), "<api>");
    assert_eq!(served("api/"), "<api>");
    // Only the `api` segment itself counts.
    assert_eq!(served("apiary"), "<404 page>");
}

#[test]
fn html_pages_are_served_as_html() {
    match resolve_site_path("", &fixture()) {
        SiteReply::Asset { content_type, .. } => assert!(content_type.starts_with("text/html")),
        _ => panic!("expected the home page"),
    }
}
