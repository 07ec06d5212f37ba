# zblog server

A self-hosted, single-author blog backend. The verified library (`src/`) holds
the blog's rules; `app/` is the binary that serves HTTP, talks to SQLite and
embeds the static site.

- `src/domain` — articles (status parsing, slug derivation with its laws),
  pageviews and statistics shapes.
- `src/infrastructure/login_throttle.rs` — per-IP login lockout state machine
  (three consecutive failures lock an address for five minutes).
- `src/infrastructure/article_repo.rs` — slug allocation for new articles and
  how database answers become articles or errors.
- `src/interfaces/http` — request validation, password and session checks,
  cookie key derivation, and static-site path resolution with SPA fallback.
- `src/config.rs`, `src/error.rs` — configuration defaults and error answers.
- `app/` — axum handlers, SQL queries, serde/sqlx copies of the library types.
