//! Process-local infrastructure: the login throttle and the storage decisions.

pub mod article_repo;
pub mod login_throttle;
