//! Time-tracking backend core: an in-memory relational store of users,
//! deduplicated contents and time entries, with the overlap guard, the
//! ownership-checked mutations and the session gate that sit on top of it.

pub mod query;
pub mod time;
pub mod gongzuo;
pub mod error;
pub mod user;
pub mod password;
pub mod session;
pub mod db;
pub mod handlers;
