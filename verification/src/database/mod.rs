//! Database models of the service and the rules applied before and after
//! the database is queried.

pub mod email_verification;
pub mod logins;
pub mod refresh_tokens;
pub mod sessions;
pub mod users;
