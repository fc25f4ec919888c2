//! Domain types parsed from user input (user names and passwords) and the
//! refresh token stored for a user.

pub mod password;
pub mod password_hash;
pub mod refresh_token;
pub mod user_name;
