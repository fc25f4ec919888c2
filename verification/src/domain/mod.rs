//! Domain types of the authentication service: new-type wrappers that enforce
//! the service's invariants on identifiers, addresses and tokens.

pub mod row_id;
pub mod jwt_token;
pub mod access_token;
pub mod token_claim;
pub mod refresh_token;
pub mod email_address;
pub mod tokens;
pub mod user_role;
