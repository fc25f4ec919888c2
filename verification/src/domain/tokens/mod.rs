//! Token kinds, claims and the email verification token.

pub mod token_type;
pub mod claim;
pub mod email_verification;
