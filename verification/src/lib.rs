//! Authentication service library: the domain types of an authentication
//! micro-service (user names, email addresses, passwords, row identifiers,
//! JSON Web Token claims and tokens) and the rules of its database models,
//! each with a verified contract.

pub mod configuration;
pub mod error;
pub mod text;
pub mod domain;
pub mod uuid_text;
pub mod domains;
pub mod json;
pub mod json_object;
pub mod clock;
pub mod jwt;
pub mod database;
