//! Errors of the authentication service and the gRPC status each maps to.

use vstd::prelude::*;
use vstd::string::StringExecFns;

verus! {

/// Errors raised by the authentication service.
#[derive(Debug, Clone, PartialEq, Eq)]
pub enum AuthenticationError {
    /// Generic error with a message.
    Generic(String),
    /// Error with a static message.
    Static(&'static str),
    /// The email address was empty (or whitespace only).
    EmailIsEmpty,
    /// The email address is not a valid address.
    EmailFormatInvalid(String),
    /// The user name does not meet the naming rules.
    UserNameFormatInvalid(String),
    /// The password does not meet the minimum requirements.
    PasswordFormatInvalid,
    /// The password could not be hashed or its hash did not verify.
    PasswordParseError,
    /// The request could not be authenticated.
    AuthenticationError(String),
    /// The user role does not exist.
    UserRole,
    /// The token is malformed, tampered with or of the wrong kind.
    InvalidToken(String),
    /// The token has expired.
    TokenExpired,
    /// A database operation failed.
    DatabaseError(String),
    /// An input failed validation.
    ValidationError(String),
    /// A database constraint was violated.
    ConstraintViolation { constraint: String, field: String, message: String },
    /// Signing or checking a JSON Web Token failed (the `jsonwebtoken`
    /// error's message).
    JsonWebToken(String),
}

/// The gRPC status codes that errors of the service map to.
#[derive(Debug, Clone, Copy, PartialEq, Eq, Structural)]
pub enum StatusCode {
    Unauthenticated,
    Internal,
}

/// The status code that an error maps to: an authentication failure is
/// `Unauthenticated`, every other error is `Internal`.
pub open spec fn status_code_of(e: AuthenticationError) -> StatusCode {
    match e {
        AuthenticationError::AuthenticationError(_) => StatusCode::Unauthenticated,
        _ => StatusCode::Internal,
    }
}

/// The message that the gRPC status carries for an error.
pub open spec fn status_message_of(e: AuthenticationError) -> Seq<char> {
    match e {
        AuthenticationError::AuthenticationError(m) => m@,
        _ => "Internal server error"@,
    }
}

/// The text an error is displayed as.
pub open spec fn error_display(e: AuthenticationError) -> Seq<char> {
    match e {
        AuthenticationError::Generic(m) => "Generic error: "@ + m@,
        AuthenticationError::Static(m) => "Static error: "@ + m@,
        AuthenticationError::EmailIsEmpty => "Email address was empty"@,
        AuthenticationError::EmailFormatInvalid(m) => "Email format is invalid: "@ + m@,
        AuthenticationError::UserNameFormatInvalid(m) => "Name format is invalid: "@ + m@,
        AuthenticationError::PasswordFormatInvalid => "Password does not meet minimum requirements"@,
        AuthenticationError::PasswordParseError => "Password parsing error"@,
        AuthenticationError::AuthenticationError(m) => "Authentication error: "@ + m@,
        AuthenticationError::UserRole => "User role does not exist."@,
        AuthenticationError::InvalidToken(m) => "Invalid token: "@ + m@,
        AuthenticationError::TokenExpired => "Token has expired"@,
        AuthenticationError::DatabaseError(m) => "Database error: "@ + m@,
        AuthenticationError::ValidationError(m) => "Validation error: "@ + m@,
        AuthenticationError::ConstraintViolation { constraint, field, message } => "Database constraint violation: "@
            + constraint@ + " in field '"@ + field@ + "': "@ + message@,
        AuthenticationError::JsonWebToken(m) => "json web token: "@ + m@,
    }
}

impl AuthenticationError {
    /// The text the error is displayed as (see `error_display`).
    pub fn to_string(&self) -> (r: String)
        ensures
            r@ == error_display(*self),
    {
        match self {
            AuthenticationError::Generic(m) => String::from_str("Generic error: ").concat(m.as_str()),
            AuthenticationError::Static(m) => String::from_str("Static error: ").concat(m),
            AuthenticationError::EmailIsEmpty => String::from_str("Email address was empty"),
            AuthenticationError::EmailFormatInvalid(m) => String::from_str("Email format is invalid: ").concat(m.as_str()),
            AuthenticationError::UserNameFormatInvalid(m) => String::from_str("Name format is invalid: ").concat(m.as_str()),
            AuthenticationError::PasswordFormatInvalid => String::from_str("Password does not meet minimum requirements"),
            AuthenticationError::PasswordParseError => String::from_str("Password parsing error"),
            AuthenticationError::AuthenticationError(m) => String::from_str("Authentication error: ").concat(m.as_str()),
            AuthenticationError::UserRole => String::from_str("User role does not exist."),
            AuthenticationError::InvalidToken(m) => String::from_str("Invalid token: ").concat(m.as_str()),
            AuthenticationError::TokenExpired => String::from_str("Token has expired"),
            AuthenticationError::DatabaseError(m) => String::from_str("Database error: ").concat(m.as_str()),
            AuthenticationError::ValidationError(m) => String::from_str("Validation error: ").concat(m.as_str()),
            AuthenticationError::ConstraintViolation { constraint, field, message } => String::from_str(
                "Database constraint violation: ",
            ).concat(constraint.as_str()).concat(" in field '").concat(field.as_str()).concat("': ").concat(
                message.as_str(),
            ),
            AuthenticationError::JsonWebToken(m) => String::from_str("json web token: ").concat(m.as_str()),
        }
    }
}

impl AuthenticationError {
    /// The gRPC status (code and message) that this error is reported as:
    /// an `AuthenticationError(m)` becomes `Unauthenticated` with message `m`,
    /// every other error `Internal` with "Internal server error", so that no
    /// internal detail leaks to the client.
    pub fn to_status(self) -> (r: (StatusCode, String))
        ensures
            r.0 == status_code_of(self),
            r.1@ == status_message_of(self),
    {
        match self {
            AuthenticationError::AuthenticationError(m) => (StatusCode::Unauthenticated, m),
            _ => {
                let m = String::from_str("Internal server error");
                proof {
                    reveal_strlit("Internal server error");
                }
                (StatusCode::Internal, m)
            },
        }
    }
}

} // verus!
