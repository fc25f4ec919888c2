use authentication::domain::tokens::token_type::TokenType;

#[test]
fn display_outputs_expected_strings() {
    assert_eq!(TokenType::Access.to_string(), "access");
    assert_eq!(TokenType::Refresh.to_string(), "refresh");
    assert_eq!(TokenType::EmailVerification.to_string(), "email_verification");
    assert_eq!(TokenType::PasswordReset.to_string(), "password_reset");
}

#[test]
fn random_returns_valid_variant() {
    for _ in 0..20 {
        let t = TokenType::random();
        match t {
            TokenType::Access
            | TokenType::Refresh
            | TokenType::EmailVerification
            | TokenType::PasswordReset => (),
        }
    }
}

#[test]
fn default_is_access() {
    assert_eq!(TokenType::default(), TokenType::Access);
}

#[test]
fn from_index_follows_declaration_order() {
    assert_eq!(TokenType::from_index(0), TokenType::Access);
    assert_eq!(TokenType::from_index(1), TokenType::Refresh);
    assert_eq!(TokenType::from_index(2), TokenType::EmailVerification);
    assert_eq!(TokenType::from_index(3), TokenType::PasswordReset);
}
