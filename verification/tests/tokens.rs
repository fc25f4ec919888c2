use authentication::database::users::Users;
use authentication::domain::email_address::EmailAddress;
use authentication::domain::row_id::RowID;
use authentication::domain::tokens::claim::TokenClaim;
use authentication::domain::tokens::email_verification::EmailVerificationToken;
use authentication::domain::tokens::token_type::TokenType;
use authentication::domain::user_role::UserRole;
use authentication::domains::password_hash::PasswordHash;
use authentication::domains::user_name::UserName;
use authentication::error::AuthenticationError;
use authentication::jwt::{error_of_message, JwtError};

const MINUTE: i128 = 60_000_000_000;
const HOUR: i128 = 60 * MINUTE;

fn mock_user() -> Users {
    Users {
        id: RowID::new().into_uuid(),
        email: EmailAddress::parse("someone@example.org".to_string()).unwrap(),
        name: UserName::parse("Some One".to_string()).unwrap(),
        password_hash: PasswordHash::from("$argon2id$v=19$m=15000,t=2,p=1$c2FsdHNhbHQ$aGFzaGhhc2hoYXNo".to_string()),
        role: UserRole::Admin,
        is_active: true,
        is_verified: true,
        created_on: 0,
    }
}

fn mock_issuer() -> String {
    "Acme Widgets Ltd".to_string()
}

fn mock_secret() -> String {
    "correct horse battery staple".to_string()
}

/// Signs claims of any kind the way the service's tokens are signed.
fn sign(claim: &TokenClaim, secret: &str) -> String {
    let raw = serde_json::value::RawValue::from_string(claim.to_json()).unwrap();
    jsonwebtoken::encode(
        &jsonwebtoken::Header::default(),
        &raw,
        &jsonwebtoken::EncodingKey::from_secret(secret.as_bytes()),
    )
    .unwrap()
}

fn create_email_verification_claim() -> (TokenClaim, String) {
    let claim = TokenClaim::new(&mock_issuer(), 24 * HOUR, &mock_user(), TokenType::EmailVerification);
    (claim, mock_secret())
}

fn create_non_email_verification_claim() -> (TokenClaim, String) {
    let claim = TokenClaim::new(&mock_issuer(), HOUR, &mock_user(), TokenType::Access);
    (claim, mock_secret())
}

#[test]
fn test_token_claim_new_creates_valid_claim() {
    let user = mock_user();
    let issuer = mock_issuer();
    let claim = TokenClaim::new(&issuer, HOUR, &user, TokenType::Access);
    assert_eq!(claim.sub, user.id);
    assert_eq!(claim.jty, TokenType::Access);
    assert_eq!(claim.iss, issuer);
    assert_eq!(claim.aud, "authentication_service");
    assert!(claim.exp > claim.iat);
    assert_eq!(claim.nbf, claim.iat);
}

#[test]
fn test_token_claim_expiration_time() {
    let user = mock_user();
    let claim = TokenClaim::new(&mock_issuer(), 2 * HOUR, &user, TokenType::Refresh);
    let expected_exp = claim.iat + 2 * 3600;
    assert_eq!(claim.exp, expected_exp);
}

#[test]
fn test_token_claim_display() {
    let user = mock_user();
    let claim = TokenClaim::new(&mock_issuer(), 30 * MINUTE, &user, TokenType::EmailVerification);
    let display_str = claim.to_string();
    assert!(display_str.contains("TokenClaim"));
    assert!(display_str.contains(&uuid::Uuid::from_u128(user.id).to_string()));
    assert!(display_str.contains("email_verification"));
}

#[test]
fn test_token_claim_equality() {
    let user = mock_user();
    let claim1 = TokenClaim::new(&mock_issuer(), HOUR, &user, TokenType::Access);
    let claim2 = claim1.clone();
    assert_eq!(claim1, claim2);
}

#[test]
fn test_token_claim_parse_valid_token() {
    let user = mock_user();
    let issuer = mock_issuer();
    let secret = mock_secret();
    let signed_claim = TokenClaim::new(&issuer, HOUR, &user, TokenType::Access);
    let token = sign(&signed_claim, &secret);
    let parsed_claim = TokenClaim::parse(&token, &secret, &issuer).unwrap();
    assert_eq!(parsed_claim, signed_claim);
}

#[test]
fn test_token_claim_parse_expired_token() {
    let user = mock_user();
    let issuer = mock_issuer();
    let secret = mock_secret();
    let mut expired_claim = TokenClaim::new(&issuer, HOUR, &user, TokenType::Access);
    expired_claim.exp = chrono::Utc::now().timestamp() - 3600;
    let token = sign(&expired_claim, &secret);
    let result = TokenClaim::parse(&token, &secret, &issuer);
    assert!(matches!(result, Err(AuthenticationError::TokenExpired)));
}

#[test]
fn test_token_claim_parse_invalid_token() {
    let result = TokenClaim::parse("invalid.jwt.token", &mock_secret(), &mock_issuer());
    assert!(matches!(result, Err(AuthenticationError::InvalidToken(_))));
}

#[test]
fn test_token_claim_parse_wrong_issuer() {
    let user = mock_user();
    let issuer = mock_issuer();
    let secret = mock_secret();
    let claim = TokenClaim::new(&issuer, HOUR, &user, TokenType::Access);
    let token = sign(&claim, &secret);
    let result = TokenClaim::parse(&token, &secret, "wrong_issuer");
    assert!(matches!(result, Err(AuthenticationError::InvalidToken(_))));
}

#[test]
fn test_token_claim_parse_wrong_secret() {
    let user = mock_user();
    let issuer = mock_issuer();
    let secret = mock_secret();
    let claim = TokenClaim::new(&issuer, HOUR, &user, TokenType::Access);
    let token = sign(&claim, &secret);
    let result = TokenClaim::parse(&token, "wrong_secret", &issuer);
    assert!(matches!(result, Err(AuthenticationError::InvalidToken(_))));
}

#[test]
fn test_different_token_types() {
    let user = mock_user();
    let issuer = mock_issuer();
    let access_claim = TokenClaim::new(&issuer, HOUR, &user, TokenType::Access);
    let refresh_claim = TokenClaim::new(&issuer, HOUR, &user, TokenType::Refresh);
    let email_claim = TokenClaim::new(&issuer, HOUR, &user, TokenType::EmailVerification);
    let password_claim = TokenClaim::new(&issuer, HOUR, &user, TokenType::PasswordReset);
    assert_eq!(access_claim.jty, TokenType::Access);
    assert_eq!(refresh_claim.jty, TokenType::Refresh);
    assert_eq!(email_claim.jty, TokenType::EmailVerification);
    assert_eq!(password_claim.jty, TokenType::PasswordReset);
}

#[test]
fn claim_json_text_reads_back() {
    let claim = TokenClaim {
        jti: 0x0190_71c5_a31c_7a0e_befa_5947_0212_2e75,
        jty: TokenType::EmailVerification,
        iss: "Issuer \"Q\"\n".to_string(),
        sub: 1,
        aud: "authentication_service".to_string(),
        iat: 1_700_000_000,
        nbf: 1_700_000_000,
        exp: -5,
    };
    let text = claim.to_json();
    assert_eq!(
        text,
        "{\"jti\":\"019071c5-a31c-7a0e-befa-594702122e75\",\"jty\":\"EmailVerification\",\"iss\":\"Issuer \\\"Q\\\"\\n\",\"sub\":\"00000000-0000-0000-0000-000000000001\",\"aud\":\"authentication_service\",\"iat\":1700000000,\"nbf\":1700000000,\"exp\":-5}"
    );
    assert_eq!(TokenClaim::from_json(&text), Some(claim));
    assert_eq!(TokenClaim::from_json("{\"jti\":1}"), None);
}

#[test]
fn from_decoded_maps_each_failure() {
    assert!(matches!(TokenClaim::from_decoded(Err(JwtError::ExpiredSignature), "issuer"), Err(AuthenticationError::TokenExpired)));
    match TokenClaim::from_decoded(Err(JwtError::InvalidIssuer), "issuer") {
        Err(AuthenticationError::InvalidToken(m)) => assert_eq!(m, "Token issuer is invalid"),
        other => panic!("unexpected {:?}", other),
    }
    match TokenClaim::from_decoded(Err(JwtError::ImmatureSignature), "issuer") {
        Err(AuthenticationError::InvalidToken(m)) => assert_eq!(m, "Token is not yet valid (nbf claim)"),
        other => panic!("unexpected {:?}", other),
    }
    match TokenClaim::from_decoded(Err(JwtError::InvalidToken), "issuer") {
        Err(AuthenticationError::InvalidToken(m)) => assert_eq!(m, "Token format is invalid"),
        other => panic!("unexpected {:?}", other),
    }
    match TokenClaim::from_decoded(Err(JwtError::Other("InvalidSignature".to_string())), "issuer") {
        Err(AuthenticationError::InvalidToken(m)) => assert_eq!(m, "JWT decode failed: InvalidSignature"),
        other => panic!("unexpected {:?}", other),
    }
    match TokenClaim::from_decoded(Ok("[]".to_string()), "issuer") {
        Err(AuthenticationError::InvalidToken(m)) => {
            assert_eq!(m, "JWT decode failed: JSON error: the claims do not have the token claim layout")
        },
        other => panic!("unexpected {:?}", other),
    }
}

#[test]
fn from_decoded_checks_issuer_and_audience() {
    let (claim, _) = create_email_verification_claim();
    let text = claim.to_json();
    assert_eq!(TokenClaim::from_decoded(Ok(text.clone()), &mock_issuer()), Ok(claim.clone()));
    match TokenClaim::from_decoded(Ok(text), "Someone Else") {
        Err(AuthenticationError::InvalidToken(m)) => assert_eq!(m, "Token issuer is invalid"),
        other => panic!("unexpected {:?}", other),
    }
    let mut other_audience = claim.clone();
    other_audience.aud = "another_service".to_string();
    match TokenClaim::from_decoded(Ok(other_audience.to_json()), &mock_issuer()) {
        Err(AuthenticationError::InvalidToken(m)) => assert_eq!(m, "JWT decode failed: InvalidAudience"),
        other => panic!("unexpected {:?}", other),
    }
}

#[test]
fn token_for_another_audience_is_refused() {
    let (mut claim, secret) = create_email_verification_claim();
    claim.aud = "another_service".to_string();
    let token = sign(&claim, &secret);
    match TokenClaim::parse(&token, &secret, &mock_issuer()) {
        Err(AuthenticationError::InvalidToken(m)) => assert_eq!(m, "JWT decode failed: InvalidAudience"),
        other => panic!("unexpected {:?}", other),
    }
}

#[test]
fn test_email_verification_token_try_from_claim_success() {
    let (claim, secret) = create_email_verification_claim();
    let result = EmailVerificationToken::try_from_claim(claim, &secret);
    assert!(result.is_ok());
    let token = result.unwrap();
    assert!(!token.as_str().is_empty());
    assert!(token.as_str().contains('.'));
}

#[test]
fn test_email_verification_token_try_from_claim_wrong_type() {
    let (claim, secret) = create_non_email_verification_claim();
    let result = EmailVerificationToken::try_from_claim(claim, &secret);
    assert!(result.is_err());
    match result.unwrap_err() {
        AuthenticationError::InvalidToken(msg) => assert!(msg.contains("not an email verification token")),
        _ => panic!("Expected InvalidToken error"),
    }
}

#[test]
fn test_email_verification_token_as_ref() {
    let (claim, secret) = create_email_verification_claim();
    let token = EmailVerificationToken::try_from_claim(claim, &secret).unwrap();
    let token_str: &str = token.as_str();
    assert!(!token_str.is_empty());
    assert!(token_str.starts_with("eyJ"));
    assert_eq!(token_str, token.to_string());
}

#[test]
fn test_email_verification_token_display() {
    let (claim, secret) = create_email_verification_claim();
    let token = EmailVerificationToken::try_from_claim(claim, &secret).unwrap();
    let display_str = token.to_string();
    assert_eq!(display_str, token.as_str());
    assert!(display_str.starts_with("eyJ"));
}

#[test]
fn test_email_verification_token_debug() {
    let (claim, secret) = create_email_verification_claim();
    let token = EmailVerificationToken::try_from_claim(claim, &secret).unwrap();
    let debug_str = format!("{:?}", token);
    assert!(debug_str.contains("EmailVerificationToken"));
    assert!(debug_str.contains("eyJ"));
}

#[test]
fn test_email_verification_token_clone() {
    let (claim, secret) = create_email_verification_claim();
    let token = EmailVerificationToken::try_from_claim(claim, &secret).unwrap();
    let cloned_token = token.clone();
    assert_eq!(token, cloned_token);
    assert_eq!(token.as_str(), cloned_token.as_str());
}

#[test]
fn test_email_verification_token_partial_eq() {
    let (claim1, secret1) = create_email_verification_claim();
    let (claim2, secret2) = create_email_verification_claim();
    let token1 = EmailVerificationToken::try_from_claim(claim1.clone(), &secret1).unwrap();
    let token2 = EmailVerificationToken::try_from_claim(claim1, &secret1).unwrap();
    let token3 = EmailVerificationToken::try_from_claim(claim2, &secret2).unwrap();
    assert_eq!(token1, token2);
    assert_ne!(token1, token3);
}

#[test]
fn test_email_verification_token_default() {
    let token = EmailVerificationToken::default();
    assert_eq!(token.as_str(), "");
    assert_eq!(token.to_string(), String::new());
}

#[test]
fn test_email_verification_token_roundtrip_with_token_claim_parse() {
    let (signed_claim, secret) = create_email_verification_claim();
    let issuer = "Some Other Issuer";
    let token = EmailVerificationToken::try_from_claim(signed_claim.clone(), &secret).unwrap();
    let parsed_claim = TokenClaim::parse(token.as_str(), &secret, issuer);
    assert!(parsed_claim.is_ok() || parsed_claim.is_err());
}

#[test]
fn signed_email_verification_claims_read_back() {
    let (signed_claim, secret) = create_email_verification_claim();
    let token = EmailVerificationToken::try_from_claim(signed_claim.clone(), &secret).unwrap();
    let parsed_claim = TokenClaim::parse(token.as_str(), &secret, &mock_issuer()).unwrap();
    assert_eq!(parsed_claim, signed_claim);
    let again = EmailVerificationToken::try_from_string(token.as_str(), &secret, &mock_issuer()).unwrap();
    assert_eq!(again, token);
}

#[test]
fn try_from_string_refuses_other_kinds() {
    let (claim, secret) = create_non_email_verification_claim();
    let token = sign(&claim, &secret);
    match EmailVerificationToken::try_from_owned_string(token, &secret, &mock_issuer()) {
        Err(AuthenticationError::InvalidToken(m)) => assert_eq!(m, "JWT is not an email verification token"),
        other => panic!("unexpected {:?}", other),
    }
}

#[test]
fn test_email_verification_token_with_different_durations() {
    let user = mock_user();
    let issuer = mock_issuer();
    let secret = mock_secret();
    for hours in [1, 24, 48, 72] {
        let claim = TokenClaim::new(&issuer, hours * HOUR, &user, TokenType::EmailVerification);
        let token = EmailVerificationToken::try_from_claim(claim, &secret).unwrap();
        assert!(!token.as_str().is_empty());
        assert!(token.as_str().starts_with("eyJ"));
    }
}

#[test]
fn test_email_verification_token_jwt_structure() {
    let (claim, secret) = create_email_verification_claim();
    let token = EmailVerificationToken::try_from_claim(claim, &secret).unwrap();
    let jwt_parts: Vec<&str> = token.as_str().split('.').collect();
    assert_eq!(jwt_parts.len(), 3);
    assert!(!jwt_parts[0].is_empty());
    assert!(!jwt_parts[1].is_empty());
    assert!(!jwt_parts[2].is_empty());
}

#[test]
fn test_email_verification_token_consistent_output() {
    let (claim, secret) = create_email_verification_claim();
    let token1 = EmailVerificationToken::try_from_claim(claim.clone(), &secret).unwrap();
    let token2 = EmailVerificationToken::try_from_claim(claim, &secret).unwrap();
    assert_eq!(token1, token2);
    assert_eq!(token1.as_str(), token2.as_str());
}

#[test]
fn test_email_verification_token_different_secrets_produce_different_tokens() {
    let user = mock_user();
    let claim = TokenClaim::new(&mock_issuer(), 24 * HOUR, &user, TokenType::EmailVerification);
    let token1 = EmailVerificationToken::try_from_claim(claim.clone(), "first secret").unwrap();
    let token2 = EmailVerificationToken::try_from_claim(claim, "second secret").unwrap();
    assert_ne!(token1, token2);
    assert_ne!(token1.as_str(), token2.as_str());
}

#[test]
fn test_email_verification_token_string_usage() {
    let (claim, secret) = create_email_verification_claim();
    let token = EmailVerificationToken::try_from_claim(claim, &secret).unwrap();
    let token_str = token.as_str();
    assert!(token_str.len() > 50);
    assert!(token_str.contains('.'));
    assert!(!token_str.is_empty());
    let formatted = format!("Token: {}", token.to_string());
    assert!(formatted.starts_with("Token: eyJ"));
}

#[test]
fn from_checked_accepts_only_email_verification_claims() {
    let (claim, _) = create_email_verification_claim();
    let ok = EmailVerificationToken::from_checked("a.b.c", Ok(claim)).unwrap();
    assert_eq!(ok.as_str(), "a.b.c");
    let (other, _) = create_non_email_verification_claim();
    match EmailVerificationToken::from_checked("a.b.c", Ok(other)) {
        Err(AuthenticationError::InvalidToken(m)) => assert_eq!(m, "JWT is not an email verification token"),
        x => panic!("unexpected {:?}", x),
    }
    assert!(matches!(
        EmailVerificationToken::from_checked("a.b.c", Err(AuthenticationError::TokenExpired)),
        Err(AuthenticationError::TokenExpired)
    ));
}

#[test]
fn claim_expiry_is_the_second_the_lifetime_ends_in() {
    let user = mock_user();
    let claim = TokenClaim::new(&mock_issuer(), 1_500_000_000, &user, TokenType::Access);
    assert_eq!(claim.exp, claim.iat + 1);
    let claim = TokenClaim::new(&mock_issuer(), -1, &user, TokenType::Access);
    assert_eq!(claim.exp, claim.iat - 1);
    let claim = TokenClaim::new(&mock_issuer(), 999_999_999, &user, TokenType::Access);
    assert_eq!(claim.exp, claim.iat);
}

#[test]
fn claims_read_in_any_order_with_white_space_and_extra_members() {
    let claim = TokenClaim {
        jti: 0x0190_71c5_a31c_7a0e_befa_5947_0212_2e75,
        jty: TokenType::Refresh,
        iss: "Issuer".to_string(),
        sub: 1,
        aud: "authentication_service".to_string(),
        iat: 10,
        nbf: 11,
        exp: 12,
    };
    let text = " {\n  \"jty\" : \"Refresh\", \"extra\": true, \"jti\":\"019071c5-a31c-7a0e-befa-594702122e75\",\
        \"iss\":\"Issuer\",\"note\":null,\"sub\":\"00000000-0000-0000-0000-000000000001\",\t\"aud\":\"authentication_service\",\
        \"exp\":12,\"nbf\":11,\"iat\":10,\"n\":-3,\"off\":false } \n";
    assert_eq!(TokenClaim::from_json(text), Some(claim));
    // A field given twice is refused, as is a missing field.
    let twice = "{\"jti\":\"019071c5-a31c-7a0e-befa-594702122e75\",\"jty\":\"Refresh\",\"iss\":\"a\",\"iss\":\"b\",\
        \"sub\":\"00000000-0000-0000-0000-000000000001\",\"aud\":\"x\",\"iat\":1,\"nbf\":1,\"exp\":1}";
    assert_eq!(TokenClaim::from_json(twice), None);
    let missing = "{\"jti\":\"019071c5-a31c-7a0e-befa-594702122e75\",\"jty\":\"Refresh\",\"iss\":\"a\",\
        \"sub\":\"00000000-0000-0000-0000-000000000001\",\"aud\":\"x\",\"iat\":1,\"nbf\":1}";
    assert_eq!(TokenClaim::from_json(missing), None);
    assert_eq!(TokenClaim::from_json("{\"jti\":\"x\"} x"), None);
}

#[test]
fn token_with_reordered_claims_is_accepted() {
    let (claim, secret) = create_email_verification_claim();
    let compact = claim.to_json();
    // The same claims with the first two members swapped and spaces added.
    let value: serde_json::Value = serde_json::from_str(&compact).unwrap();
    let reordered = format!(
        "{{ \"jty\": {}, \"jti\": {}, \"iss\": {}, \"sub\": {}, \"aud\": {}, \"iat\": {}, \"nbf\": {}, \"exp\": {} }}",
        value["jty"], value["jti"], value["iss"], value["sub"], value["aud"], value["iat"], value["nbf"], value["exp"]
    );
    let raw = serde_json::value::RawValue::from_string(reordered).unwrap();
    let token = jsonwebtoken::encode(
        &jsonwebtoken::Header::default(),
        &raw,
        &jsonwebtoken::EncodingKey::from_secret(secret.as_bytes()),
    )
    .unwrap();
    assert_eq!(TokenClaim::parse(&token, &secret, &mock_issuer()), Ok(claim));
}

#[test]
fn claims_read_other_uuid_forms() {
    let text = "{\"jti\":\"019071C5A31C7A0EBEFA594702122E75\",\"jty\":\"Access\",\"iss\":\"i\",\
        \"sub\":\"urn:uuid:00000000-0000-0000-0000-000000000001\",\"aud\":\"a\",\"iat\":1,\"nbf\":2,\"exp\":3}";
    let claim = TokenClaim::from_json(text).unwrap();
    assert_eq!(claim.jti, 0x0190_71c5_a31c_7a0e_befa_5947_0212_2e75);
    assert_eq!(claim.sub, 1);
    assert_eq!(claim.jty, TokenType::Access);
    assert_eq!((claim.iat, claim.nbf, claim.exp), (1, 2, 3));
}

#[test]
fn claims_read_every_json_string_escape() {
    let text = "{\"jti\":\"019071c5-a31c-7a0e-befa-594702122e75\",\"jty\":\"Access\",\
        \"iss\":\"\\u00e9\\/x\\ud83d\\ude00\\u0041\",\"sub\":\"00000000-0000-0000-0000-000000000001\",\
        \"aud\":\"a\",\"iat\":1,\"nbf\":2,\"exp\":3}";
    let claim = TokenClaim::from_json(text).unwrap();
    assert_eq!(claim.iss, "\u{e9}/x\u{1F600}A");
    // A lone surrogate is refused, as serde_json refuses it.
    let lone = "{\"jti\":\"019071c5-a31c-7a0e-befa-594702122e75\",\"jty\":\"Access\",\
        \"iss\":\"\\ud83d\",\"sub\":\"00000000-0000-0000-0000-000000000001\",\
        \"aud\":\"a\",\"iat\":1,\"nbf\":2,\"exp\":3}";
    assert_eq!(TokenClaim::from_json(lone), None);
}

#[test]
fn claims_skip_members_of_any_json_value() {
    let text = "{\"roles\":[\"a\",{\"b\":[1,2.5e3]},\"]}\\\"\"],\"jti\":\"019071c5-a31c-7a0e-befa-594702122e75\",\
        \"ratio\":-1.25E-2,\"jty\":\"Access\",\"iss\":\"i\",\"meta\":{\"x\":{}},\"sub\":\"00000000-0000-0000-0000-000000000001\",\
        \"aud\":\"a\",\"iat\":1,\"nbf\":2,\"exp\":3,\"flag\":false}";
    let claim = TokenClaim::from_json(text).unwrap();
    assert_eq!((claim.iat, claim.nbf, claim.exp), (1, 2, 3));
    assert_eq!(claim.iss, "i");
    // A time given as a fraction is refused, as serde refuses it.
    let fraction = "{\"jti\":\"019071c5-a31c-7a0e-befa-594702122e75\",\"jty\":\"Access\",\"iss\":\"i\",\
        \"sub\":\"00000000-0000-0000-0000-000000000001\",\"aud\":\"a\",\"iat\":1.5,\"nbf\":2,\"exp\":3}";
    assert_eq!(TokenClaim::from_json(fraction), None);
}

#[test]
fn from_decoded_reports_other_claim_failures() {
    match TokenClaim::from_decoded(Err(JwtError::InvalidAudience), "issuer") {
        Err(AuthenticationError::InvalidToken(m)) => assert_eq!(m, "JWT decode failed: InvalidAudience"),
        other => panic!("unexpected {:?}", other),
    }
    match TokenClaim::from_decoded(Err(JwtError::MissingRequiredClaim("iat".to_string())), "issuer") {
        Err(AuthenticationError::InvalidToken(m)) => assert_eq!(m, "JWT decode failed: Missing required claim: iat"),
        other => panic!("unexpected {:?}", other),
    }
}

#[test]
fn error_kinds_are_told_apart_by_message() {
    assert!(matches!(error_of_message("ExpiredSignature".to_string()), JwtError::ExpiredSignature));
    assert!(matches!(error_of_message("InvalidAudience".to_string()), JwtError::InvalidAudience));
    match error_of_message("Missing required claim: nbf".to_string()) {
        JwtError::MissingRequiredClaim(c) => assert_eq!(c, "nbf"),
        other => panic!("unexpected {:?}", other),
    }
    match error_of_message("JSON error: expected value at line 1 column 1".to_string()) {
        JwtError::Other(m) => assert_eq!(m, "JSON error: expected value at line 1 column 1"),
        other => panic!("unexpected {:?}", other),
    }
}

#[test]
fn claims_are_read_before_they_are_checked() {
    // An expired token whose claims are not token claims is refused for its
    // claims, as `jsonwebtoken::decode` reads the claims before it checks them.
    let raw = serde_json::value::RawValue::from_string("{\"iss\":\"Acme Widgets Ltd\",\"exp\":1,\"nbf\":1,\"iat\":1}".to_string()).unwrap();
    let token = jsonwebtoken::encode(
        &jsonwebtoken::Header::default(),
        &raw,
        &jsonwebtoken::EncodingKey::from_secret(mock_secret().as_bytes()),
    )
    .unwrap();
    match TokenClaim::parse(&token, &mock_secret(), &mock_issuer()) {
        Err(AuthenticationError::InvalidToken(m)) => {
            assert_eq!(m, "JWT decode failed: JSON error: the claims do not have the token claim layout")
        },
        other => panic!("unexpected {:?}", other),
    }
}
