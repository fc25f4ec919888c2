use authentication::database::email_verification::{check_batch_size, cursor_page, page_bounds, CursorPage, EmailVerifications};
use authentication::database::users::Users;
use authentication::domain::email_address::EmailAddress;
use authentication::domain::row_id::RowID;
use authentication::domain::tokens::claim::TokenClaim;
use authentication::domain::tokens::email_verification::EmailVerificationToken;
use authentication::domain::tokens::token_type::TokenType;
use authentication::domain::user_role::UserRole;
use authentication::domains::password_hash::PasswordHash;
use authentication::domains::user_name::UserName;
use authentication::error::AuthenticationError;

const SECOND: i128 = 1_000_000_000;
const MINUTE: i128 = 60 * SECOND;
const HOUR: i128 = 60 * MINUTE;
const DAY: i128 = 24 * HOUR;
const ISSUER: &str = "Example Pty Ltd";
const SECRET: &str = "a-very-secret-signing-phrase";

fn mock_user() -> Users {
    Users {
        id: RowID::new().into_uuid(),
        email: EmailAddress::parse("user@example.com".to_string()).unwrap(),
        name: UserName::parse("Test User".to_string()).unwrap(),
        password_hash: PasswordHash::from(
            "$argon2id$v=19$m=15000,t=2,p=1$HBwgCOwk9o745vPiPI/0iA$TozkH3DlprgOaWhMOU4xE1xrVGJkdUWofJujyiJ4j+U"
                .to_string(),
        ),
        role: UserRole::User,
        is_active: true,
        is_verified: false,
        created_on: 0,
    }
}

fn now() -> i128 {
    chrono::Utc::now().timestamp_nanos_opt().unwrap() as i128
}

fn mock_token_with(user: &Users, secret: &str, issuer: &str, duration_secs: i64) -> EmailVerificationToken {
    let claim = TokenClaim::new(issuer, (duration_secs as i128) * SECOND, user, TokenType::EmailVerification);
    EmailVerificationToken::try_from_claim(claim, secret).expect("Failed to generate mock token")
}

fn mock_token() -> EmailVerificationToken {
    mock_token_with(&mock_user(), SECRET, ISSUER, 24 * 3600)
}

#[test]
fn test_new_creates_valid_email_verification() {
    let user = mock_user();
    let token = mock_token();
    let verification = EmailVerifications::new(&user, &token, 24 * HOUR);
    assert_eq!(verification.user_id, user.id);
    assert_eq!(verification.token, token);
    assert!(!verification.is_used);
    assert!(verification.updated_at.is_none());
    let expected_expiry = now() + 24 * HOUR;
    let diff = (verification.expires_at - expected_expiry).abs() / SECOND;
    assert!(diff < 5, "Expiry time should be within 5 seconds of expected");
}

#[test]
fn test_new_generates_unique_ids() {
    let user = mock_user();
    let token1 = mock_token();
    let token2 = mock_token();
    let verification1 = EmailVerifications::new(&user, &token1, 24 * HOUR);
    let verification2 = EmailVerifications::new(&user, &token2, 24 * HOUR);
    assert_ne!(verification1.id, verification2.id);
    assert_ne!(verification1.token, verification2.token);
}

#[test]
fn test_new_with_different_durations() {
    let user = mock_user();
    let token = mock_token();
    for duration in [15 * MINUTE, HOUR, 24 * HOUR, 7 * DAY] {
        let verification = EmailVerifications::new(&user, &token, duration);
        let expected_expiry = now() + duration;
        let diff = (verification.expires_at - expected_expiry).abs() / SECOND;
        assert!(diff < 5, "Expiry time should be within 5 seconds for duration: {:?}", duration);
    }
}

#[test]
fn test_new_with_negative_duration() {
    let user = mock_user();
    let token = mock_token();
    let verification = EmailVerifications::new(&user, &token, -HOUR);
    assert!(verification.expires_at < now());
    assert!(!verification.is_used);
}

#[test]
fn test_new_with_zero_duration() {
    let user = mock_user();
    let token = mock_token();
    let verification = EmailVerifications::new(&user, &token, 0);
    let diff = (verification.expires_at - now()).abs() / SECOND;
    assert!(diff < 5, "Zero duration should result in current time");
}

#[test]
fn test_new_preserves_user_id() {
    let user = mock_user();
    let expected_user_id = user.id;
    let token = mock_token();
    let verification = EmailVerifications::new(&user, &token, 24 * HOUR);
    assert_eq!(verification.user_id, expected_user_id);
}

#[test]
fn test_new_clones_token_correctly() {
    let user = mock_user();
    let token = mock_token();
    let expected_token_value = token.as_str().to_string();
    let verification = EmailVerifications::new(&user, &token, 24 * HOUR);
    assert_eq!(verification.token.as_str(), &expected_token_value);
    assert_eq!(verification.token, token);
}

#[test]
fn test_new_sets_default_values() {
    let user = mock_user();
    let token = mock_token();
    let verification = EmailVerifications::new(&user, &token, 24 * HOUR);
    assert!(!verification.is_used, "Should default to unused");
    assert!(verification.updated_at.is_none(), "Should have no update timestamp initially");
    assert!(verification.created_at <= now(), "Created timestamp should be current or past");
}

#[test]
fn test_new_timestamps_are_consistent() {
    let user = mock_user();
    let token = mock_token();
    let verification = EmailVerifications::new(&user, &token, 24 * HOUR);
    let expected_expiry = verification.created_at + 24 * HOUR;
    let diff = (verification.expires_at - expected_expiry).abs() / 1_000_000;
    assert!(diff < 100, "Expires_at should be created_at + duration");
}

#[test]
fn test_new_multiple_verifications_for_same_user() {
    let user = mock_user();
    let token1 = mock_token();
    let token2 = mock_token();
    let verification1 = EmailVerifications::new(&user, &token1, 24 * HOUR);
    let verification2 = EmailVerifications::new(&user, &token2, 24 * HOUR);
    assert_eq!(verification1.user_id, verification2.user_id);
    assert_ne!(verification1.id, verification2.id);
    assert_ne!(verification1.token, verification2.token);
}

#[test]
fn test_new_with_very_long_duration() {
    let user = mock_user();
    let token = mock_token();
    let verification = EmailVerifications::new(&user, &token, 365 * DAY);
    let expected_expiry = now() + 365 * DAY;
    let diff = (verification.expires_at - expected_expiry).abs() / SECOND;
    assert!(diff < 5, "Should handle long durations correctly");
}

#[test]
fn test_new_created_at_precision() {
    let user = mock_user();
    let token = mock_token();
    let before = now();
    let verification = EmailVerifications::new(&user, &token, 24 * HOUR);
    let after = now();
    assert!(verification.created_at >= before);
    assert!(verification.created_at <= after);
}

#[test]
fn test_new_handles_extreme_durations() {
    let user = mock_user();
    let token = mock_token();
    for duration in [1, 1_000, 1_000_000, SECOND, -365 * DAY, 36500 * DAY] {
        let verification = EmailVerifications::new(&user, &token, duration);
        let expected_expiry = verification.created_at + duration;
        let diff = (verification.expires_at - expected_expiry).abs() / 1_000_000;
        assert!(diff < 100, "Should handle extreme duration: {:?}", duration);
    }
}

#[test]
fn test_is_expired_with_expired_verification() {
    let user = mock_user();
    let token = mock_token();
    let verification = EmailVerifications::new(&user, &token, -HOUR);
    assert!(verification.is_expired());
}

#[test]
fn test_is_expired_with_valid_verification() {
    let user = mock_user();
    let token = mock_token();
    let verification = EmailVerifications::new(&user, &token, 24 * HOUR);
    assert!(!verification.is_expired());
}

#[test]
fn test_is_valid_with_unused_and_not_expired() {
    let user = mock_user();
    let token = mock_token();
    let verification = EmailVerifications::new(&user, &token, 24 * HOUR);
    assert!(verification.is_valid(SECRET, ISSUER));
    assert!(!verification.is_used);
    assert!(!verification.is_expired());
}

#[test]
fn test_is_valid_with_used_verification() {
    let user = mock_user();
    let token = mock_token();
    let mut verification = EmailVerifications::new(&user, &token, 24 * HOUR);
    verification.is_used = true;
    assert!(!verification.is_valid(SECRET, ISSUER));
    assert!(verification.is_used);
    assert!(!verification.is_expired());
}

#[test]
fn test_is_valid_with_used_and_expired_verification() {
    let user = mock_user();
    let token = mock_token();
    let mut verification = EmailVerifications::new(&user, &token, -HOUR);
    verification.is_used = true;
    assert!(!verification.is_valid(SECRET, ISSUER));
    assert!(verification.is_used);
    assert!(verification.is_expired());
}

#[test]
fn test_is_valid_with_wrong_secret() {
    let user = mock_user();
    let token = mock_token();
    let verification = EmailVerifications::new(&user, &token, 24 * HOUR);
    let result = verification.is_valid("another-secret-entirely", ISSUER);
    assert!(!result, "Should fail with wrong secret");
}

#[test]
fn test_is_valid_with_wrong_issuer() {
    let user = mock_user();
    let token = mock_token();
    let verification = EmailVerifications::new(&user, &token, 24 * HOUR);
    let result = verification.is_valid(SECRET, "Another Company Ltd");
    assert!(!result, "Should fail with wrong issuer");
}

#[test]
fn test_is_valid_db_expired_but_jwt_not_expired() {
    let user = mock_user();
    let token = mock_token_with(&user, SECRET, ISSUER, 24 * 3600);
    let verification = EmailVerifications::new(&user, &token, -HOUR);
    assert!(verification.is_expired());
    assert!(!verification.is_valid(SECRET, ISSUER));
}

#[test]
fn is_valid_fails_once_the_token_has_expired() {
    let user = mock_user();
    // A token that expired two minutes ago (past the checker's one minute of leeway).
    let token = mock_token_with(&user, SECRET, ISSUER, -120);
    let verification = EmailVerifications::new(&user, &token, 24 * HOUR);
    assert!(!verification.is_expired());
    assert!(!verification.is_valid(SECRET, ISSUER), "Should fail when JWT is expired even if DB is not");
}

#[test]
fn test_is_valid_with_expired_verification() {
    let user = mock_user();
    let token = mock_token();
    let verification = EmailVerifications::new(&user, &token, -HOUR);
    assert!(!verification.is_valid(SECRET, ISSUER));
    assert!(!verification.is_used);
    assert!(verification.is_expired());
}

#[test]
fn test_time_until_expiry_positive() {
    let user = mock_user();
    let token = mock_token();
    let verification = EmailVerifications::new(&user, &token, 24 * HOUR);
    let time_remaining = verification.time_until_expiry();
    assert!(time_remaining / HOUR > 0);
    assert!(time_remaining / HOUR <= 24);
}

#[test]
fn test_time_until_expiry_negative() {
    let user = mock_user();
    let token = mock_token();
    let verification = EmailVerifications::new(&user, &token, -HOUR);
    let time_remaining = verification.time_until_expiry();
    assert!(time_remaining / SECOND < 0);
}

#[test]
fn test_modified_updated_at_field() {
    let user = mock_user();
    let token = mock_token();
    let mut verification = EmailVerifications::new(&user, &token, 24 * HOUR);
    verification.updated_at = Some(now());
    assert!(verification.updated_at.is_some());
}

#[test]
fn test_verification_with_manually_set_used_status() {
    let user = mock_user();
    let token = mock_token();
    let mut verification = EmailVerifications::new(&user, &token, 24 * HOUR);
    verification.is_used = true;
    assert!(verification.is_used);
    assert!(!verification.is_valid(SECRET, ISSUER));
}

#[test]
fn test_new_email_verification_with_empty_token() {
    let user = mock_user();
    let empty_token = EmailVerificationToken::from("".to_string());
    let verification = EmailVerifications::new(&user, &empty_token, 24 * HOUR);
    assert_eq!(verification.token.as_str(), "");
}

#[test]
fn test_new_email_verification_with_zero_duration() {
    let user = mock_user();
    let token = mock_token();
    let verification = EmailVerifications::new(&user, &token, 0);
    assert!(verification.expires_at <= now() + SECOND);
}

#[test]
fn test_new_email_verification_with_negative_duration() {
    let user = mock_user();
    let token = mock_token();
    let verification = EmailVerifications::new(&user, &token, -HOUR);
    assert!(verification.expires_at < verification.created_at);
}

#[test]
fn is_expired_at_is_strictly_after_expiry() {
    let user = mock_user();
    let token = mock_token();
    let verification = EmailVerifications::new(&user, &token, HOUR);
    let expiry = verification.expires_at;
    assert!(!verification.is_expired_at(expiry - 1));
    assert!(!verification.is_expired_at(expiry));
    assert!(verification.is_expired_at(expiry + 1));
}

#[test]
fn is_valid_at_needs_a_checked_token_and_time_left() {
    let user = mock_user();
    let token = mock_token();
    let verification = EmailVerifications::new(&user, &token, HOUR);
    let claim = TokenClaim::new(ISSUER, MINUTE, &user, TokenType::EmailVerification);
    let exp_nanos = (claim.exp as i128) * SECOND;
    let checked: Result<TokenClaim, AuthenticationError> = Ok(claim);
    assert!(verification.is_valid_at(&checked, exp_nanos - 1));
    assert!(!verification.is_valid_at(&checked, exp_nanos));
    let failed: Result<TokenClaim, AuthenticationError> = Err(AuthenticationError::TokenExpired);
    assert!(!verification.is_valid_at(&failed, exp_nanos - 1));
    assert!(!verification.is_valid_at(&checked, verification.expires_at));
}

#[test]
fn time_until_expiry_at_is_the_difference() {
    let user = mock_user();
    let token = mock_token();
    let verification = EmailVerifications::new(&user, &token, HOUR);
    assert_eq!(verification.time_until_expiry_at(verification.created_at), HOUR);
    assert_eq!(verification.time_until_expiry_at(verification.expires_at + 5), -5);
}

#[test]
fn display_names_id_user_expiry_and_use() {
    let user = mock_user();
    let token = mock_token();
    let mut verification = EmailVerifications::new(&user, &token, 0);
    verification.expires_at = 1_700_000_000 * SECOND;
    let text = verification.to_string();
    assert_eq!(
        text,
        format!(
            "EmailVerification(id: {}, user: {}, expires: 2023-11-14 22:13:20 UTC, is_used: false)",
            verification.id.to_string(),
            uuid::Uuid::from_u128(user.id)
        )
    );
}

#[test]
fn batch_size_checks() {
    assert!(check_batch_size(0).is_ok());
    assert!(check_batch_size(1).is_ok());
    assert!(check_batch_size(1000).is_ok());
    match check_batch_size(1001) {
        Err(AuthenticationError::ValidationError(m)) => assert_eq!(m, "Batch size 1001 exceeds limit of 1000"),
        other => panic!("unexpected {:?}", other),
    }
}

#[test]
fn page_bounds_cast_offset_and_limit() {
    assert_eq!(page_bounds(10, 20).unwrap(), (20, 10));
    assert!(matches!(page_bounds(usize::MAX, 0), Err(AuthenticationError::ValidationError(_))));
    assert!(matches!(page_bounds(0, usize::MAX), Err(AuthenticationError::ValidationError(_))));
}

#[test]
fn cursor_page_picks_first_or_after() {
    assert_eq!(cursor_page(10, None, None).unwrap(), CursorPage::First { limit: 10 });
    assert_eq!(
        cursor_page(5, Some(42), Some(7)).unwrap(),
        CursorPage::After { created_at: 42, id: 7, limit: 5 }
    );
    match cursor_page(5, Some(42), None) {
        Err(AuthenticationError::ValidationError(m)) => {
            assert_eq!(m, "Both cursor_created_at and cursor_id must be provided together")
        },
        other => panic!("unexpected {:?}", other),
    }
    match cursor_page(usize::MAX, None, None) {
        Err(AuthenticationError::ValidationError(m)) => assert_eq!(m, "Pagination value too large"),
        other => panic!("unexpected {:?}", other),
    }
}
