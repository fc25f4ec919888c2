use authentication::database::logins::Logins;
use authentication::database::refresh_tokens::{RefreshTokenModel, RefreshTokens};
use authentication::database::sessions::Sessions;
use authentication::database::users::Users;
use authentication::domain::access_token::AccessToken;
use authentication::domain::email_address::EmailAddress;
use authentication::domain::jwt_token;
use authentication::domain::refresh_token::RefreshToken;
use authentication::domain::row_id::RowID;
use authentication::domain::token_claim;
use authentication::domain::user_role::UserRole;
use authentication::domains::password_hash::PasswordHash;
use authentication::domains::refresh_token::RefreshToken as StoredRefreshToken;
use authentication::domains::user_name::UserName;
use authentication::error::AuthenticationError;

const SECRET: &str = "refresh-and-access-signing-secret";

fn mock_user() -> Users {
    Users {
        id: 0x0190_71c5_a31c_7a0e_befa_5947_0212_2e75,
        email: EmailAddress::parse("default@example.com".to_string()).unwrap(),
        name: UserName::parse("Admin".to_string()).unwrap(),
        password_hash: PasswordHash::from("$argon2id$v=19$m=15000,t=2,p=1$c2FsdHNhbHQ$aGFzaGhhc2hoYXNo".to_string()),
        role: UserRole::Admin,
        is_active: true,
        is_verified: true,
        created_on: 0,
    }
}

fn user_id_text(user: &Users) -> String {
    uuid::Uuid::from_u128(user.id).to_string()
}

#[test]
fn jwt_token_type_names_and_default() {
    assert_eq!(jwt_token::TokenType::Access.to_string(), "Access");
    assert_eq!(jwt_token::TokenType::Refresh.to_string(), "Refresh");
    assert_eq!(jwt_token::TokenType::default(), jwt_token::TokenType::Access);
    for _ in 0..20 {
        let t = jwt_token::TokenType::random();
        assert!(matches!(t, jwt_token::TokenType::Access | jwt_token::TokenType::Refresh));
    }
}

#[test]
fn generate_new_token_claim() {
    let user = mock_user();
    let claim = jwt_token::TokenClaim::new("Acme Ltd", 3600, 0, &user, jwt_token::TokenType::Refresh).unwrap();
    assert_eq!(claim.iss, "Acme Ltd");
    assert_eq!(claim.sub, user_id_text(&user));
    assert_eq!(claim.jur, "admin");
    assert_eq!(claim.jty, "Refresh");
    assert_eq!(claim.nbf, claim.iat);
    assert_eq!(claim.exp, claim.iat + 3600);
    assert_eq!(uuid::Uuid::parse_str(&claim.jti).unwrap().get_version_num(), 7);
}

#[test]
fn role_claim_at_time_carries_the_fractions() {
    let user = mock_user();
    let claim = jwt_token::TokenClaim::at_time("I", 10, 600_000_000, &user, jwt_token::TokenType::Access, 100, 700_000_000, 5)
        .unwrap();
    assert_eq!(claim.iat, 100);
    assert_eq!(claim.exp, 111);
    assert_eq!(claim.jti, "00000000-0000-0000-0000-000000000005");
    assert!(jwt_token::TokenClaim::at_time("I", 10, 0, &user, jwt_token::TokenType::Access, -1, 0, 5).is_none());
    assert!(jwt_token::TokenClaim::at_time("I", u64::MAX, 0, &user, jwt_token::TokenType::Access, 0, 0, 5).is_none());
}

#[test]
fn role_claim_json_reads_back() {
    let claim = jwt_token::TokenClaim {
        iss: "a".to_string(),
        sub: "b".to_string(),
        exp: 3,
        nbf: 2,
        iat: 1,
        jti: "c".to_string(),
        jty: "Access".to_string(),
        jur: "user".to_string(),
    };
    let text = claim.to_json();
    assert_eq!(
        text,
        "{\"iss\":\"a\",\"sub\":\"b\",\"exp\":3,\"nbf\":2,\"iat\":1,\"jti\":\"c\",\"jty\":\"Access\",\"jur\":\"user\"}"
    );
    assert_eq!(jwt_token::TokenClaim::from_json(&text), Some(claim));
    assert_eq!(jwt_token::TokenClaim::from_json("{\"iss\":\"a\"}"), None);
    let d = jwt_token::TokenClaim::default();
    assert_eq!(d.exp, 0);
    assert!(d.iss.is_empty());
}

#[test]
fn generate_new_access_token() {
    let user = mock_user();
    let access_token = AccessToken::new(SECRET, "Acme Ltd", 3600, 0, &user).unwrap();
    let token_claim = jwt_token::TokenClaim::parse(access_token.as_str(), SECRET, "Acme Ltd").unwrap();
    assert_eq!(token_claim.iss, "Acme Ltd");
    assert_eq!(token_claim.sub, user_id_text(&user));
    assert_eq!(token_claim.jty, jwt_token::TokenType::Access.to_string());
    assert_eq!(token_claim.jur, "admin");
    assert_eq!(access_token.to_string(), access_token.as_str());
}

#[test]
fn access_token_checks_fail_as_json_web_token_errors() {
    let user = mock_user();
    let access_token = AccessToken::new(SECRET, "Acme Ltd", 3600, 0, &user).unwrap();
    match jwt_token::TokenClaim::parse(access_token.as_str(), "another secret", "Acme Ltd") {
        Err(AuthenticationError::JsonWebToken(m)) => assert_eq!(m, "InvalidSignature"),
        other => panic!("unexpected {:?}", other),
    }
    match jwt_token::TokenClaim::parse(access_token.as_str(), SECRET, "Other Ltd") {
        Err(AuthenticationError::JsonWebToken(m)) => assert_eq!(m, "InvalidIssuer"),
        other => panic!("unexpected {:?}", other),
    }
}

#[test]
fn parse_header_reads_the_bearer_token() {
    let token = AccessToken::parse_header(Some(b"Bearer abc.def.ghi".to_vec())).unwrap();
    assert_eq!(token.as_str(), "abc.def.ghi");
    let token = AccessToken::parse_header(Some(b"abc".to_vec())).unwrap();
    assert_eq!(token.as_str(), "abc");
    let token = AccessToken::parse_header(Some(b"Bearer Bearer x".to_vec())).unwrap();
    assert_eq!(token.as_str(), "x");
    let token = AccessToken::parse_header(Some(b"xBearer y".to_vec())).unwrap();
    assert_eq!(token.as_str(), "xy");
}

#[test]
fn parse_header_errors() {
    match AccessToken::parse_header(None) {
        Err(AuthenticationError::AuthenticationError(m)) => assert_eq!(m, "Authorization header not found"),
        other => panic!("unexpected {:?}", other),
    }
    match AccessToken::parse_header(Some(vec![b'B', 0x7f])) {
        Err(AuthenticationError::AuthenticationError(m)) => assert_eq!(m, "Authorization header is not a valid string"),
        other => panic!("unexpected {:?}", other),
    }
    assert_eq!(AccessToken::parse_header(Some(b"a\tb".to_vec())).unwrap().as_str(), "a\tb");
}

#[test]
fn issued_token_type_and_claims() {
    assert_eq!(token_claim::TokenType::Refresh.to_string(), "Refresh");
    assert_eq!(token_claim::TOKEN_ISSUER, "Personal Ledger Backend");
    assert_eq!(token_claim::REFRESH_TOKEN_DURATION, 7200);
    let claim = token_claim::TokenClaim::new("unused", "user-1", token_claim::TokenType::Refresh).unwrap();
    assert_eq!(claim.iss, "Personal Ledger Backend");
    assert_eq!(claim.sub, "user-1");
    assert_eq!(claim.jty, "Refresh");
    assert_eq!(claim.exp, claim.iat + 7200);
    assert!(token_claim::TokenClaim::new("unused", "user-1", token_claim::TokenType::Access).is_none());
    let at = token_claim::TokenClaim::at_time("u", token_claim::TokenType::Refresh, 10, 1_500_000_000, 1).unwrap();
    assert_eq!(at.exp, 10 + 7200 + 1);
}

#[test]
fn generate_new_refresh_token() {
    let user = mock_user();
    let refresh_token = StoredRefreshToken::new(SECRET, user.id).unwrap();
    let token_claim = token_claim::TokenClaim::from_token(refresh_token.as_str(), SECRET).unwrap();
    assert_eq!(token_claim.iss, token_claim::TOKEN_ISSUER);
    assert_eq!(token_claim.sub, user_id_text(&user));
    assert_eq!(token_claim.jty, token_claim::TokenType::Refresh.to_string());
    assert!(matches!(
        token_claim::TokenClaim::from_token(refresh_token.as_str(), "wrong"),
        Err(AuthenticationError::JsonWebToken(_))
    ));
}

#[test]
fn refresh_token_for_user_reads_back() {
    let user = mock_user();
    let token = RefreshToken::new(SECRET, &user).unwrap();
    let claim = token_claim::TokenClaim::from_token(token.as_str(), SECRET).unwrap();
    assert_eq!(claim.sub, user_id_text(&user));
    assert_eq!(claim.exp - claim.iat, 7200);
    assert_eq!(RefreshToken::default().as_str(), "");
    assert_eq!(RefreshToken::from("t".to_string()).to_string(), "t");
}

#[test]
fn new_session_is_active_and_expires_after_duration() {
    let user = mock_user();
    let token = RefreshToken::from("refresh".to_string());
    let session = Sessions::new(&user, Some(-1062731775), 7200, 0, &token).unwrap();
    assert_eq!(session.user_id, user.id);
    assert_eq!(session.logged_in_at % 1_000_000_000, 0);
    assert_eq!(session.expires_on - session.logged_in_at, 7200 * 1_000_000_000);
    assert_eq!(session.login_ip, Some(-1062731775));
    assert_eq!(session.refresh_token, token);
    assert!(session.is_active);
    assert!(session.logged_out_at.is_none());
    assert!(session.logout_ip.is_none());
    assert_eq!(uuid::Uuid::from_u128(session.id).get_version_num(), 7);
}

#[test]
fn new_login_stores_the_address_bits() {
    let login = Logins::new(42, Some(u32::from_be_bytes([192, 168, 0, 1])));
    assert_eq!(login.user_id, 42);
    assert_eq!(login.login_ip, Some(-1062731775));
    assert_eq!(login.login_on % 1_000_000_000, 0);
    assert_eq!(Logins::new(42, None).login_ip, None);
}

#[test]
fn new_refresh_token_records() {
    let user = mock_user();
    let record = RefreshTokens::new(&user, SECRET).unwrap();
    assert_eq!(record.user_id, user.id);
    assert!(record.is_active);
    let claim = token_claim::TokenClaim::from_token(record.token.as_str(), SECRET).unwrap();
    assert_eq!(claim.sub, user_id_text(&user));
    let model = RefreshTokenModel::new(7, "stored-token");
    assert_eq!(model.user_id, 7);
    assert_eq!(model.refresh_token.as_str(), "stored-token");
    assert!(model.is_active);
    assert_ne!(RowID::from(model.id).version_num(), 4);
}

#[test]
fn two_kind_draws_map_to_kinds() {
    assert_eq!(jwt_token::TokenType::from_index(0), jwt_token::TokenType::Access);
    assert_eq!(jwt_token::TokenType::from_index(1), jwt_token::TokenType::Refresh);
    assert_eq!(token_claim::TokenType::from_index(0), token_claim::TokenType::Access);
    assert_eq!(token_claim::TokenType::from_index(5), token_claim::TokenType::Refresh);
}

#[test]
fn token_check_settings() {
    assert_eq!(authentication::domain::tokens::claim::accepted_audiences(), vec!["authentication_service"]);
    assert_eq!(authentication::domain::tokens::claim::required_claims(), vec!["iss", "iat", "exp", "nbf"]);
    assert!(jwt_token::accepted_audiences().is_empty());
    assert_eq!(jwt_token::required_claims(), vec!["iss", "exp", "nbf"]);
    assert_eq!(token_claim::required_claims(), vec!["iss", "exp", "nbf"]);
}

#[test]
fn role_and_issued_claims_read_in_any_order() {
    let role = jwt_token::TokenClaim::from_json(
        "{ \"jur\":\"Admin\", \"jti\":\"j\", \"iss\":\"i\", \"sub\":\"s\", \"exp\":3, \"nbf\":2, \"iat\":1, \"jty\":\"Access\", \"x\":null }",
    )
    .unwrap();
    assert_eq!(role.iss, "i");
    assert_eq!(role.jur, "Admin");
    assert_eq!((role.iat, role.nbf, role.exp), (1, 2, 3));
    let issued = token_claim::TokenClaim::from_json(
        "{\"jty\":\"Refresh\",\"jti\":\"j\",\"iat\":1,\"nbf\":2,\"exp\":3,\"sub\":\"s\",\"iss\":\"i\"}",
    )
    .unwrap();
    assert_eq!(issued.jty, "Refresh");
    assert_eq!((issued.iat, issued.nbf, issued.exp), (1, 2, 3));
    assert!(token_claim::TokenClaim::from_json("{\"jty\":\"Refresh\"}").is_none());
}
