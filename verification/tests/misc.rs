use argon2::PasswordVerifier;
use authentication::configuration::{ConnectOptions, DatabaseConfiguration, Environment, SslMode};
use authentication::domain::email_address::EmailAddress;
use authentication::domain::row_id::RowID;
use authentication::domains::password::{compute_password_hash_and_verify, password_meets_policy, verify_password_hash, Password};
use authentication::domains::password_hash::PasswordHash;
use authentication::error::{AuthenticationError, StatusCode};

#[test]
fn email_address_empty_string_is_rejected() {
    let email = "".to_string();
    assert!(EmailAddress::parse(email).is_err());
}

#[test]
fn email_missing_at_symbol_is_rejected() {
    let email = "ianteda.com".to_string();
    assert!(EmailAddress::parse(email).is_err());
}

#[test]
fn email_missing_subject_is_rejected() {
    let email = "@domain.com".to_string();
    assert!(EmailAddress::parse(email).is_err());
}

#[test]
fn valid_email_parsed() {
    let email = "jane.citizen@example.com".to_string();
    assert!(EmailAddress::parse(email).is_ok());
}

#[test]
fn password_less_than_twelve_fails() {
    let password = "aB1%".to_string();
    assert!(Password::parse(&password).is_err());
}

#[test]
fn password_more_than_twelve_fails() {
    let password = "aB1%".repeat(260);
    assert!(Password::parse(&password).is_err());
}

#[test]
fn password_no_uppercase_characters_fails() {
    let password = "ab1%".repeat(10);
    assert!(Password::parse(&password).is_err());
}

#[test]
fn password_no_number_characters_fails() {
    let password = "aBc%".repeat(10);
    assert!(Password::parse(&password).is_err());
}

#[test]
fn password_no_special_characters_fails() {
    let password = "aB15".repeat(10);
    assert!(Password::parse(&password).is_err());
}

#[test]
fn password_password_passes() {
    let password = "aB1%".repeat(10);
    assert!(Password::parse(&password).is_ok());
}

#[test]
fn password_parse_hash_correctly() {
    let password_text = "aB1%".repeat(10);
    let password_hash = Password::parse(&password_text).unwrap();
    let parsed_hash = argon2::PasswordHash::new(password_hash.as_str()).unwrap();
    assert!(argon2::Argon2::default().verify_password(password_text.as_bytes(), &parsed_hash).is_ok());
}

#[test]
fn password_policy_edges() {
    assert!(password_meets_policy("aB1%aB1%aB1%"));
    assert!(!password_meets_policy("aB1%aB1%aB1"));
    assert!(password_meets_policy(&("aB1%".repeat(63) + "aB1")));
    assert!(!password_meets_policy(&"aB1%".repeat(64)));
    match Password::parse("short") {
        Err(AuthenticationError::PasswordFormatInvalid) => {},
        other => panic!("unexpected {:?}", other),
    }
}

#[test]
fn password_hash_verifies_its_password() {
    let hash = PasswordHash::parse("Correct-Horse-9").unwrap();
    assert_eq!(hash.verify_password("Correct-Horse-9").unwrap(), true);
    assert_eq!(hash.verify_password("Wrong-Horse-9").unwrap(), false);
    assert!(matches!(PasswordHash::from("not a hash".to_string()).verify_password("x"), Err(AuthenticationError::PasswordParseError)));
    assert!(matches!(PasswordHash::parse("weak"), Err(AuthenticationError::PasswordFormatInvalid)));
}

#[test]
fn computed_hash_verifies() {
    let hash = compute_password_hash_and_verify("Another-Pass-1").unwrap();
    assert!(hash.starts_with("$argon2id$v=19$m=15000,t=2,p=1$"));
    assert_eq!(verify_password_hash("Another-Pass-1", &hash).unwrap(), true);
    assert!(matches!(verify_password_hash("x", "plain text"), Err(AuthenticationError::PasswordParseError)));
    let admin = "$argon2id$v=19$m=15000,t=2,p=1$HBwgCOwk9o745vPiPI/0iA$TozkH3DlprgOaWhMOU4xE1xrVGJkdUWofJujyiJ4j+U";
    assert_eq!(verify_password_hash("not-the-password", admin).unwrap(), false);
    assert_eq!(verify_password_hash("x", "$bogus").unwrap(), false);
}

#[test]
fn environment_names_and_parsing() {
    assert_eq!(Environment::Development.as_str(), "development");
    assert_eq!(Environment::try_from("Production".to_string()), Ok(Environment::Production));
    assert_eq!(Environment::try_from("TESTING".to_string()), Ok(Environment::Testing));
    assert_eq!(
        Environment::try_from("Staging".to_string()),
        Err("staging is not a supported environment. Use either `development`, `testing` or `production`.".to_string())
    );
    assert_eq!(Environment::from_variable(None), Ok(Environment::Development));
    assert_eq!(Environment::from_variable(Some("testing".to_string())), Ok(Environment::Testing));
    assert_eq!(Environment::Production.config_file_name(), "production.yaml");
}

#[test]
fn database_connection_options() {
    let config = DatabaseConfiguration {
        host: "localhost".to_string(),
        port: 5432,
        username: "postgres".to_string(),
        password: "password".to_string(),
        database_name: "authentication".to_string(),
        require_ssl: false,
    };
    let options: ConnectOptions = config.connection();
    assert_eq!(options.host, "localhost");
    assert_eq!(options.port, 5432);
    assert_eq!(options.database, "authentication");
    assert_eq!(options.ssl_mode, SslMode::Prefer);
    let secure = DatabaseConfiguration { require_ssl: true, ..config };
    assert_eq!(secure.connection().ssl_mode, SslMode::Require);
}

#[test]
fn errors_map_to_status() {
    let (code, message) = AuthenticationError::AuthenticationError("Authorization header not found".to_string()).to_status();
    assert_eq!(code, StatusCode::Unauthenticated);
    assert_eq!(message, "Authorization header not found");
    let (code, message) = AuthenticationError::DatabaseError("connection refused".to_string()).to_status();
    assert_eq!(code, StatusCode::Internal);
    assert_eq!(message, "Internal server error");
    let (code, _) = AuthenticationError::TokenExpired.to_status();
    assert_eq!(code, StatusCode::Internal);
}

#[test]
fn row_id_text_round_trips() {
    let id = RowID::from(0x0190_71c5_a31c_7a0e_befa_5947_0212_2e75);
    let text = id.to_string();
    assert_eq!(text, "019071c5-a31c-7a0e-befa-594702122e75");
    assert_eq!(RowID::from_str(&text).unwrap(), id);
    assert!(RowID::from_str("not-a-uuid").is_err());
}

#[test]
fn user_struct_partial_eq_and_clone_work() {
    let user = authentication::database::users::Users {
        id: RowID::new().into_uuid(),
        email: EmailAddress::parse("clone@example.com".to_string()).unwrap(),
        name: authentication::domains::user_name::UserName::parse("Clone".to_string()).unwrap(),
        password_hash: PasswordHash::from("$argon2id$v=19$m=15000,t=2,p=1$c2FsdHNhbHQ$aGFzaGhhc2hoYXNo".to_string()),
        role: authentication::domain::user_role::UserRole::Guest,
        is_active: false,
        is_verified: false,
        created_on: 1_571_270_400_000_000_000,
    };
    let cloned = user.clone();
    assert_eq!(user, cloned);
}

#[test]
fn email_parse_follows_the_validator_verdict() {
    assert!(matches!(EmailAddress::parse_validated("  ".to_string(), true), Err(AuthenticationError::EmailIsEmpty)));
    assert_eq!(EmailAddress::parse_validated("a@b".to_string(), true).unwrap().as_str(), "a@b");
    match EmailAddress::parse_validated("a@b".to_string(), false) {
        Err(AuthenticationError::EmailFormatInvalid(m)) => assert_eq!(m, "a@b"),
        other => panic!("unexpected {:?}", other),
    }
    assert!(matches!(EmailAddress::parse("\t\n".to_string()), Err(AuthenticationError::EmailIsEmpty)));
}

#[test]
fn user_name_parse_follows_the_cluster_count() {
    assert_eq!(authentication::domains::user_name::UserName::parse_counted("Ann".to_string(), 3).unwrap().as_str(), "Ann");
    assert!(authentication::domains::user_name::UserName::parse_counted("Ann".to_string(), 257).is_err());
    assert!(authentication::domains::user_name::UserName::parse_counted("A{n".to_string(), 3).is_err());
    assert!(authentication::domains::user_name::UserName::parse_counted(" ".to_string(), 1).is_err());
}

#[test]
fn environment_names_read_back() {
    for e in [Environment::Development, Environment::Testing, Environment::Production] {
        assert_eq!(Environment::from_lowercase(e.as_str().to_string()), Ok(e));
        assert_eq!(Environment::try_from(e.as_str().to_string()), Ok(e));
        assert_eq!(Environment::try_from(e.as_str().to_uppercase()), Ok(e));
    }
    assert!(Environment::from_lowercase("Development".to_string()).is_err());
}

#[test]
fn user_struct_field_types_are_correct() {
    let user = authentication::database::users::Users {
        id: RowID::new().into_uuid(),
        email: EmailAddress::parse("types@example.com".to_string()).unwrap(),
        name: authentication::domains::user_name::UserName::parse("Types".to_string()).unwrap(),
        password_hash: PasswordHash::from("$argon2id$v=19$m=15000,t=2,p=1$c2FsdHNhbHQ$aGFzaGhhc2hoYXNo".to_string()),
        role: authentication::domain::user_role::UserRole::User,
        is_active: true,
        is_verified: false,
        created_on: 0,
    };
    let _: u128 = user.id;
    let _: &EmailAddress = &user.email;
    let _: &authentication::domains::user_name::UserName = &user.name;
    let _: &PasswordHash = &user.password_hash;
    let _: &authentication::domain::user_role::UserRole = &user.role;
    let _: bool = user.is_active;
    let _: bool = user.is_verified;
    let _: i128 = user.created_on;
}

#[test]
fn email_without_at_reports_the_address() {
    assert_eq!(
        EmailAddress::parse("ianteda.com".to_string()),
        Err(AuthenticationError::EmailFormatInvalid("ianteda.com".to_string()))
    );
}

#[test]
fn environment_displays_its_name() {
    for e in [Environment::Development, Environment::Testing, Environment::Production] {
        assert_eq!(e.to_string(), e.as_str());
    }
    assert_eq!(Environment::Testing.to_string(), "testing");
}

#[test]
fn policy_password_hashes_with_service_parameters() {
    let hash = PasswordHash::parse("aB1%aB1%aB1%").unwrap();
    assert!(hash.as_str().starts_with("$argon2id$v=19$m=15000,t=2,p=1$"));
    assert_eq!(hash.verify_password("aB1%aB1%aB1%"), Ok(true));
    let password = Password::parse("aB1%aB1%aB1%").unwrap();
    assert!(password.as_str().starts_with("$argon2id$v=19$m=15000,t=2,p=1$"));
    assert_eq!(verify_password_hash("aB1%aB1%aB1%", password.as_str()), Ok(true));
    assert!(matches!(Password::parse("aB1%aB1%aB1"), Err(AuthenticationError::PasswordFormatInvalid)));
}

#[test]
fn environment_names_in_any_case() {
    assert_eq!(Environment::try_from("PRODUCTION".to_string()), Ok(Environment::Production));
    assert_eq!(Environment::try_from("Testing".to_string()), Ok(Environment::Testing));
    assert_eq!(Environment::try_from("DeVeLoPmEnT".to_string()), Ok(Environment::Development));
}

#[test]
fn errors_display_their_text() {
    assert_eq!(AuthenticationError::TokenExpired.to_string(), "Token has expired");
    assert_eq!(AuthenticationError::InvalidToken("bad".to_string()).to_string(), "Invalid token: bad");
    assert_eq!(
        AuthenticationError::ConstraintViolation {
            constraint: "users_email_key".to_string(),
            field: "email".to_string(),
            message: "duplicate".to_string(),
        }
        .to_string(),
        "Database constraint violation: users_email_key in field 'email': duplicate"
    );
    assert_eq!(AuthenticationError::Static("x").to_string(), "Static error: x");
}
