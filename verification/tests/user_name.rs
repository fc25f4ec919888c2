use authentication::domains::user_name::UserName;
use authentication::error::AuthenticationError;

#[test]
fn thing_name_default() {
    let default_thing_name = UserName::default();
    let check = UserName::parse("Nil".to_string()).expect("Nil is a valid name");
    assert_eq!(default_thing_name.as_str(), check.as_str());
}

#[test]
fn a_256_grapheme_long_name_is_valid() {
    let name = "a̐".repeat(256);
    assert!(UserName::parse(name).is_ok());
}

#[test]
fn a_name_longer_than_256_graphemes_is_rejected() {
    let name = "a".repeat(257);
    assert!(matches!(
        UserName::parse(name),
        Err(AuthenticationError::UserNameFormatInvalid { .. })
    ));
}

#[test]
fn whitespace_only_names_are_rejected() {
    let name = " ".to_string();
    assert!(matches!(
        UserName::parse(name),
        Err(AuthenticationError::UserNameFormatInvalid { .. })
    ));
}

#[test]
fn user_name_empty_string_is_rejected() {
    let name = "".to_string();
    assert!(matches!(
        UserName::parse(name),
        Err(AuthenticationError::UserNameFormatInvalid { .. })
    ));
}

#[test]
fn names_containing_an_invalid_character_are_rejected() {
    for name in &['/', '(', ')', '"', '<', '>', '\\', '{', '}'] {
        let name = name.to_string();
        assert!(matches!(
            UserName::parse(name),
            Err(AuthenticationError::UserNameFormatInvalid { .. })
        ));
    }
}

#[test]
fn a_valid_name_is_parsed_successfully() {
    let name = "Ursula Le Guin".to_string();
    let parsed = UserName::parse(name).expect("a valid name");
    assert_eq!(parsed.as_str(), "Ursula Le Guin");
}
