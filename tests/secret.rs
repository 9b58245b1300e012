use ironmonger::errors::SecretError;
use ironmonger::secret::{is_hex_digit, is_secret_shaped, AppSecret};

const SECRET_LENGTH: usize = 192;

#[test]
fn test_valid_secret_creation() {
    let valid_secret = "a".repeat(SECRET_LENGTH);
    let secret = AppSecret::new(valid_secret.clone());
    assert!(secret.is_ok());
    assert_eq!(secret.unwrap().as_str(), valid_secret);
}

#[test]
fn test_invalid_length() {
    let invalid_secret = "a".repeat(SECRET_LENGTH - 1);
    let secret = AppSecret::new(invalid_secret);
    assert!(secret.is_err());
}

#[test]
fn test_invalid_characters() {
    let mut invalid = "a".repeat(SECRET_LENGTH - 1);
    invalid.push('g');
    let secret = AppSecret::new(invalid);
    assert!(secret.is_err());
}

#[test]
fn test_is_valid() {
    let valid_secret = AppSecret::new("0123456789abcdef".repeat(SECRET_LENGTH / 16)).unwrap();
    assert!(valid_secret.is_valid());
}

#[test]
fn test_display_trait() {
    let secret = AppSecret::new("a".repeat(SECRET_LENGTH)).unwrap();
    assert_eq!(secret.to_string(), "a".repeat(SECRET_LENGTH));
}

#[test]
fn test_as_ref() {
    let secret = AppSecret::new("b".repeat(SECRET_LENGTH)).unwrap();
    let s: &str = secret.as_ref();
    assert_eq!(s, "b".repeat(SECRET_LENGTH));
}

#[test]
fn uppercase_and_mixed_case_hex_is_accepted_unchanged() {
    let text = "0123456789ABCDEFabcdef".repeat(8) + "0123456789ABCDEF";
    assert_eq!(text.len(), SECRET_LENGTH);
    let secret = AppSecret::new(text.clone()).unwrap();
    assert_eq!(secret.as_str(), text);
    assert_eq!(secret.to_string(), text);
    assert!(secret.is_valid());
}

#[test]
fn too_long_secret_is_rejected_as_invalid_format() {
    let r = AppSecret::new("a".repeat(SECRET_LENGTH + 1));
    assert!(matches!(r, Err(SecretError::InvalidFormat)));
}

#[test]
fn empty_secret_is_rejected_as_invalid_format() {
    let r = AppSecret::new(String::new());
    assert!(matches!(r, Err(SecretError::InvalidFormat)));
}

#[test]
fn non_hex_character_anywhere_is_rejected() {
    let mut text = "a".repeat(SECRET_LENGTH);
    text.replace_range(0..1, "z");
    assert!(matches!(AppSecret::new(text), Err(SecretError::InvalidFormat)));
    let mut text = "a".repeat(SECRET_LENGTH);
    text.replace_range(100..101, " ");
    assert!(matches!(AppSecret::new(text), Err(SecretError::InvalidFormat)));
}

#[test]
fn multibyte_characters_of_the_right_count_are_rejected() {
    let text = "é".repeat(SECRET_LENGTH);
    assert!(matches!(AppSecret::new(text), Err(SecretError::InvalidFormat)));
    let text = "é".repeat(SECRET_LENGTH / 2);
    assert_eq!(text.len(), SECRET_LENGTH);
    assert!(matches!(AppSecret::new(text), Err(SecretError::InvalidFormat)));
}

#[test]
fn hex_digit_classification() {
    for c in "0123456789abcdefABCDEF".chars() {
        assert!(is_hex_digit(c));
    }
    for c in "gGzZ -/:@`".chars() {
        assert!(!is_hex_digit(c));
    }
}

#[test]
fn secret_shape_check() {
    assert!(is_secret_shaped(&"F".repeat(SECRET_LENGTH)));
    assert!(!is_secret_shaped(&"F".repeat(SECRET_LENGTH - 1)));
    assert!(!is_secret_shaped(""));
}

#[test]
fn clone_and_as_ref_give_the_same_text() {
    let secret = AppSecret::new("C".repeat(SECRET_LENGTH)).unwrap();
    let copy = secret.clone();
    assert_eq!(copy, secret);
    let s: &str = copy.as_ref();
    assert_eq!(s, secret.as_str());
}
