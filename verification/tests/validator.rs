use nucleus::validator::{
    DatapackNameValidator, NameValidator, NamespaceValidator, ValidatorError,
};

#[test]
fn namespace_accepts_item_ids() {
    assert!(NamespaceValidator.validate("minecraft:tnt").is_ok());
    assert!(NamespaceValidator.validate("boomber_0.magic-x:y").is_ok());
}

#[test]
fn namespace_rejects_upper_case_and_empty() {
    assert!(matches!(
        NamespaceValidator.validate("Minecraft:TNT"),
        Err(ValidatorError::InvalidNamespace(t)) if t == "Minecraft:TNT"
    ));
    assert!(matches!(
        NamespaceValidator.validate(""),
        Err(ValidatorError::InvalidNamespace(_))
    ));
}

#[test]
fn name_accepts_player_names() {
    assert!(NameValidator.validate("boomber").is_ok());
    assert!(NameValidator.validate("abc").is_ok());
    assert!(NameValidator.validate("a_23456789012345").is_ok());
}

#[test]
fn name_rejects_wrong_length_or_symbols() {
    assert!(matches!(
        NameValidator.validate("ab"),
        Err(ValidatorError::InvalidName(t)) if t == "ab"
    ));
    assert!(matches!(
        NameValidator.validate("a_234567890123456"),
        Err(ValidatorError::InvalidName(_))
    ));
    assert!(matches!(
        NameValidator.validate("hello@world"),
        Err(ValidatorError::InvalidName(_))
    ));
}

#[test]
fn datapack_name_accepts_words_and_spaces() {
    assert!(DatapackNameValidator.validate("Explosion Magic 2").is_ok());
    assert!(DatapackNameValidator.validate("pack").is_ok());
}

#[test]
fn datapack_name_rejects_symbols_and_empty() {
    assert!(matches!(
        DatapackNameValidator.validate("Hello, world!"),
        Err(ValidatorError::InvalidDatapackName(t)) if t == "Hello, world!"
    ));
    assert!(matches!(
        DatapackNameValidator.validate(""),
        Err(ValidatorError::InvalidDatapackName(_))
    ));
}
