use oxypp::scan::same_text;
use oxypp::taxonomy::{OCPPAction, OCPPError};

const CODES: [(OCPPError, &str); 10] = [
    (OCPPError::NotImplemented, "NotImplemented"),
    (OCPPError::NotSupported, "NotSupported"),
    (OCPPError::InternalError, "InternalError"),
    (OCPPError::ProtocolError, "ProtocolError"),
    (OCPPError::SecurityError, "SecurityError"),
    (OCPPError::FormationViolation, "FormationViolation"),
    (OCPPError::PropertyConstraintViolation, "PropertyConstraintViolation"),
    (OCPPError::OccurenceConstraintViolation, "OccurenceConstraintViolation"),
    (OCPPError::TypeConstraintViolation, "TypeConstraintViolation"),
    (OCPPError::GenericError, "GenericError"),
];

#[test]
fn every_error_code_has_its_spelling() {
    for (code, text) in CODES {
        assert_eq!(code.name(), text);
        assert_eq!(OCPPError::from_str(text), Ok(code));
    }
}

#[test]
fn unknown_error_codes_are_refused() {
    assert_eq!(OCPPError::from_str("notimplemented"), Err(()));
    assert_eq!(OCPPError::from_str("OccurrenceConstraintViolation"), Err(()));
    assert_eq!(OCPPError::from_str(""), Err(()));
    assert_eq!(OCPPError::from_str("GenericError "), Err(()));
}

#[test]
fn the_action_has_its_spelling() {
    assert_eq!(OCPPAction::BootNotification.name(), "BootNotification");
    assert_eq!(OCPPAction::from_str("BootNotification"), Ok(OCPPAction::BootNotification));
    assert_eq!(OCPPAction::from_str("Authorize"), Err(()));
    assert_eq!(OCPPAction::from_str("BOOTNOTIFICATION"), Err(()));
}

#[test]
fn same_text_compares_characters() {
    assert!(same_text("abc", "abc"));
    assert!(!same_text("abc", "abd"));
    assert!(!same_text("abc", "ab"));
    assert!(same_text("", ""));
}
