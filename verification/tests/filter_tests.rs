use edek_triage::filters::{
    execute_config_id_filter, execute_filter, execute_mismatched_filter, Filter, FilterError,
};
use edek_triage::schema::{EncryptedDek, ParseError};

fn dek(kms_config_id: i32, leased_key_data: Vec<u8>) -> EncryptedDek {
    EncryptedDek { kms_config_id, leased_key_data }
}

#[test]
fn config_id_filter_matches_equal_id() {
    let d = dek(5, vec![]);
    assert_eq!(execute_config_id_filter(&d, 5), Ok(true));
    assert_eq!(execute_filter(&Filter::ConfigId(5), &d), Ok(true));
}

#[test]
fn config_id_filter_rejects_other_id() {
    let d = dek(5, vec![]);
    assert_eq!(execute_config_id_filter(&d, 9), Ok(false));
    assert_eq!(execute_filter(&Filter::ConfigId(9), &d), Ok(false));
}

#[test]
fn mismatched_filter_without_lease_is_false() {
    let d = dek(5, vec![]);
    assert_eq!(execute_mismatched_filter(&d), Ok(false));
    assert_eq!(execute_filter(&Filter::Mismatched, &d), Ok(false));
}

#[test]
fn mismatched_filter_differing_lease_is_true() {
    // lease container with configuration id seven against a record with five
    let d = dek(5, vec![0x0a, 0x02, 0x08, 0x07]);
    assert_eq!(execute_mismatched_filter(&d), Ok(true));
}

#[test]
fn mismatched_filter_equal_lease_is_false() {
    let d = dek(5, vec![0x0a, 0x02, 0x08, 0x05]);
    assert_eq!(execute_mismatched_filter(&d), Ok(false));
}

#[test]
fn mismatched_filter_unparsable_lease_fails() {
    let d = dek(5, vec![0x0a]);
    assert_eq!(
        execute_mismatched_filter(&d),
        Err(FilterError::UnparsableLeasedKey(ParseError::InvalidSchema))
    );
}

#[test]
fn mismatched_filter_empty_lease_container_fails() {
    // well-formed lease container that holds no record
    let d = dek(5, vec![0x1a, 0x01, 0x41]);
    assert_eq!(
        execute_mismatched_filter(&d),
        Err(FilterError::UnparsableLeasedKey(ParseError::NoKeysProvided))
    );
}
