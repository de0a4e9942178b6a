use edek_triage::decode::DecodeError;
use edek_triage::filters::{Filter, FilterError};
use edek_triage::pipeline::{run, BrokenReason, GetIdentifier};
use edek_triage::schema::ParseError;
use edek_triage::Mode;

fn entry(id: &str, edek: &str) -> (String, String) {
    (id.to_string(), edek.to_string())
}

#[test]
fn hex_record_matches_equal_config_id() {
    // container with one record, kms_config_id five
    let inputs = vec![entry("rec1", "0x0a020805")];
    let (matched, broken) = run(&inputs, Mode::Hex, &vec![Filter::ConfigId(5)]);
    assert_eq!(matched, vec![entry("rec1", "0x0a020805")]);
    assert!(broken.is_empty());
}

#[test]
fn record_failing_a_filter_is_silently_dropped() {
    let inputs = vec![entry("rec1", "0x0a020805")];
    let (matched, broken) = run(&inputs, Mode::Hex, &vec![Filter::ConfigId(9)]);
    assert!(matched.is_empty());
    assert!(broken.is_empty());
}

#[test]
fn malformed_base64_record_is_broken() {
    let inputs = vec![entry("rec1", "!!!not-base64!!!")];
    let (matched, broken) = run(&inputs, Mode::Base64, &vec![Filter::ConfigId(5)]);
    assert!(matched.is_empty());
    assert_eq!(broken.len(), 1);
    assert_eq!(broken[0].identifier, "rec1");
    assert_eq!(broken[0].edek, "!!!not-base64!!!");
    assert_eq!(broken[0].line, 1);
    assert!(matches!(
        broken[0].reason,
        BrokenReason::IncorrectlyFormatted(DecodeError::InvalidBase64)
    ));
}

#[test]
fn mismatched_lease_record_matches() {
    // outer record five, lease container with seven
    let blob = "0a08080512040a020807";
    let inputs = vec![entry("rec1", blob)];
    let (matched, broken) = run(&inputs, Mode::Hex, &vec![Filter::Mismatched]);
    assert_eq!(matched, vec![entry("rec1", blob)]);
    assert!(broken.is_empty());
}

#[test]
fn equal_lease_record_is_dropped_by_mismatched_filter() {
    let blob = "0a08080512040a020805";
    let inputs = vec![entry("rec1", blob)];
    let (matched, broken) = run(&inputs, Mode::Hex, &vec![Filter::Mismatched]);
    assert!(matched.is_empty());
    assert!(broken.is_empty());
}

#[test]
fn unparsable_record_is_broken() {
    // decodes to a single zero byte, which is no container
    let inputs = vec![entry("rec1", "00")];
    let (matched, broken) = run(&inputs, Mode::Hex, &vec![Filter::ConfigId(5)]);
    assert!(matched.is_empty());
    assert_eq!(broken.len(), 1);
    assert!(matches!(
        broken[0].reason,
        BrokenReason::UnparsableEdek(ParseError::InvalidSchema)
    ));
}

#[test]
fn empty_container_is_broken_with_no_keys() {
    // a container holding only an unknown field: no keys provided
    let inputs = vec![entry("rec1", "1a0141")];
    let (_, broken) = run(&inputs, Mode::Hex, &vec![Filter::ConfigId(5)]);
    assert_eq!(broken.len(), 1);
    assert!(matches!(
        broken[0].reason,
        BrokenReason::UnparsableEdek(ParseError::NoKeysProvided)
    ));
}

#[test]
fn filter_failure_is_broken_with_all_failures() {
    // record whose lease bytes are truncated, so the mismatch filter fails
    let inputs = vec![entry("rec1", "0a05080512010a")];
    let (matched, broken) = run(&inputs, Mode::Hex, &vec![Filter::ConfigId(5), Filter::Mismatched]);
    assert!(matched.is_empty());
    assert_eq!(broken.len(), 1);
    match &broken[0].reason {
        BrokenReason::FilterFailures(fails) => {
            assert_eq!(
                fails,
                &vec![FilterError::UnparsableLeasedKey(ParseError::InvalidSchema)]
            );
        },
        _ => panic!("expected filter failures"),
    }
}

#[test]
fn line_numbers_are_one_based_in_input_order() {
    let inputs = vec![
        entry("good", "0a020805"),
        entry("bad", "zz"),
        entry("other", "xx"),
    ];
    let (matched, broken) = run(&inputs, Mode::Hex, &vec![Filter::ConfigId(5)]);
    assert_eq!(matched.len(), 1);
    assert_eq!(broken.len(), 2);
    assert_eq!(broken[0].identifier, "bad");
    assert_eq!(broken[0].line, 2);
    assert_eq!(broken[1].identifier, "other");
    assert_eq!(broken[1].line, 3);
}

#[test]
fn one_bad_record_never_aborts_the_batch() {
    let inputs = vec![entry("bad", "zz"), entry("good", "0a020805")];
    let (matched, broken) = run(&inputs, Mode::Hex, &vec![Filter::ConfigId(5)]);
    assert_eq!(matched, vec![entry("good", "0a020805")]);
    assert_eq!(broken.len(), 1);
}

#[test]
fn both_filters_must_hold_to_match() {
    // matches the id but carries no lease, so the mismatch filter says false
    let inputs = vec![entry("rec1", "0a020805")];
    let (matched, broken) = run(&inputs, Mode::Hex, &vec![Filter::ConfigId(5), Filter::Mismatched]);
    assert!(matched.is_empty());
    assert!(broken.is_empty());
}

#[test]
fn partition_is_complete() {
    let inputs = vec![
        entry("m", "0a020805"),   // matched
        entry("b", "zz"),         // broken: bad hex
        entry("d", "0a020809"),   // dropped: filter answers false
        entry("u", "00"),         // broken: unparsable
    ];
    let (matched, broken) = run(&inputs, Mode::Hex, &vec![Filter::ConfigId(5)]);
    let dropped = inputs.len() - matched.len() - broken.len();
    assert_eq!(matched.len(), 1);
    assert_eq!(broken.len(), 2);
    assert_eq!(dropped, 1);
    assert_eq!(matched.len() + broken.len() + dropped, inputs.len());
    // no identifier sits in both buckets
    for m in &matched {
        for b in &broken {
            assert_ne!(m.0, b.identifier);
        }
    }
}

#[test]
fn identifiers_are_exposed_for_output() {
    let e = entry("rec1", "0a020805");
    assert_eq!(e.identifier(), "rec1");
    let inputs = vec![entry("bad", "zz")];
    let (_, broken) = run(&inputs, Mode::Hex, &vec![Filter::ConfigId(5)]);
    assert_eq!(broken[0].identifier(), "bad");
}
