use label_printer::sequence::{Sequence, MAX_CODE};
use label_printer::sequence_service::SequenceService;

#[test]
fn test_new_sequence() {
    let seq = Sequence::new(0).unwrap();
    assert_eq!(seq.last_used_code(), "Z0000000");
}

#[test]
fn test_new_sequence_overflow() {
    assert!(Sequence::new(MAX_CODE + 1).is_err());
}

#[test]
fn test_from_code() {
    let seq = Sequence::from_code("Z0000001").unwrap();
    assert_eq!(seq.last_used_value(), 1);
}

#[test]
fn test_next() {
    let mut seq = Sequence::new(0).unwrap();
    assert_eq!(seq.next(), "Z0000001");
    assert_eq!(seq.next(), "Z0000002");
}

#[test]
fn test_next_rollover() {
    let mut seq = Sequence::new(MAX_CODE).unwrap();
    assert_eq!(seq.next(), "Z0000001");
}

#[test]
fn test_next_n() {
    let mut seq = Sequence::new(0).unwrap();
    let codes = seq.next_n(3).unwrap();
    assert_eq!(codes, vec!["Z0000001", "Z0000002", "Z0000003"]);
}

#[test]
fn test_next_n_invalid() {
    let mut seq = Sequence::new(0).unwrap();
    assert!(seq.next_n(0).is_err());
}

#[test]
fn sequence_test_reserve_range() {
    let mut seq = Sequence::new(0).unwrap();
    let (start, end, codes) = seq.reserve_range(5).unwrap();
    assert_eq!(start, "Z0000001");
    assert_eq!(end, "Z0000005");
    assert_eq!(codes.len(), 5);
    assert_eq!(seq.last_used_code(), "Z0000005");
}

#[test]
fn test_reserve_range_rollover() {
    let mut seq = Sequence::new(MAX_CODE - 2).unwrap();
    let (start, end, codes) = seq.reserve_range(5).unwrap();
    assert_eq!(start, "Z9999998");
    assert_eq!(end, "Z0000003");
    assert_eq!(codes.len(), 5);
    assert_eq!(
        codes,
        vec!["Z9999998", "Z9999999", "Z0000001", "Z0000002", "Z0000003"]
    );
}

#[test]
fn test_to_code() {
    assert_eq!(Sequence::to_code(0), "Z0000000");
    assert_eq!(Sequence::to_code(1), "Z0000001");
    assert_eq!(Sequence::to_code(9999999), "Z9999999");
}

#[test]
fn test_parse_code() {
    assert_eq!(Sequence::parse_code("Z0000001").unwrap(), 1);
    assert_eq!(Sequence::parse_code("Z9999999").unwrap(), 9999999);
    assert!(Sequence::parse_code("A0000001").is_err());
    assert!(Sequence::parse_code("Z000000").is_err());
}

#[test]
fn test_display() {
    let seq = Sequence::new(42).unwrap();
    assert_eq!(seq.to_string(), "Z0000042");
}

#[test]
fn to_code_longer_values_are_not_cut() {
    assert_eq!(Sequence::to_code(12345678), "Z12345678");
    assert_eq!(Sequence::to_code(u64::MAX), "Z18446744073709551615");
}

#[test]
fn parse_code_follows_unsigned_parsing() {
    assert_eq!(Sequence::parse_code("Z+000012").unwrap(), 12);
    assert!(Sequence::parse_code("Z-000012").is_err());
    assert!(Sequence::parse_code("Z00000a1").is_err());
    assert!(Sequence::parse_code("Z00000001").is_err());
    assert!(Sequence::parse_code("Zé000001").is_err());
    assert!(Sequence::parse_code("").is_err());
}

#[test]
fn parse_code_error_carries_the_input() {
    match Sequence::parse_code("bad") {
        Err(e) => assert_eq!(e.message(), "Invalid barcode: bad"),
        Ok(_) => panic!("expected an error"),
    }
}

#[test]
fn round_trip_of_every_sampled_value() {
    for v in [0u64, 1, 9, 10, 99, 1000, 123456, 9999998, 9999999] {
        assert_eq!(Sequence::parse_code(&Sequence::to_code(v)).unwrap(), v);
    }
}

#[test]
fn next_n_matches_reserve_range_from_the_same_state() {
    let mut a = Sequence::new(9999997).unwrap();
    let mut b = a.clone();
    let one_by_one = a.next_n(4).unwrap();
    let (_, _, reserved) = b.reserve_range(4).unwrap();
    assert_eq!(one_by_one, reserved);
    assert_eq!(a.last_used_value(), b.last_used_value());
}

#[test]
fn consecutive_reservations_are_contiguous() {
    let mut seq = Sequence::new(9999990).unwrap();
    let (_, end1, _) = seq.reserve_range(12).unwrap();
    let (start2, _, _) = seq.reserve_range(3).unwrap();
    assert_eq!(end1, "Z0000003");
    assert_eq!(start2, "Z0000004");
}

#[test]
fn reservation_codes_are_distinct() {
    let mut seq = Sequence::new(9999000).unwrap();
    let (_, _, codes) = seq.reserve_range(3000).unwrap();
    let mut sorted = codes.clone();
    sorted.sort();
    sorted.dedup();
    assert_eq!(sorted.len(), 3000);
}

#[test]
fn reserve_range_zero_is_refused_and_keeps_state() {
    let mut seq = Sequence::new(7).unwrap();
    match seq.reserve_range(0) {
        Err(e) => assert_eq!(e.message(), "Invalid quantity: 0"),
        Ok(_) => panic!("expected an error"),
    }
    assert_eq!(seq.last_used_value(), 7);
}

#[test]
fn overflow_error_message() {
    match Sequence::new(10_000_000) {
        Err(e) => assert_eq!(e.message(), "Sequence overflow: value 10000000 exceeds maximum"),
        Ok(_) => panic!("expected an error"),
    }
}

#[test]
fn service_current_sequence_and_next_code() {
    let service = SequenceService::new();
    let seq = service.current_sequence("Z0000005").unwrap();
    assert_eq!(seq.last_used_code(), "Z0000005");
    let (code, stored) = service.next_code("Z0000000").unwrap();
    assert_eq!(code, "Z0000001");
    assert_eq!(stored, "Z0000001");
    assert!(service.next_code("nope").is_err());
}

#[test]
fn service_codes_for_range_start_after_the_given_code() {
    let service = SequenceService::new();
    let codes = service.codes_for_range("Z0000001", 3).unwrap();
    assert_eq!(codes, vec!["Z0000002", "Z0000003", "Z0000004"]);
    assert!(service.codes_for_range("Z0000001", 0).is_err());
    assert!(service.codes_for_range("X", 3).is_err());
}

#[test]
fn service_reserve_from_stored() {
    let service = SequenceService::new();
    let (start, end, stored) = service.reserve_from_stored("Z9999998", 5).unwrap();
    assert_eq!(start, "Z9999999");
    assert_eq!(end, "Z0000004");
    assert_eq!(stored, "Z0000004");
    match service.reserve_from_stored("Z0000000", 0) {
        Err(e) => assert_eq!(e.message(), "Database error: Invalid quantity: 0"),
        Ok(_) => panic!("expected an error"),
    }
    match service.reserve_from_stored("broken", 2) {
        Err(e) => assert_eq!(e.message(), "Database error: Invalid barcode: broken"),
        Ok(_) => panic!("expected an error"),
    }
}
