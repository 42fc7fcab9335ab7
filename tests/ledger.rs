use batch_payments::ledger::{parse_entries, process_line, LedgerError, LineError, PaymentEntry};

#[test]
fn parses_address_and_amount() {
    let e = process_line("Addr123,5000").unwrap();
    assert_eq!(e.address, "Addr123");
    assert_eq!(e.amount, 5000);
}

#[test]
fn round_trip_of_entry() {
    let e = process_line("Addr123,5000").unwrap();
    let line = e.to_line();
    assert_eq!(line, "Addr123,5000");
    let again = process_line(&line).unwrap();
    assert_eq!(again.address, e.address);
    assert_eq!(again.amount, e.amount);
}

#[test]
fn to_line_writes_zero_and_max() {
    let zero = PaymentEntry { address: "A".to_string(), amount: 0 };
    assert_eq!(zero.to_line(), "A,0");
    let max = PaymentEntry { address: "B".to_string(), amount: u64::MAX };
    assert_eq!(max.to_line(), "B,18446744073709551615");
    assert_eq!(process_line(&max.to_line()).unwrap().amount, u64::MAX);
}

#[test]
fn amount_field_is_trimmed() {
    let e = process_line("Addr, 42 \t").unwrap();
    assert_eq!(e.address, "Addr");
    assert_eq!(e.amount, 42);
}

#[test]
fn address_is_not_trimmed() {
    let e = process_line(" Addr ,7").unwrap();
    assert_eq!(e.address, " Addr ");
}

#[test]
fn fields_after_second_comma_are_ignored() {
    let e = process_line("Addr,15,extra").unwrap();
    assert_eq!(e.amount, 15);
}

#[test]
fn plus_sign_is_accepted() {
    assert_eq!(process_line("Addr,+9").unwrap().amount, 9);
    assert!(matches!(process_line("Addr,+"), Err(LineError::InvalidAmount)));
}

#[test]
fn missing_comma_is_refused() {
    assert!(matches!(process_line("Addr5000"), Err(LineError::MissingAmount)));
    assert!(matches!(process_line(""), Err(LineError::MissingAmount)));
}

#[test]
fn non_numeric_amount_is_refused() {
    assert!(matches!(process_line("Addr,12a"), Err(LineError::InvalidAmount)));
    assert!(matches!(process_line("Addr,"), Err(LineError::InvalidAmount)));
    assert!(matches!(process_line("Addr,-5"), Err(LineError::InvalidAmount)));
    assert!(matches!(process_line("Addr,1 2"), Err(LineError::InvalidAmount)));
}

#[test]
fn amount_overflow_is_refused() {
    assert!(matches!(process_line("Addr,18446744073709551616"), Err(LineError::InvalidAmount)));
    assert!(matches!(process_line("Addr,99999999999999999999999"), Err(LineError::InvalidAmount)));
}

#[test]
fn ledger_keeps_order() {
    let lines = vec!["a,1".to_string(), "b,2".to_string(), "c,3".to_string()];
    let v = parse_entries(&lines).unwrap();
    let got: Vec<(String, u64)> = v.into_iter().map(|e| (e.address, e.amount)).collect();
    assert_eq!(got, vec![("a".to_string(), 1), ("b".to_string(), 2), ("c".to_string(), 3)]);
}

#[test]
fn empty_ledger_has_no_entries() {
    let v = parse_entries(&Vec::new()).unwrap();
    assert!(v.is_empty());
}

#[test]
fn malformed_line_aborts_whole_ledger() {
    let lines = vec!["a,1".to_string(), "b,x".to_string(), "c".to_string()];
    let e = parse_entries(&lines).unwrap_err();
    assert_eq!(e, LedgerError { line: 1, error: LineError::InvalidAmount });
    let lines = vec!["a,1".to_string(), "b".to_string()];
    assert_eq!(parse_entries(&lines).unwrap_err(), LedgerError { line: 1, error: LineError::MissingAmount });
}
