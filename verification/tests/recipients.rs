use distribution::errors::LoadError;
use distribution::recipients::{load_recipients, parse_recipient_line};

const A1: &str = "0x0000000000000000000000000000000000000001";
const A2: &str = "0x0000000000000000000000000000000000000002";
const A3: &str = "0x0000000000000000000000000000000000000003";

#[test]
fn line_without_amount_parses() {
    let r = parse_recipient_line(A1).unwrap();
    assert_eq!(r.address.bytes[19], 1);
    assert_eq!(r.amount, None);
}

#[test]
fn line_with_amount_parses() {
    let line = format!("{},1.5", A1);
    let r = parse_recipient_line(&line).unwrap();
    assert_eq!(r.address.bytes[19], 1);
    assert_eq!(r.amount, Some(1_500_000_000_000_000_000u128));
}

#[test]
fn address_text_is_trimmed() {
    let line = format!("  {} ,2", A2);
    let r = parse_recipient_line(&line).unwrap();
    assert_eq!(r.address.bytes[19], 2);
    assert_eq!(r.amount, Some(2_000_000_000_000_000_000u128));
}

#[test]
fn text_after_a_second_comma_is_ignored() {
    let line = format!("{},3,anything", A3);
    let r = parse_recipient_line(&line).unwrap();
    assert_eq!(r.amount, Some(3_000_000_000_000_000_000u128));
}

#[test]
fn malformed_lines_denote_nothing() {
    assert!(parse_recipient_line("not an address").is_none());
    assert!(parse_recipient_line(&format!("{},not a number", A1)).is_none());
    assert!(parse_recipient_line("").is_none());
}

#[test]
fn duplicates_keep_the_first_occurrence() {
    let lines = vec![
        format!("{},1", A1),
        format!("{},2", A2),
        format!("{},9", A1),
    ];
    let v = load_recipients(&lines).unwrap();
    assert_eq!(v.len(), 2);
    assert_eq!(v[0].address.bytes[19], 1);
    assert_eq!(v[0].amount, Some(1_000_000_000_000_000_000u128));
    assert_eq!(v[1].address.bytes[19], 2);
}

#[test]
fn malformed_lines_are_skipped_not_fatal() {
    let lines = vec![
        "garbage".to_string(),
        A1.to_string(),
        "also,garbage,here".to_string(),
        A2.to_string(),
    ];
    let v = load_recipients(&lines).unwrap();
    assert_eq!(v.len(), 2);
    assert_eq!(v[0].address.bytes[19], 1);
    assert_eq!(v[1].address.bytes[19], 2);
}

#[test]
fn mixed_amount_rows_reject_the_source() {
    let lines = vec![format!("{},1", A1), A2.to_string()];
    assert!(matches!(load_recipients(&lines), Err(LoadError::MixedAmountRows)));
    let reversed = vec![A2.to_string(), format!("{},1", A1)];
    assert!(matches!(load_recipients(&reversed), Err(LoadError::MixedAmountRows)));
}
