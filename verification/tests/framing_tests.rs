use notes_core::digits::{format_dec, parse_dec};
use notes_core::hex::{hex_decode, hex_encode};
use notes_core::scan::str_contains;

#[test]
fn hex_writes_two_lowercase_digits_per_byte() {
    let out = hex_encode(&vec![0x00u8, 0xff, 0x1a]);
    assert_eq!(out, vec![b'0', b'0', b'f', b'f', b'1', b'a']);
}

#[test]
fn hex_reads_back_what_it_wrote() {
    let bytes: Vec<u8> = vec![3, 141, 59, 26, 0, 255];
    let notation = hex_encode(&bytes);
    let n = notation.len();
    assert_eq!(hex_decode(&notation, 0, n), Some(bytes));
}

#[test]
fn hex_rejects_odd_length_and_foreign_digits() {
    assert_eq!(hex_decode(&vec![b'a'], 0, 1), None);
    assert_eq!(hex_decode(&vec![b'g', b'0'], 0, 2), None);
    assert_eq!(hex_decode(&vec![b'A', b'0'], 0, 2), None);
    assert_eq!(hex_decode(&Vec::new(), 0, 0), Some(Vec::new()));
}

#[test]
fn decimal_writes_canonically() {
    assert_eq!(format_dec(0), vec![b'0']);
    assert_eq!(format_dec(12345), vec![b'1', b'2', b'3', b'4', b'5']);
}

#[test]
fn decimal_reads_back_what_it_wrote() {
    let digits = format_dec(987654321);
    let n = digits.len();
    assert_eq!(parse_dec(&digits, 0, n), Some(987654321));
}

#[test]
fn decimal_rejects_empty_padded_and_oversized_runs() {
    assert_eq!(parse_dec(&Vec::new(), 0, 0), None);
    assert_eq!(parse_dec(&vec![b'0', b'5'], 0, 2), None);
    assert_eq!(parse_dec(&vec![b'1', b'x'], 0, 2), None);
    let nineteen = vec![b'1'; 19];
    assert_eq!(parse_dec(&nineteen, 0, 19), None);
    let eighteen = vec![b'1'; 18];
    assert_eq!(parse_dec(&eighteen, 0, 18), Some(111_111_111_111_111_111));
}

#[test]
fn substring_search_finds_inner_and_edge_occurrences() {
    assert!(str_contains("buy milk today", "milk"));
    assert!(str_contains("milk", "milk"));
    assert!(str_contains("anything", ""));
    assert!(!str_contains("buy milk", "Milk"));
    assert!(!str_contains("mil", "milk"));
}
