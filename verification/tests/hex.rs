use before_colony::hex::{decode_hex, slices_cleanly};

#[test]
fn decodes_pairs_of_digits() {
    assert_eq!(decode_hex("00ff10aB"), Some(vec![0x00, 0xff, 0x10, 0xab]));
    assert_eq!(decode_hex(""), Some(vec![]));
}

#[test]
fn odd_length_is_refused() {
    assert_eq!(decode_hex("abc"), None);
}

#[test]
fn bad_digit_is_refused() {
    assert_eq!(decode_hex("0g"), None);
    assert_eq!(decode_hex("-1"), None);
    assert_eq!(decode_hex("zzé"), None);
}

#[test]
fn a_plus_sign_reads_as_base_16() {
    // As `u8::from_str_radix` reads a two-character piece.
    assert_eq!(decode_hex("+a0f"), Some(vec![10, 15]));
}

#[test]
fn pieces_that_would_split_a_character_are_flagged() {
    assert!(slices_cleanly("00ff"));
    assert!(slices_cleanly("abc"));
    assert!(slices_cleanly("zzé"));
    // The second piece would end inside `é`.
    assert!(!slices_cleanly("00aéb"));
}
