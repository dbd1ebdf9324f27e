use zkproof::text::to_hex;

#[test]
fn hex_is_lower_case_two_digits_a_byte() {
    assert_eq!(to_hex(&[1, 2, 3, 15, 16]), "0102030f10");
    assert_eq!(to_hex(&[0xab, 0xcd, 0xef, 0x00, 0xff]), "abcdef00ff");
    assert_eq!(to_hex(&[]), "");
}

#[test]
fn hex_of_a_slot_has_64_digits() {
    let mut slot = vec![0u8; 32];
    slot[0] = 9;
    let text = to_hex(&slot);
    assert_eq!(text.len(), 64);
    assert_eq!(text, format!("09{}", "00".repeat(31)));
}
