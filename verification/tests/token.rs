use pwsh_history_server::token::{generate_token, hex_encode, token_from};

#[test]
fn hex_is_lower_case_and_padded() {
    assert_eq!(hex_encode(&[]), "");
    assert_eq!(hex_encode(&[0x00, 0x0f, 0xa5, 0xff, 0x10]), "000fa5ff10");
}

#[test]
fn hex_digits_read_back_as_the_bytes() {
    let bytes: Vec<u8> = (0..=255).collect();
    let digits = hex_encode(&bytes);
    let read: Vec<u8> = (0..bytes.len())
        .map(|i| u8::from_str_radix(&digits[2 * i..2 * i + 2], 16).unwrap())
        .collect();
    assert_eq!(read, bytes);
}

#[test]
fn tokens_are_fresh_and_well_formed() {
    let first = generate_token().unwrap();
    let second = generate_token().unwrap();
    assert_ne!(first, second);
    assert_eq!(first.len(), 64);
    assert!(first.chars().all(|c| matches!(c, '0'..='9' | 'a'..='f')));
    // An unfilled buffer would read as zeros.
    assert_ne!(first, "0".repeat(64));
}

#[test]
fn token_is_made_of_the_random_bytes() {
    assert_eq!(token_from(Ok(vec![0xab, 0x01])).as_deref(), Some("ab01"));
    assert_eq!(token_from(Err(getrandom::Error::UNSUPPORTED)), None);
}
