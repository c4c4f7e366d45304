use rnix_shell::codec::edcrypt;

#[test]
fn codec_round_trip_restores_input() {
    let original: Vec<u8> = b"root:$2b$12$abcdefghijklmnopqrstuv".to_vec();
    let mut data = original.clone();
    edcrypt(&mut data);
    assert_ne!(data, original);
    edcrypt(&mut data);
    assert_eq!(data, original);
}

#[test]
fn codec_round_trip_empty() {
    let mut data: Vec<u8> = Vec::new();
    edcrypt(&mut data);
    assert_eq!(data, Vec::<u8>::new());
    edcrypt(&mut data);
    assert_eq!(data, Vec::<u8>::new());
}

#[test]
fn codec_round_trip_all_byte_values() {
    let original: Vec<u8> = (0u8..=255u8).collect();
    let mut data = original.clone();
    edcrypt(&mut data);
    edcrypt(&mut data);
    assert_eq!(data, original);
}

#[test]
fn codec_uses_fixed_repeating_key() {
    // XOR with zero input exposes the key itself, repeated cyclically.
    let mut data: Vec<u8> = vec![0; 11];
    edcrypt(&mut data);
    assert_eq!(data, vec![7, 19, 4, 1, 3, 6, 11, 5, 2, 7, 19]);
}

#[test]
fn codec_exact_bytes_for_known_input() {
    let mut data: Vec<u8> = b"root".to_vec();
    edcrypt(&mut data);
    assert_eq!(data, vec![114 ^ 7, 111 ^ 19, 111 ^ 4, 116 ^ 1]);
}
