use maze_protocol::encodings::{
    decode_b64, decode_radar, encode_b64, encode_labyrinth, encode_radar, RadarError, TokenError,
};

#[test]
fn test_encode_b64() {
    assert_eq!(encode_b64(&[0]), "aa");
    assert_eq!(encode_b64(&[25]), "gq");
    assert_eq!(encode_b64(&[26]), "gG");
    assert_eq!(encode_b64(&[51]), "mW");
    assert_eq!(encode_b64(&[52]), "na");
    assert_eq!(encode_b64(&[61]), "pq");
    assert_eq!(encode_b64(&[62]), "pG");
    assert_eq!(encode_b64(&[63]), "pW");
    assert_eq!(encode_b64(b"Hello, World!"), "sgvSBg8SifDVCMXKiq");
}

#[test]
fn test_encode_labyrinth() {
    let nx = 10;
    let ny = 10;
    let horizontal = vec![0b11111111, 0b11000000];
    let vertical = vec![0b10101010, 0b01010101];
    let encoded = encode_labyrinth(nx, ny, &horizontal, &vertical);
    assert!(!encoded.is_empty());
}

#[test]
fn test_encode_radar() {
    let horiz = [0x12, 0x34, 0x56];
    let vert = [0x78, 0x9A, 0xBC];
    let cells = [0xDE, 0xF0, 0x12, 0x34, 0x56];
    let encoded = encode_radar(&horiz, &vert, &cells);
    assert!(!encoded.is_empty());
}

#[test]
fn encode_b64_empty_input_gives_empty_token() {
    assert_eq!(encode_b64(&[]), "");
}

#[test]
fn token_round_trip_on_assorted_inputs() {
    let cases: Vec<Vec<u8>> = vec![
        vec![],
        vec![0],
        vec![255],
        vec![1, 2],
        vec![1, 2, 3],
        vec![1, 2, 3, 4],
        vec![1, 2, 3, 4, 5],
        vec![0xDE, 0xAD, 0xBE, 0xEF, 0x00, 0xFF],
        b"Hello, World!".to_vec(),
        (0u16..256).map(|b| b as u8).collect(),
    ];
    for bytes in cases {
        let token = encode_b64(&bytes);
        assert_eq!(decode_b64(&token), Ok(bytes.clone()));
    }
}

#[test]
fn encoded_token_never_holds_padding() {
    let all_bytes: Vec<u8> = (0u16..256).map(|b| b as u8).collect();
    let token = encode_b64(&all_bytes);
    assert!(!token.contains('='));
    assert!(token
        .chars()
        .all(|c| c.is_ascii_alphanumeric() || c == '+' || c == '/'));
}

#[test]
fn decode_rejects_character_outside_alphabet() {
    assert_eq!(decode_b64("ab=d"), Err(TokenError::UnknownSymbol));
    assert_eq!(decode_b64("a!"), Err(TokenError::UnknownSymbol));
    assert_eq!(decode_b64("abc\n"), Err(TokenError::UnknownSymbol));
}

#[test]
fn decode_rejects_trailing_group_of_one_symbol() {
    assert_eq!(decode_b64("a"), Err(TokenError::MalformedToken));
    assert_eq!(decode_b64("aaaaa"), Err(TokenError::MalformedToken));
    // The length is checked before the symbols, so a lone bad character
    // still counts as a malformed length.
    assert_eq!(decode_b64("!"), Err(TokenError::MalformedToken));
}

#[test]
fn decode_b64_known_vector() {
    assert_eq!(decode_b64("sgvSBg8SifDVCMXKiq"), Ok(b"Hello, World!".to_vec()));
}

#[test]
fn radar_token_round_trip() {
    let horiz = [0x12, 0x34, 0x56];
    let vert = [0x78, 0x9A, 0xBC];
    let cells = [0xDE, 0xF0, 0x12, 0x34, 0x56];
    let token = encode_radar(&horiz, &vert, &cells);
    let decoded = decode_radar(&token).unwrap();
    assert_eq!(decoded.horizontal, horiz.to_vec());
    assert_eq!(decoded.vertical, vert.to_vec());
    assert_eq!(decoded.cells, cells.to_vec());
}

#[test]
fn radar_decode_rejects_wrong_length() {
    let token = encode_b64(&[1, 2, 3]);
    assert_eq!(decode_radar(&token), Err(RadarError::WrongLength));
    assert_eq!(
        decode_radar("a"),
        Err(RadarError::Token(TokenError::MalformedToken))
    );
    assert_eq!(
        decode_radar("a=aa"),
        Err(RadarError::Token(TokenError::UnknownSymbol))
    );
}

#[test]
fn labyrinth_token_packs_dimensions_first() {
    let token = encode_labyrinth(2, 3, &[0xAB], &[0xCD]);
    let bytes = decode_b64(&token).unwrap();
    assert_eq!(bytes, vec![2, 0, 3, 0, 0xAB, 0xCD]);
}
