use maze_protocol::frame::{decode_frame, encode_frame, frame_payload_len, FrameError};
use maze_protocol::MAX_FRAME_PAYLOAD;

#[test]
fn frame_round_trip_returns_the_payload() {
    let cases: Vec<Vec<u8>> = vec![
        vec![],
        vec![42],
        b"{\"RadarView\":\"abc\"}".to_vec(),
        (0u16..256).map(|b| b as u8).collect(),
    ];
    for payload in cases {
        let frame = encode_frame(&payload);
        assert_eq!(frame.len(), payload.len() + 4);
        let decoded = decode_frame(&frame).unwrap().unwrap();
        assert_eq!(decoded.0, payload);
        assert_eq!(decoded.1, frame.len());
    }
}

#[test]
fn frame_header_is_little_endian_length() {
    let frame = encode_frame(b"abc");
    assert_eq!(&frame[..4], &[3, 0, 0, 0]);
    assert_eq!(&frame[4..], b"abc");
}

#[test]
fn empty_data_is_an_orderly_end_of_stream() {
    assert_eq!(decode_frame(&[]), Ok(None));
}

#[test]
fn short_header_is_a_truncated_read() {
    assert_eq!(decode_frame(&[1, 0]), Err(FrameError::Truncated));
}

#[test]
fn short_payload_is_a_truncated_read() {
    // Declares 5 bytes, carries 2.
    assert_eq!(decode_frame(&[5, 0, 0, 0, 1, 2]), Err(FrameError::Truncated));
}

#[test]
fn oversize_declared_length_is_rejected_before_the_payload() {
    // 2 MiB declared, and not a single payload byte present: the length
    // check comes first, so this is a size violation, not a short read.
    let header = [0, 0, 32, 0];
    assert_eq!(decode_frame(&header), Err(FrameError::SizeExceeded));
    assert_eq!(frame_payload_len(&header), Err(FrameError::SizeExceeded));
}

#[test]
fn maximum_declared_length_passes_the_header_check() {
    // Exactly the maximum: 1,048,576 = 0x100000, little endian.
    let header = [0, 0, 16, 0];
    assert_eq!(frame_payload_len(&header), Ok(MAX_FRAME_PAYLOAD));
    // One more is rejected.
    let over = [1, 0, 16, 0];
    assert_eq!(frame_payload_len(&over), Err(FrameError::SizeExceeded));
}

#[test]
fn decode_consumes_exactly_one_frame() {
    let mut data = encode_frame(b"one");
    data.extend_from_slice(&encode_frame(b"two"));
    let (payload, consumed) = decode_frame(&data).unwrap().unwrap();
    assert_eq!(payload, b"one".to_vec());
    let (payload2, consumed2) = decode_frame(&data[consumed..]).unwrap().unwrap();
    assert_eq!(payload2, b"two".to_vec());
    assert_eq!(consumed + consumed2, data.len());
}
