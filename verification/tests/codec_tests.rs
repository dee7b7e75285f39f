use rust_cli_chat::{decode_frame, encode_frame};

#[test]
fn frame_prefix_is_big_endian_length() {
    let payload = b"hello".to_vec();
    let framed = encode_frame(&payload);
    assert_eq!(framed, vec![0u8, 0, 0, 5, 104, 101, 108, 108, 111]);
}

#[test]
fn frame_round_trip_empty() {
    let payload: Vec<u8> = Vec::new();
    let framed = encode_frame(&payload);
    assert_eq!(framed, vec![0u8, 0, 0, 0]);
    let decoded = decode_frame(&framed);
    assert_eq!(decoded, Some((Vec::new(), 4)));
}

#[test]
fn frame_round_trip_various() {
    let cases: Vec<Vec<u8>> = vec![
        b"a".to_vec(),
        b"hello".to_vec(),
        vec![0u8; 300],
        (0u8..=255).collect(),
    ];
    for payload in cases {
        let framed = encode_frame(&payload);
        assert_eq!(framed.len(), payload.len() + 4);
        let decoded = decode_frame(&framed).expect("complete frame must decode");
        assert_eq!(decoded.0, payload);
        assert_eq!(decoded.1, payload.len() + 4);
    }
}

#[test]
fn frame_decodes_with_trailing_bytes() {
    let payload = b"first".to_vec();
    let mut buf = encode_frame(&payload);
    buf.extend_from_slice(&[9, 9, 9]);
    let decoded = decode_frame(&buf).expect("complete frame must decode");
    assert_eq!(decoded.0, payload);
    assert_eq!(decoded.1, 9);
}

#[test]
fn incomplete_buffers_never_yield_a_payload() {
    assert_eq!(decode_frame(&Vec::new()), None);
    assert_eq!(decode_frame(&vec![0u8, 0, 0]), None);
    // Length prefix announcing 5 bytes, none delivered.
    assert_eq!(decode_frame(&vec![0u8, 0, 0, 5]), None);
    // Length prefix announcing 5 bytes, only 4 delivered.
    assert_eq!(decode_frame(&vec![0u8, 0, 0, 5, 1, 2, 3, 4]), None);
}

#[test]
fn two_frames_decode_in_order() {
    let first = b"one".to_vec();
    let second = b"two".to_vec();
    let mut buf = encode_frame(&first);
    buf.extend_from_slice(&encode_frame(&second));
    let (p1, used1) = decode_frame(&buf).expect("first frame");
    assert_eq!(p1, first);
    let rest: Vec<u8> = buf[used1..].to_vec();
    let (p2, used2) = decode_frame(&rest).expect("second frame");
    assert_eq!(p2, second);
    assert_eq!(used2, rest.len());
}
