use file_share::codec::{Codec, CodecError, Protocol};
use file_share::varint::encode_varint;

#[test]
fn protocol_name_is_stable() {
    let protocol = Protocol;
    assert_eq!(protocol.protocol_name(), "/file-exchange/1");
}

#[test]
fn varint_small_value_is_one_byte() {
    assert_eq!(encode_varint(0), vec![0u8]);
    assert_eq!(encode_varint(1), vec![1u8]);
    assert_eq!(encode_varint(127), vec![127u8]);
}

#[test]
fn varint_multi_byte_values() {
    assert_eq!(encode_varint(128), vec![0x80u8, 0x01]);
    assert_eq!(encode_varint(300), vec![0xACu8, 0x02]);
    assert_eq!(encode_varint(1_000_000), vec![0xC0u8, 0x84, 0x3D]);
}

#[test]
fn request_frame_round_trips() {
    let mut codec = Codec;
    let payload = vec![1u8, 2, 3, 4, 5];
    let frame = codec.write_request(&payload);
    assert_eq!(frame, vec![5u8, 1, 2, 3, 4, 5]);
    assert_eq!(codec.read_request(&frame), Ok(payload));
}

#[test]
fn response_frame_round_trips() {
    let mut codec = Codec;
    let payload = vec![9u8; 1000];
    let frame = codec.write_response(&payload);
    assert_eq!(codec.read_response(&frame), Ok(payload));
}

#[test]
fn request_at_exact_ceiling_is_accepted() {
    let mut codec = Codec;
    let payload = vec![7u8; 1_000_000];
    let frame = codec.write_request(&payload);
    assert_eq!(codec.read_request(&frame), Ok(payload));
}

#[test]
fn request_above_ceiling_is_rejected() {
    let mut codec = Codec;
    let payload = vec![7u8; 1_000_001];
    let frame = codec.write_request(&payload);
    assert_eq!(codec.read_request(&frame), Err(CodecError::OversizedFrame));
}

#[test]
fn response_at_exact_ceiling_is_accepted() {
    let mut codec = Codec;
    let payload = vec![0u8; 500_000_000];
    let frame = codec.write_response(&payload);
    drop(payload);
    let decoded = codec.read_response(&frame).expect("exact-ceiling response accepted");
    assert_eq!(decoded.len(), 500_000_000);
    assert_eq!(decoded[0], 0);
    assert_eq!(decoded[499_999_999], 0);
}

#[test]
fn response_above_ceiling_is_rejected() {
    // The ceiling is checked on the announced length before the payload
    // is read, so a tiny (truncated) body suffices to probe the bound.
    let mut codec = Codec;
    let mut frame = encode_varint(500_000_001);
    frame.push(42);
    assert_eq!(codec.read_response(&frame), Err(CodecError::OversizedFrame));
    // One byte below the limit the same truncated input fails for
    // running out of bytes instead, showing the ceiling check decided.
    let mut frame2 = encode_varint(500_000_000);
    frame2.push(42);
    assert_eq!(codec.read_response(&frame2), Err(CodecError::UnexpectedEof));
}

#[test]
fn empty_frame_is_end_of_stream() {
    let mut codec = Codec;
    let empty = vec![0u8];
    assert_eq!(codec.read_request(&empty), Err(CodecError::UnexpectedEof));
    assert_eq!(codec.read_response(&empty), Err(CodecError::UnexpectedEof));
}

#[test]
fn truncated_payload_is_end_of_stream() {
    let mut codec = Codec;
    let frame = vec![5u8, 1, 2];
    assert_eq!(codec.read_request(&frame), Err(CodecError::UnexpectedEof));
}

#[test]
fn bad_length_prefix_is_rejected() {
    let mut codec = Codec;
    let empty: Vec<u8> = Vec::new();
    assert_eq!(codec.read_request(&empty), Err(CodecError::BadLengthPrefix));
    // Five continuation bytes never terminate a five-byte prefix.
    let unterminated = vec![0x80u8, 0x80, 0x80, 0x80, 0x80];
    assert_eq!(codec.read_request(&unterminated), Err(CodecError::BadLengthPrefix));
}

#[test]
fn trailing_bytes_after_frame_are_ignored() {
    let mut codec = Codec;
    let mut frame = vec![2u8, 10, 20];
    frame.push(99);
    assert_eq!(codec.read_request(&frame), Ok(vec![10u8, 20]));
}
