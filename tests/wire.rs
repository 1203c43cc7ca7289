use gesture_ease::wire::{
    decode_frame, decode_header, decode_u32, encode_frame, encode_handshake, encode_u32,
    PayloadReader, HEADER_LEN,
};
use gesture_ease::{GError, ImageFrame};

fn frame(payload: Vec<u8>, width: u32, height: u32) -> ImageFrame {
    ImageFrame { frame: payload, width, height }
}

#[test]
fn frame_round_trip_keeps_triple() {
    let f = frame(vec![9, 8, 7, 6, 5], 1280, 720);
    let bytes = encode_frame(&f).unwrap();
    let (back, used) = decode_frame(&bytes).unwrap();
    assert_eq!(back.width, 1280);
    assert_eq!(back.height, 720);
    assert_eq!(back.frame, vec![9, 8, 7, 6, 5]);
    assert_eq!(used, bytes.len());
}

#[test]
fn frame_round_trip_empty_payload() {
    let f = frame(vec![], 0, u32::MAX);
    let bytes = encode_frame(&f).unwrap();
    assert_eq!(bytes.len(), HEADER_LEN);
    let (back, used) = decode_frame(&bytes).unwrap();
    assert_eq!((back.width, back.height, back.frame.len(), used), (0, u32::MAX, 0, 12));
}

#[test]
fn frame_bytes_are_big_endian() {
    let f = frame(vec![0xAA, 0xBB], 0x0102_0304, 640);
    let bytes = encode_frame(&f).unwrap();
    assert_eq!(
        bytes,
        vec![1, 2, 3, 4, 0, 0, 2, 128, 0, 0, 0, 2, 0xAA, 0xBB]
    );
}

#[test]
fn encode_u32_writes_four_big_endian_bytes() {
    assert_eq!(encode_u32(1), vec![0, 0, 0, 1]);
    assert_eq!(encode_u32(0xDEAD_BEEF), vec![0xDE, 0xAD, 0xBE, 0xEF]);
}

#[test]
fn decode_u32_reads_big_endian() {
    assert_eq!(decode_u32(&[0x12, 0x34, 0x56, 0x78, 0xFF]), Ok(0x1234_5678));
    assert_eq!(decode_u32(&[1, 2, 3]), Err(GError::IpcError));
}

#[test]
fn handshake_is_four_plain_words() {
    let bytes = encode_handshake(&[1280, 720, 640, 480]);
    assert_eq!(
        bytes,
        vec![0, 0, 5, 0, 0, 0, 2, 208, 0, 0, 2, 128, 0, 0, 1, 224]
    );
    assert!(encode_handshake(&[]).is_empty());
}

#[test]
fn decode_header_needs_twelve_bytes() {
    assert_eq!(decode_header(&[0; 11]), Err(GError::IpcError));
    assert_eq!(
        decode_header(&[0, 0, 0, 7, 0, 0, 0, 9, 0, 0, 1, 0]),
        Ok((7, 9, 256))
    );
}

#[test]
fn decode_frame_rejects_short_payload() {
    let bytes = vec![0, 0, 0, 1, 0, 0, 0, 1, 0, 0, 0, 3, 42, 43];
    assert_eq!(decode_frame(&bytes).unwrap_err(), GError::IpcError);
}

#[test]
fn decode_frame_leaves_trailing_bytes() {
    let mut bytes = encode_frame(&frame(vec![1, 2, 3], 4, 5)).unwrap();
    bytes.extend_from_slice(&[77, 78]);
    let (f, used) = decode_frame(&bytes).unwrap();
    assert_eq!(f.frame, vec![1, 2, 3]);
    assert_eq!(used, 15);
}

#[test]
fn payload_reader_accumulates_short_reads() {
    let mut r = PayloadReader::new(5);
    assert_eq!(r.remaining(), 5);
    assert_eq!(r.next_read_len(10000), 5);
    assert_eq!(r.feed(&[1, 2]), Ok(2));
    assert!(!r.is_complete());
    assert_eq!(r.next_read_len(2), 2);
    assert_eq!(r.feed(&[3, 4, 5, 6, 7]), Ok(3));
    assert!(r.is_complete());
    assert_eq!(r.finish(), Ok(vec![1, 2, 3, 4, 5]));
}

#[test]
fn payload_reader_end_of_stream_fails() {
    let mut r = PayloadReader::new(3);
    assert_eq!(r.feed(&[1]), Ok(1));
    assert_eq!(r.feed(&[]), Err(GError::IpcError));
    assert_eq!(r.remaining(), 2);
    assert_eq!(r.finish(), Err(GError::IpcError));
}

#[test]
fn payload_reader_zero_length() {
    let mut r = PayloadReader::new(0);
    assert!(r.is_complete());
    assert_eq!(r.feed(&[]), Ok(0));
    assert_eq!(r.finish(), Ok(vec![]));
}
