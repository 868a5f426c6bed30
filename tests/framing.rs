use grpc_client::{decimal_string, decode_body, decode_next, encode_body, encode_frame, Code, FrameError};

#[test]
fn frame_layout_is_flag_length_payload() {
    let out = encode_frame(&vec![7u8, 8, 9], false, None).unwrap();
    assert_eq!(out, vec![0u8, 0, 0, 0, 3, 7, 8, 9]);
    let big = vec![1u8; 300];
    let out = encode_frame(&big, true, None).unwrap();
    assert_eq!(&out[..5], &[1u8, 0, 0, 1, 44]);
    assert_eq!(out.len(), 305);
}

#[test]
fn round_trip_without_compression() {
    let msgs = vec![vec![1u8, 2, 3], vec![], vec![255u8; 70000], vec![42u8]];
    let body = encode_body(&msgs, false, None).unwrap();
    let frames = decode_body(&body, false, None).unwrap();
    assert_eq!(frames.len(), msgs.len());
    for (f, m) in frames.iter().zip(msgs.iter()) {
        assert!(!f.compressed);
        assert_eq!(&f.payload, m);
    }
}

#[test]
fn round_trip_of_empty_sequence() {
    let body = encode_body(&vec![], false, None).unwrap();
    assert!(body.is_empty());
    assert!(decode_body(&body, false, None).unwrap().is_empty());
}

#[test]
fn encode_ceiling_rejects_oversized_message() {
    let msgs = vec![vec![1u8, 2], vec![1u8, 2, 3]];
    let err = encode_body(&msgs, false, Some(2)).unwrap_err();
    assert_eq!(err, FrameError::EncodedTooLarge { found: 3, limit: 2 });
    let s = err.to_status(0);
    assert_eq!(s.code, Code::OutOfRange);
    assert_eq!(s.message, "Error, encoded message length too large: found 3 bytes, the limit is: 2 bytes");
    assert!(encode_body(&msgs, false, Some(3)).is_ok());
}

#[test]
fn decode_ceiling_rejects_oversized_frame() {
    let body = encode_body(&vec![vec![0u8; 10]], false, None).unwrap();
    let err = decode_body(&body, false, Some(9)).unwrap_err();
    assert_eq!(err, FrameError::DecodedTooLarge { found: 10, limit: 9 });
    let s = err.to_status(200);
    assert_eq!(s.code, Code::OutOfRange);
    assert_eq!(s.message, "Error, decoded message length too large: found 10 bytes, the limit is: 9 bytes");
    assert_eq!(decode_body(&body, false, Some(10)).unwrap().len(), 1);
}

#[test]
fn decode_rejects_bad_flags_and_truncation() {
    let err = decode_body(&vec![2u8, 0, 0, 0, 0], false, None).unwrap_err();
    assert_eq!(err, FrameError::InvalidFlag { flag: 2 });
    assert_eq!(
        err.to_status(200).message,
        "protocol error: received message with invalid compression flag: 2 (valid flags are 0 and 1) while receiving response with status: 200"
    );
    let err = decode_body(&vec![1u8, 0, 0, 0, 0], false, None).unwrap_err();
    assert_eq!(err, FrameError::CompressedWithoutEncoding);
    assert_eq!(err.to_status(200).code, Code::Internal);
    let frames = decode_body(&vec![1u8, 0, 0, 0, 1, 9], true, None).unwrap();
    assert!(frames[0].compressed);
    assert_eq!(frames[0].payload, vec![9u8]);
    let err = decode_body(&vec![0u8, 0, 0, 0, 4, 1, 2], false, None).unwrap_err();
    assert_eq!(err, FrameError::UnexpectedEof);
    assert_eq!(err.to_status(200).message, "Unexpected EOF decoding stream.");
    assert_eq!(decode_body(&vec![0u8, 0], false, None).unwrap_err(), FrameError::UnexpectedEof);
}

#[test]
fn decode_next_waits_for_whole_frame() {
    let buf = vec![0u8, 0, 0, 0, 2, 5];
    assert!(decode_next(&buf, 0, false, None).unwrap().is_none());
    let buf = vec![0u8, 0, 0, 0, 2, 5, 6, 0];
    let (f, end) = decode_next(&buf, 0, false, None).unwrap().unwrap();
    assert_eq!(f.payload, vec![5u8, 6]);
    assert_eq!(end, 7);
    assert!(decode_next(&buf, 7, false, None).unwrap().is_none());
}

#[test]
fn frame_length_ceiling_status() {
    let s = FrameError::ExceedsFrameLength { found: 4294967296 }.to_status(0);
    assert_eq!(s.code, Code::ResourceExhausted);
    assert_eq!(s.message, "Cannot return body with more than 4GB of data but got 4294967296 bytes");
}

#[test]
fn decimal_text() {
    assert_eq!(decimal_string(0), "0");
    assert_eq!(decimal_string(7), "7");
    assert_eq!(decimal_string(1234567), "1234567");
    assert_eq!(decimal_string(u64::MAX), "18446744073709551615");
}
