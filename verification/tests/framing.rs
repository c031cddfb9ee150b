use testctl::protocol::framing::{
    check_length, decode_frame, encode_frame, length_prefix, FrameError, MAX_MESSAGE_SIZE,
};

fn request_json(method: &str) -> Vec<u8> {
    let mut obj = serde_json::Map::new();
    obj.insert("type".to_string(), serde_json::Value::String("Request".to_string()));
    obj.insert("id".to_string(), serde_json::Value::String("1".to_string()));
    obj.insert("method".to_string(), serde_json::Value::String(method.to_string()));
    obj.insert("params".to_string(), serde_json::Value::Object(serde_json::Map::new()));
    serde_json::to_vec(&serde_json::Value::Object(obj)).unwrap()
}

#[test]
fn test_read_write_message() {
    let payload = request_json("ping");

    // Write to buffer
    let buffer = encode_frame(&payload).unwrap();

    // Read from buffer
    let (decoded, used) = decode_frame(&buffer).unwrap().unwrap();
    assert_eq!(used, buffer.len());
    let value: serde_json::Value = serde_json::from_slice(&decoded).unwrap();
    match value.get("type").and_then(|t| t.as_str()) {
        Some("Request") => {
            assert!(matches!(value.get("method").and_then(|m| m.as_str()), Some("ping")));
        }
        _ => panic!("Expected Request"),
    }
}

#[test]
fn test_message_too_large() {
    // A payload that's too large
    let large_data = vec![b'x'; MAX_MESSAGE_SIZE + 1];
    let result = encode_frame(&large_data);

    assert!(result.is_err());
    assert!(result.unwrap_err().to_string().contains("too large"));
}

#[test]
fn frame_layout_is_big_endian_length_then_payload() {
    let frame = encode_frame(b"abc").unwrap();
    assert_eq!(frame, vec![0, 0, 0, 3, b'a', b'b', b'c']);
    let long = vec![7u8; 0x010203];
    let frame = encode_frame(&long).unwrap();
    assert_eq!(&frame[..4], &[0, 1, 2, 3]);
    assert_eq!(length_prefix(&frame), 0x010203);
}

#[test]
fn frames_read_back_one_after_another() {
    let mut stream = encode_frame(b"first").unwrap();
    stream.extend(encode_frame(b"second!").unwrap());
    let (a, used) = decode_frame(&stream).unwrap().unwrap();
    assert_eq!(a, b"first");
    let (b, used2) = decode_frame(&stream[used..]).unwrap().unwrap();
    assert_eq!(b, b"second!");
    assert_eq!(used + used2, stream.len());
}

#[test]
fn partial_frames_wait() {
    let frame = encode_frame(b"hello").unwrap();
    for k in 0..frame.len() {
        assert_eq!(decode_frame(&frame[..k]).unwrap(), None);
    }
}

#[test]
fn bad_lengths_are_refused() {
    let empty = encode_frame(b"").unwrap();
    assert_eq!(empty, vec![0, 0, 0, 0]);
    assert_eq!(decode_frame(&empty), Err(FrameError::ZeroLength));
    assert_eq!(FrameError::ZeroLength.to_string(), "Message length cannot be zero");
    let big = [0x01u8, 0x00, 0x00, 0x01];
    assert_eq!(decode_frame(&big), Err(FrameError::TooLarge(16777217)));
    assert_eq!(
        FrameError::TooLarge(16777217).to_string(),
        "Message too large: 16777217 bytes (max: 16777216)"
    );
    assert_eq!(check_length(0), Err(FrameError::ZeroLength));
    assert_eq!(check_length(16777216), Ok(16777216));
    assert_eq!(check_length(u32::MAX), Err(FrameError::TooLarge(u32::MAX as usize)));
}

#[test]
fn largest_payload_round_trips() {
    let max = vec![1u8; MAX_MESSAGE_SIZE];
    let frame = encode_frame(&max).unwrap();
    assert_eq!(&frame[..4], &[1, 0, 0, 0]);
    let (p, used) = decode_frame(&frame).unwrap().unwrap();
    assert_eq!(p.len(), MAX_MESSAGE_SIZE);
    assert_eq!(used, MAX_MESSAGE_SIZE + 4);
}
