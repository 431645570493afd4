use strange_cipher::error::SessionError;
use strange_cipher::frame::{
    encode_byte, encode_control, encode_coordinate, parse_byte, parse_control, parse_coordinate,
    ControlCode, Frame,
};

#[test]
fn control_codes_have_their_wire_bytes() {
    assert_eq!(ControlCode::Cancel.byte(), 0);
    assert_eq!(ControlCode::SyncRequest.byte(), 1);
    assert_eq!(ControlCode::SyncComplete.byte(), 2);
    assert_eq!(ControlCode::EncryptionComplete.byte(), 3);
}

#[test]
fn control_codes_are_read_back_from_their_bytes() {
    assert_eq!(ControlCode::from_byte(0), Some(ControlCode::Cancel));
    assert_eq!(ControlCode::from_byte(1), Some(ControlCode::SyncRequest));
    assert_eq!(ControlCode::from_byte(2), Some(ControlCode::SyncComplete));
    assert_eq!(ControlCode::from_byte(3), Some(ControlCode::EncryptionComplete));
    for byte in 4..=255u8 {
        assert_eq!(ControlCode::from_byte(byte), None);
    }
}

#[test]
fn control_frame_is_one_binary_byte() {
    assert_eq!(encode_control(ControlCode::SyncComplete), Frame::Binary(vec![2]));
    assert_eq!(
        parse_control(&encode_control(ControlCode::EncryptionComplete)),
        Ok(ControlCode::EncryptionComplete)
    );
}

#[test]
fn malformed_control_frames_are_protocol_violations() {
    let violation = Err(SessionError::ProtocolViolation);
    assert_eq!(parse_control(&Frame::Binary(vec![])), violation);
    assert_eq!(parse_control(&Frame::Binary(vec![4])), violation);
    assert_eq!(parse_control(&Frame::Binary(vec![1, 1])), violation);
    assert_eq!(parse_control(&Frame::Text("1".to_string())), violation);
}

#[test]
fn coordinate_frame_is_eight_bytes_least_significant_first() {
    let bits = (-3.63f64).to_bits();
    assert_eq!(
        encode_coordinate(bits),
        Frame::Binary(vec![0x0a, 0xd7, 0xa3, 0x70, 0x3d, 0x0a, 0x0d, 0xc0])
    );
    assert_eq!(encode_coordinate(1), Frame::Binary(vec![1, 0, 0, 0, 0, 0, 0, 0]));
}

#[test]
fn coordinate_frames_round_trip() {
    for value in [0.0f64, -0.0, 1.5, -9.25, f64::MAX, f64::MIN_POSITIVE, f64::INFINITY] {
        let bits = value.to_bits();
        assert_eq!(parse_coordinate(&encode_coordinate(bits)), Ok(bits));
    }
    assert_eq!(
        parse_coordinate(&Frame::Binary(vec![0x0a, 0xd7, 0xa3, 0x70, 0x3d, 0x0a, 0x0d, 0xc0])),
        Ok((-3.63f64).to_bits())
    );
}

#[test]
fn malformed_coordinate_frames_are_protocol_violations() {
    let violation = Err(SessionError::ProtocolViolation);
    assert_eq!(parse_coordinate(&Frame::Binary(vec![0; 7])), violation);
    assert_eq!(parse_coordinate(&Frame::Binary(vec![0; 9])), violation);
    assert_eq!(parse_coordinate(&Frame::Binary(vec![])), violation);
    assert_eq!(parse_coordinate(&Frame::Text("12345678".to_string())), violation);
}

#[test]
fn byte_frames_round_trip_and_reject_other_shapes() {
    assert_eq!(encode_byte(0xc0), Frame::Binary(vec![0xc0]));
    assert_eq!(parse_byte(&encode_byte(0xc0)), Ok(0xc0));
    assert_eq!(parse_byte(&Frame::Binary(vec![])), Err(SessionError::ProtocolViolation));
    assert_eq!(parse_byte(&Frame::Binary(vec![1, 2])), Err(SessionError::ProtocolViolation));
    assert_eq!(parse_byte(&Frame::Text("a".to_string())), Err(SessionError::ProtocolViolation));
}

#[test]
fn errors_describe_themselves() {
    assert_eq!(SessionError::ProtocolViolation.describe(), "protocol violation");
    assert_eq!(SessionError::LookupFailure.describe(), "fingerprint not found in keystream");
    assert_eq!(SessionError::ChannelFailure.describe(), "channel failure");
}
