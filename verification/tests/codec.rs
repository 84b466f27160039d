use flipper_rpc::codec::FlipperCodec;
use flipper_rpc::consts::MAX_FRAME_LENGTH;
use flipper_rpc::error::FlipperError;

#[test]
fn try_to_fill_and_drain_u8() {
    let mut codec = FlipperCodec::default();

    let res_1 = codec.decode(&[0x05, 0x01, 0x02, 0x03]).unwrap();
    assert_eq!(res_1, None);

    let res_2 = codec.decode(&[0x04, 0x05]).unwrap();
    assert_eq!(res_2, Some(vec![0x01, 0x02, 0x03, 0x04, 0x05]));
}

#[test]
fn check_data_sanitizer() {
    let mut codec = FlipperCodec::default();
    if let Err(err) = codec.decode(&[0xFE, 0xFF, 0x03, 0x00]) {
        assert_eq!(err, FlipperError::DataTooLarge(65534));
    } else {
        panic!("It should error out!");
    }
}

#[test]
fn check_basic_build_frame() {
    let codec = FlipperCodec::default();
    let buf = codec.encode(&[0x01, 0x02, 0x03, 0x04, 0x05]).unwrap();
    assert_eq!(buf, vec![0x05, 0x01, 0x02, 0x03, 0x04, 0x05]);
}

#[test]
fn check_basic_build_frame_ovf() {
    let codec = FlipperCodec::default();
    let large_data: [u8; 65534] = [0; 65534];
    if let Err(err) = codec.encode(&large_data) {
        assert_eq!(err, FlipperError::DataTooLarge(65534));
    } else {
        panic!("It should error out!");
    }
}

#[test]
fn round_trip_every_length() {
    for len in 0..=MAX_FRAME_LENGTH {
        let body: Vec<u8> = (0..len).map(|i| (i % 251) as u8).collect();
        let codec = FlipperCodec::default();
        let frame = codec.encode(&body).unwrap();
        let mut decoder = FlipperCodec::default();
        let got = decoder.decode(&frame).unwrap();
        assert_eq!(got, Some(body));
        assert_eq!(decoder.decode(&[]).unwrap(), None);
    }
}

#[test]
fn round_trip_empty_body() {
    let codec = FlipperCodec::default();
    let frame = codec.encode(&[]).unwrap();
    assert_eq!(frame, vec![0x00]);
    let mut decoder = FlipperCodec::default();
    assert_eq!(decoder.decode(&frame).unwrap(), Some(vec![]));
}

#[test]
fn round_trip_header_length_boundary() {
    // 127 still fits a one-byte header, 128 needs two bytes.
    let codec = FlipperCodec::default();
    let short: Vec<u8> = vec![0xAB; 127];
    let frame = codec.encode(&short).unwrap();
    assert_eq!(frame.len(), 1 + 127);
    assert_eq!(frame[0], 127);

    let long: Vec<u8> = vec![0xCD; 128];
    let frame = codec.encode(&long).unwrap();
    assert_eq!(frame.len(), 2 + 128);
    assert_eq!(&frame[..2], &[0x80, 0x01]);

    let mut decoder = FlipperCodec::default();
    assert_eq!(decoder.decode(&frame).unwrap(), Some(long));
}

#[test]
fn round_trip_max_length() {
    let body: Vec<u8> = vec![0x5A; MAX_FRAME_LENGTH];
    let codec = FlipperCodec::default();
    let frame = codec.encode(&body).unwrap();
    // 1536 == 12 * 128, so the varint header is [0x80, 0x0C].
    assert_eq!(&frame[..2], &[0x80, 0x0C]);
    let mut decoder = FlipperCodec::default();
    assert_eq!(decoder.decode(&frame).unwrap(), Some(body));
}

#[test]
fn incremental_delivery_every_split() {
    let body: Vec<u8> = (0..200).map(|i| (i * 7 % 256) as u8).collect();
    let frame = FlipperCodec::default().encode(&body).unwrap();
    for cut in 1..frame.len() {
        let mut decoder = FlipperCodec::default();
        assert_eq!(decoder.decode(&frame[..cut]).unwrap(), None);
        assert_eq!(decoder.decode(&frame[cut..]).unwrap(), Some(body.clone()));
        assert_eq!(decoder.decode(&[]).unwrap(), None);
    }
}

#[test]
fn incremental_delivery_byte_at_a_time() {
    let body = vec![0x11, 0x22, 0x33];
    let frame = FlipperCodec::default().encode(&body).unwrap();
    let mut decoder = FlipperCodec::default();
    for &byte in frame.iter().take(frame.len() - 1) {
        assert_eq!(decoder.decode(&[byte]).unwrap(), None);
    }
    assert_eq!(decoder.decode(&[frame[frame.len() - 1]]).unwrap(), Some(body));
}

#[test]
fn multi_frame_buffering() {
    let a = vec![0x01, 0x02, 0x03];
    let b = vec![0x04, 0x05];
    let codec = FlipperCodec::default();
    let mut joined = codec.encode(&a).unwrap();
    joined.extend_from_slice(&codec.encode(&b).unwrap());

    let mut decoder = FlipperCodec::default();
    assert_eq!(decoder.decode(&joined).unwrap(), Some(a));
    assert_eq!(decoder.decode(&[]).unwrap(), Some(b));
    assert_eq!(decoder.decode(&[]).unwrap(), None);
}

#[test]
fn encode_rejects_oversize() {
    let body = vec![0x00; MAX_FRAME_LENGTH + 1];
    match FlipperCodec::default().encode(&body) {
        Err(FlipperError::DataTooLarge(len)) => assert_eq!(len, MAX_FRAME_LENGTH + 1),
        other => panic!("expected DataTooLarge, got {:?}", other),
    }
}

#[test]
fn decode_rejects_oversize_header() {
    // varint(1537) == [0x81, 0x0C]: one byte past the maximum.
    let mut decoder = FlipperCodec::default();
    match decoder.decode(&[0x81, 0x0C]) {
        Err(FlipperError::DataTooLarge(len)) => assert_eq!(len, 1537),
        other => panic!("expected DataTooLarge, got {:?}", other),
    }
}

#[test]
fn decode_error_is_not_cleared_by_reading_on() {
    let mut decoder = FlipperCodec::default();
    assert!(decoder.decode(&[0xFE, 0xFF, 0x03]).is_err());
    // The buffer is in a protocol-violating state; feeding more bytes
    // keeps failing rather than resynchronizing.
    assert!(decoder.decode(&[0x00]).is_err());
}

#[test]
fn decode_rejects_overlong_header() {
    // Three continuation bytes: no canonical completion fits the maximum.
    let mut decoder = FlipperCodec::default();
    match decoder.decode(&[0x80, 0x80, 0x80]) {
        Err(FlipperError::DataTooLarge(len)) => assert_eq!(len, 0x200000),
        other => panic!("expected DataTooLarge, got {:?}", other),
    }
}

#[test]
fn decode_waits_on_partial_header() {
    let mut decoder = FlipperCodec::default();
    assert_eq!(decoder.decode(&[]).unwrap(), None);
    assert_eq!(decoder.decode(&[0x80]).unwrap(), None);
    assert_eq!(decoder.decode(&[0x80]).unwrap(), None);
}

#[test]
fn error_message_names_the_kind() {
    assert_eq!(
        FlipperError::DataTooLarge(9000).message(),
        "data too large to process"
    );
    assert_eq!(FlipperError::OutOfBounds.message(), "index out of bounds");
}
