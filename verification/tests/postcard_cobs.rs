use bytes::BytesMut;
use theta_protocol::codec::postcard_cobs::{find_terminator, PostcardCobsCodec};
use theta_protocol::codec::CodecError;

type TestMessage = (u32, Vec<u8>, String);

fn serialized(message: &TestMessage) -> Vec<u8> {
    postcard::to_stdvec(message).unwrap()
}

fn framed(payload: &[u8]) -> BytesMut {
    let mut codec = PostcardCobsCodec::<Vec<u8>>::default();
    let mut buffer = BytesMut::new();
    codec.encode(payload, &mut buffer).unwrap();
    buffer
}

#[test]
fn postcard_cobs_test_roundtrip() {
    let mut codec = PostcardCobsCodec::<TestMessage>::default();

    let message: TestMessage = (42, vec![0, 1, 0, 2, 0, 3], "Hello\0World".to_string());

    let mut buffer = BytesMut::new();
    codec.encode(&serialized(&message), &mut buffer).unwrap();

    // Only one zero, at the end
    assert_eq!(buffer.iter().filter(|&&b| b == 0).count(), 1);
    assert_eq!(buffer[buffer.len() - 1], 0);

    let payload = codec.decode(&mut buffer).unwrap().unwrap();
    let decoded: TestMessage = postcard::from_bytes(&payload).unwrap();
    assert_eq!(message, decoded);
    assert!(buffer.is_empty());
}

#[test]
fn postcard_cobs_test_multiple_messages() {
    let mut codec = PostcardCobsCodec::<TestMessage>::default();

    let messages: Vec<TestMessage> = vec![
        (1, vec![0, 1], "First".to_string()),
        (2, vec![2, 0], "Second".to_string()),
        (3, vec![0, 0], "Third".to_string()),
    ];

    let mut buffer = BytesMut::new();
    for msg in &messages {
        codec.encode(&serialized(msg), &mut buffer).unwrap();
    }

    let mut decoded: Vec<TestMessage> = Vec::new();
    while let Some(payload) = codec.decode(&mut buffer).unwrap() {
        decoded.push(postcard::from_bytes(&payload).unwrap());
    }

    assert_eq!(messages, decoded);
    assert!(buffer.is_empty());
}

#[test]
fn postcard_cobs_test_partial_frame() {
    let mut codec = PostcardCobsCodec::<TestMessage>::default();

    let message: TestMessage = (99, vec![1, 2, 3], "Test".to_string());

    let mut full_buffer = BytesMut::new();
    codec.encode(&serialized(&message), &mut full_buffer).unwrap();

    // Without the delimiter
    let mut partial = BytesMut::new();
    partial.extend_from_slice(&full_buffer[..full_buffer.len() - 1]);

    assert!(codec.decode(&mut partial).unwrap().is_none());

    // Add delimiter
    partial.extend_from_slice(&[0]);
    let payload = codec.decode(&mut partial).unwrap().unwrap();
    let decoded: TestMessage = postcard::from_bytes(&payload).unwrap();
    assert_eq!(message, decoded);
}

#[test]
fn cobs_frame_has_the_expected_bytes() {
    assert_eq!(&framed(&[10, 11, 0, 12])[..], &[3, 10, 11, 2, 12, 0]);
    assert_eq!(&framed(&[0])[..], &[1, 1, 0]);
    assert_eq!(&framed(&[7])[..], &[2, 7, 0]);
    assert_eq!(&framed(&[0, 0])[..], &[1, 1, 1, 0]);
}

#[test]
fn cobs_encode_appends_to_what_the_buffer_holds() {
    let mut codec = PostcardCobsCodec::<Vec<u8>>::default();
    let mut buffer = BytesMut::new();
    buffer.extend_from_slice(&[9, 9]);
    codec.encode(&[7], &mut buffer).unwrap();
    assert_eq!(&buffer[..], &[9, 9, 2, 7, 0]);
}

#[test]
fn cobs_empty_payload_is_the_terminator_alone() {
    let mut codec = PostcardCobsCodec::<()>::default();
    let mut buffer = BytesMut::new();
    codec.encode(&postcard::to_stdvec(&()).unwrap(), &mut buffer).unwrap();
    assert_eq!(&buffer[..], &[0]);

    let payload = codec.decode(&mut buffer).unwrap().unwrap();
    assert!(payload.is_empty());
    assert_eq!(postcard::from_bytes::<()>(&payload), Ok(()));
    assert!(buffer.is_empty());
}

#[test]
fn cobs_decode_takes_one_frame_and_leaves_the_rest() {
    let mut codec = PostcardCobsCodec::<Vec<u8>>::default();
    let mut buffer = BytesMut::new();
    buffer.extend_from_slice(&[3, 10, 11, 2, 12, 0, 2, 7, 0, 2, 8]);

    assert_eq!(codec.decode(&mut buffer), Ok(Some(vec![10, 11, 0, 12])));
    assert_eq!(&buffer[..], &[2, 7, 0, 2, 8]);
    assert_eq!(codec.decode(&mut buffer), Ok(Some(vec![7])));
    assert_eq!(&buffer[..], &[2, 8]);
    assert_eq!(codec.decode(&mut buffer), Ok(None));
    assert_eq!(&buffer[..], &[2, 8]);
}

#[test]
fn cobs_malformed_frame_is_an_error_and_is_consumed() {
    let mut codec = PostcardCobsCodec::<Vec<u8>>::default();
    let mut buffer = BytesMut::new();
    // The first byte announces four more bytes before the next zero; one follows.
    buffer.extend_from_slice(&[5, 1, 0, 2, 7, 0]);

    assert_eq!(codec.decode(&mut buffer), Err(CodecError::MalformedFrame));
    assert_eq!(&buffer[..], &[2, 7, 0]);
    assert_eq!(codec.decode(&mut buffer), Ok(Some(vec![7])));
    assert!(buffer.is_empty());
}

#[test]
fn cobs_no_terminator_leaves_the_buffer_untouched() {
    let mut codec = PostcardCobsCodec::<Vec<u8>>::default();

    let mut empty = BytesMut::new();
    assert_eq!(codec.decode(&mut empty), Ok(None));
    assert!(empty.is_empty());

    let mut buffer = BytesMut::new();
    buffer.extend_from_slice(&[5, 1, 2, 3]);
    assert_eq!(codec.decode(&mut buffer), Ok(None));
    assert_eq!(&buffer[..], &[5, 1, 2, 3]);
}

#[test]
fn cobs_frame_fed_byte_by_byte() {
    let mut codec = PostcardCobsCodec::<TestMessage>::default();
    let message: TestMessage = (7, vec![0, 0, 5, 0], "a\0b".to_string());
    let payload = serialized(&message);
    let frame = framed(&payload);

    let mut buffer = BytesMut::new();
    for (i, byte) in frame.iter().enumerate() {
        buffer.extend_from_slice(&[*byte]);
        let before = buffer.to_vec();
        let result = codec.decode(&mut buffer).unwrap();
        if i + 1 < frame.len() {
            assert_eq!(result, None);
            assert_eq!(buffer.to_vec(), before);
        } else {
            assert_eq!(result, Some(payload.clone()));
            assert!(buffer.is_empty());
        }
    }
}

#[test]
fn cobs_zero_bytes_are_stuffed_out() {
    for payload in [vec![0u8; 1], vec![0u8; 300], vec![0, 255, 0, 1, 0], (0..=255u8).collect()] {
        let mut buffer = framed(&payload);
        assert_eq!(buffer.iter().filter(|&&b| b == 0).count(), 1);
        assert_eq!(buffer[buffer.len() - 1], 0);

        let mut codec = PostcardCobsCodec::<Vec<u8>>::default();
        assert_eq!(codec.decode(&mut buffer), Ok(Some(payload)));
        assert!(buffer.is_empty());
    }
}

#[test]
fn cobs_long_runs_without_zero_round_trip_within_the_overhead() {
    for len in [1usize, 253, 254, 255, 507, 508, 509, 1000, 5000] {
        let payload: Vec<u8> = (0..len).map(|i| (i % 255) as u8 + 1).collect();
        let mut buffer = framed(&payload);

        assert!(buffer.len() <= len + (len + 253) / 254 + 1);
        assert_eq!(buffer.iter().filter(|&&b| b == 0).count(), 1);

        let mut codec = PostcardCobsCodec::<Vec<u8>>::default();
        assert_eq!(codec.decode(&mut buffer), Ok(Some(payload)));
        assert!(buffer.is_empty());
    }
}

#[test]
fn cobs_decodes_frames_that_postcard_wrote() {
    let mut codec = PostcardCobsCodec::<TestMessage>::default();
    let messages: Vec<TestMessage> = vec![
        (42, vec![0, 1, 0, 2, 0, 3], "Hello\0World".to_string()),
        (0, vec![], String::new()),
        (u32::MAX, vec![7; 254], "x".repeat(600)),
    ];
    for message in &messages {
        let mut buffer = BytesMut::new();
        buffer.extend_from_slice(&postcard::to_stdvec_cobs(message).unwrap());
        assert_eq!(codec.decode(&mut buffer), Ok(Some(serialized(message))));
        assert!(buffer.is_empty());
    }
}

#[test]
fn cobs_frames_are_read_by_postcard() {
    let messages: Vec<TestMessage> = vec![
        (42, vec![0, 1, 0, 2, 0, 3], "Hello\0World".to_string()),
        (0, vec![], String::new()),
        (u32::MAX, vec![7; 254], "x".repeat(600)),
    ];
    for message in &messages {
        let mut frame = framed(&serialized(message)).to_vec();
        let decoded: TestMessage = postcard::from_bytes_cobs(&mut frame).unwrap();
        assert_eq!(&decoded, message);
    }
}

#[test]
fn find_terminator_finds_the_first_zero() {
    assert_eq!(find_terminator(&[]), None);
    assert_eq!(find_terminator(&[1, 2, 3]), None);
    assert_eq!(find_terminator(&[0]), Some(0));
    assert_eq!(find_terminator(&[1, 2, 0, 3, 0]), Some(2));
}

#[test]
fn cobs_codec_can_be_cloned() {
    let codec = PostcardCobsCodec::<TestMessage>::default();
    let mut copy = codec.clone();
    let mut buffer = BytesMut::new();
    copy.encode(&[1], &mut buffer).unwrap();
    assert_eq!(&buffer[..], &[2, 1, 0]);
}
