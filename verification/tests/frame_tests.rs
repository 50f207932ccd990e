use squirreldb::frame::{decode_frame, encode_frame, frame_length, FRAME_HEADER_LEN};
use squirreldb::{Error, MAX_MESSAGE_SIZE};

#[test]
fn a_frame_is_length_then_payload() {
    assert_eq!(FRAME_HEADER_LEN, 4);
    assert_eq!(encode_frame(b"").unwrap(), vec![0, 0, 0, 0]);
    assert_eq!(encode_frame(b"hi").unwrap(), vec![0, 0, 0, 2, b'h', b'i']);
    let payload = vec![7u8; 0x01_02_03];
    let frame = encode_frame(&payload).unwrap();
    assert_eq!(&frame[..4], &[0x00, 0x01, 0x02, 0x03]);
    assert_eq!(&frame[4..], &payload[..]);
}

#[test]
fn the_largest_payload_fits_and_one_more_byte_does_not() {
    let largest = vec![0u8; MAX_MESSAGE_SIZE as usize];
    let frame = encode_frame(&largest).unwrap();
    assert_eq!(&frame[..4], &[0x01, 0x00, 0x00, 0x00]);
    let too_large = vec![0u8; MAX_MESSAGE_SIZE as usize + 1];
    assert!(matches!(encode_frame(&too_large), Err(Error::Protocol(_))));
}

#[test]
fn the_header_gives_the_length() {
    assert_eq!(frame_length([0, 0, 0, 0]).unwrap(), 0);
    assert_eq!(frame_length([0, 0, 1, 2]).unwrap(), 258);
    assert_eq!(frame_length([0x01, 0, 0, 0]).unwrap(), MAX_MESSAGE_SIZE);
    assert!(matches!(frame_length([0x01, 0, 0, 1]), Err(Error::Protocol(_))));
    assert!(matches!(frame_length([0xFF, 0xFF, 0xFF, 0xFF]), Err(Error::Protocol(_))));
}

#[test]
fn an_oversized_frame_is_rejected_on_its_header() {
    let header = [0x01, 0x00, 0x00, 0x01];
    assert!(matches!(decode_frame(&header, false), Err(Error::Protocol(_))));
    assert!(matches!(decode_frame(&header, true), Err(Error::Protocol(_))));
    let mut with_some_payload = header.to_vec();
    with_some_payload.extend_from_slice(b"abc");
    assert!(matches!(decode_frame(&with_some_payload, false), Err(Error::Protocol(_))));
}

#[test]
fn a_frame_is_read_back() {
    let mut stream = encode_frame(b"first").unwrap();
    stream.extend_from_slice(&encode_frame(b"").unwrap());
    stream.extend_from_slice(&encode_frame(b"third one").unwrap());
    stream.extend_from_slice(&[0, 0]);
    let mut payloads: Vec<Vec<u8>> = Vec::new();
    let mut at = 0;
    while let Some((payload, used)) = decode_frame(&stream[at..], false).unwrap() {
        payloads.push(payload);
        at += used;
    }
    assert_eq!(payloads, vec![b"first".to_vec(), b"".to_vec(), b"third one".to_vec()]);
    assert_eq!(at, stream.len() - 2);
}

#[test]
fn a_frame_that_is_not_whole_waits_or_fails() {
    let frame = encode_frame(b"hello").unwrap();
    for cut in 0..frame.len() {
        assert!(matches!(decode_frame(&frame[..cut], false), Ok(None)));
        assert!(matches!(decode_frame(&frame[..cut], true), Err(Error::Connection(_))));
    }
    let (payload, used) = decode_frame(&frame, true).unwrap().unwrap();
    assert_eq!(payload, b"hello");
    assert_eq!(used, 9);
}
