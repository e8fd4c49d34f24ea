use lib::command_codec::{decode, encode, CodecError};

fn valid_encoding() -> Vec<u8> {
    encode(br#"{"kind":"text","local_message_id":-1,"reply_to":null}"#)
}

#[test]
fn short_header_is_reported_as_truncated() {
    assert!(matches!(decode(b"ICM"), Err(CodecError::Truncated)));
}

#[test]
fn wrong_magic_is_rejected() {
    let mut encoded = valid_encoding();
    encoded[0] = b'X';

    assert!(matches!(decode(&encoded), Err(CodecError::InvalidHeader)));
}

#[test]
fn unknown_version_is_rejected_before_content() {
    let mut encoded = valid_encoding();
    encoded[4] = 99;

    assert!(matches!(
        decode(&encoded),
        Err(CodecError::UnsupportedVersion { version: 99 })
    ));
}

#[test]
fn stored_command_opens_with_the_header() {
    let encoded = encode(b"{}");
    assert_eq!(encoded, b"ICMD\x01{}".to_vec());
}

#[test]
fn stored_command_body_reads_back() {
    let body = br#"{"kind":"text"}"#.to_vec();
    assert_eq!(decode(&encode(&body)), Ok(body));
}

#[test]
fn header_alone_frames_an_empty_body() {
    assert_eq!(decode(b"ICMD\x01"), Ok(Vec::new()));
}
