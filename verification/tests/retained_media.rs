use lib::retained_media::{decode, encode, RetainedMedia};

#[test]
fn retained_original_round_trips_without_telegram_types_in_the_cache_crate() {
    let media = RetainedMedia {
        name: "photo.png".to_owned(),
        mime_type: "image/png".to_owned(),
        bytes: vec![1, 2, 3],
    };

    let restored = decode(&encode(&media)).expect("retained media should exist");

    assert_eq!(restored.name, media.name);
    assert_eq!(restored.mime_type, media.mime_type);
    assert_eq!(restored.bytes, media.bytes);
}

#[test]
fn retained_file_layout_is_magic_lengths_then_fields() {
    let media = RetainedMedia { name: "a".to_owned(), mime_type: "é".to_owned(), bytes: vec![9] };
    let mut expected = b"intuigram-media-v1\0".to_vec();
    expected.extend_from_slice(&[1, 0, 0, 0, 2, 0, 0, 0]);
    expected.extend_from_slice("a".as_bytes());
    expected.extend_from_slice("é".as_bytes());
    expected.push(9);
    assert_eq!(encode(&media), expected);
}

#[test]
fn retained_file_with_another_magic_is_not_read() {
    let media = RetainedMedia { name: "n".to_owned(), mime_type: "t".to_owned(), bytes: Vec::new() };
    let mut bytes = encode(&media);
    bytes[0] = b'X';
    assert!(decode(&bytes).is_none());
}

#[test]
fn retained_file_shorter_than_its_lengths_is_not_read() {
    let media = RetainedMedia { name: "name".to_owned(), mime_type: "type".to_owned(), bytes: Vec::new() };
    let mut bytes = encode(&media);
    bytes.pop();
    assert!(decode(&bytes).is_none());
    assert!(decode(b"intuigram-media-v1\0\x01").is_none());
}

#[test]
fn retained_file_with_a_name_that_is_not_utf8_is_not_read() {
    let mut bytes = b"intuigram-media-v1\0".to_vec();
    bytes.extend_from_slice(&[1, 0, 0, 0, 0, 0, 0, 0, 0xff]);
    assert!(decode(&bytes).is_none());
}

#[test]
fn retained_file_content_is_what_follows_the_media_type() {
    let mut bytes = b"intuigram-media-v1\0".to_vec();
    bytes.extend_from_slice(&[2, 0, 0, 0, 1, 0, 0, 0]);
    bytes.extend_from_slice(b"hiz\x00\x01");
    let media = decode(&bytes).expect("well-formed bytes should be read");
    assert_eq!(media.name, "hi");
    assert_eq!(media.mime_type, "z");
    assert_eq!(media.bytes, vec![0, 1]);
}
