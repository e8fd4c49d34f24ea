use lib::preview_cache::{decode_cached_preview, encode_cached_preview, CachedPreview};

#[test]
fn cached_preview_reads_back_as_written() {
    let preview = CachedPreview { width: 300, height: 2, rgba: vec![1, 2, 3, 4, 5, 6, 7, 8] };
    let bytes = encode_cached_preview(&preview);
    assert_eq!(bytes[..4], [44, 1, 2, 0]);
    let decoded = decode_cached_preview(&bytes).unwrap();
    assert_eq!(decoded.width, 300);
    assert_eq!(decoded.height, 2);
    assert_eq!(decoded.rgba, preview.rgba);
}

#[test]
fn cached_preview_needs_its_size() {
    assert!(decode_cached_preview(&[1, 2, 3]).is_none());
    let bare = decode_cached_preview(&[255, 255, 0, 1]).unwrap();
    assert_eq!(bare.width, u16::MAX);
    assert_eq!(bare.height, 256);
    assert!(bare.rgba.is_empty());
}
