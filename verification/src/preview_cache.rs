use vstd::prelude::*;

verus! {

broadcast use vstd::seq_lib::group_seq_properties;

/// A preview picture as the cache holds it: its size and its RGBA pixels.
pub struct CachedPreview {
    pub width: u16,
    pub height: u16,
    pub rgba: Vec<u8>,
}

/// A 16-bit number as two bytes, least significant first.
pub open spec fn le_bytes(v: u16) -> Seq<u8> {
    seq![(v % 256) as u8, (v / 256) as u8]
}

/// The number two bytes spell, least significant first.
pub open spec fn le_value(low: u8, high: u8) -> u16 {
    (low + 256 * high) as u16
}

/// The cache entry of a preview: width, height, then the pixels.
pub open spec fn preview_bytes(width: u16, height: u16, rgba: Seq<u8>) -> Seq<u8> {
    le_bytes(width) + le_bytes(height) + rgba
}

/// The fields a cache entry holds, when it is long enough to hold the size.
pub open spec fn preview_fields(bytes: Seq<u8>) -> Option<(u16, u16, Seq<u8>)> {
    if bytes.len() < 4 {
        None
    } else {
        Some((le_value(bytes[0], bytes[1]), le_value(bytes[2], bytes[3]), bytes.skip(4)))
    }
}

pub fn encode_cached_preview(image: &CachedPreview) -> (bytes: Vec<u8>)
    ensures
        bytes@ == preview_bytes(image.width, image.height, image.rgba@),
{
    let mut bytes: Vec<u8> = Vec::new();
    bytes.push((image.width % 256) as u8);
    bytes.push((image.width / 256) as u8);
    bytes.push((image.height % 256) as u8);
    bytes.push((image.height / 256) as u8);
    let ghost head = bytes@;
    let mut i: usize = 0;
    while i < image.rgba.len()
        invariant
            head == le_bytes(image.width) + le_bytes(image.height),
            i <= image.rgba.len(),
            bytes@ == head + image.rgba@.take(i as int),
        decreases image.rgba.len() - i,
    {
        bytes.push(image.rgba[i]);
        proof {
            assert(image.rgba@.take(i as int + 1) =~= image.rgba@.take(i as int).push(image.rgba@[i as int]));
            assert(bytes@ =~= head + image.rgba@.take(i as int + 1));
        }
        i = i + 1;
    }
    proof {
        assert(image.rgba@.take(image.rgba.len() as int) =~= image.rgba@);
        assert(head =~= le_bytes(image.width) + le_bytes(image.height));
    }
    bytes
}

pub fn decode_cached_preview(bytes: &[u8]) -> (r: Option<CachedPreview>)
    ensures
        match r {
            Some(p) => preview_fields(bytes@) == Some((p.width, p.height, p.rgba@)),
            None => preview_fields(bytes@) is None,
        },
{
    if bytes.len() < 4 {
        return None;
    }
    let width: u16 = bytes[0] as u16 + 256 * (bytes[1] as u16);
    let height: u16 = bytes[2] as u16 + 256 * (bytes[3] as u16);
    let mut rgba: Vec<u8> = Vec::new();
    let mut i: usize = 4;
    while i < bytes.len()
        invariant
            4 <= i <= bytes@.len(),
            rgba@ == bytes@.subrange(4, i as int),
        decreases bytes.len() - i,
    {
        rgba.push(bytes[i]);
        proof {
            assert(rgba@ =~= bytes@.subrange(4, i as int + 1));
        }
        i = i + 1;
    }
    proof {
        assert(rgba@ =~= bytes@.skip(4));
    }
    Some(CachedPreview { width, height, rgba })
}

} // verus!
