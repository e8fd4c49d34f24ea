use vstd::prelude::*;
use vstd::string::StringSliceAdditionalSpecFns;
use vstd::string::StringExecFns;
use vstd::utf8::{decode_utf8, encode_utf8, encode_utf8_decode_utf8, encode_utf8_valid_utf8, valid_utf8};

use crate::cache_keys::{decimal_text, push_decimal};
use crate::ids::{ChatId, MessageId};

verus! {

broadcast use vstd::seq_lib::group_seq_properties;

/// A downloaded file kept for offline reading: its name, its media type and its content.
pub struct RetainedMedia {
    pub name: String,
    pub mime_type: String,
    pub bytes: Vec<u8>,
}

/// The bytes that open a retained file: `intuigram-media-v1` and a zero byte.
pub open spec fn media_magic() -> Seq<u8> {
    seq![
        105u8, 110u8, 116u8, 117u8, 105u8, 103u8, 114u8, 97u8, 109u8, 45u8, 109u8, 101u8, 100u8,
        105u8, 97u8, 45u8, 118u8, 49u8, 0u8,
    ]
}

/// A 32-bit number as four bytes, least significant first.
pub open spec fn u32_le(v: u32) -> Seq<u8> {
    seq![(v % 256) as u8, ((v / 256) % 256) as u8, ((v / 65536) % 256) as u8, (v / 16777216) as u8]
}

/// The number that four bytes spell, least significant first.
pub open spec fn u32_of(b: Seq<u8>) -> u32 {
    (b[0] + 256 * b[1] + 65536 * b[2] + 16777216 * b[3]) as u32
}

/// A retained file as stored: the magic, the byte lengths of the name and of the media type,
/// the name, the media type, then the content.
pub open spec fn retained_bytes(name: Seq<u8>, mime: Seq<u8>, body: Seq<u8>) -> Seq<u8> {
    media_magic() + u32_le(name.len() as u32) + u32_le(mime.len() as u32) + name + mime + body
}

/// The name, media type and content bytes that stored bytes hold, when they open with the
/// magic and are long enough for the lengths they give.
pub open spec fn retained_fields(bytes: Seq<u8>) -> Option<(Seq<u8>, Seq<u8>, Seq<u8>)> {
    if bytes.len() < 27 || bytes.take(19) != media_magic() {
        None
    } else {
        let p = bytes.skip(19);
        let n = u32_of(p.subrange(0, 4)) as int;
        let m = u32_of(p.subrange(4, 8)) as int;
        if 8 + n + m > p.len() {
            None
        } else {
            Some((p.subrange(8, 8 + n), p.subrange(8 + n, 8 + n + m), p.skip(8 + n + m)))
        }
    }
}

/// The cache owner of a chat's retained files.
pub open spec fn owner_text(chat: ChatId) -> Seq<char> {
    "chat:"@ + decimal_text(chat.0 as int)
}

/// The cache key of a message's retained file.
pub open spec fn key_text(chat: ChatId, message: MessageId) -> Seq<char> {
    "original-v1:"@ + decimal_text(chat.0 as int) + ":"@ + decimal_text(message.0 as int)
}

/// The cache owner under which a chat's retained files are kept.
pub fn owner(chat: ChatId) -> (r: String)
    ensures
        r@ == owner_text(chat),
{
    let mut r = String::from_str("chat:");
    push_decimal(&mut r, chat.0);
    r
}

/// The cache key under which a message's retained file is kept.
pub fn key(chat: ChatId, message: MessageId) -> (r: String)
    ensures
        r@ == key_text(chat, message),
{
    let mut r = String::from_str("original-v1:");
    push_decimal(&mut r, chat.0);
    r.append(":");
    push_decimal(&mut r, message.0);
    r
}

/// `String::from_utf8`: succeeds exactly when the bytes are valid UTF-8, and then holds the
/// characters they encode.
#[verifier::external_body]
fn string_from_utf8(bytes: Vec<u8>) -> (r: Option<String>)
    ensures
        r is Some == valid_utf8(bytes@),
        r matches Some(s) ==> s@ == decode_utf8(bytes@),
{
    String::from_utf8(bytes).ok()
}

fn magic_bytes() -> (r: Vec<u8>)
    ensures
        r@ == media_magic(),
{
    let r = vec![
        105u8, 110u8, 116u8, 117u8, 105u8, 103u8, 114u8, 97u8, 109u8, 45u8, 109u8, 101u8, 100u8,
        105u8, 97u8, 45u8, 118u8, 49u8, 0u8,
    ];
    proof {
        assert(r@ =~= media_magic());
    }
    r
}

fn push_u32_le(out: &mut Vec<u8>, v: u32)
    ensures
        final(out)@ == old(out)@ + u32_le(v),
{
    out.push((v % 256) as u8);
    out.push(((v / 256) % 256) as u8);
    out.push(((v / 65536) % 256) as u8);
    out.push((v / 16777216) as u8);
    proof {
        assert(final(out)@ =~= old(out)@ + u32_le(v));
    }
}

fn push_all(out: &mut Vec<u8>, bytes: &[u8])
    ensures
        final(out)@ == old(out)@ + bytes@,
{
    let ghost start = out@;
    let mut i: usize = 0;
    while i < bytes.len()
        invariant
            i <= bytes.len(),
            out@ == start + bytes@.take(i as int),
        decreases bytes.len() - i,
    {
        out.push(bytes[i]);
        proof {
            assert(bytes@.take(i as int + 1) =~= bytes@.take(i as int).push(bytes@[i as int]));
            assert(out@ =~= start + bytes@.take(i as int + 1));
        }
        i = i + 1;
    }
    proof {
        assert(bytes@.take(bytes.len() as int) =~= bytes@);
    }
}

fn copy_range(bytes: &[u8], from: usize, to: usize) -> (r: Vec<u8>)
    requires
        from <= to <= bytes@.len(),
    ensures
        r@ == bytes@.subrange(from as int, to as int),
{
    let mut r: Vec<u8> = Vec::new();
    let mut i: usize = from;
    while i < to
        invariant
            from <= i <= to,
            to <= bytes@.len(),
            r@ == bytes@.subrange(from as int, i as int),
        decreases to - i,
    {
        r.push(bytes[i]);
        proof {
            assert(r@ =~= bytes@.subrange(from as int, i as int + 1));
        }
        i = i + 1;
    }
    r
}

fn read_u32_le(bytes: &[u8], at: usize) -> (v: u32)
    requires
        at + 4 <= bytes@.len(),
    ensures
        v == u32_of(bytes@.subrange(at as int, at + 4)),
{
    let v: u32 = bytes[at] as u32 + 256 * (bytes[at + 1] as u32) + 65536 * (bytes[at + 2] as u32)
        + 16777216 * (bytes[at + 3] as u32);
    v
}

/// The stored form of a retained file. The name and the media type each take less than four
/// gigabytes of UTF-8.
pub fn encode(media: &RetainedMedia) -> (bytes: Vec<u8>)
    requires
        encode_utf8(media.name@).len() <= u32::MAX,
        encode_utf8(media.mime_type@).len() <= u32::MAX,
    ensures
        bytes@ == retained_bytes(encode_utf8(media.name@), encode_utf8(media.mime_type@), media.bytes@),
{
    let name = media.name.as_str().as_bytes();
    let mime_type = media.mime_type.as_str().as_bytes();
    let mut output = magic_bytes();
    push_u32_le(&mut output, name.len() as u32);
    push_u32_le(&mut output, mime_type.len() as u32);
    push_all(&mut output, name);
    push_all(&mut output, mime_type);
    push_all(&mut output, media.bytes.as_slice());
    output
}

/// The retained file that stored bytes hold, when they hold one: they frame a name, a media
/// type and content, and the name and the media type are valid UTF-8.
pub fn decode(bytes: &[u8]) -> (r: Option<RetainedMedia>)
    ensures
        r is Some == (retained_fields(bytes@) matches Some((n, m, _)) && valid_utf8(n) && valid_utf8(m)),
        r matches Some(media) ==> retained_fields(bytes@) matches Some((n, m, b)) && media.name@
            == decode_utf8(n) && media.mime_type@ == decode_utf8(m) && media.bytes@ == b,
{
    if bytes.len() < 27 {
        return None;
    }
    let mut k: usize = 0;
    while k < 19
        invariant
            k <= 19,
            bytes@.len() >= 27,
            forall|j: int| 0 <= j < k ==> bytes@[j] == media_magic()[j],
        decreases 19 - k,
    {
        let expected = magic_bytes();
        if bytes[k] != expected[k] {
            proof {
                assert(bytes@.take(19)[k as int] != media_magic()[k as int]);
            }
            return None;
        }
        k = k + 1;
    }
    proof {
        assert(bytes@.take(19) =~= media_magic());
    }
    let ghost p = bytes@.skip(19);
    let n = read_u32_le(bytes, 19) as usize;
    let m = read_u32_le(bytes, 23) as usize;
    proof {
        assert(bytes@.subrange(19, 23) =~= p.subrange(0, 4));
        assert(bytes@.subrange(23, 27) =~= p.subrange(4, 8));
    }
    let rest = bytes.len() - 27;
    if n > rest || m > rest - n {
        return None;
    }
    let name_end = 27 + n;
    let mime_end = name_end + m;
    let name_bytes = copy_range(bytes, 27, name_end);
    let mime_bytes = copy_range(bytes, name_end, mime_end);
    let content = copy_range(bytes, mime_end, bytes.len());
    proof {
        assert(name_bytes@ =~= p.subrange(8, 8 + n));
        assert(mime_bytes@ =~= p.subrange(8 + n, 8 + n + m));
        assert(content@ =~= p.skip(8 + n + m));
    }
    let name = match string_from_utf8(name_bytes) {
        Some(s) => s,
        None => return None,
    };
    let mime_type = match string_from_utf8(mime_bytes) {
        Some(s) => s,
        None => return None,
    };
    Some(RetainedMedia { name, mime_type, bytes: content })
}

/// The stored form of a file with `nb` and `mb` as its name and media type frames them again.
proof fn lemma_retained_fields(nb: Seq<u8>, mb: Seq<u8>, content: Seq<u8>)
    requires
        nb.len() <= u32::MAX,
        mb.len() <= u32::MAX,
    ensures
        retained_fields(retained_bytes(nb, mb, content)) == Some((nb, mb, content)),
{
    let ln = u32_le(nb.len() as u32);
    let lm = u32_le(mb.len() as u32);
    let b = retained_bytes(nb, mb, content);
    let p = b.skip(19);
    let n: int = nb.len() as int;
    let m: int = mb.len() as int;
    assert(b.take(19) =~= media_magic());
    assert(p =~= ln + lm + nb + mb + content);
    assert(p.subrange(0, 4) =~= ln);
    assert(p.subrange(4, 8) =~= lm);
    lemma_u32_le_round_trip(nb.len() as u32);
    lemma_u32_le_round_trip(mb.len() as u32);
    assert(u32_of(p.subrange(0, 4)) as int == n);
    assert(u32_of(p.subrange(4, 8)) as int == m);
    assert(p.subrange(8, 8 + n) =~= nb);
    assert(p.subrange(8 + n, 8 + n + m) =~= mb);
    assert(p.skip(8 + n + m) =~= content);
}

/// A retained file reads back as it was kept.
pub proof fn law_retained_media_round_trip(name: Seq<char>, mime_type: Seq<char>, content: Seq<u8>)
    requires
        encode_utf8(name).len() <= u32::MAX,
        encode_utf8(mime_type).len() <= u32::MAX,
    ensures
        retained_fields(retained_bytes(encode_utf8(name), encode_utf8(mime_type), content)) == Some(
            (encode_utf8(name), encode_utf8(mime_type), content),
        ),
        valid_utf8(encode_utf8(name)) && decode_utf8(encode_utf8(name)) == name,
        valid_utf8(encode_utf8(mime_type)) && decode_utf8(encode_utf8(mime_type)) == mime_type,
{
    lemma_retained_fields(encode_utf8(name), encode_utf8(mime_type), content);
    encode_utf8_valid_utf8(name);
    encode_utf8_valid_utf8(mime_type);
    encode_utf8_decode_utf8(name);
    encode_utf8_decode_utf8(mime_type);
}

proof fn lemma_u32_le_round_trip(v: u32)
    ensures
        u32_of(u32_le(v)) == v,
{
    let b = u32_le(v);
    assert(b[0] == v % 256);
    assert(b[1] == (v / 256) % 256);
    assert(b[2] == (v / 65536) % 256);
    assert(b[3] == v / 16777216);
    assert(v % 256 + 256 * ((v / 256) % 256) + 65536 * ((v / 65536) % 256) + 16777216 * (v / 16777216) == v)
        by (nonlinear_arith);
}

} // verus!
