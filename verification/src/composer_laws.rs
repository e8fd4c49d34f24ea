use vstd::prelude::*;
use vstd::utf8::{decode_utf8_encode_utf8, decode_utf8_split, encode_scalar, encode_utf8, encode_utf8_decode_utf8, encode_utf8_first_scalar, encode_utf8_valid_utf8, is_char_boundary, is_char_boundary_start_end_of_seq, pop_first_scalar, valid_utf8, valid_utf8_split};

use crate::app::composer::{bytes_of, text_between};
use crate::cursor::{lemma_encode_concat, snap_down};
use crate::view::ComposerModel;

verus! {

broadcast use vstd::seq_lib::group_seq_properties;

/// The first character's encoding comes first, and the rest follows it.
proof fn lemma_encode_first(s: Seq<char>)
    requires
        s.len() > 0,
    ensures
        encode_utf8(s) == encode_scalar(s[0] as u32) + encode_utf8(s.drop_first()),
        pop_first_scalar(encode_utf8(s)) == encode_utf8(s.drop_first()),
        encode_scalar(s[0] as u32).len() >= 1,
        encode_scalar(s[0] as u32).len() <= 4,
{
    encode_utf8_first_scalar(s);
    assert(pop_first_scalar(encode_utf8(s)) =~= encode_utf8(s.drop_first()));
}

/// Boundaries after a prefix of characters are the boundaries of what follows, shifted.
proof fn lemma_boundary_after_prefix(x: Seq<char>, z: Seq<char>, j: int)
    requires
        0 <= j <= encode_utf8(z).len(),
    ensures
        is_char_boundary(encode_utf8(x + z), encode_utf8(x).len() + j) == is_char_boundary(
            encode_utf8(z),
            j,
        ),
    decreases x.len(),
{
    encode_utf8_valid_utf8(x + z);
    encode_utf8_valid_utf8(z);
    if x.len() == 0 {
        assert(x + z =~= z);
    } else {
        let rest = x.drop_first();
        assert((x + z).drop_first() =~= rest + z);
        assert((x + z)[0] == x[0]);
        lemma_encode_first(x + z);
        lemma_encode_first(x);
        lemma_encode_concat(rest, z);
        lemma_encode_concat(x, z);
        encode_utf8_valid_utf8(rest + z);
        lemma_boundary_after_prefix(rest, z, j);
        let b = encode_utf8(x + z);
        let idx = encode_utf8(x).len() + j;
        assert(idx > 0);
        assert(idx <= b.len());
        encode_utf8_first_scalar(x + z);
        assert(is_char_boundary(b, idx) == is_char_boundary(
            pop_first_scalar(b),
            idx - encode_scalar((x + z)[0] as u32).len(),
        ));
    }
}

/// No index strictly inside the first character's encoding is a boundary; its end is one.
proof fn lemma_first_char_boundaries(c: char, y: Seq<char>, j: int)
    requires
        0 < j <= encode_scalar(c as u32).len(),
    ensures
        is_char_boundary(encode_utf8(seq![c] + y), j) == (j == encode_scalar(c as u32).len()),
{
    let s = seq![c] + y;
    assert(s[0] == c);
    assert(s.drop_first() =~= y);
    lemma_encode_first(s);
    encode_utf8_valid_utf8(s);
    encode_utf8_valid_utf8(y);
    is_char_boundary_start_end_of_seq(encode_utf8(y));
    let b = encode_utf8(s);
    assert(is_char_boundary(b, j) == is_char_boundary(pop_first_scalar(b), j - encode_scalar(c as u32).len()));
}

/// Stepping down from `m` meets no boundary before `k`.
proof fn lemma_snap_down_to(b: Seq<u8>, m: int, k: int)
    requires
        0 <= k <= m,
        k == 0 || is_char_boundary(b, k),
        forall|j: int| k < j <= m ==> !is_char_boundary(b, j),
    ensures
        snap_down(b, m) == k,
    decreases m,
{
    if m > k {
        lemma_snap_down_to(b, m - 1, k);
    }
}

/// Stepping down lands on a boundary at or before the start.
proof fn lemma_snap_down_bounds(b: Seq<u8>, c: int)
    requires
        valid_utf8(b),
        0 <= c <= b.len(),
    ensures
        0 <= snap_down(b, c) <= c,
        is_char_boundary(b, snap_down(b, c)),
    decreases c,
{
    is_char_boundary_start_end_of_seq(b);
    if c > 0 && !is_char_boundary(b, c) {
        lemma_snap_down_bounds(b, c - 1);
    }
}

/// A text splits at a character boundary into the characters before it and after it.
proof fn lemma_split_text(t: Seq<char>, k: int)
    requires
        0 <= k <= bytes_of(t).len(),
        is_char_boundary(bytes_of(t), k),
    ensures
        encode_utf8(text_between(t, 0, k)) == bytes_of(t).subrange(0, k),
        encode_utf8(text_between(t, k, bytes_of(t).len() as int)) == bytes_of(t).subrange(
            k,
            bytes_of(t).len() as int,
        ),
        text_between(t, 0, k) + text_between(t, k, bytes_of(t).len() as int) == t,
{
    let b = bytes_of(t);
    encode_utf8_valid_utf8(t);
    valid_utf8_split(b, k);
    decode_utf8_encode_utf8(b.subrange(0, k));
    decode_utf8_encode_utf8(b.subrange(k, b.len() as int));
    decode_utf8_split(b, k);
    encode_utf8_decode_utf8(t);
}

/// Typing one character and erasing it gives the text back, with the cursor where it was,
/// whenever the text with the character fits in memory (a byte length that a `usize` holds).
pub proof fn law_insert_then_backspace(c: ComposerModel, ch: char)
    requires
        bytes_of(c.text).len() + bytes_of(seq![ch]).len() <= usize::MAX,
    ensures
        c.inserted(seq![ch]).backspaced().text == c.text,
        c.inserted(seq![ch]).backspaced().cursor == c.valid_cursor(),
{
    let t = c.text;
    let b = bytes_of(t);
    let k = c.valid_cursor();
    encode_utf8_valid_utf8(t);
    is_char_boundary_start_end_of_seq(b);
    assert(0 <= k <= b.len() && is_char_boundary(b, k)) by {
        lemma_snap_down_bounds(b, if c.cursor <= b.len() { c.cursor as int } else { b.len() as int });
    }
    lemma_split_text(t, k);
    let x = text_between(t, 0, k);
    let y = text_between(t, k, b.len() as int);
    let one = seq![ch];
    let w = encode_scalar(ch as u32).len();
    assert(encode_utf8(one) =~= encode_scalar(ch as u32)) by {
        lemma_encode_first(one);
        assert(one.drop_first() =~= Seq::<char>::empty());
    }
    lemma_encode_first(one);
    let inserted = c.inserted(one);
    assert(inserted.text == x + one + y);
    assert(inserted.cursor == k + w);
    let t2 = x + one + y;
    assert(t2 =~= x + (one + y));
    lemma_encode_concat(x, one + y);
    lemma_encode_concat(one, y);
    let b2 = bytes_of(t2);
    encode_utf8_valid_utf8(t2);
    // The cursor after the inserted character is a boundary.
    lemma_boundary_after_prefix(x, one + y, w as int);
    lemma_first_char_boundaries(ch, y, w as int);
    assert(is_char_boundary(b2, k + w));
    assert(inserted.valid_cursor() == k + w);
    // Erasing steps back over the whole character.
    assert forall|j: int| k < j <= k + w - 1 implies !is_char_boundary(b2, j) by {
        lemma_boundary_after_prefix(x, one + y, j - k);
        lemma_first_char_boundaries(ch, y, j - k);
    }
    lemma_boundary_after_prefix(x, one + y, 0);
    encode_utf8_valid_utf8(one + y);
    is_char_boundary_start_end_of_seq(encode_utf8(one + y));
    lemma_snap_down_to(b2, k + w - 1, k);
    // What is left is the text around the character.
    assert(b2.subrange(0, k) =~= b.subrange(0, k));
    assert(b2.subrange(k + w, b2.len() as int) =~= b.subrange(k, b.len() as int));
    encode_utf8_decode_utf8(x);
    encode_utf8_decode_utf8(y);
}

} // verus!
