use vstd::prelude::*;
use vstd::string::StringSliceAdditionalSpecFns;
use vstd::utf8::{encode_utf8, encode_utf8_valid_utf8, is_char_boundary, is_char_boundary_iff_not_is_continuation_byte, is_char_boundary_start_end_of_seq, is_continuation_byte, valid_utf8};

verus! {

/// The byte at `i` starts a character; the end of the text counts as a start too.
pub open spec fn starts_char(b: Seq<u8>, i: int) -> bool {
    i == b.len() || (0 <= i < b.len() && !is_continuation_byte(b[i]))
}

/// On valid UTF-8, `starts_char` is std's notion of a character boundary.
pub proof fn lemma_starts_char(b: Seq<u8>, i: int)
    requires
        valid_utf8(b),
        0 <= i <= b.len(),
    ensures
        starts_char(b, i) == is_char_boundary(b, i),
{
    is_char_boundary_start_end_of_seq(b);
    if i < b.len() {
        is_char_boundary_iff_not_is_continuation_byte(b, i);
    }
}

pub proof fn lemma_text_valid(text: &str)
    ensures
        valid_utf8(text.spec_bytes()),
        forall|i: int|
            0 <= i <= text.spec_bytes().len() ==> #[trigger] starts_char(text.spec_bytes(), i)
                == is_char_boundary(text.spec_bytes(), i),
{
    encode_utf8_valid_utf8(text@);
    assert forall|i: int| 0 <= i <= text.spec_bytes().len() implies #[trigger] starts_char(
        text.spec_bytes(),
        i,
    ) == is_char_boundary(text.spec_bytes(), i) by {
        lemma_starts_char(text.spec_bytes(), i);
    }
}

/// The nearest character boundary at or before `c`.
pub open spec fn snap_down(b: Seq<u8>, c: int) -> int
    decreases c,
{
    if c <= 0 {
        0
    } else if is_char_boundary(b, c) {
        c
    } else {
        snap_down(b, c - 1)
    }
}

/// The nearest character boundary at or after `c` (the end when there is none).
pub open spec fn snap_up(b: Seq<u8>, c: int) -> int
    decreases b.len() - c,
{
    if c >= b.len() {
        b.len() as int
    } else if is_char_boundary(b, c) {
        c
    } else {
        snap_up(b, c + 1)
    }
}

/// Index of the last newline byte before `c`, or -1.
pub open spec fn last_newline_before(b: Seq<u8>, c: int) -> int
    decreases c,
{
    if c <= 0 {
        -1
    } else if b[c - 1] == 10 {
        c - 1
    } else {
        last_newline_before(b, c - 1)
    }
}

/// Index of the first newline byte at or after `c`, or -1.
pub open spec fn next_newline_from(b: Seq<u8>, c: int) -> int
    decreases b.len() - c,
{
    if c >= b.len() || c < 0 {
        -1
    } else if b[c] == 10 {
        c
    } else {
        next_newline_from(b, c + 1)
    }
}

/// Number of characters that start in `[a, c)`.
pub open spec fn char_count(b: Seq<u8>, a: int, c: int) -> nat
    decreases c - a,
{
    if c <= a {
        0
    } else {
        char_count(b, a, c - 1) + if starts_char(b, c - 1) {
            1nat
        } else {
            0nat
        }
    }
}

/// Start of the character found after skipping `remaining` characters that start at or after
/// `j` and before `end`; `end` when there are not that many.
pub open spec fn column_start_from(b: Seq<u8>, j: int, end: int, remaining: nat) -> int
    decreases end - j,
{
    if j >= end {
        end
    } else if starts_char(b, j) {
        if remaining == 0 {
            j
        } else {
            column_start_from(b, j + 1, end, (remaining - 1) as nat)
        }
    } else {
        column_start_from(b, j + 1, end, remaining)
    }
}

/// Where a vertical cursor movement lands: the same column on the next (or previous) line,
/// the end of that line when it is shorter, and the cursor itself when there is no such line.
pub open spec fn vertical_target(b: Seq<u8>, cursor: int, down: bool) -> int {
    let line_start = last_newline_before(b, cursor) + 1;
    let column = char_count(b, line_start, cursor);
    if down {
        let newline = next_newline_from(b, cursor);
        if newline < 0 {
            cursor
        } else {
            let next_start = newline + 1;
            let following = next_newline_from(b, next_start);
            let next_end = if following < 0 {
                b.len() as int
            } else {
                following
            };
            column_start_from(b, next_start, next_end, column)
        }
    } else if line_start == 0 {
        cursor
    } else {
        let previous_end = line_start - 1;
        let previous_start = last_newline_before(b, previous_end) + 1;
        column_start_from(b, previous_start, previous_end, column)
    }
}

pub proof fn lemma_last_newline(b: Seq<u8>, c: int)
    requires
        0 <= c <= b.len(),
    ensures
        -1 <= last_newline_before(b, c) < c,
        last_newline_before(b, c) >= 0 ==> b[last_newline_before(b, c)] == 10,
        forall|j: int| last_newline_before(b, c) < j < c ==> b[j] != 10,
    decreases c,
{
    if c > 0 && b[c - 1] != 10 {
        lemma_last_newline(b, c - 1);
    }
}

pub proof fn lemma_next_newline(b: Seq<u8>, c: int)
    requires
        0 <= c <= b.len(),
    ensures
        next_newline_from(b, c) == -1 || c <= next_newline_from(b, c) < b.len(),
        next_newline_from(b, c) >= 0 ==> b[next_newline_from(b, c)] == 10,
        next_newline_from(b, c) >= 0 ==> forall|j: int| c <= j < next_newline_from(b, c) ==> b[j]
            != 10,
        next_newline_from(b, c) < 0 ==> forall|j: int| c <= j < b.len() ==> b[j] != 10,
    decreases b.len() - c,
{
    if c < b.len() && b[c] != 10 {
        lemma_next_newline(b, c + 1);
    }
}

pub proof fn lemma_column_start(b: Seq<u8>, j: int, end: int, remaining: nat)
    requires
        0 <= j <= end <= b.len(),
    ensures
        j <= column_start_from(b, j, end, remaining) <= end,
        column_start_from(b, j, end, remaining) < end ==> starts_char(
            b,
            column_start_from(b, j, end, remaining),
        ),
    decreases end - j,
{
    if j < end {
        if starts_char(b, j) {
            if remaining > 0 {
                lemma_column_start(b, j + 1, end, (remaining - 1) as nat);
            }
        } else {
            lemma_column_start(b, j + 1, end, remaining);
        }
    }
}

/// A newline byte always starts a character.
pub proof fn lemma_newline_starts_char(b: Seq<u8>, i: int)
    requires
        0 <= i < b.len(),
        b[i] == 10,
    ensures
        starts_char(b, i),
{
}

/// The cursor clamped into the text and moved back onto a character boundary.
pub fn valid_cursor(text: &str, cursor: usize) -> (r: usize)
    ensures
        r <= cursor,
        r <= text.spec_bytes().len(),
        r as int == snap_down(
            text.spec_bytes(),
            if cursor <= text.spec_bytes().len() {
                cursor as int
            } else {
                text.spec_bytes().len() as int
            },
        ),
        is_char_boundary(text.spec_bytes(), r as int),
        forall|j: int|
            r < j <= cursor && j <= text.spec_bytes().len() ==> !is_char_boundary(
                text.spec_bytes(),
                j,
            ),
{
    proof {
        lemma_text_valid(text);
        is_char_boundary_start_end_of_seq(text.spec_bytes());
    }
    let len = text.as_bytes().len();
    let mut c = if cursor < len {
        cursor
    } else {
        len
    };
    while !text.is_char_boundary(c)
        invariant
            c <= cursor,
            c <= len,
            len == text.spec_bytes().len(),
            is_char_boundary(text.spec_bytes(), 0),
            forall|j: int| c < j <= cursor && j <= len ==> !is_char_boundary(text.spec_bytes(), j),
            snap_down(text.spec_bytes(), c as int) == snap_down(
                text.spec_bytes(),
                if cursor <= len {
                    cursor as int
                } else {
                    len as int
                },
            ),
        decreases c,
    {
        c = c - 1;
    }
    c
}

/// The boundary of the character before `cursor`, if there is one.
pub fn previous_boundary(text: &str, cursor: usize) -> (r: Option<usize>)
    requires
        cursor <= text.spec_bytes().len(),
        is_char_boundary(text.spec_bytes(), cursor as int),
    ensures
        r is None <==> cursor == 0,
        r matches Some(p) ==> p as int == snap_down(text.spec_bytes(), cursor - 1),
        r matches Some(p) ==> p < cursor && is_char_boundary(text.spec_bytes(), p as int) && forall|
            j: int,
        | p < j < cursor ==> !is_char_boundary(text.spec_bytes(), j),
{
    proof {
        lemma_text_valid(text);
        is_char_boundary_start_end_of_seq(text.spec_bytes());
    }
    if cursor == 0 {
        return None;
    }
    let mut p = cursor - 1;
    while !text.is_char_boundary(p)
        invariant
            p < cursor,
            cursor <= text.spec_bytes().len(),
            is_char_boundary(text.spec_bytes(), 0),
            snap_down(text.spec_bytes(), p as int) == snap_down(text.spec_bytes(), cursor - 1),
            forall|j: int| p < j < cursor ==> !is_char_boundary(text.spec_bytes(), j),
        decreases p,
    {
        p = p - 1;
    }
    Some(p)
}

/// The boundary after the character at `cursor`, if the cursor is not at the end.
pub fn next_boundary(text: &str, cursor: usize) -> (r: Option<usize>)
    requires
        cursor <= text.spec_bytes().len(),
        is_char_boundary(text.spec_bytes(), cursor as int),
    ensures
        r is None <==> cursor == text.spec_bytes().len(),
        r matches Some(n) ==> n as int == snap_up(text.spec_bytes(), cursor + 1),
        r matches Some(n) ==> cursor < n <= text.spec_bytes().len() && is_char_boundary(
            text.spec_bytes(),
            n as int,
        ) && forall|j: int| cursor < j < n ==> !is_char_boundary(text.spec_bytes(), j),
{
    proof {
        lemma_text_valid(text);
        is_char_boundary_start_end_of_seq(text.spec_bytes());
    }
    let len = text.as_bytes().len();
    if cursor >= len {
        return None;
    }
    let mut n = cursor + 1;
    while !text.is_char_boundary(n)
        invariant
            cursor < n <= len,
            len == text.spec_bytes().len(),
            snap_up(text.spec_bytes(), n as int) == snap_up(text.spec_bytes(), cursor + 1),
            is_char_boundary(text.spec_bytes(), len as int),
            forall|j: int| cursor < j < n ==> !is_char_boundary(text.spec_bytes(), j),
        decreases len - n,
    {
        n = n + 1;
    }
    Some(n)
}

/// Byte offset of the `column`-th character of `text[start..end]`, or `end` if that range
/// holds fewer characters.
pub fn byte_at_column(text: &str, start: usize, end: usize, column: usize) -> (r: usize)
    requires
        start <= end <= text.spec_bytes().len(),
    ensures
        r as int == column_start_from(text.spec_bytes(), start as int, end as int, column as nat),
{
    let b = text.as_bytes();
    proof {
        lemma_text_valid(text);
    }
    let ghost bytes = text.spec_bytes();
    let mut j = start;
    let mut remaining = column;
    while j < end
        invariant
            b@ == bytes,
            bytes == text.spec_bytes(),
            start <= j <= end <= bytes.len(),
            column_start_from(bytes, start as int, end as int, column as nat) == column_start_from(
                bytes,
                j as int,
                end as int,
                remaining as nat,
            ),
        decreases end - j,
    {
        let byte = b[j];
        if !(byte >= 0x80 && byte <= 0xbf) {
            if remaining == 0 {
                assert(starts_char(bytes, j as int));
                assert(column_start_from(bytes, j as int, end as int, remaining as nat) == j as int);
                return j;
            }
            remaining = remaining - 1;
        }
        j = j + 1;
    }
    end
}

/// Index just past the last newline byte before `c`, or 0.
fn line_start(b: &[u8], c: usize) -> (r: usize)
    requires
        c <= b@.len(),
    ensures
        r as int == last_newline_before(b@, c as int) + 1,
{
    proof {
        lemma_last_newline(b@, c as int);
    }
    let mut i = c;
    while i > 0
        invariant
            i <= c <= b@.len(),
            last_newline_before(b@, c as int) == last_newline_before(b@, i as int),
        decreases i,
    {
        if b[i - 1] == 10 {
            return i;
        }
        i = i - 1;
    }
    0
}

/// Index of the first newline byte at or after `c`, if any.
fn newline_from(b: &[u8], c: usize) -> (r: Option<usize>)
    requires
        c <= b@.len(),
    ensures
        match r {
            Some(n) => n as int == next_newline_from(b@, c as int),
            None => next_newline_from(b@, c as int) == -1,
        },
{
    let mut i = c;
    while i < b.len()
        invariant
            c <= i <= b@.len(),
            next_newline_from(b@, c as int) == next_newline_from(b@, i as int),
        decreases b@.len() - i,
    {
        if b[i] == 10 {
            return Some(i);
        }
        i = i + 1;
    }
    None
}

/// Number of characters that start in `b[a..c)`.
fn count_chars(b: &[u8], a: usize, c: usize) -> (r: usize)
    requires
        a <= c <= b@.len(),
    ensures
        r as nat == char_count(b@, a as int, c as int),
{
    let mut i = a;
    let mut n: usize = 0;
    while i < c
        invariant
            a <= i <= c <= b@.len(),
            n as nat == char_count(b@, a as int, i as int),
            n <= i - a,
        decreases c - i,
    {
        let byte = b[i];
        if !(byte >= 0x80 && byte <= 0xbf) {
            n = n + 1;
        }
        i = i + 1;
    }
    n
}

/// The cursor moved to the same column of the next (`down`) or previous line.
pub fn vertical_cursor(text: &str, cursor: usize, down: bool) -> (r: usize)
    requires
        cursor <= text.spec_bytes().len(),
    ensures
        r as int == vertical_target(text.spec_bytes(), cursor as int, down),
        r <= text.spec_bytes().len(),
        is_char_boundary(text.spec_bytes(), cursor as int) ==> is_char_boundary(
            text.spec_bytes(),
            r as int,
        ),
{
    let b = text.as_bytes();
    let ghost bytes = text.spec_bytes();
    proof {
        lemma_text_valid(text);
        is_char_boundary_start_end_of_seq(bytes);
        lemma_last_newline(bytes, cursor as int);
    }
    let start = line_start(b, cursor);
    let column = count_chars(b, start, cursor);
    if down {
        proof {
            lemma_next_newline(bytes, cursor as int);
        }
        let total = b.len();
        let Some(newline) = newline_from(b, cursor) else {
            return cursor;
        };
        assert(newline < total);
        let next_start = newline + 1;
        let next_end = match newline_from(b, next_start) {
            Some(e) => e,
            None => b.len(),
        };
        proof {
            lemma_next_newline(bytes, next_start as int);
            lemma_column_start(bytes, next_start as int, next_end as int, column as nat);
            if next_end < bytes.len() {
                lemma_newline_starts_char(bytes, next_end as int);
            }
        }
        byte_at_column(text, next_start, next_end, column)
    } else {
        if start == 0 {
            return cursor;
        }
        let previous_end = start - 1;
        proof {
            lemma_last_newline(bytes, previous_end as int);
        }
        let previous_start = line_start(b, previous_end);
        proof {
            lemma_column_start(bytes, previous_start as int, previous_end as int, column as nat);
            lemma_newline_starts_char(bytes, previous_end as int);
        }
        byte_at_column(text, previous_start, previous_end, column)
    }
}

/// UTF-8 encoding distributes over concatenation.
pub proof fn lemma_encode_concat(x: Seq<char>, y: Seq<char>)
    ensures
        encode_utf8(x + y) == encode_utf8(x) + encode_utf8(y),
    decreases x.len(),
{
    if x.len() == 0 {
        assert(x + y =~= y);
    } else {
        lemma_encode_concat(x.drop_first(), y);
        assert((x + y).drop_first() =~= x.drop_first() + y);
        assert((x + y)[0] == x[0]);
    }
}

/// Counting characters from the front: the first byte, then the rest.
proof fn lemma_char_count_front(b: Seq<u8>, a: int, c: int)
    requires
        a < c,
    ensures
        char_count(b, a, c) == char_count(b, a + 1, c) + if starts_char(b, a) {
            1nat
        } else {
            0nat
        },
    decreases c - a,
{
    let one: nat = if starts_char(b, c - 1) {
        1nat
    } else {
        0nat
    };
    assert(char_count(b, a, c) == char_count(b, a, c - 1) + one);
    if c - 1 > a {
        lemma_char_count_front(b, a, c - 1);
        assert(char_count(b, a + 1, c) == char_count(b, a + 1, c - 1) + one);
    } else {
        assert(char_count(b, a, c - 1) == 0);
        assert(char_count(b, a + 1, c) == 0);
    }
}

/// Skipping `k` characters from `j` lands after exactly `k` characters, or after all of them
/// when the range holds fewer.
pub proof fn lemma_column_count(b: Seq<u8>, j: int, end: int, k: nat)
    requires
        j <= end,
    ensures
        char_count(b, j, column_start_from(b, j, end, k)) == if k < char_count(b, j, end) {
            k
        } else {
            char_count(b, j, end)
        },
    decreases end - j,
{
    if j < end {
        lemma_char_count_front(b, j, end);
        let r = column_start_from(b, j, end, k);
        if starts_char(b, j) {
            if k == 0 {
                assert(r == j);
            } else {
                lemma_column_count(b, j + 1, end, (k - 1) as nat);
                lemma_column_start_at_least(b, j + 1, end, (k - 1) as nat);
                lemma_char_count_front(b, j, r);
            }
        } else {
            lemma_column_count(b, j + 1, end, k);
            lemma_column_start_at_least(b, j + 1, end, k);
            if r > j {
                lemma_char_count_front(b, j, r);
            }
        }
    }
}

proof fn lemma_column_start_at_least(b: Seq<u8>, j: int, end: int, k: nat)
    requires
        j <= end,
    ensures
        j <= column_start_from(b, j, end, k) <= end,
    decreases end - j,
{
    if j < end {
        if starts_char(b, j) {
            if k > 0 {
                lemma_column_start_at_least(b, j + 1, end, (k - 1) as nat);
            }
        } else {
            lemma_column_start_at_least(b, j + 1, end, k);
        }
    }
}

/// Moving the cursor down or up keeps its column: the cursor lands on the next (previous) line,
/// after as many characters of that line as the cursor had before it on its own line, or at
/// that line's end when the line is shorter. Without such a line the cursor stays.
pub proof fn law_vertical_move_keeps_column(b: Seq<u8>, cursor: int, down: bool)
    requires
        0 <= cursor <= b.len(),
    ensures
        ({
            let line_start = last_newline_before(b, cursor) + 1;
            let column = char_count(b, line_start, cursor);
            let r = vertical_target(b, cursor, down);
            if down {
                let newline = next_newline_from(b, cursor);
                if newline < 0 {
                    r == cursor
                } else {
                    let next_start = newline + 1;
                    let following = next_newline_from(b, next_start);
                    let next_end = if following < 0 {
                        b.len() as int
                    } else {
                        following
                    };
                    let length = char_count(b, next_start, next_end);
                    &&& b[newline] == 10
                    &&& forall|j: int| cursor <= j < newline ==> b[j] != 10
                    &&& forall|j: int| next_start <= j < next_end ==> b[j] != 10
                    &&& next_start <= r <= next_end
                    &&& (r == next_end || starts_char(b, r))
                    &&& char_count(b, next_start, r) == if column < length {
                        column
                    } else {
                        length
                    }
                }
            } else if line_start == 0 {
                r == cursor
            } else {
                let previous_end = line_start - 1;
                let previous_start = last_newline_before(b, previous_end) + 1;
                let length = char_count(b, previous_start, previous_end);
                &&& b[previous_end] == 10
                &&& forall|j: int| previous_start <= j < previous_end ==> b[j] != 10
                &&& previous_start <= r <= previous_end
                &&& (r == previous_end || starts_char(b, r))
                &&& char_count(b, previous_start, r) == if column < length {
                    column
                } else {
                    length
                }
            }
        }),
{
    lemma_last_newline(b, cursor);
    let line_start = last_newline_before(b, cursor) + 1;
    let column = char_count(b, line_start, cursor);
    if down {
        lemma_next_newline(b, cursor);
        let newline = next_newline_from(b, cursor);
        if newline >= 0 {
            let next_start = newline + 1;
            lemma_next_newline(b, next_start);
            let following = next_newline_from(b, next_start);
            let next_end = if following < 0 {
                b.len() as int
            } else {
                following
            };
            lemma_column_count(b, next_start, next_end, column);
            lemma_column_start(b, next_start, next_end, column);
        }
    } else if line_start != 0 {
        let previous_end = line_start - 1;
        lemma_last_newline(b, previous_end);
        let previous_start = last_newline_before(b, previous_end) + 1;
        lemma_column_count(b, previous_start, previous_end, column);
        lemma_column_start(b, previous_start, previous_end, column);
    }
}

} // verus!
