use vstd::prelude::*;
use vstd::string::StringExecFns;

use crate::ids::{AvatarRef, ChatId, MessageId};
use crate::text_parse::{all_digits, decimal_value, digit_value, digits_value, is_digit};

verus! {

/// The character of a decimal digit.
pub open spec fn digit_char(d: int) -> char {
    if d == 0 {
        '0'
    } else if d == 1 {
        '1'
    } else if d == 2 {
        '2'
    } else if d == 3 {
        '3'
    } else if d == 4 {
        '4'
    } else if d == 5 {
        '5'
    } else if d == 6 {
        '6'
    } else if d == 7 {
        '7'
    } else if d == 8 {
        '8'
    } else {
        '9'
    }
}

/// The decimal digits of a number, without leading zeros (`0` for zero).
pub open spec fn numeral(n: nat) -> Seq<char>
    decreases n,
{
    if n < 10 {
        seq![digit_char(n as int)]
    } else {
        numeral(n / 10).push(digit_char((n % 10) as int))
    }
}

/// A number as decimal text, with a leading `-` when it is negative.
pub open spec fn decimal_text(v: int) -> Seq<char> {
    if v < 0 {
        seq!['-'] + numeral((-v) as nat)
    } else {
        numeral(v as nat)
    }
}

/// The cache key of a message's preview picture.
pub open spec fn preview_key_text(chat: ChatId, message: MessageId) -> Seq<char> {
    "preview-v2:"@ + decimal_text(chat.0 as int) + ":"@ + decimal_text(message.0 as int)
}

/// The cache key of an avatar picture.
pub open spec fn avatar_key_text(avatar: AvatarRef) -> Seq<char> {
    "avatar-v2:"@ + decimal_text(avatar.peer.0 as int) + ":"@ + decimal_text(avatar.id.0 as int)
}

fn digit_str(d: u64) -> (s: &'static str)
    requires
        d < 10,
    ensures
        s@ == seq![digit_char(d as int)],
{
    if d == 0 {
        proof {
            reveal_strlit("0");
        }
        "0"
    } else if d == 1 {
        proof {
            reveal_strlit("1");
        }
        "1"
    } else if d == 2 {
        proof {
            reveal_strlit("2");
        }
        "2"
    } else if d == 3 {
        proof {
            reveal_strlit("3");
        }
        "3"
    } else if d == 4 {
        proof {
            reveal_strlit("4");
        }
        "4"
    } else if d == 5 {
        proof {
            reveal_strlit("5");
        }
        "5"
    } else if d == 6 {
        proof {
            reveal_strlit("6");
        }
        "6"
    } else if d == 7 {
        proof {
            reveal_strlit("7");
        }
        "7"
    } else if d == 8 {
        proof {
            reveal_strlit("8");
        }
        "8"
    } else {
        proof {
            reveal_strlit("9");
        }
        "9"
    }
}

fn push_numeral(out: &mut String, n: u64)
    ensures
        final(out)@ == old(out)@ + numeral(n as nat),
    decreases n,
{
    if n >= 10 {
        push_numeral(out, n / 10);
    }
    out.append(digit_str(n % 10));
    proof {
        if n >= 10 {
            assert(final(out)@ =~= old(out)@ + numeral(n as nat));
        } else {
            assert(final(out)@ =~= old(out)@ + numeral(n as nat));
        }
    }
}

/// Appends a number's decimal text.
pub fn push_decimal(out: &mut String, v: i64)
    ensures
        final(out)@ == old(out)@ + decimal_text(v as int),
{
    if v < 0 {
        proof {
            reveal_strlit("-");
        }
        out.append("-");
        let magnitude: u64 = (0i128 - v as i128) as u64;
        push_numeral(out, magnitude);
        proof {
            assert(final(out)@ =~= old(out)@ + decimal_text(v as int));
        }
    } else {
        push_numeral(out, v as u64);
    }
}

/// The cache key under which a message's preview picture is kept.
pub fn cache_key(chat: ChatId, message: MessageId) -> (key: String)
    ensures
        key@ == preview_key_text(chat, message),
{
    let mut key = String::from_str("preview-v2:");
    push_decimal(&mut key, chat.0);
    key.append(":");
    push_decimal(&mut key, message.0);
    key
}

/// The cache key under which an avatar picture is kept.
pub fn avatar_cache_key(avatar: AvatarRef) -> (key: String)
    ensures
        key@ == avatar_key_text(avatar),
{
    let mut key = String::from_str("avatar-v2:");
    push_decimal(&mut key, avatar.peer.0);
    key.append(":");
    push_decimal(&mut key, avatar.id.0);
    key
}

proof fn lemma_digit_char(d: int)
    requires
        0 <= d < 10,
    ensures
        is_digit(digit_char(d)),
        digit_value(digit_char(d)) == d,
{
}

/// The digits of a number spell that number.
proof fn lemma_numeral_digits(n: nat)
    ensures
        all_digits(numeral(n)),
        digits_value(numeral(n)) == n,
    decreases n,
{
    lemma_digit_char((n % 10) as int);
    if n >= 10 {
        lemma_numeral_digits(n / 10);
        let s = numeral(n);
        assert(n == 10 * (n / 10) + n % 10);
        assert(s.last() == digit_char((n % 10) as int));
        assert(s.drop_last() =~= numeral(n / 10));
        assert forall|i: int| 0 <= i < s.len() implies is_digit(#[trigger] s[i]) by {
            if i < s.len() - 1 {
                assert(s[i] == numeral(n / 10)[i]);
            }
        }
        assert(digits_value(s) == 10 * digits_value(s.drop_last()) + digit_value(s.last()));
    } else {
        let s = numeral(n);
        assert(s.drop_last() =~= Seq::<char>::empty());
        assert(digits_value(s.drop_last()) == 0);
        assert(digits_value(s) == 10 * digits_value(s.drop_last()) + digit_value(s.last()));
    }
}

/// No character of a number's decimal text is a colon.
proof fn lemma_no_colon(v: int)
    ensures
        forall|i: int| 0 <= i < decimal_text(v).len() ==> decimal_text(v)[i] != ':',
        decimal_text(v).len() > 0,
{
    let n: nat = if v < 0 {
        (-v) as nat
    } else {
        v as nat
    };
    lemma_numeral_digits(n);
    let t = decimal_text(v);
    assert forall|i: int| 0 <= i < t.len() implies t[i] != ':' by {
        if v < 0 {
            if i > 0 {
                assert(t[i] == numeral(n)[i - 1]);
                assert(is_digit(numeral(n)[i - 1]));
            }
        } else {
            assert(is_digit(numeral(n)[i]));
        }
    }
}

/// Decimal text reads back as the number it was made of.
pub proof fn law_decimal_text_reads_back(v: int)
    ensures
        decimal_value(decimal_text(v), true) == Some(v),
{
    if v < 0 {
        let n: nat = (-v) as nat;
        lemma_numeral_digits(n);
        let t = decimal_text(v);
        assert(t.drop_first() =~= numeral(n));
        assert(t[0] == '-');
    } else {
        lemma_numeral_digits(v as nat);
        assert(!is_digit('-') && !is_digit('+'));
        let t = numeral(v as nat);
        assert(is_digit(t[0]));
    }
}

/// Two pairs of colon-free texts joined by a colon are equal only when the pairs are.
proof fn lemma_colon_split(a: Seq<char>, b: Seq<char>, c: Seq<char>, d: Seq<char>)
    requires
        forall|i: int| 0 <= i < a.len() ==> a[i] != ':',
        forall|i: int| 0 <= i < c.len() ==> c[i] != ':',
        a + ":"@ + b == c + ":"@ + d,
    ensures
        a == c,
        b == d,
{
    reveal_strlit(":");
    let l = a + ":"@ + b;
    let r = c + ":"@ + d;
    if a.len() < c.len() {
        assert(l[a.len() as int] == ':');
        assert(r[a.len() as int] == c[a.len() as int]);
    } else if c.len() < a.len() {
        assert(r[c.len() as int] == ':');
        assert(l[c.len() as int] == a[c.len() as int]);
    }
    assert(a =~= l.take(a.len() as int));
    assert(c =~= r.take(c.len() as int));
    assert(b =~= l.skip(a.len() as int + 1));
    assert(d =~= r.skip(c.len() as int + 1));
}

/// Different messages get different preview keys, and different avatars different avatar keys.
pub proof fn law_cache_keys_are_distinct(c1: ChatId, m1: MessageId, c2: ChatId, m2: MessageId, a1: AvatarRef, a2: AvatarRef)
    ensures
        (c1 != c2 || m1 != m2) ==> preview_key_text(c1, m1) != preview_key_text(c2, m2),
        a1 != a2 ==> avatar_key_text(a1) != avatar_key_text(a2),
{
    reveal_strlit("preview-v2:");
    reveal_strlit("avatar-v2:");
    if preview_key_text(c1, m1) == preview_key_text(c2, m2) {
        let p = "preview-v2:"@;
        let x = decimal_text(c1.0 as int) + ":"@ + decimal_text(m1.0 as int);
        let y = decimal_text(c2.0 as int) + ":"@ + decimal_text(m2.0 as int);
        assert(preview_key_text(c1, m1) =~= p + x);
        assert(preview_key_text(c2, m2) =~= p + y);
        assert(x =~= (p + x).skip(p.len() as int));
        assert(y =~= (p + y).skip(p.len() as int));
        lemma_no_colon(c1.0 as int);
        lemma_no_colon(c2.0 as int);
        lemma_colon_split(decimal_text(c1.0 as int), decimal_text(m1.0 as int), decimal_text(c2.0 as int), decimal_text(m2.0 as int));
        law_decimal_text_reads_back(c1.0 as int);
        law_decimal_text_reads_back(c2.0 as int);
        law_decimal_text_reads_back(m1.0 as int);
        law_decimal_text_reads_back(m2.0 as int);
    }
    if avatar_key_text(a1) == avatar_key_text(a2) {
        let p = "avatar-v2:"@;
        let x = decimal_text(a1.peer.0 as int) + ":"@ + decimal_text(a1.id.0 as int);
        let y = decimal_text(a2.peer.0 as int) + ":"@ + decimal_text(a2.id.0 as int);
        assert(avatar_key_text(a1) =~= p + x);
        assert(avatar_key_text(a2) =~= p + y);
        assert(x =~= (p + x).skip(p.len() as int));
        assert(y =~= (p + y).skip(p.len() as int));
        lemma_no_colon(a1.peer.0 as int);
        lemma_no_colon(a2.peer.0 as int);
        lemma_colon_split(decimal_text(a1.peer.0 as int), decimal_text(a1.id.0 as int), decimal_text(a2.peer.0 as int), decimal_text(a2.id.0 as int));
        law_decimal_text_reads_back(a1.peer.0 as int);
        law_decimal_text_reads_back(a2.peer.0 as int);
        law_decimal_text_reads_back(a1.id.0 as int);
        law_decimal_text_reads_back(a2.id.0 as int);
    }
}

/// A preview key is never one of the older keys, which were the chat and message numbers alone
/// joined by a colon.
pub proof fn law_preview_keys_differ_from_legacy_keys(chat: ChatId, message: MessageId)
    ensures
        preview_key_text(chat, message) != decimal_text(chat.0 as int) + ":"@ + decimal_text(message.0 as int),
{
    reveal_strlit("preview-v2:");
    lemma_no_colon(chat.0 as int);
    let n: nat = if chat.0 < 0 {
        (-chat.0) as nat
    } else {
        chat.0 as nat
    };
    lemma_numeral_digits(n);
    let legacy = decimal_text(chat.0 as int) + ":"@ + decimal_text(message.0 as int);
    assert(preview_key_text(chat, message)[0] == 'p');
    assert(legacy[0] == decimal_text(chat.0 as int)[0]);
    if chat.0 >= 0 {
        assert(is_digit(numeral(n)[0]));
    }
}

} // verus!
