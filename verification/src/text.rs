//! Text and the bytes that encode it.
//!
//! The library speaks of text as sequences of characters and works on the
//! UTF-8 bytes that encode them. This module is the bridge between the two:
//! it cuts and compares strings bytewise and says what that means for their
//! characters.

use vstd::prelude::*;
use vstd::utf8::*;

verus! {

/// The offset of the first `c` in `s`, or the length of `s` if there is
/// none.
pub open spec fn first_index_of(s: Seq<char>, c: char) -> int
    decreases s.len(),
{
    if s.len() == 0 || s[0] == c {
        0
    } else {
        1 + first_index_of(s.drop_first(), c)
    }
}

/// What `first_index_of` finds: an offset within the text or its length,
/// with no `c` before it and, if it is within the text, a `c` at it.
pub proof fn lemma_first_index_of(s: Seq<char>, c: char)
    ensures
        0 <= first_index_of(s, c) <= s.len(),
        forall|j: int| 0 <= j < first_index_of(s, c) ==> s[j] != c,
        first_index_of(s, c) < s.len() ==> s[first_index_of(s, c)] == c,
    decreases s.len(),
{
    if s.len() == 0 || s[0] == c {
    } else {
        let rest = s.drop_first();
        lemma_first_index_of(rest, c);
        assert forall|j: int| 0 <= j < first_index_of(s, c) implies s[j] != c by {
            if j > 0 {
                assert(s[j] == rest[j - 1]);
            }
        }
    }
}

/// An offset with no `c` before it and a `c` at it, or the length of a text
/// without `c`, is what `first_index_of` finds.
pub proof fn lemma_first_index_of_is(s: Seq<char>, c: char, i: int)
    requires
        0 <= i <= s.len(),
        forall|j: int| 0 <= j < i ==> s[j] != c,
        i < s.len() ==> s[i] == c,
    ensures
        first_index_of(s, c) == i,
{
    lemma_first_index_of(s, c);
}

/// In a UTF-8 string an ASCII byte is a character by itself: one character
/// starts at it and the next one starts right behind it.
pub proof fn lemma_ascii_byte_stands_alone(bytes: Seq<u8>, i: int)
    requires
        valid_utf8(bytes),
        0 <= i < bytes.len(),
        bytes[i] <= 0x7f,
    ensures
        is_char_boundary(bytes, i),
        is_char_boundary(bytes, i + 1),
{
    is_char_boundary_iff_not_is_continuation_byte(bytes, i);
    valid_utf8_split(bytes, i);
    let tail = bytes.subrange(i, bytes.len() as int);
    let rest = pop_first_scalar(tail);
    if i + 1 < bytes.len() {
        is_char_boundary_iff_not_is_continuation_byte(rest, 0);
        is_char_boundary_iff_not_is_continuation_byte(bytes, i + 1);
    } else {
        is_char_boundary_start_end_of_seq(bytes);
    }
}

/// The encoding of a text in two parts is the encoding of the first part
/// followed by that of the second.
pub proof fn lemma_encoding_of_concatenation(a: Seq<char>, b: Seq<char>)
    ensures
        encode_utf8(a + b) == encode_utf8(a) + encode_utf8(b),
    decreases a.len(),
{
    if a.len() > 0 {
        lemma_encoding_of_concatenation(a.drop_first(), b);
        assert((a + b).drop_first() =~= a.drop_first() + b);
    }
}

/// Comparing encodings byte for byte is comparing texts character for
/// character: the encoding of `p` is a prefix of the encoding of `t`
/// exactly if `p` is a prefix of `t`.
pub proof fn law_prefix_of_encoding_is_prefix_of_text(p: Seq<char>, t: Seq<char>)
    ensures
        encode_utf8(p).is_prefix_of(encode_utf8(t)) <==> p.is_prefix_of(t),
    decreases p.len(),
{
    let bp = encode_utf8(p);
    let bt = encode_utf8(t);
    if p.is_prefix_of(t) {
        let rest = t.subrange(p.len() as int, t.len() as int);
        assert(t =~= p + rest);
        lemma_encoding_of_concatenation(p, rest);
    }
    if bp.is_prefix_of(bt) && p.len() > 0 {
        encode_utf8_first_scalar(p);
        encode_utf8_first_scalar(t);
        let n = length_of_first_scalar(bp);
        assert(decode_first_scalar(bt) == decode_first_scalar(bp));
        char_u32_cast(p[0], decode_first_scalar(bp));
        char_u32_cast(t[0], decode_first_scalar(bt));
        assert(p[0] == t[0]);
        let p_rest = p.drop_first();
        let t_rest = t.drop_first();
        let bp_rest = encode_utf8(p_rest);
        let bt_rest = encode_utf8(t_rest);
        assert(bt_rest.subrange(0, bp_rest.len() as int) =~= bp_rest) by {
            assert forall|i: int| 0 <= i < bp_rest.len() implies bt_rest[i] == bp_rest[i] by {
                assert(bt.subrange(0, bp.len() as int)[i + n] == bt[i + n]);
            }
        }
        law_prefix_of_encoding_is_prefix_of_text(p_rest, t_rest);
        assert(t.subrange(0, p.len() as int) =~= p) by {
            assert forall|i: int| 0 <= i < p.len() implies t[i] == p[i] by {
                if i > 0 {
                    assert(p_rest[i - 1] == p[i]);
                }
            }
        }
    }
}

/// Two texts with the same encoding are the same text.
pub proof fn lemma_encoding_is_injective(a: Seq<char>, b: Seq<char>)
    requires
        encode_utf8(a) == encode_utf8(b),
    ensures
        a == b,
{
    encode_utf8_decode_utf8(a);
    encode_utf8_decode_utf8(b);
}

/// The encoding of a text is no shorter than that of a prefix of it, and
/// longer than that of a shorter one.
pub proof fn lemma_encoding_grows(a: Seq<char>, b: Seq<char>)
    requires
        a.is_prefix_of(b),
    ensures
        encode_utf8(a).len() <= encode_utf8(b).len(),
        a.len() < b.len() ==> encode_utf8(a).len() < encode_utf8(b).len(),
{
    let rest = b.subrange(a.len() as int, b.len() as int);
    assert(b =~= a + rest);
    lemma_encoding_of_concatenation(a, rest);
    if rest.len() > 0 {
        encode_utf8_first_scalar(rest);
    }
}

/// An ASCII character of a text is a byte of its encoding, at the offset at
/// which the encoding of what stands before it ends.
pub proof fn lemma_ascii_char_in_encoding(s: Seq<char>, j: int)
    requires
        0 <= j < s.len(),
        '\0' <= s[j] <= '\u{7f}',
    ensures
        encode_utf8(s.subrange(0, j)).len() < encode_utf8(s).len(),
        encode_utf8(s)[encode_utf8(s.subrange(0, j)).len() as int] == s[j] as u8,
{
    let head = s.subrange(0, j);
    let one = seq![s[j]];
    let tail = s.subrange(j + 1, s.len() as int);
    assert(s =~= head + (one + tail));
    lemma_encoding_of_concatenation(head, one + tail);
    lemma_encoding_of_concatenation(one, tail);
    assert(is_ascii_chars(one));
    is_ascii_chars_encode_utf8(one);
}

/// The part of `s` between two byte offsets at which characters start.
pub fn substring<'a>(s: &'a str, from: usize, to: usize) -> (r: &'a str)
    requires
        from <= to <= encode_utf8(s@).len(),
        is_char_boundary(encode_utf8(s@), from as int),
        is_char_boundary(encode_utf8(s@), to as int),
    ensures
        encode_utf8(r@) == encode_utf8(s@).subrange(from as int, to as int),
{
    let ghost bytes = encode_utf8(s@);
    proof {
        encode_utf8_valid_utf8(s@);
    }
    let (head, _) = s.split_at(to);
    proof {
        let head_bytes = encode_utf8(head@);
        valid_utf8_split(bytes, to as int);
        if from < to {
            is_char_boundary_iff_not_is_continuation_byte(bytes, from as int);
            is_char_boundary_iff_not_is_continuation_byte(head_bytes, from as int);
        } else {
            is_char_boundary_start_end_of_seq(head_bytes);
        }
    }
    let (_, piece) = head.split_at(from);
    piece
}

/// Whether `text` begins with `prefix`, byte for byte.
pub fn starts_with(text: &[u8], prefix: &[u8]) -> (r: bool)
    ensures
        r == prefix@.is_prefix_of(text@),
{
    if prefix.len() > text.len() {
        return false;
    }
    let mut i: usize = 0;
    while i < prefix.len()
        invariant
            i <= prefix.len() <= text.len(),
            forall|j: int| 0 <= j < i ==> prefix@[j] == text@[j],
        decreases prefix.len() - i,
    {
        if prefix[i] != text[i] {
            return false;
        }
        i += 1;
    }
    true
}

/// Whether `text` begins with `prefix`.
pub fn has_prefix(text: &str, prefix: &str) -> (r: bool)
    ensures
        r == prefix@.is_prefix_of(text@),
{
    proof {
        law_prefix_of_encoding_is_prefix_of_text(prefix@, text@);
    }
    starts_with(text.as_bytes(), prefix.as_bytes())
}

/// The offset of the first `b` in `bytes`, or their number if there is
/// none.
pub fn find_byte(bytes: &[u8], b: u8) -> (i: usize)
    ensures
        i <= bytes@.len(),
        forall|j: int| 0 <= j < i ==> bytes@[j] != b,
        i < bytes@.len() ==> bytes@[i as int] == b,
{
    let mut i: usize = 0;
    while i < bytes.len() && bytes[i] != b
        invariant
            i <= bytes@.len(),
            forall|j: int| 0 <= j < i ==> bytes@[j] != b,
        decreases bytes@.len() - i,
    {
        i += 1;
    }
    i
}

/// Cuts `s` at the first occurrence of an ASCII character, given as its
/// byte: the text before it and the text behind it, or `None` if the
/// character does not occur.
pub(crate) fn split_once<'a>(s: &'a str, delimiter: u8) -> (r: Option<(&'a str, &'a str)>)
    requires
        delimiter <= 0x7f,
    ensures
        match r {
            None => first_index_of(s@, delimiter as char) == s@.len(),
            Some((head, tail)) => {
                &&& first_index_of(s@, delimiter as char) == head@.len()
                &&& head@.len() < s@.len()
                &&& head@ == s@.subrange(0, head@.len() as int)
                &&& tail@ == s@.subrange(head@.len() as int + 1, s@.len() as int)
                &&& encode_utf8(tail@).len() < encode_utf8(s@).len()
            },
        },
{
    let bytes = s.as_bytes();
    let n: usize = bytes.len();
    let i: usize = find_byte(bytes, delimiter);
    let ghost c = delimiter as char;
    let ghost b = encode_utf8(s@);
    if i == n {
        proof {
            assert forall|j: int| 0 <= j < s@.len() implies s@[j] != c by {
                if s@[j] == c {
                    lemma_ascii_char_in_encoding(s@, j);
                }
            }
            lemma_first_index_of_is(s@, c, s@.len() as int);
        }
        None
    } else {
        proof {
            encode_utf8_valid_utf8(s@);
            lemma_ascii_byte_stands_alone(b, i as int);
            is_char_boundary_start_end_of_seq(b);
        }
        let head = substring(s, 0, i);
        let tail = substring(s, i + 1, n);
        proof {
            let one = seq![c];
            is_ascii_chars_encode_utf8(one);
            lemma_encoding_of_concatenation(head@, one + tail@);
            lemma_encoding_of_concatenation(one, tail@);
            assert(encode_utf8(head@ + (one + tail@)) =~= b);
            lemma_encoding_is_injective(s@, head@ + (one + tail@));
            assert forall|j: int| 0 <= j < head@.len() implies head@[j] != c by {
                if head@[j] == c {
                    lemma_ascii_char_in_encoding(head@, j);
                }
            }
            lemma_first_index_of_is(s@, c, head@.len() as int);
        }
        Some((head, tail))
    }
}

/// The character that writes a digit.
pub open spec fn digit_char(d: int) -> char {
    if d == 0 {
        '0'
    } else if d == 1 {
        '1'
    } else if d == 2 {
        '2'
    } else if d == 3 {
        '3'
    } else if d == 4 {
        '4'
    } else if d == 5 {
        '5'
    } else if d == 6 {
        '6'
    } else if d == 7 {
        '7'
    } else if d == 8 {
        '8'
    } else {
        '9'
    }
}

/// A natural number in decimal, without leading zeros.
pub open spec fn decimal_digits(n: nat) -> Seq<char>
    decreases n,
{
    if n < 10 {
        seq![digit_char(n as int)]
    } else {
        decimal_digits(n / 10).push(digit_char((n % 10) as int))
    }
}

/// An integer in decimal, with `-` in front if it is negative.
pub open spec fn decimal(n: int) -> Seq<char> {
    if n < 0 {
        seq!['-'] + decimal_digits((-n) as nat)
    } else {
        decimal_digits(n as nat)
    }
}

/// The one-character string that writes a digit.
fn digit_str(d: u32) -> (s: &'static str)
    requires
        d < 10,
    ensures
        s@ == seq![digit_char(d as int)],
{
    proof {
        reveal_strlit("0");
        reveal_strlit("1");
        reveal_strlit("2");
        reveal_strlit("3");
        reveal_strlit("4");
        reveal_strlit("5");
        reveal_strlit("6");
        reveal_strlit("7");
        reveal_strlit("8");
        reveal_strlit("9");
    }
    let s = if d == 0 {
        "0"
    } else if d == 1 {
        "1"
    } else if d == 2 {
        "2"
    } else if d == 3 {
        "3"
    } else if d == 4 {
        "4"
    } else if d == 5 {
        "5"
    } else if d == 6 {
        "6"
    } else if d == 7 {
        "7"
    } else if d == 8 {
        "8"
    } else {
        "9"
    };
    s
}

/// Writes a natural number in decimal.
pub fn decimal_digits_string(n: u32) -> (s: String)
    ensures
        s@ == decimal_digits(n as nat),
    decreases n,
{
    if n < 10 {
        digit_str(n).to_owned()
    } else {
        let s = decimal_digits_string(n / 10).concat(digit_str(n % 10));
        s
    }
}

/// Writes an integer in decimal.
pub fn decimal_string(n: i32) -> (s: String)
    ensures
        s@ == decimal(n as int),
{
    if n < 0 {
        let magnitude: i64 = 0 - (n as i64);
        proof {
            reveal_strlit("-");
        }
        let s = "-".to_owned().concat(decimal_digits_string(magnitude as u32).as_str());
        s
    } else {
        decimal_digits_string(n as u32)
    }
}

} // verus!
