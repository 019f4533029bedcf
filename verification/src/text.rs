//! Text building blocks: decimal rendering of counts and the UTF-8 byte
//! model used to shorten long paths for display.
use vstd::prelude::*;
use vstd::string::*;
use vstd::utf8::*;

verus! {

/// The character for a decimal digit `d < 10`.
pub open spec fn digit_char(d: nat) -> char {
    (48 + d) as char
}

/// The decimal rendering of `n`, most significant digit first, without
/// leading zeros (and `"0"` for zero).
pub open spec fn decimal(n: nat) -> Seq<char>
    decreases n,
{
    if n < 10 {
        seq![digit_char(n)]
    } else {
        decimal(n / 10) + seq![digit_char(n % 10)]
    }
}

/// The number that a string of decimal digits denotes, most significant
/// digit first (the empty string denotes zero).
pub open spec fn digits_value(s: Seq<char>) -> int
    decreases s.len(),
{
    if s.len() == 0 {
        0
    } else {
        digits_value(s.drop_last()) * 10 + (s.last() as int - 48)
    }
}

/// The decimal rendering of `n` is its ordinary base-10 numeral: it is not
/// empty, every character is one of '0'..='9', it has no leading zero
/// unless it is "0" itself, and read back in base 10 it denotes `n`.
pub proof fn lemma_decimal_is_numeral(n: nat)
    ensures
        decimal(n).len() >= 1,
        forall|i: int| 0 <= i < decimal(n).len() ==> '0' <= #[trigger] decimal(n)[i] <= '9',
        n > 0 ==> decimal(n)[0] != '0',
        n == 0 ==> decimal(n) == seq!['0'],
        digits_value(decimal(n)) == n,
    decreases n,
{
    assert(digit_char(n % 10) as int == 48 + n % 10);
    if n < 10 {
        assert(decimal(n).drop_last() =~= Seq::<char>::empty());
        assert(decimal(n).last() == digit_char(n));
        assert(digits_value(decimal(n)) == digits_value(Seq::<char>::empty()) * 10 + n);
    } else {
        lemma_decimal_is_numeral(n / 10);
        let d = decimal(n);
        assert(d.drop_last() =~= decimal(n / 10));
        assert(d[0] == decimal(n / 10)[0]);
        assert forall|i: int| 0 <= i < d.len() implies '0' <= #[trigger] d[i] <= '9' by {
            if i < d.len() - 1 {
                assert(d[i] == decimal(n / 10)[i]);
            }
        }
        assert(d.last() == digit_char(n % 10));
        assert(digits_value(d) == digits_value(decimal(n / 10)) * 10 + (n % 10));
        assert((n / 10) * 10 + n % 10 == n);
    }
}

/// The one-character string for the digit `d`.
fn digit_str(d: usize) -> (r: &'static str)
    requires
        d < 10,
    ensures
        r@ == seq![digit_char(d as nat)],
{
    match d {
        0 => {
            proof { reveal_strlit("0"); }
            "0"
        },
        1 => {
            proof { reveal_strlit("1"); }
            "1"
        },
        2 => {
            proof { reveal_strlit("2"); }
            "2"
        },
        3 => {
            proof { reveal_strlit("3"); }
            "3"
        },
        4 => {
            proof { reveal_strlit("4"); }
            "4"
        },
        5 => {
            proof { reveal_strlit("5"); }
            "5"
        },
        6 => {
            proof { reveal_strlit("6"); }
            "6"
        },
        7 => {
            proof { reveal_strlit("7"); }
            "7"
        },
        8 => {
            proof { reveal_strlit("8"); }
            "8"
        },
        _ => {
            proof { reveal_strlit("9"); }
            "9"
        },
    }
}

/// Appends the decimal rendering of `n` to `s`.
pub fn push_decimal(s: &mut String, n: usize)
    ensures
        final(s)@ == old(s)@ + decimal(n as nat),
    decreases n,
{
    if n >= 10 {
        push_decimal(s, n / 10);
    }
    s.append(digit_str(n % 10));
    proof {
        if n >= 10 {
            assert(old(s)@ + decimal(n as nat) =~= old(s)@ + decimal((n / 10) as nat) + seq![
                digit_char((n % 10) as nat)
            ]);
        }
    }
}

/// Paths longer than this many UTF-8 bytes are shortened for display.
pub const PATH_DISPLAY_LIMIT: usize = 60;

/// Bytes kept from the start of a shortened path.
pub const PATH_HEAD_BYTES: usize = 30;

/// Bytes kept from the end of a shortened path.
pub const PATH_TAIL_BYTES: usize = 27;

/// Number of UTF-8 bytes of a string.
pub open spec fn utf8_len(s: Seq<char>) -> nat {
    encode_utf8(s).len()
}

/// A path can be shortened without splitting a character: either it is
/// short enough to be shown whole, or both cut points fall on character
/// boundaries of its UTF-8 encoding.
pub open spec fn path_cuttable(p: Seq<char>) -> bool {
    let b = encode_utf8(p);
    b.len() > PATH_DISPLAY_LIMIT ==> {
        &&& is_char_boundary(b, PATH_HEAD_BYTES as int)
        &&& is_char_boundary(b, b.len() - PATH_TAIL_BYTES)
    }
}

/// The display form of a path: itself when it has at most 60 bytes,
/// otherwise its first 30 bytes, `"..."` and its last 27 bytes.
pub open spec fn shortened(p: Seq<char>) -> Seq<char> {
    let b = encode_utf8(p);
    if b.len() > PATH_DISPLAY_LIMIT {
        decode_utf8(b.subrange(0, PATH_HEAD_BYTES as int)) + "..."@ + decode_utf8(
            b.subrange(b.len() - PATH_TAIL_BYTES, b.len() as int),
        )
    } else {
        p
    }
}

/// UTF-8 encoding distributes over concatenation.
pub proof fn lemma_encode_utf8_concat(a: Seq<char>, b: Seq<char>)
    ensures
        encode_utf8(a + b) == encode_utf8(a) + encode_utf8(b),
    decreases a.len(),
{
    if a.len() == 0 {
        assert(a + b =~= b);
        assert(encode_utf8(a) + encode_utf8(b) =~= encode_utf8(b));
    } else {
        assert((a + b).drop_first() =~= a.drop_first() + b);
        assert((a + b)[0] == a[0]);
        lemma_encode_utf8_concat(a.drop_first(), b);
        assert(encode_utf8(a + b) =~= encode_utf8(a) + encode_utf8(b));
    }
}

/// The three dots that mark the cut take three bytes.
pub proof fn lemma_ellipsis_bytes()
    ensures
        utf8_len("..."@) == 3,
        encode_utf8("..."@) == seq![46u8, 46u8, 46u8],
{
    reveal_strlit("...");
    let d = "..."@;
    assert(d.drop_first() =~= seq!['.', '.']);
    assert(d.drop_first().drop_first() =~= seq!['.']);
    assert(d.drop_first().drop_first().drop_first() =~= Seq::<char>::empty());
    assert('.' as u32 == 46u32);
    assert((46u32 & 0x7Fu32) as u8 == 46u8) by (bit_vector);
    assert(encode_scalar('.' as u32) =~= seq![46u8]);
    reveal_with_fuel(encode_utf8, 4);
    assert(encode_utf8(d) =~= seq![46u8, 46u8, 46u8]);
}

/// A shown path never takes more than 60 bytes, and a path that is short
/// enough is shown unchanged; shortening a shown path again changes nothing.
pub proof fn lemma_shortened_fits(p: Seq<char>)
    requires
        path_cuttable(p),
    ensures
        utf8_len(shortened(p)) <= PATH_DISPLAY_LIMIT,
        utf8_len(p) <= PATH_DISPLAY_LIMIT ==> shortened(p) == p,
        utf8_len(p) > PATH_DISPLAY_LIMIT ==> utf8_len(shortened(p)) == PATH_DISPLAY_LIMIT,
        utf8_len(p) > PATH_DISPLAY_LIMIT ==> encode_utf8(shortened(p)) == encode_utf8(p).subrange(
            0,
            PATH_HEAD_BYTES as int,
        ) + seq![46u8, 46u8, 46u8] + encode_utf8(p).subrange(
            utf8_len(p) - PATH_TAIL_BYTES,
            utf8_len(p) as int,
        ),
        shortened(shortened(p)) == shortened(p),
{
    broadcast use vstd::utf8::group_utf8_lib;

    let b = encode_utf8(p);
    if b.len() > PATH_DISPLAY_LIMIT {
        let h = b.subrange(0, PATH_HEAD_BYTES as int);
        let t = b.subrange(b.len() - PATH_TAIL_BYTES, b.len() as int);
        assert(valid_utf8(b));
        assert(valid_utf8(h));
        assert(valid_utf8(t));
        assert(encode_utf8(decode_utf8(h)) == h);
        assert(encode_utf8(decode_utf8(t)) == t);
        lemma_encode_utf8_concat(decode_utf8(h), "..."@);
        lemma_encode_utf8_concat(decode_utf8(h) + "..."@, decode_utf8(t));
        lemma_ellipsis_bytes();
        assert(encode_utf8(shortened(p)) =~= h + seq![46u8, 46u8, 46u8] + t);
        assert(utf8_len(shortened(p)) == 60);
    }
}

} // verus!
