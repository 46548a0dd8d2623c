//! Percent-encoding of query-string components.
//!
//! A character that is unreserved (letter, digit, `-`, `_`, `.`, `~`) stands
//! for itself; every other character is written as the `%XX` hex escapes of
//! its UTF-8 bytes, with upper-case hex digits.

use vstd::prelude::*;
use vstd::utf8::{char_is_scalar, encode_scalar};

verus! {

/// Characters that a query component carries unescaped.
pub open spec fn is_unreserved(c: char) -> bool {
    ('a' <= c && c <= 'z') || ('A' <= c && c <= 'Z') || ('0' <= c && c <= '9') || c == '-' || c
        == '_' || c == '.' || c == '~'
}

/// The upper-case hex digit for one value below 16.
pub open spec fn hex_char(d: int) -> char {
    if d == 0 {
        '0'
    } else if d == 1 {
        '1'
    } else if d == 2 {
        '2'
    } else if d == 3 {
        '3'
    } else if d == 4 {
        '4'
    } else if d == 5 {
        '5'
    } else if d == 6 {
        '6'
    } else if d == 7 {
        '7'
    } else if d == 8 {
        '8'
    } else if d == 9 {
        '9'
    } else if d == 10 {
        'A'
    } else if d == 11 {
        'B'
    } else if d == 12 {
        'C'
    } else if d == 13 {
        'D'
    } else if d == 14 {
        'E'
    } else {
        'F'
    }
}

/// The `%XX` escape of one byte.
pub open spec fn pct_byte(b: u8) -> Seq<char> {
    seq!['%', hex_char(b as int / 16), hex_char(b as int % 16)]
}

/// The `%XX` escapes of a byte sequence, in order.
pub open spec fn pct_bytes(bs: Seq<u8>) -> Seq<char>
    decreases bs.len(),
{
    if bs.len() == 0 {
        Seq::empty()
    } else {
        pct_byte(bs[0]) + pct_bytes(bs.drop_first())
    }
}

/// The encoding of one character: itself when unreserved, else the escapes
/// of its UTF-8 bytes.
pub open spec fn pct_char(c: char) -> Seq<char> {
    if is_unreserved(c) {
        seq![c]
    } else {
        pct_bytes(encode_scalar(c as u32))
    }
}

/// The percent-encoded form of a component.
pub open spec fn pct_encoded(s: Seq<char>) -> Seq<char>
    decreases s.len(),
{
    if s.len() == 0 {
        Seq::empty()
    } else {
        pct_char(s[0]) + pct_encoded(s.drop_first())
    }
}

fn hex_digit(d: u32) -> (c: char)
    requires
        d < 16,
    ensures
        c == hex_char(d as int),
{
    if d == 0 {
        '0'
    } else if d == 1 {
        '1'
    } else if d == 2 {
        '2'
    } else if d == 3 {
        '3'
    } else if d == 4 {
        '4'
    } else if d == 5 {
        '5'
    } else if d == 6 {
        '6'
    } else if d == 7 {
        '7'
    } else if d == 8 {
        '8'
    } else if d == 9 {
        '9'
    } else if d == 10 {
        'A'
    } else if d == 11 {
        'B'
    } else if d == 12 {
        'C'
    } else if d == 13 {
        'D'
    } else if d == 14 {
        'E'
    } else {
        'F'
    }
}

/// The UTF-8 bytes of one character.
fn utf8_bytes_of(c: char) -> (r: Vec<u8>)
    ensures
        r@ == encode_scalar(c as u32),
{
    proof {
        char_is_scalar(c);
    }
    let u = c as u32;
    let mut v: Vec<u8> = Vec::new();
    if u <= 0x7F {
        v.push((u & 0x7F) as u8);
        assert(v@ =~= encode_scalar(c as u32));
    } else if u <= 0x7FF {
        v.push(0xC0u8 | ((u >> 6) & 0x1F) as u8);
        v.push(0x80u8 | (u & 0x3F) as u8);
        assert(v@ =~= encode_scalar(c as u32));
    } else if u <= 0xFFFF {
        v.push(0xE0u8 | ((u >> 12) & 0x0F) as u8);
        v.push(0x80u8 | ((u >> 6) & 0x3F) as u8);
        v.push(0x80u8 | (u & 0x3F) as u8);
        assert(v@ =~= encode_scalar(c as u32));
    } else {
        v.push(0xF0u8 | ((u >> 18) & 0x7) as u8);
        v.push(0x80u8 | ((u >> 12) & 0x3F) as u8);
        v.push(0x80u8 | ((u >> 6) & 0x3F) as u8);
        v.push(0x80u8 | (u & 0x3F) as u8);
        assert(v@ =~= encode_scalar(c as u32));
    }
    v
}

pub(crate) fn is_unreserved_exec(c: char) -> (r: bool)
    ensures
        r == is_unreserved(c),
{
    ('a' <= c && c <= 'z') || ('A' <= c && c <= 'Z') || ('0' <= c && c <= '9') || c == '-' || c
        == '_' || c == '.' || c == '~'
}

/// Percent-encodes one component of a query string.
pub fn pct_encode(s: &Vec<char>) -> (r: Vec<char>)
    ensures
        r@ == pct_encoded(s@),
{
    let mut out: Vec<char> = Vec::new();
    let mut i: usize = 0;
    while i < s.len()
        invariant
            i <= s.len(),
            out@ == pct_encoded(s@.take(i as int)),
        decreases s.len() - i,
    {
        let c = s[i];
        if is_unreserved_exec(c) {
            out.push(c);
        } else {
            let bs = utf8_bytes_of(c);
            let mut j: usize = 0;
            while j < bs.len()
                invariant
                    j <= bs.len(),
                    bs@ == encode_scalar(c as u32),
                    !is_unreserved(c),
                    out@ == pct_encoded(s@.take(i as int)) + pct_bytes(bs@.take(j as int)),
                decreases bs.len() - j,
            {
                let b = bs[j];
                out.push('%');
                out.push(hex_digit((b as u32) / 16));
                out.push(hex_digit((b as u32) % 16));
                proof {
                    lemma_pct_bytes_snoc(bs@, j as int);
                }
                j += 1;
            }
            assert(bs@.take(bs@.len() as int) =~= bs@);
        }
        proof {
            lemma_pct_encoded_snoc(s@, i as int);
        }
        i += 1;
    }
    assert(s@.take(s@.len() as int) =~= s@);
    out
}

proof fn lemma_pct_bytes_snoc(bs: Seq<u8>, j: int)
    requires
        0 <= j < bs.len(),
    ensures
        pct_bytes(bs.take(j + 1)) == pct_bytes(bs.take(j)) + pct_byte(bs[j]),
    decreases j,
{
    if j == 0 {
        assert(bs.take(1).drop_first() =~= Seq::<u8>::empty());
        assert(bs.take(1)[0] == bs[0]);
        assert(pct_bytes(Seq::<u8>::empty()) =~= Seq::<char>::empty());
        assert(pct_bytes(bs.take(1)) =~= pct_byte(bs[0]));
        assert(pct_bytes(bs.take(0)) =~= Seq::<char>::empty());
        assert(pct_bytes(bs.take(j + 1)) =~= pct_bytes(bs.take(j)) + pct_byte(bs[j]));
    } else {
        lemma_pct_bytes_snoc(bs.drop_first(), j - 1);
        assert(bs.take(j + 1).drop_first() =~= bs.drop_first().take(j));
        assert(bs.take(j).drop_first() =~= bs.drop_first().take(j - 1));
        assert(bs.drop_first()[j - 1] == bs[j]);
        assert(pct_bytes(bs.take(j + 1)) =~= pct_bytes(bs.take(j)) + pct_byte(bs[j]));
    }
}

proof fn lemma_pct_encoded_snoc(s: Seq<char>, i: int)
    requires
        0 <= i < s.len(),
    ensures
        pct_encoded(s.take(i + 1)) == pct_encoded(s.take(i)) + pct_char(s[i]),
    decreases i,
{
    if i == 0 {
        assert(s.take(1).drop_first() =~= Seq::<char>::empty());
        assert(s.take(1)[0] == s[0]);
        assert(pct_encoded(Seq::<char>::empty()) =~= Seq::<char>::empty());
        assert(pct_encoded(s.take(1)) =~= pct_char(s[0]));
        assert(pct_encoded(s.take(0)) =~= Seq::<char>::empty());
        assert(pct_encoded(s.take(i + 1)) =~= pct_encoded(s.take(i)) + pct_char(s[i]));
    } else {
        lemma_pct_encoded_snoc(s.drop_first(), i - 1);
        assert(s.take(i + 1).drop_first() =~= s.drop_first().take(i));
        assert(s.take(i).drop_first() =~= s.drop_first().take(i - 1));
        assert(s.drop_first()[i - 1] == s[i]);
        assert(pct_encoded(s.take(i + 1)) =~= pct_encoded(s.take(i)) + pct_char(s[i]));
    }
}

} // verus!
