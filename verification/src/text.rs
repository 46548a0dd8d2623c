//! Small verified text utilities shared by the URL builder and the JSON
//! codec: decimal rendering of integers, comma-joining of list parameters,
//! and conversions between `String` and `Vec<char>`.

use vstd::prelude::*;

verus! {

/// The character for one decimal digit value.
pub open spec fn digit_char(d: int) -> char {
    if d == 0 {
        '0'
    } else if d == 1 {
        '1'
    } else if d == 2 {
        '2'
    } else if d == 3 {
        '3'
    } else if d == 4 {
        '4'
    } else if d == 5 {
        '5'
    } else if d == 6 {
        '6'
    } else if d == 7 {
        '7'
    } else if d == 8 {
        '8'
    } else {
        '9'
    }
}

/// Decimal rendering of a non-negative integer, without sign or padding.
pub open spec fn dec_of(n: int) -> Seq<char>
    decreases n,
{
    if n < 10 {
        seq![digit_char(n)]
    } else {
        dec_of(n / 10) + seq![digit_char(n % 10)]
    }
}

/// Decimal rendering of a signed integer: a `-` sign when negative.
pub open spec fn dec_of_int(n: int) -> Seq<char> {
    if n < 0 {
        seq!['-'] + dec_of(-n)
    } else {
        dec_of(n)
    }
}

fn digit_to_char(d: u64) -> (c: char)
    requires
        d < 10,
    ensures
        c == digit_char(d as int),
{
    if d == 0 {
        '0'
    } else if d == 1 {
        '1'
    } else if d == 2 {
        '2'
    } else if d == 3 {
        '3'
    } else if d == 4 {
        '4'
    } else if d == 5 {
        '5'
    } else if d == 6 {
        '6'
    } else if d == 7 {
        '7'
    } else if d == 8 {
        '8'
    } else {
        '9'
    }
}

/// Renders an unsigned integer in decimal.
pub fn render_dec_u64(n: u64) -> (r: Vec<char>)
    ensures
        r@ == dec_of(n as int),
    decreases n,
{
    if n < 10 {
        let mut v: Vec<char> = Vec::new();
        v.push(digit_to_char(n));
        v
    } else {
        let mut v = render_dec_u64(n / 10);
        v.push(digit_to_char(n % 10));
        v
    }
}

/// Renders a signed integer in decimal, with a leading `-` when negative.
pub fn render_dec_i64(n: i64) -> (r: Vec<char>)
    ensures
        r@ == dec_of_int(n as int),
{
    if n >= 0 {
        render_dec_u64(n as u64)
    } else {
        // Avoids overflow at the smallest representable value.
        let m: u64 = ((-(n + 1)) as u64) + 1;
        let mut v: Vec<char> = Vec::new();
        v.push('-');
        let mut digits = render_dec_u64(m);
        v.append(&mut digits);
        assert(v@ =~= dec_of_int(n as int));
        v
    }
}

/// The comma-joined form of a list of items: items in order, a single `,`
/// between neighbours, no trailing separator.
pub open spec fn comma_joined(items: Seq<Seq<char>>) -> Seq<char>
    decreases items.len(),
{
    if items.len() == 0 {
        Seq::empty()
    } else if items.len() == 1 {
        items[0]
    } else {
        items[0] + seq![','] + comma_joined(items.drop_first())
    }
}

/// Joins list-valued parameter items into the single comma-separated value
/// that the query string carries (never repeated keys).
pub fn join_comma(items: &Vec<Vec<char>>) -> (r: Vec<char>)
    ensures
        r@ == comma_joined(items.deep_view()),
{
    let r = join_comma_from(items, 0);
    assert(items.deep_view().skip(0) =~= items.deep_view());
    r
}

fn join_comma_from(items: &Vec<Vec<char>>, start: usize) -> (r: Vec<char>)
    requires
        start <= items.len(),
    ensures
        r@ == comma_joined(items.deep_view().skip(start as int)),
    decreases items.len() - start,
{
    let mut out: Vec<char> = Vec::new();
    if start == items.len() {
        assert(items.deep_view().skip(start as int) =~= Seq::<Seq<char>>::empty());
        return out;
    }
    let first = &items[start];
    let mut i: usize = 0;
    while i < first.len()
        invariant
            i <= first.len(),
            out@ == first@.take(i as int),
        decreases first.len() - i,
    {
        out.push(first[i]);
        i += 1;
    }
    assert(out@ == first@) by {
        assert(first@.take(first@.len() as int) =~= first@);
    }
    if start + 1 == items.len() {
        assert(items.deep_view().skip(start as int).len() == 1);
        assert(items.deep_view().skip(start as int)[0] == first@);
        return out;
    }
    out.push(',');
    let mut rest = join_comma_from(items, start + 1);
    out.append(&mut rest);
    assert(items.deep_view().skip(start as int).drop_first() =~= items.deep_view().skip(
        start as int + 1,
    ));
    assert(out@ =~= comma_joined(items.deep_view().skip(start as int)));
    out
}

/// Collects the characters of a string slice.
pub fn chars_of(s: &str) -> (r: Vec<char>)
    ensures
        r@ == s@,
{
    let len = s.unicode_len();
    let mut r: Vec<char> = Vec::new();
    let mut i: usize = 0;
    while i < len
        invariant
            i <= len,
            len == s@.len(),
            r@ == s@.take(i as int),
        decreases len - i,
    {
        r.push(s.get_char(i));
        i += 1;
    }
    assert(s@.take(len as int) =~= s@);
    r
}

/// Decimal digits.
pub open spec fn is_digit(c: char) -> bool {
    '0' <= c && c <= '9'
}

/// The value of one decimal digit character.
pub open spec fn digit_val(c: char) -> int {
    c as int - '0' as int
}

/// The value of a decimal digit string (leading zeroes allowed).
pub open spec fn dec_val(s: Seq<char>) -> int
    decreases s.len(),
{
    if s.len() == 0 {
        0
    } else {
        dec_val(s.drop_last()) * 10 + digit_val(s.last())
    }
}

pub proof fn lemma_dec_val_nonneg(s: Seq<char>)
    requires
        forall|k: int| 0 <= k < s.len() ==> is_digit(s[k]),
    ensures
        dec_val(s) >= 0,
    decreases s.len(),
{
    if s.len() > 0 {
        lemma_dec_val_nonneg(s.drop_last());
    }
}

/// The first position at or after `i` whose character fails `pred`, or the
/// end of the sequence.
pub open spec fn scan(s: Seq<char>, i: int, pred: spec_fn(char) -> bool) -> int
    decreases s.len() - i,
{
    if i < 0 || i >= s.len() {
        i
    } else if pred(s[i]) {
        scan(s, i + 1, pred)
    } else {
        i
    }
}

pub proof fn lemma_scan_bounds(s: Seq<char>, i: int, pred: spec_fn(char) -> bool)
    requires
        0 <= i <= s.len(),
    ensures
        i <= scan(s, i, pred) <= s.len(),
    decreases s.len() - i,
{
    if i < s.len() && pred(s[i]) {
        lemma_scan_bounds(s, i + 1, pred);
    }
}

pub proof fn lemma_scan_chars(s: Seq<char>, i: int, pred: spec_fn(char) -> bool)
    requires
        0 <= i <= s.len(),
    ensures
        forall|k: int| i <= k < scan(s, i, pred) ==> pred(s[k]),
        scan(s, i, pred) < s.len() ==> !pred(s[scan(s, i, pred)]),
    decreases s.len() - i,
{
    lemma_scan_bounds(s, i, pred);
    if i < s.len() && pred(s[i]) {
        lemma_scan_chars(s, i + 1, pred);
    }
}

/// Relies on `core::iter::Iterator::collect` (via `String`'s
/// `FromIterator<char>`): the collected string holds exactly the characters
/// of the vector, in order.
#[verifier::external_body]
pub fn string_of(chars: Vec<char>) -> (r: String)
    ensures
        r@ == chars@,
{
    chars.into_iter().collect()
}

} // verus!
