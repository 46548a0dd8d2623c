//! JSON values: the model, the grammar, parsing and serialization.
//!
//! The event stream and the response bodies carry JSON text.  A value is
//! modelled by [`JsonData`]; [`json_parsed`] is the grammar, written as a
//! deterministic specification-level parser; the executable parser is proved
//! equal to it, and the serializer is proved to produce [`ser_json`].
//! Numbers that are integers representable in `i64` become `Int`; any other
//! syntactically valid number keeps its literal text.

use vstd::prelude::*;
use crate::text::{dec_of, dec_of_int, dec_val, digit_val, is_digit, lemma_dec_val_nonneg,
    lemma_scan_bounds, lemma_scan_chars, scan};

verus! {

broadcast use vstd::std_specs::vec::group_vec_axioms;

/// The mathematical model of a JSON value.
pub ghost enum JsonData {
    Null,
    Bool(bool),
    Int(int),
    /// A syntactically valid number literal that is not an `i64` integer,
    /// kept as its text.
    Num(Seq<char>),
    Str(Seq<char>),
    Arr(Seq<JsonData>),
    Obj(Seq<(Seq<char>, JsonData)>),
}

/// JSON whitespace.
pub open spec fn is_ws(c: char) -> bool {
    c == ' ' || c == '\t' || c == '\n' || c == '\r'
}

/// The scan predicate for whitespace.
pub open spec fn ws_pred() -> spec_fn(char) -> bool {
    |c: char| is_ws(c)
}

/// The first non-whitespace position at or after `i`.
pub open spec fn skip_ws(s: Seq<char>, i: int) -> int {
    scan(s, i, ws_pred())
}

/// Hex digits.
pub open spec fn is_hex(c: char) -> bool {
    is_digit(c) || ('a' <= c && c <= 'f') || ('A' <= c && c <= 'F')
}

/// The value of one hex digit.
pub open spec fn hex_val(c: char) -> int {
    if is_digit(c) {
        digit_val(c)
    } else if 'a' <= c && c <= 'f' {
        c as int - 'a' as int + 10
    } else {
        c as int - 'A' as int + 10
    }
}

/// Whether four hex digits stand at `i`.
pub open spec fn hex4_ok(s: Seq<char>, i: int) -> bool {
    i + 4 <= s.len() && is_hex(s[i]) && is_hex(s[i + 1]) && is_hex(s[i + 2]) && is_hex(s[i + 3])
}

/// The value of the four hex digits at `i`.
pub open spec fn hex4_val(s: Seq<char>, i: int) -> int {
    hex_val(s[i]) * 4096 + hex_val(s[i + 1]) * 256 + hex_val(s[i + 2]) * 16 + hex_val(s[i + 3])
}

/// The character a simple escape stands for, if the character after the
/// backslash is one of the short escapes.
pub open spec fn short_escape(e: char) -> Option<char> {
    if e == '"' {
        Some('"')
    } else if e == '\\' {
        Some('\\')
    } else if e == '/' {
        Some('/')
    } else if e == 'b' {
        Some(8 as char)
    } else if e == 'f' {
        Some(12 as char)
    } else if e == 'n' {
        Some('\n')
    } else if e == 'r' {
        Some('\r')
    } else if e == 't' {
        Some('\t')
    } else {
        None
    }
}

/// The body of a string literal read from `i` (just after the opening
/// quote): the decoded characters and the position after the closing quote.
/// Escapes are decoded; a surrogate pair of `\u` escapes yields one
/// character; a lone surrogate, an unescaped control character or a missing
/// closing quote fails.
pub open spec fn sp_string(s: Seq<char>, i: int) -> Option<(Seq<char>, int)>
    decreases s.len() - i,
    when 0 <= i <= s.len()
{
    if i >= s.len() {
        None
    } else {
        let c = s[i];
        if c == '"' {
            Some((Seq::empty(), i + 1))
        } else if c == '\\' {
            if i + 1 >= s.len() {
                None
            } else {
                let e = s[i + 1];
                if short_escape(e) is Some {
                    match sp_string(s, i + 2) {
                        Some((rest, j)) => Some((seq![short_escape(e)->0] + rest, j)),
                        None => None,
                    }
                } else if e == 'u' {
                    if !hex4_ok(s, i + 2) {
                        None
                    } else {
                        let v = hex4_val(s, i + 2);
                        if 0xD800 <= v && v <= 0xDBFF {
                            // A high surrogate must be followed by an
                            // escaped low surrogate.
                            if i + 12 <= s.len() && s[i + 6] == '\\' && s[i + 7] == 'u' && hex4_ok(
                                s,
                                i + 8,
                            ) {
                                let w = hex4_val(s, i + 8);
                                if 0xDC00 <= w && w <= 0xDFFF {
                                    let combined = 0x10000 + (v - 0xD800) * 0x400 + (w - 0xDC00);
                                    match sp_string(s, i + 12) {
                                        Some((rest, j)) => Some(
                                            (seq![combined as char] + rest, j),
                                        ),
                                        None => None,
                                    }
                                } else {
                                    None
                                }
                            } else {
                                None
                            }
                        } else if 0xDC00 <= v && v <= 0xDFFF {
                            None
                        } else {
                            match sp_string(s, i + 6) {
                                Some((rest, j)) => Some((seq![v as char] + rest, j)),
                                None => None,
                            }
                        }
                    }
                } else {
                    None
                }
            }
        } else if (c as u32) < 0x20 {
            None
        } else {
            match sp_string(s, i + 1) {
                Some((rest, j)) => Some((seq![c] + rest, j)),
                None => None,
            }
        }
    }
}

/// The scan predicate for digits, shared with the URL module.
pub open spec fn jdigit_pred() -> spec_fn(char) -> bool {
    |c: char| is_digit(c)
}

/// The largest positive value an `i64` holds.
pub open spec fn i64_max() -> int {
    0x7fffffffffffffff
}

/// The magnitude of the smallest value an `i64` holds.
pub open spec fn i64_min_mag() -> int {
    0x8000000000000000
}

/// A number literal read from `i` (which must hold `-` or a digit): the
/// value and the position after it.  An integer in `i64` range becomes
/// `Int`; any other valid literal keeps its text.  Leading zeroes, a bare
/// `-`, and an empty fraction or exponent fail.
pub open spec fn sp_number(s: Seq<char>, i: int) -> Option<(JsonData, int)> {
    let neg = s[i] == '-';
    let i0 = if neg {
        i + 1
    } else {
        i
    };
    if i0 >= s.len() || !is_digit(s[i0]) {
        None
    } else {
        let int_end = scan(s, i0, jdigit_pred());
        if s[i0] == '0' && int_end > i0 + 1 {
            None
        } else {
            let (frac_ok, frac_end) = if int_end < s.len() && s[int_end] == '.' {
                let fe = scan(s, int_end + 1, jdigit_pred());
                if fe == int_end + 1 {
                    (false, int_end)
                } else {
                    (true, fe)
                }
            } else {
                (true, int_end)
            };
            if !frac_ok {
                None
            } else {
                let (exp_ok, end) = if frac_end < s.len() && (s[frac_end] == 'e' || s[frac_end]
                    == 'E') {
                    let es = if frac_end + 1 < s.len() && (s[frac_end + 1] == '+' || s[frac_end
                        + 1] == '-') {
                        frac_end + 2
                    } else {
                        frac_end + 1
                    };
                    let ee = scan(s, es, jdigit_pred());
                    if ee == es {
                        (false, frac_end)
                    } else {
                        (true, ee)
                    }
                } else {
                    (true, frac_end)
                };
                if !exp_ok {
                    None
                } else if end == int_end {
                    // A plain integer literal.
                    let v = dec_val(s.subrange(i0, int_end));
                    if neg {
                        if v <= i64_min_mag() {
                            Some((JsonData::Int(-v), end))
                        } else {
                            Some((JsonData::Num(s.subrange(i, end)), end))
                        }
                    } else {
                        if v <= i64_max() {
                            Some((JsonData::Int(v), end))
                        } else {
                            Some((JsonData::Num(s.subrange(i, end)), end))
                        }
                    }
                } else {
                    Some((JsonData::Num(s.subrange(i, end)), end))
                }
            }
        }
    }
}

/// A value read from `i` with a nesting budget: leading whitespace, then a
/// literal, string, number, array or object.  Returns the value and the
/// position after it.
pub open spec fn sp_value(s: Seq<char>, i: int, f: nat) -> Option<(JsonData, int)>
    decreases f, 0int,
{
    if f == 0 {
        None
    } else {
        let j = skip_ws(s, i);
        if j >= s.len() {
            None
        } else {
            let c = s[j];
            if c == 'n' {
                if j + 4 <= s.len() && s[j + 1] == 'u' && s[j + 2] == 'l' && s[j + 3] == 'l' {
                    Some((JsonData::Null, j + 4))
                } else {
                    None
                }
            } else if c == 't' {
                if j + 4 <= s.len() && s[j + 1] == 'r' && s[j + 2] == 'u' && s[j + 3] == 'e' {
                    Some((JsonData::Bool(true), j + 4))
                } else {
                    None
                }
            } else if c == 'f' {
                if j + 5 <= s.len() && s[j + 1] == 'a' && s[j + 2] == 'l' && s[j + 3] == 's' && s[j
                    + 4] == 'e' {
                    Some((JsonData::Bool(false), j + 5))
                } else {
                    None
                }
            } else if c == '"' {
                match sp_string(s, j + 1) {
                    Some((str, k)) => Some((JsonData::Str(str), k)),
                    None => None,
                }
            } else if c == '-' || is_digit(c) {
                sp_number(s, j)
            } else if c == '[' {
                let j2 = skip_ws(s, j + 1);
                if j2 < s.len() && s[j2] == ']' {
                    Some((JsonData::Arr(Seq::empty()), j2 + 1))
                } else {
                    match sp_arr_items(s, j + 1, (f - 1) as nat) {
                        Some((items, k)) => Some((JsonData::Arr(items), k)),
                        None => None,
                    }
                }
            } else if c == '{' {
                let j2 = skip_ws(s, j + 1);
                if j2 < s.len() && s[j2] == '}' {
                    Some((JsonData::Obj(Seq::empty()), j2 + 1))
                } else {
                    match sp_obj_items(s, j + 1, (f - 1) as nat) {
                        Some((members, k)) => Some((JsonData::Obj(members), k)),
                        None => None,
                    }
                }
            } else {
                None
            }
        }
    }
}

/// One or more array elements read from `i` (just after `[` or `,`),
/// through the closing `]`.
pub open spec fn sp_arr_items(s: Seq<char>, i: int, f: nat) -> Option<(Seq<JsonData>, int)>
    decreases f, 1int,
{
    if f == 0 {
        None
    } else {
        match sp_value(s, i, (f - 1) as nat) {
            None => None,
            Some((v, k)) => {
                let m = skip_ws(s, k);
                if m < s.len() && s[m] == ',' {
                    match sp_arr_items(s, m + 1, (f - 1) as nat) {
                        Some((rest, e)) => Some((seq![v] + rest, e)),
                        None => None,
                    }
                } else if m < s.len() && s[m] == ']' {
                    Some((seq![v], m + 1))
                } else {
                    None
                }
            },
        }
    }
}

/// One or more object members read from `i` (just after `{` or `,`),
/// through the closing `}`.  Duplicate keys are kept, in order.
pub open spec fn sp_obj_items(s: Seq<char>, i: int, f: nat) -> Option<
    (Seq<(Seq<char>, JsonData)>, int),
>
    decreases f, 1int,
{
    if f == 0 {
        None
    } else {
        let j = skip_ws(s, i);
        if j < s.len() && s[j] == '"' {
            match sp_string(s, j + 1) {
                None => None,
                Some((key, k)) => {
                    let m = skip_ws(s, k);
                    if m < s.len() && s[m] == ':' {
                        match sp_value(s, m + 1, (f - 1) as nat) {
                            None => None,
                            Some((v, e)) => {
                                let q = skip_ws(s, e);
                                if q < s.len() && s[q] == ',' {
                                    match sp_obj_items(s, q + 1, (f - 1) as nat) {
                                        Some((rest, z)) => Some((seq![(key, v)] + rest, z)),
                                        None => None,
                                    }
                                } else if q < s.len() && s[q] == '}' {
                                    Some((seq![(key, v)], q + 1))
                                } else {
                                    None
                                }
                            },
                        }
                    } else {
                        None
                    }
                },
            }
        } else {
            None
        }
    }
}

/// A parsed string body ends strictly after it began, within the input.
pub proof fn lemma_sp_string_bounds(s: Seq<char>, i: int)
    requires
        0 <= i <= s.len(),
    ensures
        sp_string(s, i) matches Some(r) ==> i < r.1 <= s.len(),
    decreases s.len() - i,
{
    if i < s.len() {
        let c = s[i];
        if c == '"' {
        } else if c == '\\' {
            if i + 1 < s.len() {
                let e = s[i + 1];
                if short_escape(e) is Some {
                    lemma_sp_string_bounds(s, i + 2);
                } else if e == 'u' && hex4_ok(s, i + 2) {
                    let v = hex4_val(s, i + 2);
                    if 0xD800 <= v && v <= 0xDBFF {
                        if i + 12 <= s.len() && s[i + 6] == '\\' && s[i + 7] == 'u' && hex4_ok(
                            s,
                            i + 8,
                        ) {
                            lemma_sp_string_bounds(s, i + 12);
                        }
                    } else if !(0xDC00 <= v && v <= 0xDFFF) {
                        lemma_sp_string_bounds(s, i + 6);
                    }
                }
            }
        } else if (c as u32) >= 0x20 {
            lemma_sp_string_bounds(s, i + 1);
        }
    }
}

/// A parsed number ends strictly after it began, within the input.
pub proof fn lemma_sp_number_bounds(s: Seq<char>, i: int)
    requires
        0 <= i < s.len(),
    ensures
        sp_number(s, i) matches Some(r) ==> i < r.1 <= s.len(),
{
    let neg = s[i] == '-';
    let i0 = if neg {
        i + 1
    } else {
        i
    };
    if i0 < s.len() && is_digit(s[i0]) {
        let int_end = scan(s, i0, jdigit_pred());
        lemma_scan_bounds(s, i0, jdigit_pred());
        lemma_scan_chars(s, i0, jdigit_pred());
        assert(int_end > i0);
        if int_end < s.len() && s[int_end] == '.' {
            lemma_scan_bounds(s, int_end + 1, jdigit_pred());
        }
        let frac_end = if int_end < s.len() && s[int_end] == '.' {
            let fe = scan(s, int_end + 1, jdigit_pred());
            if fe == int_end + 1 {
                int_end
            } else {
                fe
            }
        } else {
            int_end
        };
        if frac_end < s.len() && (s[frac_end] == 'e' || s[frac_end] == 'E') {
            let es = if frac_end + 1 < s.len() && (s[frac_end + 1] == '+' || s[frac_end + 1]
                == '-') {
                frac_end + 2
            } else {
                frac_end + 1
            };
            lemma_scan_bounds(s, es, jdigit_pred());
        }
    }
}

/// A parsed value ends strictly after its first non-whitespace character,
/// within the input.
pub proof fn lemma_sp_value_bounds(s: Seq<char>, i: int, f: nat)
    requires
        0 <= i <= s.len(),
    ensures
        sp_value(s, i, f) matches Some(r) ==> skip_ws(s, i) < r.1 <= s.len(),
    decreases f, 0int,
{
    if f > 0 {
        let j = skip_ws(s, i);
        lemma_scan_bounds(s, i, ws_pred());
        if j < s.len() {
            let c = s[j];
            if c == '"' {
                lemma_sp_string_bounds(s, j + 1);
            } else if c == '-' || is_digit(c) {
                lemma_sp_number_bounds(s, j);
            } else if c == '[' {
                let j2 = skip_ws(s, j + 1);
                lemma_scan_bounds(s, j + 1, ws_pred());
                if !(j2 < s.len() && s[j2] == ']') {
                    lemma_sp_arr_items_bounds(s, j + 1, (f - 1) as nat);
                }
            } else if c == '{' {
                let j2 = skip_ws(s, j + 1);
                lemma_scan_bounds(s, j + 1, ws_pred());
                if !(j2 < s.len() && s[j2] == '}') {
                    lemma_sp_obj_items_bounds(s, j + 1, (f - 1) as nat);
                }
            }
        }
    }
}

/// Parsed array elements end strictly after they began, within the input.
pub proof fn lemma_sp_arr_items_bounds(s: Seq<char>, i: int, f: nat)
    requires
        0 <= i <= s.len(),
    ensures
        sp_arr_items(s, i, f) matches Some(r) ==> i < r.1 <= s.len(),
    decreases f, 1int,
{
    if f > 0 {
        lemma_sp_value_bounds(s, i, (f - 1) as nat);
        lemma_scan_bounds(s, i, ws_pred());
        match sp_value(s, i, (f - 1) as nat) {
            None => {},
            Some((v, k)) => {
                let m = skip_ws(s, k);
                lemma_scan_bounds(s, k, ws_pred());
                if m < s.len() && s[m] == ',' {
                    lemma_sp_arr_items_bounds(s, m + 1, (f - 1) as nat);
                }
            },
        }
    }
}

/// Parsed object members end strictly after they began, within the input.
pub proof fn lemma_sp_obj_items_bounds(s: Seq<char>, i: int, f: nat)
    requires
        0 <= i <= s.len(),
    ensures
        sp_obj_items(s, i, f) matches Some(r) ==> i < r.1 <= s.len(),
    decreases f, 1int,
{
    if f > 0 {
        let j = skip_ws(s, i);
        lemma_scan_bounds(s, i, ws_pred());
        if j < s.len() && s[j] == '"' {
            lemma_sp_string_bounds(s, j + 1);
            match sp_string(s, j + 1) {
                None => {},
                Some((key, k)) => {
                    let m = skip_ws(s, k);
                    lemma_scan_bounds(s, k, ws_pred());
                    if m < s.len() && s[m] == ':' {
                        lemma_sp_value_bounds(s, m + 1, (f - 1) as nat);
                        match sp_value(s, m + 1, (f - 1) as nat) {
                            None => {},
                            Some((v, e)) => {
                                let q = skip_ws(s, e);
                                lemma_scan_bounds(s, m + 1, ws_pred());
                                lemma_scan_bounds(s, e, ws_pred());
                                if q < s.len() && s[q] == ',' {
                                    lemma_sp_obj_items_bounds(s, q + 1, (f - 1) as nat);
                                }
                            },
                        }
                    }
                },
            }
        }
    }
}

/// Above the sufficient budget, the parse result does not depend on the
/// budget.
pub proof fn lemma_sp_value_fuel(s: Seq<char>, i: int, f1: nat, f2: nat)
    requires
        0 <= i <= s.len(),
        f1 >= 2 * (s.len() - i) + 2,
        f2 >= f1,
    ensures
        sp_value(s, i, f2) == sp_value(s, i, f1),
    decreases f1, 0int,
{
    let j = skip_ws(s, i);
    lemma_scan_bounds(s, i, ws_pred());
    if j < s.len() {
        let c = s[j];
        if c == '[' {
            let j2 = skip_ws(s, j + 1);
            lemma_scan_bounds(s, j + 1, ws_pred());
            if !(j2 < s.len() && s[j2] == ']') {
                lemma_sp_arr_items_fuel(s, j + 1, (f1 - 1) as nat, (f2 - 1) as nat);
            }
        } else if c == '{' {
            let j2 = skip_ws(s, j + 1);
            lemma_scan_bounds(s, j + 1, ws_pred());
            if !(j2 < s.len() && s[j2] == '}') {
                lemma_sp_obj_items_fuel(s, j + 1, (f1 - 1) as nat, (f2 - 1) as nat);
            }
        }
    }
}

/// Above the sufficient budget, array elements parse independently of the
/// budget.
pub proof fn lemma_sp_arr_items_fuel(s: Seq<char>, i: int, f1: nat, f2: nat)
    requires
        0 <= i <= s.len(),
        f1 >= 2 * (s.len() - i) + 3,
        f2 >= f1,
    ensures
        sp_arr_items(s, i, f2) == sp_arr_items(s, i, f1),
    decreases f1, 1int,
{
    lemma_sp_value_fuel(s, i, (f1 - 1) as nat, (f2 - 1) as nat);
    lemma_sp_value_bounds(s, i, (f1 - 1) as nat);
    lemma_scan_bounds(s, i, ws_pred());
    match sp_value(s, i, (f1 - 1) as nat) {
        None => {},
        Some((v, k)) => {
            let m = skip_ws(s, k);
            lemma_scan_bounds(s, k, ws_pred());
            if m < s.len() && s[m] == ',' {
                lemma_sp_arr_items_fuel(s, m + 1, (f1 - 1) as nat, (f2 - 1) as nat);
            }
        },
    }
}

/// Above the sufficient budget, object members parse independently of the
/// budget.
pub proof fn lemma_sp_obj_items_fuel(s: Seq<char>, i: int, f1: nat, f2: nat)
    requires
        0 <= i <= s.len(),
        f1 >= 2 * (s.len() - i) + 3,
        f2 >= f1,
    ensures
        sp_obj_items(s, i, f2) == sp_obj_items(s, i, f1),
    decreases f1, 1int,
{
    let j = skip_ws(s, i);
    lemma_scan_bounds(s, i, ws_pred());
    if j < s.len() && s[j] == '"' {
        lemma_sp_string_bounds(s, j + 1);
        match sp_string(s, j + 1) {
            None => {},
            Some((key, k)) => {
                let m = skip_ws(s, k);
                lemma_scan_bounds(s, k, ws_pred());
                if m < s.len() && s[m] == ':' {
                    lemma_sp_value_fuel(s, m + 1, (f1 - 1) as nat, (f2 - 1) as nat);
                    lemma_sp_value_bounds(s, m + 1, (f1 - 1) as nat);
                    match sp_value(s, m + 1, (f1 - 1) as nat) {
                        None => {},
                        Some((v, e)) => {
                            let q = skip_ws(s, e);
                            lemma_scan_bounds(s, m + 1, ws_pred());
                            lemma_scan_bounds(s, e, ws_pred());
                            if q < s.len() && s[q] == ',' {
                                lemma_sp_obj_items_fuel(s, q + 1, (f1 - 1) as nat, (f2 - 1) as nat);
                            }
                        },
                    }
                }
            },
        }
    }
}

/// The nesting budget that suffices for the whole input.
pub open spec fn parse_fuel(s: Seq<char>, i: int) -> nat {
    (2 * (s.len() - i) + 2) as nat
}

/// What parsing a whole text yields: one value with nothing but whitespace
/// around it, or nothing when the text is not valid JSON.
pub open spec fn json_parsed(s: Seq<char>) -> Option<JsonData> {
    match sp_value(s, 0, parse_fuel(s, 0)) {
        None => None,
        Some((v, k)) => {
            if 0 <= k <= s.len() && skip_ws(s, k) == s.len() {
                Some(v)
            } else {
                None
            }
        },
    }
}

/// One object member.
pub struct Member {
    pub key: String,
    pub value: Json,
}

/// A JSON value.
pub enum Json {
    Null,
    Bool(bool),
    Int(i64),
    /// A syntactically valid number literal that is not an `i64` integer,
    /// kept as its text.
    Num(String),
    Str(String),
    Arr(Vec<Json>),
    Obj(Vec<Member>),
}

/// The model of a value.
pub open spec fn jmodel(j: Json) -> JsonData
    decreases j,
{
    match j {
        Json::Null => JsonData::Null,
        Json::Bool(b) => JsonData::Bool(b),
        Json::Int(n) => JsonData::Int(n as int),
        Json::Num(s) => JsonData::Num(s@),
        Json::Str(s) => JsonData::Str(s@),
        Json::Arr(items) => JsonData::Arr(jmodel_vec(items)),
        Json::Obj(members) => JsonData::Obj(jmodel_members_vec(members)),
    }
}

/// The model of an element vector.
pub open spec fn jmodel_vec(items: Vec<Json>) -> Seq<JsonData>
    decreases items,
{
    jmodel_seq(items@)
}

/// The model of an element sequence.
pub open spec fn jmodel_seq(items: Seq<Json>) -> Seq<JsonData>
    decreases items,
{
    if items.len() == 0 {
        Seq::empty()
    } else {
        seq![jmodel(items[0])] + jmodel_seq(items.drop_first())
    }
}

/// The model of a member vector.
pub open spec fn jmodel_members_vec(members: Vec<Member>) -> Seq<(Seq<char>, JsonData)>
    decreases members,
{
    jmodel_members_seq(members@)
}

/// The model of a member sequence.
pub open spec fn jmodel_members_seq(members: Seq<Member>) -> Seq<(Seq<char>, JsonData)>
    decreases members,
{
    if members.len() == 0 {
        Seq::empty()
    } else {
        seq![jmodel_member(members[0])] + jmodel_members_seq(members.drop_first())
    }
}

/// The model of one member.
pub open spec fn jmodel_member(m: Member) -> (Seq<char>, JsonData)
    decreases m,
{
    (m.key@, jmodel(m.value))
}

impl View for Json {
    type V = JsonData;

    open spec fn view(&self) -> JsonData {
        jmodel(*self)
    }
}

/// The element models, pointwise.
pub proof fn lemma_jmodel_seq(items: Seq<Json>)
    ensures
        jmodel_seq(items).len() == items.len(),
        forall|k: int| 0 <= k < items.len() ==> jmodel_seq(items)[k] == jmodel(items[k]),
    decreases items.len(),
{
    if items.len() > 0 {
        lemma_jmodel_seq(items.drop_first());
    }
}

/// The member models, pointwise.
pub proof fn lemma_jmodel_members_seq(members: Seq<Member>)
    ensures
        jmodel_members_seq(members).len() == members.len(),
        forall|k: int|
            0 <= k < members.len() ==> jmodel_members_seq(members)[k] == jmodel_member(members[k]),
    decreases members.len(),
{
    if members.len() > 0 {
        lemma_jmodel_members_seq(members.drop_first());
    }
}

fn skip_ws_exec(chars: &Vec<char>, start: usize) -> (r: usize)
    requires
        start <= chars.len(),
    ensures
        r == skip_ws(chars@, start as int),
        start <= r <= chars.len(),
    decreases chars.len() - start,
{
    if start < chars.len() {
        let c = chars[start];
        if c == ' ' || c == '\t' || c == '\n' || c == '\r' {
            return skip_ws_exec(chars, start + 1);
        }
    }
    start
}

fn scan_jdigits(chars: &Vec<char>, start: usize) -> (r: usize)
    requires
        start <= chars.len(),
    ensures
        r == scan(chars@, start as int, jdigit_pred()),
        start <= r <= chars.len(),
    decreases chars.len() - start,
{
    if start < chars.len() && '0' <= chars[start] && chars[start] <= '9' {
        scan_jdigits(chars, start + 1)
    } else {
        start
    }
}

fn short_escape_exec(e: char) -> (r: Option<char>)
    ensures
        r == short_escape(e),
{
    if e == '"' {
        Some('"')
    } else if e == '\\' {
        Some('\\')
    } else if e == '/' {
        Some('/')
    } else if e == 'b' {
        Some('\u{8}')
    } else if e == 'f' {
        Some('\u{c}')
    } else if e == 'n' {
        Some('\n')
    } else if e == 'r' {
        Some('\r')
    } else if e == 't' {
        Some('\t')
    } else {
        None
    }
}

fn is_hex_exec(c: char) -> (r: bool)
    ensures
        r == is_hex(c),
{
    ('0' <= c && c <= '9') || ('a' <= c && c <= 'f') || ('A' <= c && c <= 'F')
}

fn hex_val_exec(c: char) -> (r: u32)
    requires
        is_hex(c),
    ensures
        r == hex_val(c),
        r < 16,
{
    if '0' <= c && c <= '9' {
        (c as u32) - ('0' as u32)
    } else if 'a' <= c && c <= 'f' {
        (c as u32) - ('a' as u32) + 10
    } else {
        (c as u32) - ('A' as u32) + 10
    }
}

fn hex4_exec(chars: &Vec<char>, i: usize) -> (r: Option<u32>)
    requires
        i <= chars.len(),
    ensures
        match r {
            Some(v) => hex4_ok(chars@, i as int) && v == hex4_val(chars@, i as int) && v < 0x10000,
            None => !hex4_ok(chars@, i as int),
        },
{
    if chars.len() - i < 4 {
        return None;
    }
    if !(is_hex_exec(chars[i]) && is_hex_exec(chars[i + 1]) && is_hex_exec(chars[i + 2])
        && is_hex_exec(chars[i + 3])) {
        return None;
    }
    let v = hex_val_exec(chars[i]) * 4096 + hex_val_exec(chars[i + 1]) * 256 + hex_val_exec(
        chars[i + 2],
    ) * 16 + hex_val_exec(chars[i + 3]);
    Some(v)
}

/// Parses a string body from just after the opening quote.
fn ps(chars: &Vec<char>, i: usize) -> (r: Option<(Vec<char>, usize)>)
    requires
        i <= chars.len(),
    ensures
        match r {
            Some(p) => sp_string(chars@, i as int) == Some((p.0@, p.1 as int)) && i < p.1
                <= chars.len(),
            None => sp_string(chars@, i as int) is None,
        },
    decreases chars.len() - i,
{
    proof {
        lemma_sp_string_bounds(chars@, i as int);
    }
    if i >= chars.len() {
        return None;
    }
    let c = chars[i];
    if c == '"' {
        let out: Vec<char> = Vec::new();
        assert(out@ =~= Seq::<char>::empty());
        return Some((out, i + 1));
    }
    if c == '\\' {
        if i + 1 >= chars.len() {
            return None;
        }
        let e = chars[i + 1];
        match short_escape_exec(e) {
            Some(d) => {
                match ps(chars, i + 2) {
                    Some((rest, j)) => {
                        let mut rest = rest;
                        rest.insert(0, d);
                        assert(rest@ =~= seq![short_escape(e)->0] + rest@.drop_first());
                        return Some((rest, j));
                    },
                    None => {
                        return None;
                    },
                }
            },
            None => {},
        }
        if e != 'u' {
            return None;
        }
        match hex4_exec(chars, i + 2) {
            None => {
                return None;
            },
            Some(v) => {
                if 0xD800 <= v && v <= 0xDBFF {
                    if chars.len() - i >= 12 && chars[i + 6] == '\\' && chars[i + 7] == 'u' {
                        match hex4_exec(chars, i + 8) {
                            None => {
                                return None;
                            },
                            Some(w) => {
                                if 0xDC00 <= w && w <= 0xDFFF {
                                    let combined: u32 = 0x10000 + (v - 0xD800) * 0x400 + (w
                                        - 0xDC00);
                                    assert(vstd::utf8::is_scalar(combined));
                                    let d = char::from_u32(combined).unwrap();
                                    proof {
                                        vstd::utf8::char_u32_cast(d, combined);
                                    }
                                    match ps(chars, i + 12) {
                                        Some((rest, j)) => {
                                            let mut rest = rest;
                                            rest.insert(0, d);
                                            assert(rest@ =~= seq![(combined as int) as char]
                                                + rest@.drop_first());
                                            return Some((rest, j));
                                        },
                                        None => {
                                            return None;
                                        },
                                    }
                                } else {
                                    return None;
                                }
                            },
                        }
                    } else {
                        return None;
                    }
                } else if 0xDC00 <= v && v <= 0xDFFF {
                    return None;
                } else {
                    assert(vstd::utf8::is_scalar(v));
                    let d = char::from_u32(v).unwrap();
                    proof {
                        vstd::utf8::char_u32_cast(d, v);
                    }
                    match ps(chars, i + 6) {
                        Some((rest, j)) => {
                            let mut rest = rest;
                            rest.insert(0, d);
                            assert(rest@ =~= seq![(v as int) as char] + rest@.drop_first());
                            return Some((rest, j));
                        },
                        None => {
                            return None;
                        },
                    }
                }
            },
        }
    }
    if (c as u32) < 0x20 {
        return None;
    }
    match ps(chars, i + 1) {
        Some((rest, j)) => {
            let mut rest = rest;
            rest.insert(0, c);
            assert(rest@ =~= seq![c] + rest@.drop_first());
            Some((rest, j))
        },
        None => None,
    }
}

proof fn lemma_jmodel_seq_insert0(s: Seq<Json>, v: Json)
    ensures
        jmodel_seq(s.insert(0, v)) == seq![jmodel(v)] + jmodel_seq(s),
{
    assert(s.insert(0, v).drop_first() =~= s);
    assert(s.insert(0, v)[0] == v);
    assert(jmodel_seq(s.insert(0, v)) =~= seq![jmodel(v)] + jmodel_seq(s));
}

proof fn lemma_jmodel_members_insert0(s: Seq<Member>, m: Member)
    ensures
        jmodel_members_seq(s.insert(0, m)) == seq![jmodel_member(m)] + jmodel_members_seq(s),
{
    assert(s.insert(0, m).drop_first() =~= s);
    assert(s.insert(0, m)[0] == m);
    assert(jmodel_members_seq(s.insert(0, m)) =~= seq![jmodel_member(m)] + jmodel_members_seq(s));
}

/// Copies a character range into a string.
fn sub_string(chars: &Vec<char>, from: usize, to: usize) -> (r: String)
    requires
        from <= to <= chars.len(),
    ensures
        r@ == chars@.subrange(from as int, to as int),
{
    let mut out: Vec<char> = Vec::new();
    let mut k: usize = from;
    while k < to
        invariant
            from <= k <= to <= chars.len(),
            out@ == chars@.subrange(from as int, k as int),
        decreases to - k,
    {
        out.push(chars[k]);
        assert(out@ =~= chars@.subrange(from as int, k + 1));
        k += 1;
    }
    crate::text::string_of(out)
}

/// Parses a number literal whose first character stands at `i`.
fn pn(chars: &Vec<char>, i: usize) -> (r: Option<(Json, usize)>)
    requires
        i < chars.len(),
        chars@[i as int] == '-' || is_digit(chars@[i as int]),
    ensures
        match r {
            Some(p) => sp_number(chars@, i as int) == Some((jmodel(p.0), p.1 as int)) && i < p.1
                <= chars.len(),
            None => sp_number(chars@, i as int) is None,
        },
{
    proof {
        lemma_sp_number_bounds(chars@, i as int);
    }
    let neg = chars[i] == '-';
    let i0 = if neg {
        i + 1
    } else {
        i
    };
    if i0 >= chars.len() {
        return None;
    }
    let c0 = chars[i0];
    if !('0' <= c0 && c0 <= '9') {
        return None;
    }
    let int_end = scan_jdigits(chars, i0);
    proof {
        lemma_scan_chars(chars@, i0 as int, jdigit_pred());
    }
    if c0 == '0' && int_end > i0 + 1 {
        return None;
    }
    let mut end: usize = int_end;
    if int_end < chars.len() && chars[int_end] == '.' {
        let fe = scan_jdigits(chars, int_end + 1);
        if fe == int_end + 1 {
            return None;
        }
        end = fe;
    }
    if end < chars.len() && (chars[end] == 'e' || chars[end] == 'E') {
        let es = if end + 1 < chars.len() && (chars[end + 1] == '+' || chars[end + 1] == '-') {
            end + 2
        } else {
            end + 1
        };
        let ee = scan_jdigits(chars, es);
        if ee == es {
            return None;
        }
        end = ee;
    }
    if end == int_end {
        // A plain integer literal: take its value, or keep the text when it
        // does not fit.
        let ghost digits = chars@.subrange(i0 as int, int_end as int);
        let mut val: u128 = 0;
        let mut t: usize = i0;
        while t < int_end
            invariant
                i0 <= t <= int_end <= chars.len(),
                forall|k: int| i0 <= k < int_end ==> is_digit(chars@[k]),
                digits == chars@.subrange(i0 as int, int_end as int),
                val <= 0x8000000000000000 ==> dec_val(digits.take(t - i0)) == val as int,
                val > 0x8000000000000000 ==> dec_val(digits.take(t - i0)) > 0x8000000000000000
                    && val <= 0x50000000000000009,
            decreases int_end - t,
        {
            let c = chars[t];
            let d: u128 = (c as u32 as u128) - ('0' as u32 as u128);
            proof {
                assert(digits.take(t + 1 - i0).drop_last() =~= digits.take(t - i0));
                assert(digits.take(t + 1 - i0).last() == chars@[t as int]);
                lemma_dec_val_nonneg(digits.take(t - i0));
            }
            if val <= 0x8000000000000000 {
                val = val * 10 + d;
            }
            t += 1;
        }
        assert(digits.take(int_end - i0) =~= digits);
        if neg {
            if val <= 0x8000000000000000 {
                let n: i64 = if val == 0x8000000000000000 {
                    i64::MIN
                } else {
                    -(val as i64)
                };
                return Some((Json::Int(n), end));
            }
        } else {
            if val <= 0x7fffffffffffffff {
                return Some((Json::Int(val as i64), end));
            }
        }
        let text = sub_string(chars, i, end);
        return Some((Json::Num(text), end));
    }
    let text = sub_string(chars, i, end);
    Some((Json::Num(text), end))
}

/// Parses one value from `i`, leading whitespace included.
fn pv(chars: &Vec<char>, i: usize) -> (r: Option<(Json, usize)>)
    requires
        i <= chars.len(),
    ensures
        match r {
            Some(p) => sp_value(chars@, i as int, parse_fuel(chars@, i as int)) == Some(
                (jmodel(p.0), p.1 as int),
            ) && i < p.1 <= chars.len(),
            None => sp_value(chars@, i as int, parse_fuel(chars@, i as int)) is None,
        },
    decreases chars.len() - i, 0int,
{
    let ghost fv = parse_fuel(chars@, i as int);
    proof {
        lemma_sp_value_bounds(chars@, i as int, fv);
        lemma_scan_bounds(chars@, i as int, ws_pred());
    }
    let j = skip_ws_exec(chars, i);
    if j >= chars.len() {
        return None;
    }
    let c = chars[j];
    if c == 'n' {
        if chars.len() - j >= 4 && chars[j + 1] == 'u' && chars[j + 2] == 'l' && chars[j + 3]
            == 'l' {
            return Some((Json::Null, j + 4));
        }
        return None;
    }
    if c == 't' {
        if chars.len() - j >= 4 && chars[j + 1] == 'r' && chars[j + 2] == 'u' && chars[j + 3]
            == 'e' {
            return Some((Json::Bool(true), j + 4));
        }
        return None;
    }
    if c == 'f' {
        if chars.len() - j >= 5 && chars[j + 1] == 'a' && chars[j + 2] == 'l' && chars[j + 3]
            == 's' && chars[j + 4] == 'e' {
            return Some((Json::Bool(false), j + 5));
        }
        return None;
    }
    if c == '"' {
        match ps(chars, j + 1) {
            Some((body, k)) => {
                return Some((Json::Str(crate::text::string_of(body)), k));
            },
            None => {
                return None;
            },
        }
    }
    if c == '-' || ('0' <= c && c <= '9') {
        match pn(chars, j) {
            Some((v, k)) => {
                return Some((v, k));
            },
            None => {
                return None;
            },
        }
    }
    if c == '[' {
        let j2 = skip_ws_exec(chars, j + 1);
        if j2 < chars.len() && chars[j2] == ']' {
            let items: Vec<Json> = Vec::new();
            assert(jmodel_seq(items@) =~= Seq::<JsonData>::empty());
            return Some((Json::Arr(items), j2 + 1));
        }
        proof {
            lemma_sp_arr_items_fuel(
                chars@,
                j as int + 1,
                parse_fuel(chars@, j as int + 1) + 1,
                (fv - 1) as nat,
            );
        }
        match pa(chars, j + 1) {
            Some((items, k)) => {
                return Some((Json::Arr(items), k));
            },
            None => {
                return None;
            },
        }
    }
    if c == '{' {
        let j2 = skip_ws_exec(chars, j + 1);
        if j2 < chars.len() && chars[j2] == '}' {
            let members: Vec<Member> = Vec::new();
            assert(jmodel_members_seq(members@) =~= Seq::<(Seq<char>, JsonData)>::empty());
            return Some((Json::Obj(members), j2 + 1));
        }
        proof {
            lemma_sp_obj_items_fuel(
                chars@,
                j as int + 1,
                parse_fuel(chars@, j as int + 1) + 1,
                (fv - 1) as nat,
            );
        }
        match po(chars, j + 1) {
            Some((members, k)) => {
                return Some((Json::Obj(members), k));
            },
            None => {
                return None;
            },
        }
    }
    None
}

/// Parses array elements from just after `[` or `,`, through `]`.
fn pa(chars: &Vec<char>, i: usize) -> (r: Option<(Vec<Json>, usize)>)
    requires
        i <= chars.len(),
    ensures
        match r {
            Some(p) => sp_arr_items(chars@, i as int, parse_fuel(chars@, i as int) + 1) == Some(
                (jmodel_seq(p.0@), p.1 as int),
            ) && i < p.1 <= chars.len(),
            None => sp_arr_items(chars@, i as int, parse_fuel(chars@, i as int) + 1) is None,
        },
    decreases chars.len() - i, 1int,
{
    let ghost fa = parse_fuel(chars@, i as int) + 1;
    proof {
        lemma_sp_arr_items_bounds(chars@, i as int, fa);
        lemma_sp_value_bounds(chars@, i as int, (fa - 1) as nat);
        lemma_scan_bounds(chars@, i as int, ws_pred());
    }
    match pv(chars, i) {
        None => None,
        Some((v, k)) => {
            let m = skip_ws_exec(chars, k);
            if m < chars.len() && chars[m] == ',' {
                proof {
                    lemma_sp_arr_items_fuel(
                        chars@,
                        m as int + 1,
                        parse_fuel(chars@, m as int + 1) + 1,
                        (fa - 1) as nat,
                    );
                }
                match pa(chars, m + 1) {
                    Some((rest, e)) => {
                        let mut rest = rest;
                        let ghost rest_seq = rest@;
                        rest.insert(0, v);
                        proof {
                            lemma_jmodel_seq_insert0(rest_seq, v);
                        }
                        Some((rest, e))
                    },
                    None => None,
                }
            } else if m < chars.len() && chars[m] == ']' {
                let mut items: Vec<Json> = Vec::new();
                items.push(v);
                proof {
                    assert(items@ =~= Seq::<Json>::empty().insert(0, v));
                    lemma_jmodel_seq_insert0(Seq::<Json>::empty(), v);
                    assert(jmodel_seq(items@) =~= seq![jmodel(v)]);
                }
                Some((items, m + 1))
            } else {
                None
            }
        },
    }
}

/// Parses object members from just after `{` or `,`, through `}`.
fn po(chars: &Vec<char>, i: usize) -> (r: Option<(Vec<Member>, usize)>)
    requires
        i <= chars.len(),
    ensures
        match r {
            Some(p) => sp_obj_items(chars@, i as int, parse_fuel(chars@, i as int) + 1) == Some(
                (jmodel_members_seq(p.0@), p.1 as int),
            ) && i < p.1 <= chars.len(),
            None => sp_obj_items(chars@, i as int, parse_fuel(chars@, i as int) + 1) is None,
        },
    decreases chars.len() - i, 1int,
{
    let ghost fo = parse_fuel(chars@, i as int) + 1;
    proof {
        lemma_sp_obj_items_bounds(chars@, i as int, fo);
        lemma_scan_bounds(chars@, i as int, ws_pred());
    }
    let j = skip_ws_exec(chars, i);
    if !(j < chars.len() && chars[j] == '"') {
        return None;
    }
    match ps(chars, j + 1) {
        None => None,
        Some((key_chars, k)) => {
            let m = skip_ws_exec(chars, k);
            if !(m < chars.len() && chars[m] == ':') {
                return None;
            }
            proof {
                lemma_sp_value_fuel(
                    chars@,
                    m as int + 1,
                    parse_fuel(chars@, m as int + 1),
                    (fo - 1) as nat,
                );
                lemma_sp_value_bounds(chars@, m as int + 1, (fo - 1) as nat);
            }
            match pv(chars, m + 1) {
                None => None,
                Some((v, e)) => {
                    let q = skip_ws_exec(chars, e);
                    let key = crate::text::string_of(key_chars);
                    if q < chars.len() && chars[q] == ',' {
                        proof {
                            lemma_sp_obj_items_fuel(
                                chars@,
                                q as int + 1,
                                parse_fuel(chars@, q as int + 1) + 1,
                                (fo - 1) as nat,
                            );
                        }
                        match po(chars, q + 1) {
                            Some((rest, z)) => {
                                let mut rest = rest;
                                let ghost rest_seq = rest@;
                                let member = Member { key, value: v };
                                rest.insert(0, member);
                                proof {
                                    lemma_jmodel_members_insert0(
                                        rest_seq,
                                        Member { key, value: v },
                                    );
                                }
                                Some((rest, z))
                            },
                            None => None,
                        }
                    } else if q < chars.len() && chars[q] == '}' {
                        let mut members: Vec<Member> = Vec::new();
                        let member = Member { key, value: v };
                        members.push(member);
                        proof {
                            assert(members@ =~= Seq::<Member>::empty().insert(
                                0,
                                Member { key, value: v },
                            ));
                            lemma_jmodel_members_insert0(
                                Seq::<Member>::empty(),
                                Member { key, value: v },
                            );
                        }
                        Some((members, q + 1))
                    } else {
                        None
                    }
                },
            }
        },
    }
}

/// Parses a whole JSON text: one value with nothing but whitespace around
/// it.  Returns the value exactly when the text is valid JSON.
pub fn parse_json(s: &str) -> (r: Option<Json>)
    ensures
        match r {
            Some(j) => json_parsed(s@) == Some(jmodel(j)),
            None => json_parsed(s@) is None,
        },
{
    let chars = crate::text::chars_of(s);
    match pv(&chars, 0) {
        None => None,
        Some((v, k)) => {
            let e = skip_ws_exec(&chars, k);
            if e == chars.len() {
                Some(v)
            } else {
                None
            }
        },
    }
}

/// The lower-case hex digit for one value below 16.
pub open spec fn jhex_char(d: int) -> char {
    if d == 0 {
        '0'
    } else if d == 1 {
        '1'
    } else if d == 2 {
        '2'
    } else if d == 3 {
        '3'
    } else if d == 4 {
        '4'
    } else if d == 5 {
        '5'
    } else if d == 6 {
        '6'
    } else if d == 7 {
        '7'
    } else if d == 8 {
        '8'
    } else if d == 9 {
        '9'
    } else if d == 10 {
        'a'
    } else if d == 11 {
        'b'
    } else if d == 12 {
        'c'
    } else if d == 13 {
        'd'
    } else if d == 14 {
        'e'
    } else {
        'f'
    }
}

/// The escape of one string character: `\"` and `\\` for quote and
/// backslash, `\u00XX` for control characters, the character itself
/// otherwise.
pub open spec fn esc_char(c: char) -> Seq<char> {
    if c == '"' {
        seq!['\\', '"']
    } else if c == '\\' {
        seq!['\\', '\\']
    } else if (c as u32) < 0x20 {
        seq!['\\', 'u', '0', '0', jhex_char((c as u32) as int / 16), jhex_char(
            (c as u32) as int % 16,
        )]
    } else {
        seq![c]
    }
}

/// The escaped body of a string literal.
pub open spec fn esc_string(s: Seq<char>) -> Seq<char>
    decreases s.len(),
{
    if s.len() == 0 {
        Seq::empty()
    } else {
        esc_char(s[0]) + esc_string(s.drop_first())
    }
}

/// The serialization of a value: no whitespace, strings escaped as
/// [`esc_char`], integers in decimal, other number literals verbatim.
pub open spec fn ser_json(d: JsonData) -> Seq<char>
    decreases d, 0int, 0int,
{
    match d {
        JsonData::Null => seq!['n', 'u', 'l', 'l'],
        JsonData::Bool(b) => if b {
            seq!['t', 'r', 'u', 'e']
        } else {
            seq!['f', 'a', 'l', 's', 'e']
        },
        JsonData::Int(i) => dec_of_int(i),
        JsonData::Num(s) => s,
        JsonData::Str(s) => seq!['"'] + esc_string(s) + seq!['"'],
        JsonData::Arr(items) => seq!['['] + ser_items(items) + seq![']'],
        JsonData::Obj(members) => seq!['{'] + ser_members(members) + seq!['}'],
    }
}

/// The serialization of array elements, comma-separated.
pub open spec fn ser_items(items: Seq<JsonData>) -> Seq<char>
    decreases items, 1int, 0int,
{
    if items.len() == 0 {
        Seq::empty()
    } else if items.len() == 1 {
        ser_json(items[0])
    } else {
        ser_json(items[0]) + seq![','] + ser_items(items.drop_first())
    }
}

/// The serialization of one member: the quoted key, a colon, the value.
pub open spec fn ser_member(m: (Seq<char>, JsonData)) -> Seq<char>
    decreases m, 0int, 0int,
{
    seq!['"'] + esc_string(m.0) + seq!['"', ':'] + ser_json(m.1)
}

/// The serialization of object members, comma-separated.
pub open spec fn ser_members(members: Seq<(Seq<char>, JsonData)>) -> Seq<char>
    decreases members, 1int, 0int,
{
    if members.len() == 0 {
        Seq::empty()
    } else if members.len() == 1 {
        ser_member(members[0])
    } else {
        ser_member(members[0]) + seq![','] + ser_members(members.drop_first())
    }
}

fn jhex_digit(d: u32) -> (c: char)
    requires
        d < 16,
    ensures
        c == jhex_char(d as int),
{
    if d == 0 {
        '0'
    } else if d == 1 {
        '1'
    } else if d == 2 {
        '2'
    } else if d == 3 {
        '3'
    } else if d == 4 {
        '4'
    } else if d == 5 {
        '5'
    } else if d == 6 {
        '6'
    } else if d == 7 {
        '7'
    } else if d == 8 {
        '8'
    } else if d == 9 {
        '9'
    } else if d == 10 {
        'a'
    } else if d == 11 {
        'b'
    } else if d == 12 {
        'c'
    } else if d == 13 {
        'd'
    } else if d == 14 {
        'e'
    } else {
        'f'
    }
}

proof fn lemma_esc_string_snoc(s: Seq<char>, i: int)
    requires
        0 <= i < s.len(),
    ensures
        esc_string(s.take(i + 1)) == esc_string(s.take(i)) + esc_char(s[i]),
    decreases i,
{
    if i == 0 {
        assert(s.take(1).drop_first() =~= Seq::<char>::empty());
        assert(s.take(1)[0] == s[0]);
        assert(esc_string(Seq::<char>::empty()) =~= Seq::<char>::empty());
        assert(esc_string(s.take(0)) =~= Seq::<char>::empty());
        assert(esc_string(s.take(i + 1)) =~= esc_string(s.take(i)) + esc_char(s[i]));
    } else {
        lemma_esc_string_snoc(s.drop_first(), i - 1);
        assert(s.take(i + 1).drop_first() =~= s.drop_first().take(i));
        assert(s.take(i).drop_first() =~= s.drop_first().take(i - 1));
        assert(s.drop_first()[i - 1] == s[i]);
        assert(esc_string(s.take(i + 1)) =~= esc_string(s.take(i)) + esc_char(s[i]));
    }
}

/// Writes the escaped body of a string.
fn esc_text(chars: &Vec<char>) -> (r: Vec<char>)
    ensures
        r@ == esc_string(chars@),
{
    let mut out: Vec<char> = Vec::new();
    let mut i: usize = 0;
    while i < chars.len()
        invariant
            i <= chars.len(),
            out@ == esc_string(chars@.take(i as int)),
        decreases chars.len() - i,
    {
        let c = chars[i];
        let ghost prev = out@;
        if c == '"' {
            out.push('\\');
            out.push('"');
            assert(out@ =~= prev + esc_char(c));
        } else if c == '\\' {
            out.push('\\');
            out.push('\\');
            assert(out@ =~= prev + esc_char(c));
        } else if (c as u32) < 0x20 {
            out.push('\\');
            out.push('u');
            out.push('0');
            out.push('0');
            let hi: u32 = (c as u32) / 16;
            let lo: u32 = (c as u32) % 16;
            out.push(jhex_digit(hi));
            out.push(jhex_digit(lo));
            proof {
                assert(out@ =~= prev + esc_char(c));
            }
        } else {
            out.push(c);
            assert(out@ =~= prev + esc_char(c));
        }
        proof {
            lemma_esc_string_snoc(chars@, i as int);
            assert(out@ =~= esc_string(chars@.take(i + 1)));
        }
        i += 1;
    }
    assert(chars@.take(chars@.len() as int) =~= chars@);
    out
}

impl Json {
    /// The exact serialization of this value, as characters.
    pub fn to_text(&self) -> (r: Vec<char>)
        ensures
            r@ == ser_json(jmodel(*self)),
        decreases *self, 0int, 0int,
    {
        match self {
            Json::Null => {
                let mut out: Vec<char> = Vec::new();
                out.push('n');
                out.push('u');
                out.push('l');
                out.push('l');
                assert(out@ =~= seq!['n', 'u', 'l', 'l']);
                out
            },
            Json::Bool(b) => {
                let mut out: Vec<char> = Vec::new();
                if *b {
                    out.push('t');
                    out.push('r');
                    out.push('u');
                    out.push('e');
                    assert(out@ =~= seq!['t', 'r', 'u', 'e']);
                } else {
                    out.push('f');
                    out.push('a');
                    out.push('l');
                    out.push('s');
                    out.push('e');
                    assert(out@ =~= seq!['f', 'a', 'l', 's', 'e']);
                }
                out
            },
            Json::Int(n) => crate::text::render_dec_i64(*n),
            Json::Num(s) => crate::text::chars_of(s.as_str()),
            Json::Str(s) => {
                let mut out: Vec<char> = Vec::new();
                out.push('"');
                let body = crate::text::chars_of(s.as_str());
                let mut escaped = esc_text(&body);
                out.append(&mut escaped);
                out.push('"');
                assert(out@ =~= seq!['"'] + esc_string(s@) + seq!['"']);
                out
            },
            Json::Arr(items) => {
                let mut out: Vec<char> = Vec::new();
                out.push('[');
                let mut body = items_text(items, 0);
                out.append(&mut body);
                out.push(']');
                proof {
                    assert(jmodel_seq(items@).skip(0) =~= jmodel_seq(items@));
                    assert(out@ =~= seq!['['] + ser_items(jmodel_vec(*items)) + seq![']']);
                }
                out
            },
            Json::Obj(members) => {
                let mut out: Vec<char> = Vec::new();
                out.push('{');
                let mut body = members_text(members, 0);
                out.append(&mut body);
                out.push('}');
                proof {
                    assert(jmodel_members_seq(members@).skip(0) =~= jmodel_members_seq(members@));
                    assert(out@ =~= seq!['{'] + ser_members(jmodel_members_vec(*members)) + seq![
                        '}',
                    ]);
                }
                out
            },
        }
    }

    /// The exact serialization of this value, as a string.
    pub fn to_string(&self) -> (r: String)
        ensures
            r@ == ser_json(jmodel(*self)),
    {
        crate::text::string_of(self.to_text())
    }
}

fn items_text(items: &Vec<Json>, start: usize) -> (r: Vec<char>)
    requires
        start <= items.len(),
    ensures
        r@ == ser_items(jmodel_seq(items@).skip(start as int)),
    decreases *items, 1int, items.len() - start,
{
    proof {
        lemma_jmodel_seq(items@);
    }
    let mut out: Vec<char> = Vec::new();
    if start == items.len() {
        assert(jmodel_seq(items@).skip(start as int) =~= Seq::<JsonData>::empty());
        return out;
    }
    let mut first = items[start].to_text();
    out.append(&mut first);
    let ghost tail = jmodel_seq(items@).skip(start as int);
    proof {
        assert(tail[0] == jmodel(items@[start as int]));
    }
    if start + 1 == items.len() {
        assert(tail.len() == 1);
        assert(out@ =~= ser_items(tail));
        return out;
    }
    out.push(',');
    let mut rest = items_text(items, start + 1);
    out.append(&mut rest);
    proof {
        assert(tail.drop_first() =~= jmodel_seq(items@).skip(start as int + 1));
        assert(out@ =~= ser_items(tail));
    }
    out
}

fn members_text(members: &Vec<Member>, start: usize) -> (r: Vec<char>)
    requires
        start <= members.len(),
    ensures
        r@ == ser_members(jmodel_members_seq(members@).skip(start as int)),
    decreases *members, 1int, members.len() - start,
{
    proof {
        lemma_jmodel_members_seq(members@);
    }
    let mut out: Vec<char> = Vec::new();
    if start == members.len() {
        assert(jmodel_members_seq(members@).skip(start as int) =~= Seq::<
            (Seq<char>, JsonData),
        >::empty());
        return out;
    }
    let mut first = member_text(&members[start]);
    out.append(&mut first);
    let ghost tail = jmodel_members_seq(members@).skip(start as int);
    proof {
        assert(tail[0] == jmodel_member(members@[start as int]));
    }
    if start + 1 == members.len() {
        assert(tail.len() == 1);
        assert(out@ =~= ser_members(tail));
        return out;
    }
    out.push(',');
    let mut rest = members_text(members, start + 1);
    out.append(&mut rest);
    proof {
        assert(tail.drop_first() =~= jmodel_members_seq(members@).skip(start as int + 1));
        assert(out@ =~= ser_members(tail));
    }
    out
}

fn member_text(m: &Member) -> (r: Vec<char>)
    ensures
        r@ == ser_member(jmodel_member(*m)),
    decreases *m, 0int, 0int,
{
    let mut out: Vec<char> = Vec::new();
    out.push('"');
    let key_chars = crate::text::chars_of(m.key.as_str());
    let mut escaped = esc_text(&key_chars);
    out.append(&mut escaped);
    out.push('"');
    out.push(':');
    let mut value = m.value.to_text();
    out.append(&mut value);
    assert(out@ =~= ser_member(jmodel_member(*m)));
    out
}

/// A scan over a known run: it stops exactly at the first failing
/// position.
proof fn lemma_scan_run(s: Seq<char>, i: int, j: int, pred: spec_fn(char) -> bool)
    requires
        0 <= i <= j <= s.len(),
        forall|k: int| i <= k < j ==> pred(s[k]),
        j == s.len() || !pred(s[j]),
    ensures
        scan(s, i, pred) == j,
    decreases j - i,
{
    if i < j {
        lemma_scan_run(s, i + 1, j, pred);
    }
}

/// The decimal rendering of a non-negative integer: digits only, at least
/// one, no leading zero unless the value is zero.
proof fn lemma_dec_of_digits(n: int)
    requires
        n >= 0,
    ensures
        dec_of(n).len() >= 1,
        forall|k: int| 0 <= k < dec_of(n).len() ==> is_digit(#[trigger] dec_of(n)[k]),
        n >= 1 ==> dec_of(n)[0] != '0',
        n == 0 ==> dec_of(n) == seq!['0'],
        n < 10 ==> dec_of(n).len() == 1,
    decreases n,
{
    if n >= 10 {
        lemma_dec_of_digits(n / 10);
    }
}

/// Reading the decimal rendering back gives the value.
proof fn lemma_dec_val_dec_of(n: int)
    requires
        n >= 0,
    ensures
        dec_val(dec_of(n)) == n,
    decreases n,
{
    if n < 10 {
        assert(dec_of(n) == seq![crate::text::digit_char(n)]);
        assert(seq![crate::text::digit_char(n)].drop_last() =~= Seq::<char>::empty());
        assert(dec_val(Seq::<char>::empty()) == 0);
        assert(dec_val(seq![crate::text::digit_char(n)]) == digit_val(
            crate::text::digit_char(n),
        ));
    } else {
        lemma_dec_val_dec_of(n / 10);
        let w = dec_of(n / 10) + seq![crate::text::digit_char(n % 10)];
        assert(w.drop_last() =~= dec_of(n / 10));
        assert(w.last() == crate::text::digit_char(n % 10));
    }
}

/// The serializer's hex digits read back as their values.
proof fn lemma_hex_jhex(d: int)
    requires
        0 <= d < 16,
    ensures
        is_hex(jhex_char(d)),
        hex_val(jhex_char(d)) == d,
{
}

/// The characters that may follow a serialized value without changing how
/// it parses: a separator, a closer, or the end of the text.
pub open spec fn is_follow(s: Seq<char>, i: int) -> bool {
    i == s.len() || s[i] == ',' || s[i] == ']' || s[i] == '}'
}

/// A serialized string body embedded in a larger text parses to exactly
/// its contents, ending just after its closing quote.
#[verifier::rlimit(100)]
#[verifier::spinoff_prover]
proof fn lemma_ps_embed(t: Seq<char>, s: Seq<char>, i: int)
    requires
        0 <= i,
        i + esc_string(t).len() + 1 <= s.len(),
        s.subrange(i, i + esc_string(t).len() + 1) == esc_string(t) + seq!['"'],
    ensures
        sp_string(s, i) == Some((t, i + esc_string(t).len() + 1)),
    decreases t.len(),
{
    let body = esc_string(t) + seq!['"'];
    let kk = esc_string(t).len() + 1;
    assert(forall|y: int| i <= y < i + kk ==> #[trigger] s[y] == body[y - i]) by {
        assert(forall|y: int|
            i <= y < i + kk ==> #[trigger] s[y] == s.subrange(i, i + kk)[y - i]);
    }
    if t.len() == 0 {
        assert(body[0] == '"');
        assert(s[i] == '"');
    } else {
        let c = t[0];
        let e = esc_char(c);
        let rest = t.drop_first();
        assert(esc_string(t) == e + esc_string(rest));
        let i2 = i + e.len();
        let kk2 = esc_string(rest).len() + 1;
        assert(s.subrange(i2, i2 + kk2) =~= esc_string(rest) + seq!['"']) by {
            assert(forall|x: int|
                0 <= x < kk2 ==> #[trigger] s.subrange(i2, i2 + kk2)[x] == s[i2 + x]);
            assert(forall|x: int|
                0 <= x < kk2 ==> s[i2 + x] == body[e.len() + x] && body[e.len() + x] == (
                esc_string(rest) + seq!['"'])[x]);
        }
        lemma_ps_embed(rest, s, i2);
        assert(forall|x: int| 0 <= x < e.len() ==> body[x] == e[x]);
        if c == '"' {
            assert(s[i] == '\\' && s[i + 1] == '"');
            assert(short_escape('"') == Some('"'));
            assert(seq![short_escape(s[i + 1])->0] + rest =~= t);
        } else if c == '\\' {
            assert(s[i] == '\\' && s[i + 1] == '\\');
            assert(seq![short_escape(s[i + 1])->0] + rest =~= t);
        } else if (c as u32) < 0x20 {
            let hi = (c as u32) as int / 16;
            let lo = (c as u32) as int % 16;
            assert(s[i] == '\\' && s[i + 1] == 'u' && s[i + 2] == '0' && s[i + 3] == '0' && s[i
                + 4] == jhex_char(hi) && s[i + 5] == jhex_char(lo));
            lemma_hex_jhex(hi);
            lemma_hex_jhex(lo);
            assert(short_escape('u') is None);
            assert(is_digit('0') && hex_val('0') == 0);
            assert(hex4_ok(s, i + 2));
            let v = hex4_val(s, i + 2);
            assert(v == c as u32);
            assert(!(0xD800 <= v && v <= 0xDBFF));
            assert(!(0xDC00 <= v && v <= 0xDFFF));
            vstd::utf8::char_u32_cast(c, c as u32);
            assert((v as char) == c);
            assert(seq![v as char] + rest =~= t);
        } else {
            assert(e == seq![c]);
            assert(s[i] == c);
            assert(seq![c] + rest =~= t);
        }
    }
}

/// A serialized integer embedded in a larger text parses to exactly its
/// value, when what follows cannot extend a number.
proof fn lemma_pn_embed(v: int, s: Seq<char>, i: int)
    requires
        -0x8000000000000000 <= v <= 0x7fffffffffffffff,
        0 <= i,
        i + dec_of_int(v).len() <= s.len(),
        s.subrange(i, i + dec_of_int(v).len()) == dec_of_int(v),
        is_follow(s, i + dec_of_int(v).len()),
    ensures
        sp_number(s, i) == Some((JsonData::Int(v), i + dec_of_int(v).len())),
{
    let body = dec_of_int(v);
    let ll = body.len();
    let n = if v < 0 {
        -v
    } else {
        v
    };
    lemma_dec_of_digits(n);
    assert(forall|y: int| i <= y < i + ll ==> #[trigger] s[y] == body[y - i]) by {
        assert(forall|y: int|
            i <= y < i + ll ==> #[trigger] s[y] == s.subrange(i, i + ll)[y - i]);
    }
    let i0 = if v < 0 {
        i + 1
    } else {
        i
    };
    assert(forall|x: int| 0 <= x < dec_of(n).len() ==> body[x + i0 - i] == #[trigger] dec_of(
        n,
    )[x]);
    assert(forall|y: int| i0 <= y < i + ll ==> is_digit(#[trigger] s[y]));
    if v < 0 {
        assert(body[0] == '-');
        assert(s[i] == '-');
    } else {
        assert(s[i] == body[0] && body[0] == dec_of(n)[0]);
        assert(is_digit(s[i]));
        assert(s[i] != '-');
    }
    assert(i0 < s.len() && is_digit(s[i0]));
    lemma_scan_run(s, i0, i + ll, jdigit_pred());
    let int_end = scan(s, i0, jdigit_pred());
    assert(int_end == i + ll);
    if s[i0] == '0' {
        assert(dec_of(n)[0] == '0');
        assert(n == 0) by {
            if n >= 1 {
                assert(dec_of(n)[0] != '0');
            }
        }
        assert(int_end == i0 + 1);
    }
    assert(!(int_end < s.len() && s[int_end] == '.'));
    assert(!(int_end < s.len() && (s[int_end] == 'e' || s[int_end] == 'E')));
    assert(s.subrange(i0, int_end) =~= dec_of(n));
    lemma_dec_val_dec_of(n);
    assert(dec_val(s.subrange(i0, int_end)) == n);
}

/// Values whose serialization parses back to themselves: integers within
/// the `i64` carrier (so the literal re-reads as an integer) and no kept
/// foreign number literals, at every depth.
pub open spec fn ser_wf(d: JsonData) -> bool
    decreases d, 0int, 0int,
{
    match d {
        JsonData::Null => true,
        JsonData::Bool(_) => true,
        JsonData::Int(v) => -0x8000000000000000 <= v <= 0x7fffffffffffffff,
        JsonData::Num(_) => false,
        JsonData::Str(_) => true,
        JsonData::Arr(items) => ser_wf_items(items),
        JsonData::Obj(members) => ser_wf_members(members),
    }
}

/// [`ser_wf`] over array elements.
pub open spec fn ser_wf_items(items: Seq<JsonData>) -> bool
    decreases items, 1int, 0int,
{
    if items.len() == 0 {
        true
    } else {
        ser_wf(items[0]) && ser_wf_items(items.drop_first())
    }
}

/// [`ser_wf`] over object members.
pub open spec fn ser_wf_members(members: Seq<(Seq<char>, JsonData)>) -> bool
    decreases members, 1int, 0int,
{
    if members.len() == 0 {
        true
    } else {
        ser_wf_member(members[0]) && ser_wf_members(members.drop_first())
    }
}

/// [`ser_wf`] of one member's value.
pub open spec fn ser_wf_member(m: (Seq<char>, JsonData)) -> bool
    decreases m, 0int, 0int,
{
    ser_wf(m.1)
}

/// Element-wise well-formedness gives the recursive form.
pub proof fn lemma_ser_wf_items_of(items: Seq<JsonData>)
    requires
        forall|k: int| 0 <= k < items.len() ==> ser_wf(#[trigger] items[k]),
    ensures
        ser_wf_items(items),
    decreases items.len(),
{
    if items.len() > 0 {
        lemma_ser_wf_items_of(items.drop_first());
    }
}

/// Member-wise well-formedness gives the recursive form.
pub proof fn lemma_ser_wf_members_of(members: Seq<(Seq<char>, JsonData)>)
    requires
        forall|k: int| 0 <= k < members.len() ==> ser_wf((#[trigger] members[k]).1),
    ensures
        ser_wf_members(members),
    decreases members.len(),
{
    if members.len() > 0 {
        assert(forall|k: int|
            0 <= k < members.drop_first().len() ==> #[trigger] members.drop_first()[k]
                == members[k + 1]);
        lemma_ser_wf_members_of(members.drop_first());
        assert(ser_wf_member(members[0]));
    }
}

/// A serialization is never empty, and its first character is the value's
/// leading token: never whitespace, never a separator or closer.
proof fn lemma_ser_first(d: JsonData)
    requires
        ser_wf(d),
    ensures
        ser_json(d).len() >= 1,
        !is_ws(ser_json(d)[0]),
        ser_json(d)[0] != ']' && ser_json(d)[0] != '}' && ser_json(d)[0] != ',',
        ser_json(d)[0] == 'n' || ser_json(d)[0] == 't' || ser_json(d)[0] == 'f' || ser_json(
            d,
        )[0] == '"' || ser_json(d)[0] == '[' || ser_json(d)[0] == '{' || ser_json(d)[0] == '-'
            || is_digit(ser_json(d)[0]),
{
    match d {
        JsonData::Int(v) => {
            let n = if v < 0 {
                -v
            } else {
                v
            };
            lemma_dec_of_digits(n);
            if v >= 0 {
                assert(ser_json(d) == dec_of(n));
            }
        },
        _ => {},
    }
}

/// A serialized value embedded in a larger text parses to exactly that
/// value, ending where its serialization ends.
#[verifier::rlimit(100)]
#[verifier::spinoff_prover]
proof fn lemma_sp_embed_value(d: JsonData, s: Seq<char>, i: int, f: nat)
    requires
        ser_wf(d),
        0 <= i,
        i + ser_json(d).len() <= s.len(),
        s.subrange(i, i + ser_json(d).len()) == ser_json(d),
        is_follow(s, i + ser_json(d).len()),
        f >= 2 * (s.len() - i) + 2,
    ensures
        sp_value(s, i, f) == Some((d, i + ser_json(d).len())),
    decreases d, 0int, 0int,
{
    let body = ser_json(d);
    let ll = body.len();
    lemma_ser_first(d);
    assert(forall|y: int| i <= y < i + ll ==> #[trigger] s[y] == body[y - i]) by {
        assert(forall|y: int|
            i <= y < i + ll ==> #[trigger] s[y] == s.subrange(i, i + ll)[y - i]);
    }
    assert(s[i] == body[0]);
    assert(skip_ws(s, i) == i) by {
        assert(!is_ws(s[i]));
    }
    match d {
        JsonData::Null => {
            assert(s[i] == 'n' && s[i + 1] == 'u' && s[i + 2] == 'l' && s[i + 3] == 'l');
        },
        JsonData::Bool(b) => {
            if b {
                assert(s[i] == 't' && s[i + 1] == 'r' && s[i + 2] == 'u' && s[i + 3] == 'e');
            } else {
                assert(s[i] == 'f' && s[i + 1] == 'a' && s[i + 2] == 'l' && s[i + 3] == 's' && s[i
                    + 4] == 'e');
            }
        },
        JsonData::Int(v) => {
            lemma_pn_embed(v, s, i);
        },
        JsonData::Num(_) => {
            // Excluded by well-formedness.
            assert(false);
        },
        JsonData::Str(t) => {
            assert(s[i] == '"');
            assert(body == seq!['"'] + esc_string(t) + seq!['"']);
            assert(s.subrange(i + 1, i + 1 + esc_string(t).len() + 1) =~= esc_string(t) + seq![
                '"',
            ]) by {
                assert(forall|x: int|
                    0 <= x < esc_string(t).len() + 1 ==> #[trigger] s.subrange(
                        i + 1,
                        i + 1 + esc_string(t).len() + 1,
                    )[x] == s[i + 1 + x]);
            }
            lemma_ps_embed(t, s, i + 1);
        },
        JsonData::Arr(items) => {
            assert(s[i] == '[');
            assert(body == seq!['['] + ser_items(items) + seq![']']);
            if items.len() == 0 {
                assert(ser_items(items) == Seq::<char>::empty());
                assert(s[i + 1] == ']');
                assert(skip_ws(s, i + 1) == i + 1) by {
                    assert(!is_ws(s[i + 1]));
                }
                assert(items =~= Seq::<JsonData>::empty());
            } else {
                let inner = ser_items(items);
                assert(s.subrange(i + 1, i + 1 + inner.len() + 1) =~= inner + seq![']']) by {
                    assert(forall|x: int|
                        0 <= x < inner.len() + 1 ==> #[trigger] s.subrange(
                            i + 1,
                            i + 1 + inner.len() + 1,
                        )[x] == s[i + 1 + x]);
                }
                lemma_ser_items_first(items);
                lemma_ser_first(items[0]);
                assert(body[1] == inner[0]);
                assert(s[i + 1] == inner[0]);
                assert(!is_ws(s[i + 1]));
                assert(skip_ws(s, i + 1) == i + 1);
                assert(s[i + 1] != ']');
                lemma_sp_embed_items(items, s, i + 1, (f - 1) as nat);
            }
        },
        JsonData::Obj(members) => {
            assert(s[i] == '{');
            assert(body == seq!['{'] + ser_members(members) + seq!['}']);
            if members.len() == 0 {
                assert(ser_members(members) == Seq::<char>::empty());
                assert(s[i + 1] == '}');
                assert(skip_ws(s, i + 1) == i + 1) by {
                    assert(!is_ws(s[i + 1]));
                }
                assert(members =~= Seq::<(Seq<char>, JsonData)>::empty());
            } else {
                let inner = ser_members(members);
                assert(s.subrange(i + 1, i + 1 + inner.len() + 1) =~= inner + seq!['}']) by {
                    assert(forall|x: int|
                        0 <= x < inner.len() + 1 ==> #[trigger] s.subrange(
                            i + 1,
                            i + 1 + inner.len() + 1,
                        )[x] == s[i + 1 + x]);
                }
                lemma_ser_members_first(members);
                assert(body[1] == inner[0]);
                assert(s[i + 1] == inner[0]);
                assert(!is_ws(s[i + 1]));
                assert(skip_ws(s, i + 1) == i + 1);
                assert(s[i + 1] != '}');
                lemma_sp_embed_members(members, s, i + 1, (f - 1) as nat);
            }
        },
    }
}

/// The first character of serialized elements is the first element's
/// first character.
proof fn lemma_ser_items_first(items: Seq<JsonData>)
    requires
        items.len() >= 1,
        ser_wf_items(items),
    ensures
        ser_items(items).len() >= 1,
        ser_items(items)[0] == ser_json(items[0])[0],
{
    lemma_ser_first(items[0]);
}

/// Serialized members always open with the first key's quote.
proof fn lemma_ser_members_first(members: Seq<(Seq<char>, JsonData)>)
    requires
        members.len() >= 1,
    ensures
        ser_members(members).len() >= 1,
        ser_members(members)[0] == '"',
{
    assert(ser_member(members[0])[0] == '"');
}

/// Serialized elements embedded before a closing bracket parse to exactly
/// those elements.
#[verifier::rlimit(100)]
#[verifier::spinoff_prover]
proof fn lemma_sp_embed_items(items: Seq<JsonData>, s: Seq<char>, i: int, f: nat)
    requires
        items.len() >= 1,
        ser_wf_items(items),
        0 <= i,
        i + ser_items(items).len() + 1 <= s.len(),
        s.subrange(i, i + ser_items(items).len() + 1) == ser_items(items) + seq![']'],
        is_follow(s, i + ser_items(items).len() + 1),
        f >= 2 * (s.len() - i) + 3,
    ensures
        sp_arr_items(s, i, f) == Some((items, i + ser_items(items).len() + 1)),
    decreases items, 1int, 0int,
{
    let inner = ser_items(items);
    let ll = inner.len() + 1;
    assert(forall|y: int| i <= y < i + ll ==> #[trigger] s[y] == (inner + seq![']'])[y - i]) by {
        assert(forall|y: int|
            i <= y < i + ll ==> #[trigger] s[y] == s.subrange(i, i + ll)[y - i]);
    }
    let first = items[0];
    let e0 = ser_json(first);
    lemma_ser_first(first);
    if items.len() == 1 {
        assert(inner == e0);
        assert(s.subrange(i, i + e0.len()) =~= e0) by {
            assert(forall|x: int|
                0 <= x < e0.len() ==> #[trigger] s.subrange(i, i + e0.len())[x] == s[i + x]);
        }
        assert(s[i + e0.len()] == ']');
        assert(is_follow(s, i + e0.len()));
        lemma_sp_embed_value(first, s, i, (f - 1) as nat);
        let k = i + e0.len();
        assert(skip_ws(s, k) == k) by {
            assert(!is_ws(s[k]));
        }
        assert(seq![first] =~= items);
    } else {
        let rest = items.drop_first();
        assert(inner == e0 + seq![','] + ser_items(rest));
        assert(s.subrange(i, i + e0.len()) =~= e0) by {
            assert(forall|x: int|
                0 <= x < e0.len() ==> #[trigger] s.subrange(i, i + e0.len())[x] == s[i + x]);
        }
        assert(s[i + e0.len()] == ',');
        assert(is_follow(s, i + e0.len()));
        lemma_sp_embed_value(first, s, i, (f - 1) as nat);
        let k = i + e0.len();
        assert(skip_ws(s, k) == k) by {
            assert(!is_ws(s[k]));
        }
        let i2 = k + 1;
        assert(s.subrange(i2, i2 + ser_items(rest).len() + 1) =~= ser_items(rest) + seq![']'])
            by {
            assert(forall|x: int|
                0 <= x < ser_items(rest).len() + 1 ==> #[trigger] s.subrange(
                    i2,
                    i2 + ser_items(rest).len() + 1,
                )[x] == s[i2 + x]);
        }
        lemma_sp_embed_items(rest, s, i2, (f - 1) as nat);
        assert(seq![first] + rest =~= items);
    }
}

/// One serialized member embedded in a larger text: the key string, the
/// colon, and the value parse exactly as written.
#[verifier::rlimit(100)]
#[verifier::spinoff_prover]
proof fn lemma_member_parse(m: (Seq<char>, JsonData), s: Seq<char>, i: int, fv: nat)
    requires
        ser_wf_member(m),
        0 <= i,
        i + ser_member(m).len() <= s.len(),
        s.subrange(i, i + ser_member(m).len()) == ser_member(m),
        is_follow(s, i + ser_member(m).len()),
        fv >= 2 * (s.len() - i) + 2,
    ensures
        s[i] == '"',
        !is_ws(s[i]),
        sp_string(s, i + 1) == Some((m.0, i + 2 + esc_string(m.0).len())),
        s[i + 2 + esc_string(m.0).len()] == ':',
        !is_ws(s[i + 2 + esc_string(m.0).len()]),
        sp_value(s, i + 3 + esc_string(m.0).len(), fv) == Some((m.1, i + ser_member(m).len())),
    decreases m, 0int, 0int,
{
    let key = m.0;
    let val = m.1;
    let m0 = ser_member(m);
    let e0 = ser_json(val);
    let ll = m0.len();
    assert(m0 == seq!['"'] + esc_string(key) + seq!['"', ':'] + e0);
    assert(forall|y: int| i <= y < i + ll ==> #[trigger] s[y] == m0[y - i]) by {
        assert(forall|y: int|
            i <= y < i + ll ==> #[trigger] s[y] == s.subrange(i, i + ll)[y - i]);
    }
    assert(s[i] == '"');
    let kq = i + 2 + esc_string(key).len();
    assert(s.subrange(i + 1, kq) =~= esc_string(key) + seq!['"']) by {
        assert(forall|x: int|
            0 <= x < esc_string(key).len() + 1 ==> #[trigger] s.subrange(i + 1, kq)[x] == s[i + 1
                + x]);
    }
    lemma_ps_embed(key, s, i + 1);
    assert(s[kq] == ':');
    let vstart = kq + 1;
    let vend = i + ll;
    assert(s.subrange(vstart, vend) =~= e0) by {
        assert(forall|x: int|
            0 <= x < e0.len() ==> #[trigger] s.subrange(vstart, vend)[x] == s[vstart + x]);
    }
    lemma_sp_embed_value(val, s, vstart, fv);
}

/// How a member sequence and its closer lie in the text: the first member
/// first, then a comma and the rest, or the closing brace.
#[verifier::rlimit(100)]
#[verifier::spinoff_prover]
proof fn lemma_members_layout(members: Seq<(Seq<char>, JsonData)>, s: Seq<char>, i: int)
    requires
        members.len() >= 1,
        0 <= i,
        i + ser_members(members).len() + 1 <= s.len(),
        s.subrange(i, i + ser_members(members).len() + 1) == ser_members(members) + seq!['}'],
    ensures
        i + ser_member(members[0]).len() < s.len(),
        s.subrange(i, i + ser_member(members[0]).len()) == ser_member(members[0]),
        members.len() == 1 ==> s[i + ser_member(members[0]).len()] == '}' && i + ser_member(
            members[0],
        ).len() + 1 == i + ser_members(members).len() + 1,
        members.len() > 1 ==> s[i + ser_member(members[0]).len()] == ',' && s.subrange(
            i + ser_member(members[0]).len() + 1,
            i + ser_members(members).len() + 1,
        ) == ser_members(members.drop_first()) + seq!['}'],
{
    let inner = ser_members(members);
    let ll = inner.len() + 1;
    let m0 = ser_member(members[0]);
    assert(forall|y: int| i <= y < i + ll ==> #[trigger] s[y] == (inner + seq!['}'])[y - i]) by {
        assert(forall|y: int|
            i <= y < i + ll ==> #[trigger] s[y] == s.subrange(i, i + ll)[y - i]);
    }
    if members.len() == 1 {
        assert(inner == m0);
        assert(s.subrange(i, i + m0.len()) =~= m0) by {
            assert(forall|x: int|
                0 <= x < m0.len() ==> #[trigger] s.subrange(i, i + m0.len())[x] == s[i + x]);
        }
        assert(s[i + m0.len()] == '}');
    } else {
        let rest = members.drop_first();
        assert(inner == m0 + seq![','] + ser_members(rest));
        assert(s.subrange(i, i + m0.len()) =~= m0) by {
            assert(forall|x: int|
                0 <= x < m0.len() ==> #[trigger] s.subrange(i, i + m0.len())[x] == s[i + x]);
        }
        assert(s[i + m0.len()] == ',');
        let i2 = i + m0.len() + 1;
        assert(s.subrange(i2, i + ll) =~= ser_members(rest) + seq!['}']) by {
            assert(forall|x: int|
                0 <= x < ser_members(rest).len() + 1 ==> #[trigger] s.subrange(i2, i + ll)[x]
                    == s[i2 + x]);
        }
    }
}

/// Serialized members embedded before a closing brace parse to exactly
/// those members.
#[verifier::rlimit(100)]
#[verifier::spinoff_prover]
proof fn lemma_sp_embed_members(members: Seq<(Seq<char>, JsonData)>, s: Seq<char>, i: int, f: nat)
    requires
        members.len() >= 1,
        ser_wf_members(members),
        0 <= i,
        i + ser_members(members).len() + 1 <= s.len(),
        s.subrange(i, i + ser_members(members).len() + 1) == ser_members(members) + seq!['}'],
        is_follow(s, i + ser_members(members).len() + 1),
        f >= 2 * (s.len() - i) + 3,
    ensures
        sp_obj_items(s, i, f) == Some((members, i + ser_members(members).len() + 1)),
    decreases members, 1int, 0int,
{
    lemma_members_layout(members, s, i);
    let first = members[0];
    let m0 = ser_member(first);
    assert(ser_wf_member(members[0]));
    let vend = i + m0.len();
    assert(is_follow(s, vend));
    lemma_member_parse(first, s, i, (f - 1) as nat);
    assert(skip_ws(s, i) == i);
    let kq = i + 2 + esc_string(first.0).len();
    assert(skip_ws(s, kq) == kq);
    assert(skip_ws(s, vend) == vend) by {
        assert(!is_ws(s[vend]));
    }
    if members.len() == 1 {
        assert(seq![(first.0, first.1)] =~= members);
    } else {
        let rest = members.drop_first();
        let i2 = vend + 1;
        lemma_sp_embed_members(rest, s, i2, (f - 1) as nat);
        assert(seq![(first.0, first.1)] + rest =~= members);
    }
}

/// The full round trip of the grammar: serializing any well-formed value
/// and parsing the text back yields exactly that value.
pub proof fn lemma_json_roundtrip(d: JsonData)
    requires
        ser_wf(d),
    ensures
        json_parsed(ser_json(d)) == Some(d),
{
    let s = ser_json(d);
    lemma_ser_first(d);
    assert(s.subrange(0, s.len() as int) =~= s);
    lemma_sp_embed_value(d, s, 0, parse_fuel(s, 0));
    assert(skip_ws(s, s.len() as int) == s.len());
}

/// The first member with the given key, if any (later duplicates are
/// shadowed).
pub open spec fn obj_lookup(ms: Seq<(Seq<char>, JsonData)>, key: Seq<char>) -> Option<JsonData>
    decreases ms.len(),
{
    if ms.len() == 0 {
        None
    } else if ms[0].0 == key {
        Some(ms[0].1)
    } else {
        obj_lookup(ms.drop_first(), key)
    }
}

/// Looking up the key of one member finds it, when no earlier member
/// shares that key.
pub proof fn lemma_obj_lookup_at(ms: Seq<(Seq<char>, JsonData)>, k: int)
    requires
        0 <= k < ms.len(),
        forall|t: int| 0 <= t < k ==> ms[t].0 != ms[k].0,
    ensures
        obj_lookup(ms, ms[k].0) == Some(ms[k].1),
    decreases k,
{
    if k > 0 {
        lemma_obj_lookup_at(ms.drop_first(), k - 1);
        assert(forall|t: int| 0 <= t < k - 1 ==> ms.drop_first()[t] == ms[t + 1]);
    }
}

/// Looking a key up that no member carries finds nothing.
pub proof fn lemma_obj_lookup_absent(ms: Seq<(Seq<char>, JsonData)>, key: Seq<char>)
    requires
        forall|t: int| 0 <= t < ms.len() ==> ms[t].0 != key,
    ensures
        obj_lookup(ms, key) is None,
    decreases ms.len(),
{
    if ms.len() > 0 {
        lemma_obj_lookup_absent(ms.drop_first(), key);
    }
}

/// Turning string contents into string values and reading them back.
pub proof fn lemma_all_strings_of_strs(ss: Seq<Seq<char>>)
    ensures
        all_strings(ss.map_values(|s: Seq<char>| JsonData::Str(s))) == Some(ss),
    decreases ss.len(),
{
    let js = ss.map_values(|s: Seq<char>| JsonData::Str(s));
    if ss.len() == 0 {
        assert(ss =~= Seq::<Seq<char>>::empty());
    } else {
        lemma_all_strings_of_strs(ss.drop_first());
        assert(js.drop_first() =~= ss.drop_first().map_values(|s: Seq<char>| JsonData::Str(s)));
        assert(js[0] == JsonData::Str(ss[0]));
        assert(seq![ss[0]] + ss.drop_first() =~= ss);
    }
}

/// The string value under a key, if present and a string.
pub open spec fn str_field(ms: Seq<(Seq<char>, JsonData)>, key: Seq<char>) -> Option<Seq<char>> {
    match obj_lookup(ms, key) {
        Some(JsonData::Str(s)) => Some(s),
        _ => None,
    }
}

/// The integer value under a key, if present and an integer.
pub open spec fn int_field(ms: Seq<(Seq<char>, JsonData)>, key: Seq<char>) -> Option<int> {
    match obj_lookup(ms, key) {
        Some(JsonData::Int(v)) => Some(v),
        _ => None,
    }
}

/// The boolean value under a key, if present and a boolean.
pub open spec fn bool_field(ms: Seq<(Seq<char>, JsonData)>, key: Seq<char>) -> Option<bool> {
    match obj_lookup(ms, key) {
        Some(JsonData::Bool(b)) => Some(b),
        _ => None,
    }
}

/// The members of the object under a key, if present and an object.
pub open spec fn obj_field(ms: Seq<(Seq<char>, JsonData)>, key: Seq<char>) -> Option<
    Seq<(Seq<char>, JsonData)>,
> {
    match obj_lookup(ms, key) {
        Some(JsonData::Obj(inner)) => Some(inner),
        _ => None,
    }
}

/// The elements of the array under a key, if present and an array.
pub open spec fn arr_field(ms: Seq<(Seq<char>, JsonData)>, key: Seq<char>) -> Option<
    Seq<JsonData>,
> {
    match obj_lookup(ms, key) {
        Some(JsonData::Arr(items)) => Some(items),
        _ => None,
    }
}

/// Whether every element is a string, and their contents.
pub open spec fn all_strings(items: Seq<JsonData>) -> Option<Seq<Seq<char>>>
    decreases items.len(),
{
    if items.len() == 0 {
        Some(Seq::empty())
    } else {
        match items[0] {
            JsonData::Str(s) => match all_strings(items.drop_first()) {
                Some(rest) => Some(seq![s] + rest),
                None => None,
            },
            _ => None,
        }
    }
}

/// Finds the member with the given key.
pub fn obj_get<'a>(members: &'a Vec<Member>, key: &str) -> (r: Option<&'a Json>)
    ensures
        match r {
            Some(j) => obj_lookup(jmodel_members_vec(*members), key@) == Some(jmodel(*j)),
            None => obj_lookup(jmodel_members_vec(*members), key@) is None,
        },
{
    proof {
        lemma_jmodel_members_seq(members@);
    }
    let key_string = key.to_owned();
    let r = obj_get_from(members, &key_string, 0);
    proof {
        assert(members@.skip(0) =~= members@);
    }
    r
}

fn obj_get_from<'a>(members: &'a Vec<Member>, key: &String, start: usize) -> (r: Option<&'a Json>)
    requires
        start <= members.len(),
    ensures
        match r {
            Some(j) => obj_lookup(jmodel_members_seq(members@.skip(start as int)), key@) == Some(
                jmodel(*j),
            ),
            None => obj_lookup(jmodel_members_seq(members@.skip(start as int)), key@) is None,
        },
    decreases members.len() - start,
{
    proof {
        lemma_jmodel_members_seq(members@.skip(start as int));
    }
    if start == members.len() {
        assert(jmodel_members_seq(members@.skip(start as int)) =~= Seq::<
            (Seq<char>, JsonData),
        >::empty());
        return None;
    }
    let ghost tail = jmodel_members_seq(members@.skip(start as int));
    proof {
        assert(members@.skip(start as int)[0] == members@[start as int]);
        assert(tail[0] == jmodel_member(members@[start as int]));
        assert(tail.drop_first() =~= jmodel_members_seq(members@.skip(start as int + 1))) by {
            assert(members@.skip(start as int).drop_first() =~= members@.skip(start as int + 1));
        }
    }
    if members[start].key.eq(key) {
        Some(&members[start].value)
    } else {
        obj_get_from(members, key, start + 1)
    }
}

/// The string under a key, cloned out of the object.
pub fn get_str(members: &Vec<Member>, key: &str) -> (r: Option<String>)
    ensures
        match r {
            Some(s) => str_field(jmodel_members_vec(*members), key@) == Some(s@),
            None => str_field(jmodel_members_vec(*members), key@) is None,
        },
{
    match obj_get(members, key) {
        Some(j) => match j {
            Json::Str(s) => Some(s.clone()),
            _ => None,
        },
        None => None,
    }
}

/// The integer under a key.
pub fn get_i64(members: &Vec<Member>, key: &str) -> (r: Option<i64>)
    ensures
        match r {
            Some(n) => int_field(jmodel_members_vec(*members), key@) == Some(n as int),
            None => int_field(jmodel_members_vec(*members), key@) is None,
        },
{
    match obj_get(members, key) {
        Some(j) => match j {
            Json::Int(n) => Some(*n),
            _ => None,
        },
        None => None,
    }
}

/// The boolean under a key.
pub fn get_bool(members: &Vec<Member>, key: &str) -> (r: Option<bool>)
    ensures
        match r {
            Some(b) => bool_field(jmodel_members_vec(*members), key@) == Some(b),
            None => bool_field(jmodel_members_vec(*members), key@) is None,
        },
{
    match obj_get(members, key) {
        Some(j) => match j {
            Json::Bool(b) => Some(*b),
            _ => None,
        },
        None => None,
    }
}

/// The object under a key.
pub fn get_obj<'a>(members: &'a Vec<Member>, key: &str) -> (r: Option<&'a Vec<Member>>)
    ensures
        match r {
            Some(inner) => obj_field(jmodel_members_vec(*members), key@) == Some(
                jmodel_members_vec(*inner),
            ),
            None => obj_field(jmodel_members_vec(*members), key@) is None,
        },
{
    match obj_get(members, key) {
        Some(j) => match j {
            Json::Obj(inner) => Some(inner),
            _ => None,
        },
        None => None,
    }
}

/// The array of strings under a key, cloned out of the object.
pub fn get_str_array(members: &Vec<Member>, key: &str) -> (r: Option<Vec<String>>)
    ensures
        match r {
            Some(items) => match arr_field(jmodel_members_vec(*members), key@) {
                Some(elems) => all_strings(elems) == Some(items.deep_view()),
                None => false,
            },
            None => match arr_field(jmodel_members_vec(*members), key@) {
                Some(elems) => all_strings(elems) is None,
                None => true,
            },
        },
{
    match obj_get(members, key) {
        Some(j) => match j {
            Json::Arr(elems) => {
                proof {
                    lemma_jmodel_seq(elems@);
                }
                proof {
                    assert(arr_field(jmodel_members_vec(*members), key@) == Some(
                        jmodel_seq(elems@),
                    ));
                }
                let mut out: Vec<String> = Vec::new();
                let mut i: usize = 0;
                while i < elems.len()
                    invariant
                        arr_field(jmodel_members_vec(*members), key@) == Some(jmodel_seq(elems@)),
                        i <= elems.len(),
                        jmodel_seq(elems@).len() == elems@.len(),
                        forall|k: int|
                            0 <= k < elems@.len() ==> jmodel_seq(elems@)[k] == jmodel(elems@[k]),
                        forall|k: int| 0 <= k < i ==> jmodel_seq(elems@)[k] is Str,
                        out.deep_view().len() == i,
                        forall|k: int|
                            0 <= k < i ==> jmodel_seq(elems@)[k] == JsonData::Str(
                                #[trigger] out.deep_view()[k],
                            ),
                    decreases elems.len() - i,
                {
                    match &elems[i] {
                        Json::Str(s) => {
                            let ghost prev = out.deep_view();
                            out.push(s.clone());
                            proof {
                                assert(forall|t: int|
                                    0 <= t < prev.len() ==> #[trigger] out.deep_view()[t]
                                        == prev[t]);
                                assert(out.deep_view()[prev.len() as int] == s@);
                            }
                        },
                        _ => {
                            proof {
                                assert(!(jmodel(elems@[i as int]) is Str));
                                lemma_all_strings_bad(jmodel_seq(elems@), i as int);
                            }
                            return None;
                        },
                    }
                    i += 1;
                }
                proof {
                    lemma_all_strings_full(jmodel_seq(elems@), out.deep_view());
                }
                Some(out)
            },
            _ => None,
        },
        None => None,
    }
}

proof fn lemma_all_strings_bad(items: Seq<JsonData>, i: int)
    requires
        0 <= i < items.len(),
        !(items[i] is Str),
    ensures
        all_strings(items) is None,
    decreases i,
{
    if items.len() > 0 {
        match items[0] {
            JsonData::Str(_) => {
                lemma_all_strings_bad(items.drop_first(), i - 1);
            },
            _ => {},
        }
    }
}

proof fn lemma_all_strings_full(items: Seq<JsonData>, out: Seq<Seq<char>>)
    requires
        out.len() == items.len(),
        forall|k: int| 0 <= k < items.len() ==> items[k] == JsonData::Str(#[trigger] out[k]),
    ensures
        all_strings(items) == Some(out),
    decreases items.len(),
{
    if items.len() == 0 {
        assert(out =~= Seq::<Seq<char>>::empty());
    } else {
        lemma_all_strings_full(items.drop_first(), out.drop_first());
        assert(items[0] == JsonData::Str(out[0]));
        assert(all_strings(items) == Some(seq![out[0]] + out.drop_first()));
        assert(seq![out[0]] + out.drop_first() =~= out);
    }
}

} // verus!
