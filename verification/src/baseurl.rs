//! The base URL of an API endpoint, modelled as scheme, host, optional port
//! and path segments.
//!
//! Parsing accepts `http://` or `https://`, a non-empty host (letters are
//! lowercased), an optional decimal port, and optional path segments of
//! unreserved characters; a query or fragment part is rejected, as the
//! builder adds the query itself.  Rendering is exact: scheme, `://`, host,
//! `:port` when a port was given, and `/`-prefixed segments (a bare `/` for
//! an empty path).  Unlike general-purpose URL libraries, a default port is
//! kept verbatim rather than elided.

use vstd::prelude::*;
use crate::error::{AriError, UrlFault};
use crate::percent::is_unreserved;
use crate::text::{
    chars_of, dec_of, dec_val, digit_val, is_digit, lemma_dec_val_nonneg, lemma_scan_bounds,
    lemma_scan_chars, render_dec_u64, scan, string_of,
};

verus! {

/// Relies on `char::from_u32`: the result is `Some` exactly for Unicode
/// scalar values, and then holds the character with that value.
pub assume_specification[ char::from_u32 ](v: u32) -> (r: Option<char>)
    ensures
        r is Some <==> vstd::utf8::is_scalar(v),
        r matches Some(c) ==> c as u32 == v,
;

/// The scheme of a base URL; only these two are supported.
#[derive(Clone, Copy, Debug, PartialEq, Eq, Structural)]
pub enum UrlScheme {
    Http,
    Https,
}

/// A parsed base URL.
pub struct BaseUrl {
    pub scheme: UrlScheme,
    pub host: String,
    pub port: Option<u16>,
    pub path: Vec<String>,
}

/// The mathematical model of a base URL.
pub ghost struct BaseUrlModel {
    pub scheme: UrlScheme,
    pub host: Seq<char>,
    pub port: Option<u16>,
    pub path: Seq<Seq<char>>,
}

impl View for BaseUrl {
    type V = BaseUrlModel;

    open spec fn view(&self) -> BaseUrlModel {
        BaseUrlModel {
            scheme: self.scheme,
            host: self.host@,
            port: self.port,
            path: self.path.deep_view(),
        }
    }
}

/// Characters a (lowercased) host may hold.
pub open spec fn host_char(c: char) -> bool {
    ('a' <= c && c <= 'z') || ('0' <= c && c <= '9') || c == '.' || c == '-' || c == '_'
}

/// Characters accepted in the host part of the input (letters of either case).
pub open spec fn host_input_char(c: char) -> bool {
    host_char(c) || ('A' <= c && c <= 'Z')
}

/// ASCII lowercasing of one character.
pub open spec fn lower_char(c: char) -> char {
    if 'A' <= c && c <= 'Z' {
        (c as u32 + 32) as char
    } else {
        c
    }
}

/// A valid path segment: non-empty, unreserved characters only.
pub open spec fn seg_ok(seg: Seq<char>) -> bool {
    seg.len() > 0 && forall|k: int| 0 <= k < seg.len() ==> is_unreserved(seg[k])
}

/// Well-formedness of a base URL model.
pub open spec fn wf_base(m: BaseUrlModel) -> bool {
    &&& m.host.len() > 0
    &&& forall|k: int| 0 <= k < m.host.len() ==> host_char(m.host[k])
    &&& forall|k: int| 0 <= k < m.path.len() ==> seg_ok(m.path[k])
}

/// The scan predicate for host characters.
pub open spec fn host_pred() -> spec_fn(char) -> bool {
    |c: char| host_input_char(c)
}

/// The scan predicate for decimal digits.
pub open spec fn digit_pred() -> spec_fn(char) -> bool {
    |c: char| is_digit(c)
}

/// The scan predicate for path segment characters.
pub open spec fn seg_pred() -> spec_fn(char) -> bool {
    |c: char| is_unreserved(c)
}

/// `http://`.
pub open spec fn http_prefix() -> Seq<char> {
    seq!['h', 't', 't', 'p', ':', '/', '/']
}

/// `https://`.
pub open spec fn https_prefix() -> Seq<char> {
    seq!['h', 't', 't', 'p', 's', ':', '/', '/']
}

/// Whether `s` starts with the prefix `p`.
pub open spec fn starts_with(s: Seq<char>, p: Seq<char>) -> bool {
    s.len() >= p.len() && s.take(p.len() as int) == p
}

/// The path segments read from position `i`, which is either the end of the
/// input or a `/`.
pub open spec fn parse_path_spec(s: Seq<char>, i: int) -> Result<Seq<Seq<char>>, UrlFault>
    decreases s.len() - i,
    when 0 <= i <= s.len()
    via parse_path_spec_dec
{
    if i == s.len() {
        Ok(Seq::empty())
    } else if s[i] == '?' || s[i] == '#' {
        Err(UrlFault::UnexpectedPart)
    } else if s[i] != '/' {
        Err(UrlFault::BadHost)
    } else {
        let j = scan(s, i + 1, seg_pred());
        if j == i + 1 {
            if j == s.len() {
                // A trailing slash closes the path.
                Ok(Seq::empty())
            } else if s[j] == '?' || s[j] == '#' {
                Err(UrlFault::UnexpectedPart)
            } else {
                Err(UrlFault::BadSegment)
            }
        } else {
            match parse_path_spec(s, j) {
                Ok(rest) => Ok(seq![s.subrange(i + 1, j)] + rest),
                Err(f) => Err(f),
            }
        }
    }
}

#[via_fn]
proof fn parse_path_spec_dec(s: Seq<char>, i: int) {
    if 0 <= i < s.len() {
        lemma_scan_bounds(s, i + 1, seg_pred());
    }
}

/// The host, port and path read from position `i` (just after the scheme).
pub open spec fn parse_authority_spec(s: Seq<char>, i: int, sch: UrlScheme) -> Result<
    BaseUrlModel,
    UrlFault,
>
    recommends
        0 <= i <= s.len(),
{
    let j = scan(s, i, host_pred());
    if j == i {
        Err(UrlFault::BadHost)
    } else {
        let host = s.subrange(i, j).map_values(|c: char| lower_char(c));
        if j == s.len() {
            Ok(BaseUrlModel { scheme: sch, host, port: None, path: Seq::empty() })
        } else if s[j] == ':' {
            let k = scan(s, j + 1, digit_pred());
            if k == j + 1 {
                Err(UrlFault::BadPort)
            } else if dec_val(s.subrange(j + 1, k)) > 65535 {
                Err(UrlFault::BadPort)
            } else {
                match parse_path_spec(s, k) {
                    Ok(path) => Ok(
                        BaseUrlModel {
                            scheme: sch,
                            host,
                            port: Some(dec_val(s.subrange(j + 1, k)) as u16),
                            path,
                        },
                    ),
                    Err(f) => Err(f),
                }
            }
        } else {
            match parse_path_spec(s, j) {
                Ok(path) => Ok(BaseUrlModel { scheme: sch, host, port: None, path }),
                Err(f) => Err(f),
            }
        }
    }
}

/// What parsing a base URL string yields: the model, or the fault.
pub open spec fn parse_base_spec(s: Seq<char>) -> Result<BaseUrlModel, UrlFault> {
    if starts_with(s, https_prefix()) {
        parse_authority_spec(s, 8, UrlScheme::Https)
    } else if starts_with(s, http_prefix()) {
        parse_authority_spec(s, 7, UrlScheme::Http)
    } else {
        Err(UrlFault::UnsupportedScheme)
    }
}

/// The rendering of the scheme for REST use.
pub open spec fn scheme_rendered(s: UrlScheme) -> Seq<char> {
    match s {
        UrlScheme::Http => seq!['h', 't', 't', 'p'],
        UrlScheme::Https => seq!['h', 't', 't', 'p', 's'],
    }
}

/// The rendering of the scheme for the event stream: `http` upgrades to
/// `ws`, `https` to `wss`.
pub open spec fn ws_scheme_rendered(s: UrlScheme) -> Seq<char> {
    match s {
        UrlScheme::Http => seq!['w', 's'],
        UrlScheme::Https => seq!['w', 's', 's'],
    }
}

/// The rendering of the optional port: `:` and decimal digits, or nothing.
pub open spec fn port_rendered(p: Option<u16>) -> Seq<char> {
    match p {
        Option::None => Seq::empty(),
        Option::Some(n) => seq![':'] + dec_of(n as int),
    }
}

/// The rendering of the path: one `/` before each segment.
pub open spec fn path_rendered(path: Seq<Seq<char>>) -> Seq<char>
    decreases path.len(),
{
    if path.len() == 0 {
        Seq::empty()
    } else {
        seq!['/'] + path[0] + path_rendered(path.drop_first())
    }
}

/// Host, port and path; an empty path renders as a bare `/`.
pub open spec fn authority_rendered(m: BaseUrlModel) -> Seq<char> {
    m.host + port_rendered(m.port) + if m.path.len() == 0 {
        seq!['/']
    } else {
        path_rendered(m.path)
    }
}

/// The full rendering of a base URL.
pub open spec fn base_rendered(m: BaseUrlModel) -> Seq<char> {
    scheme_rendered(m.scheme) + seq![':', '/', '/'] + authority_rendered(m)
}

/// The full rendering with the scheme upgraded for the event stream.
pub open spec fn ws_rendered(m: BaseUrlModel) -> Seq<char> {
    ws_scheme_rendered(m.scheme) + seq![':', '/', '/'] + authority_rendered(m)
}

fn host_input_char_exec(c: char) -> (r: bool)
    ensures
        r == host_input_char(c),
{
    ('a' <= c && c <= 'z') || ('0' <= c && c <= '9') || c == '.' || c == '-' || c == '_' || ('A'
        <= c && c <= 'Z')
}

fn lower_char_exec(c: char) -> (r: char)
    ensures
        r == lower_char(c),
{
    if 'A' <= c && c <= 'Z' {
        proof {
            vstd::utf8::char_is_scalar(c);
        }
        let u: u32 = (c as u32) + 32;
        let r = char::from_u32(u).unwrap();
        proof {
            vstd::utf8::char_u32_cast(r, u);
        }
        r
    } else {
        c
    }
}

fn scan_host(chars: &Vec<char>, start: usize) -> (r: usize)
    requires
        start <= chars.len(),
    ensures
        r == scan(chars@, start as int, host_pred()),
        start <= r <= chars.len(),
    decreases chars.len() - start,
{
    if start < chars.len() && host_input_char_exec(chars[start]) {
        scan_host(chars, start + 1)
    } else {
        start
    }
}

fn scan_digits(chars: &Vec<char>, start: usize) -> (r: usize)
    requires
        start <= chars.len(),
    ensures
        r == scan(chars@, start as int, digit_pred()),
        start <= r <= chars.len(),
    decreases chars.len() - start,
{
    if start < chars.len() && '0' <= chars[start] && chars[start] <= '9' {
        scan_digits(chars, start + 1)
    } else {
        start
    }
}

fn scan_seg(chars: &Vec<char>, start: usize) -> (r: usize)
    requires
        start <= chars.len(),
    ensures
        r == scan(chars@, start as int, seg_pred()),
        start <= r <= chars.len(),
    decreases chars.len() - start,
{
    if start < chars.len() && crate::percent::is_unreserved_exec(chars[start]) {
        scan_seg(chars, start + 1)
    } else {
        start
    }
}

/// The port value of a digit run, or the fault when it is out of range.
fn port_value(chars: &Vec<char>, from: usize, to: usize) -> (r: Option<u16>)
    requires
        from <= to <= chars.len(),
        forall|k: int| from <= k < to ==> is_digit(chars@[k]),
    ensures
        match r {
            Some(p) => dec_val(chars@.subrange(from as int, to as int)) == p as int,
            None => dec_val(chars@.subrange(from as int, to as int)) > 65535,
        },
{
    let ghost digits = chars@.subrange(from as int, to as int);
    let mut val: u64 = 0;
    let mut i: usize = from;
    while i < to
        invariant
            from <= i <= to <= chars.len(),
            forall|k: int| from <= k < to ==> is_digit(chars@[k]),
            digits == chars@.subrange(from as int, to as int),
            val <= 65535 ==> dec_val(digits.take(i - from)) == val as int,
            val > 65535 ==> dec_val(digits.take(i - from)) > 65535 && val <= 655359,
        decreases to - i,
    {
        let c = chars[i];
        let d: u64 = (c as u32 as u64) - ('0' as u32 as u64);
        proof {
            assert(digits.take(i + 1 - from).drop_last() =~= digits.take(i - from));
            assert(digits.take(i + 1 - from).last() == chars@[i as int]);
            lemma_dec_val_nonneg(digits.take(i - from));
        }
        if val <= 65535 {
            val = val * 10 + d;
        }
        i += 1;
    }
    assert(digits.take(to - from) =~= digits);
    if val <= 65535 {
        Some(val as u16)
    } else {
        None
    }
}

/// Every model the path parser accepts has well-formed segments.
proof fn lemma_parse_path_wf(s: Seq<char>, i: int)
    requires
        0 <= i <= s.len(),
    ensures
        parse_path_spec(s, i) matches Ok(path) ==> forall|k: int|
            0 <= k < path.len() ==> seg_ok(path[k]),
    decreases s.len() - i,
{
    if i == s.len() {
    } else if s[i] == '?' || s[i] == '#' || s[i] != '/' {
    } else {
        let j = scan(s, i + 1, seg_pred());
        lemma_scan_bounds(s, i + 1, seg_pred());
        lemma_scan_chars(s, i + 1, seg_pred());
        if j != i + 1 {
            lemma_parse_path_wf(s, j);
            match parse_path_spec(s, j) {
                Ok(rest) => {
                    let seg = s.subrange(i + 1, j);
                    assert(forall|k: int| 0 <= k < seg.len() ==> is_unreserved(seg[k]));
                    assert(seg_ok(seg));
                    let path = seq![seg] + rest;
                    assert(forall|k: int| 0 <= k < path.len() ==> seg_ok(path[k])) by {
                        assert(path[0] == seg);
                        assert(forall|k: int| 1 <= k < path.len() ==> path[k] == rest[k - 1]);
                    }
                },
                Err(_) => {},
            }
        }
    }
}

fn parse_path(chars: &Vec<char>, i: usize) -> (r: Result<Vec<String>, AriError>)
    requires
        i <= chars.len(),
    ensures
        match r {
            Ok(path) => parse_path_spec(chars@, i as int) == Ok::<Seq<Seq<char>>, UrlFault>(
                path.deep_view(),
            ),
            Err(e) => match e {
                AriError::UrlParse(f) => parse_path_spec(chars@, i as int) == Err::<
                    Seq<Seq<char>>,
                    UrlFault,
                >(f),
                _ => false,
            },
        },
    decreases chars.len() - i,
{
    if i == chars.len() {
        let path: Vec<String> = Vec::new();
        assert(path.deep_view() =~= Seq::<Seq<char>>::empty());
        return Ok(path);
    }
    let c = chars[i];
    if c == '?' || c == '#' {
        return Err(AriError::UrlParse(UrlFault::UnexpectedPart));
    }
    if c != '/' {
        return Err(AriError::UrlParse(UrlFault::BadHost));
    }
    let j = scan_seg(chars, i + 1);
    if j == i + 1 {
        if j == chars.len() {
            let path: Vec<String> = Vec::new();
            assert(path.deep_view() =~= Seq::<Seq<char>>::empty());
            return Ok(path);
        }
        if chars[j] == '?' || chars[j] == '#' {
            return Err(AriError::UrlParse(UrlFault::UnexpectedPart));
        }
        return Err(AriError::UrlParse(UrlFault::BadSegment));
    }
    let mut seg: Vec<char> = Vec::new();
    let mut k: usize = i + 1;
    while k < j
        invariant
            i + 1 <= k <= j <= chars.len(),
            seg@ == chars@.subrange(i + 1, k as int),
        decreases j - k,
    {
        seg.push(chars[k]);
        assert(seg@ =~= chars@.subrange(i + 1, k + 1));
        k += 1;
    }
    let seg_string = string_of(seg);
    match parse_path(chars, j) {
        Ok(rest) => {
            let mut path: Vec<String> = Vec::new();
            path.push(seg_string);
            let mut rest = rest;
            let ghost rest_view = rest.deep_view();
            path.append(&mut rest);
            assert(path.deep_view() =~= seq![chars@.subrange(i as int + 1, j as int)] + rest_view)
                by {
                assert(path.deep_view().len() == 1 + rest_view.len());
                assert(path.deep_view()[0] == chars@.subrange(i as int + 1, j as int));
                assert(forall|t: int|
                    0 <= t < rest_view.len() ==> path.deep_view()[t + 1] == rest_view[t]);
            }
            Ok(path)
        },
        Err(e) => Err(e),
    }
}

impl BaseUrl {
    /// Parses a base URL string.
    ///
    /// Returns the parsed URL exactly when the string is a supported scheme
    /// followed by host, optional port and optional well-formed path;
    /// otherwise the configuration fault the string exhibits.
    pub fn parse(s: &str) -> (r: Result<BaseUrl, AriError>)
        ensures
            match r {
                Ok(b) => parse_base_spec(s@) == Ok::<BaseUrlModel, UrlFault>(b@) && wf_base(b@),
                Err(e) => match e {
                    AriError::UrlParse(f) => parse_base_spec(s@) == Err::<BaseUrlModel, UrlFault>(
                        f,
                    ),
                    _ => false,
                },
            },
    {
        let chars = chars_of(s);
        let is_https = chars.len() >= 8 && {
            let p = chars[0] == 'h' && chars[1] == 't' && chars[2] == 't' && chars[3] == 'p'
                && chars[4] == 's' && chars[5] == ':' && chars[6] == '/' && chars[7] == '/';
            proof {
                if p {
                    assert(chars@.take(8) =~= https_prefix());
                } else {
                    assert(chars@.take(8) != https_prefix()) by {
                        if chars@.take(8) == https_prefix() {
                            assert(chars@[0] == 'h' && chars@[1] == 't' && chars@[2] == 't'
                                && chars@[3] == 'p' && chars@[4] == 's' && chars@[5] == ':'
                                && chars@[6] == '/' && chars@[7] == '/');
                        }
                    }
                }
            }
            p
        };
        proof {
            if chars@.len() < 8 {
                assert(!starts_with(chars@, https_prefix()));
            }
        }
        if is_https {
            Self::parse_authority(&chars, 8, UrlScheme::Https)
        } else {
            let is_http = chars.len() >= 7 && {
                let p = chars[0] == 'h' && chars[1] == 't' && chars[2] == 't' && chars[3] == 'p'
                    && chars[4] == ':' && chars[5] == '/' && chars[6] == '/';
                proof {
                    if p {
                        assert(chars@.take(7) =~= http_prefix());
                    } else {
                        assert(chars@.take(7) != http_prefix()) by {
                            if chars@.take(7) == http_prefix() {
                                assert(chars@[0] == 'h' && chars@[1] == 't' && chars@[2] == 't'
                                    && chars@[3] == 'p' && chars@[4] == ':' && chars@[5] == '/'
                                    && chars@[6] == '/');
                            }
                        }
                    }
                }
                p
            };
            proof {
                if chars@.len() < 7 {
                    assert(!starts_with(chars@, http_prefix()));
                }
            }
            if is_http {
                Self::parse_authority(&chars, 7, UrlScheme::Http)
            } else {
                Err(AriError::UrlParse(UrlFault::UnsupportedScheme))
            }
        }
    }

    fn parse_authority(chars: &Vec<char>, i: usize, sch: UrlScheme) -> (r: Result<
        BaseUrl,
        AriError,
    >)
        requires
            i <= chars.len(),
        ensures
            match r {
                Ok(b) => parse_authority_spec(chars@, i as int, sch) == Ok::<
                    BaseUrlModel,
                    UrlFault,
                >(b@) && wf_base(b@),
                Err(e) => match e {
                    AriError::UrlParse(f) => parse_authority_spec(chars@, i as int, sch) == Err::<
                        BaseUrlModel,
                        UrlFault,
                    >(f),
                    _ => false,
                },
            },
    {
        proof {
            lemma_parse_authority_wf(chars@, i as int, sch);
        }
        let j = scan_host(chars, i);
        if j == i {
            return Err(AriError::UrlParse(UrlFault::BadHost));
        }
        let mut host_chars: Vec<char> = Vec::new();
        let mut k: usize = i;
        while k < j
            invariant
                i <= k <= j <= chars.len(),
                host_chars@ == chars@.subrange(i as int, k as int).map_values(
                    |c: char| lower_char(c),
                ),
            decreases j - k,
        {
            host_chars.push(lower_char_exec(chars[k]));
            assert(host_chars@ =~= chars@.subrange(i as int, k + 1).map_values(
                |c: char| lower_char(c),
            ));
            k += 1;
        }
        let host = string_of(host_chars);
        if j == chars.len() {
            let path: Vec<String> = Vec::new();
            let b = BaseUrl { scheme: sch, host, port: None, path };
            assert(b@.path =~= Seq::<Seq<char>>::empty());
            return Ok(b);
        }
        if chars[j] == ':' {
            let k2 = scan_digits(chars, j + 1);
            if k2 == j + 1 {
                return Err(AriError::UrlParse(UrlFault::BadPort));
            }
            proof {
                lemma_scan_chars(chars@, j as int + 1, digit_pred());
            }
            match port_value(chars, j + 1, k2) {
                None => Err(AriError::UrlParse(UrlFault::BadPort)),
                Some(p) => match parse_path(chars, k2) {
                    Ok(path) => {
                        let b = BaseUrl { scheme: sch, host, port: Some(p), path };
                        Ok(b)
                    },
                    Err(e) => Err(e),
                },
            }
        } else {
            match parse_path(chars, j) {
                Ok(path) => {
                    let b = BaseUrl { scheme: sch, host, port: None, path };
                    Ok(b)
                },
                Err(e) => Err(e),
            }
        }
    }
}

proof fn lemma_path_rendered_snoc(path: Seq<Seq<char>>, i: int)
    requires
        0 <= i < path.len(),
    ensures
        path_rendered(path.take(i + 1)) == path_rendered(path.take(i)) + seq!['/'] + path[i],
    decreases i,
{
    if i == 0 {
        assert(path.take(1).drop_first() =~= Seq::<Seq<char>>::empty());
        assert(path.take(1)[0] == path[0]);
        assert(path_rendered(Seq::<Seq<char>>::empty()) =~= Seq::<char>::empty());
        assert(path_rendered(path.take(0)) =~= Seq::<char>::empty());
        assert(path_rendered(path.take(1)) =~= path_rendered(path.take(0)) + seq!['/'] + path[0]);
    } else {
        lemma_path_rendered_snoc(path.drop_first(), i - 1);
        assert(path.take(i + 1).drop_first() =~= path.drop_first().take(i));
        assert(path.take(i).drop_first() =~= path.drop_first().take(i - 1));
        assert(path.drop_first()[i - 1] == path[i]);
        assert(path_rendered(path.take(i + 1)) =~= path_rendered(path.take(i)) + seq!['/']
            + path[i]);
    }
}

impl BaseUrl {
    /// The host, port and path part of the rendering.
    fn authority_chars(&self) -> (r: Vec<char>)
        ensures
            r@ == authority_rendered(self@),
    {
        let mut out: Vec<char> = Vec::new();
        let mut host_chars = chars_of(self.host.as_str());
        out.append(&mut host_chars);
        match &self.port {
            Option::None => {},
            Option::Some(p) => {
                out.push(':');
                let mut digits = render_dec_u64(*p as u64);
                out.append(&mut digits);
            },
        }
        assert(out@ =~= self@.host + port_rendered(self@.port));
        if self.path.len() == 0 {
            out.push('/');
            assert(out@ =~= authority_rendered(self@));
        } else {
            let ghost prefix = self@.host + port_rendered(self@.port);
            let mut i: usize = 0;
            while i < self.path.len()
                invariant
                    i <= self.path.len(),
                    out@ == prefix + path_rendered(self@.path.take(i as int)),
                    self@.path.len() == self.path.len(),
                decreases self.path.len() - i,
            {
                out.push('/');
                let mut seg_chars = chars_of(self.path[i].as_str());
                out.append(&mut seg_chars);
                proof {
                    lemma_path_rendered_snoc(self@.path, i as int);
                    assert(self@.path[i as int] == self.path@[i as int]@);
                    assert(out@ =~= prefix + path_rendered(self@.path.take(i + 1)));
                }
                i += 1;
            }
            assert(self@.path.take(self.path.len() as int) =~= self@.path);
            assert(out@ =~= authority_rendered(self@));
        }
        out
    }

    /// The exact textual rendering of this base URL.
    pub fn render_chars(&self) -> (r: Vec<char>)
        ensures
            r@ == base_rendered(self@),
    {
        let mut out: Vec<char> = Vec::new();
        match self.scheme {
            UrlScheme::Http => {
                out.push('h');
                out.push('t');
                out.push('t');
                out.push('p');
            },
            UrlScheme::Https => {
                out.push('h');
                out.push('t');
                out.push('t');
                out.push('p');
                out.push('s');
            },
        }
        out.push(':');
        out.push('/');
        out.push('/');
        let mut auth = self.authority_chars();
        out.append(&mut auth);
        assert(out@ =~= base_rendered(self@));
        out
    }

    /// The rendering with the scheme upgraded for the event stream
    /// (`http` becomes `ws`, `https` becomes `wss`).
    pub fn render_ws_chars(&self) -> (r: Vec<char>)
        ensures
            r@ == ws_rendered(self@),
    {
        let mut out: Vec<char> = Vec::new();
        match self.scheme {
            UrlScheme::Http => {
                out.push('w');
                out.push('s');
            },
            UrlScheme::Https => {
                out.push('w');
                out.push('s');
                out.push('s');
            },
        }
        out.push(':');
        out.push('/');
        out.push('/');
        let mut auth = self.authority_chars();
        out.append(&mut auth);
        assert(out@ =~= ws_rendered(self@));
        out
    }

    /// The exact textual rendering, as a string.
    pub fn render(&self) -> (r: String)
        ensures
            r@ == base_rendered(self@),
    {
        string_of(self.render_chars())
    }

    /// This URL with further path segments appended, in order.
    ///
    /// Fails with the segment fault exactly when some given segment is
    /// empty or holds a character that no segment may hold; the base is
    /// never re-ordered or deduplicated.
    pub fn join(&self, segments: &Vec<String>) -> (r: Result<BaseUrl, AriError>)
        ensures
            match r {
                Ok(b) => (forall|k: int|
                    0 <= k < segments.deep_view().len() ==> seg_ok(segments.deep_view()[k]))
                    && b@ == (BaseUrlModel {
                    path: self@.path + segments.deep_view(),
                    ..self@
                }),
                Err(e) => match e {
                    AriError::UrlParse(f) => f == UrlFault::BadSegment && exists|k: int|
                        0 <= k < segments.deep_view().len() && !seg_ok(segments.deep_view()[k]),
                    _ => false,
                },
            },
    {
        let mut path: Vec<String> = Vec::new();
        let mut i: usize = 0;
        while i < self.path.len()
            invariant
                i <= self.path.len(),
                path.deep_view() == self.path.deep_view().take(i as int),
            decreases self.path.len() - i,
        {
            let ghost prev = path.deep_view();
            path.push(self.path[i].clone());
            proof {
                assert(path@.len() == prev.len() + 1);
                assert(forall|t: int| 0 <= t < prev.len() ==> path@[t] == #[trigger] path@.take(
                    prev.len() as int,
                )[t]);
                assert(forall|t: int|
                    0 <= t < prev.len() ==> #[trigger] path.deep_view()[t] == prev[t]);
                assert(path.deep_view()[prev.len() as int] == self.path@[i as int]@);
                assert(path.deep_view() =~= self.path.deep_view().take(i + 1));
            }
            i += 1;
        }
        assert(self.path.deep_view().take(self.path.len() as int) =~= self.path.deep_view());
        let mut j: usize = 0;
        while j < segments.len()
            invariant
                j <= segments.len(),
                path.deep_view() == self.path.deep_view() + segments.deep_view().take(j as int),
                forall|k: int| 0 <= k < j ==> seg_ok(segments.deep_view()[k]),
            decreases segments.len() - j,
        {
            let seg = &segments[j];
            let seg_chars = chars_of(seg.as_str());
            if seg_chars.len() == 0 {
                assert(!seg_ok(segments.deep_view()[j as int]));
                return Err(AriError::UrlParse(UrlFault::BadSegment));
            }
            let mut k: usize = 0;
            while k < seg_chars.len()
                invariant
                    k <= seg_chars.len(),
                    seg_chars@ == segments.deep_view()[j as int],
                    j < segments.deep_view().len(),
                    forall|t: int| 0 <= t < k ==> is_unreserved(seg_chars@[t]),
                decreases seg_chars.len() - k,
            {
                if !crate::percent::is_unreserved_exec(seg_chars[k]) {
                    assert(!seg_ok(segments.deep_view()[j as int]));
                    return Err(AriError::UrlParse(UrlFault::BadSegment));
                }
                k += 1;
            }
            assert(seg_ok(segments.deep_view()[j as int]));
            let ghost prev = path.deep_view();
            path.push(seg.clone());
            proof {
                assert(path@.len() == prev.len() + 1);
                assert(forall|t: int|
                    0 <= t < prev.len() ==> #[trigger] path.deep_view()[t] == prev[t]);
                assert(path.deep_view()[prev.len() as int] == segments@[j as int]@);
                assert(path.deep_view() =~= self.path.deep_view() + segments.deep_view().take(
                    j + 1,
                ));
            }
            j += 1;
        }
        assert(segments.deep_view().take(segments.len() as int) =~= segments.deep_view());
        Ok(BaseUrl { scheme: self.scheme, host: self.host.clone(), port: self.port, path })
    }
}

/// Well-formedness for the authority parser, shared by the public lemma.
proof fn lemma_parse_authority_wf(s: Seq<char>, i: int, sch: UrlScheme)
    requires
        0 <= i <= s.len(),
    ensures
        parse_authority_spec(s, i, sch) matches Ok(m) ==> wf_base(m),
{
    let j = scan(s, i, host_pred());
    lemma_scan_bounds(s, i, host_pred());
    lemma_scan_chars(s, i, host_pred());
    if j != i {
        let host = s.subrange(i, j).map_values(|c: char| lower_char(c));
        assert(forall|k: int| 0 <= k < host.len() ==> host_char(host[k])) by {
            assert(forall|k: int| 0 <= k < j - i ==> host_input_char(s.subrange(i, j)[k]));
            assert(forall|c: char| host_input_char(c) ==> host_char(lower_char(c)));
        }
        if j < s.len() && s[j] == ':' {
            let k = scan(s, j + 1, digit_pred());
            lemma_scan_bounds(s, j + 1, digit_pred());
            if k != j + 1 && dec_val(s.subrange(j + 1, k)) <= 65535 {
                lemma_parse_path_wf(s, k);
            }
        } else if j < s.len() {
            lemma_parse_path_wf(s, j);
        }
    }
}

} // verus!
