//! The lexical layer of the command codec: a parser for one-level JSON
//! objects, the only shape the wire protocol uses.
//!
//! A request line is one JSON object whose values are strings, numbers,
//! booleans or null. The grammar is stated as spec-level parsing functions
//! over the line's characters; the executable parser is proved to return
//! exactly what the grammar says, for every input.

use vstd::prelude::*;

verus! {

/// The character with Unicode scalar value `v`, as `char::from_u32` returns
/// it for a valid `v`.
pub uninterp spec fn char_of_u32(v: u32) -> char;

/// Relies on `char::from_u32`: returns the character with scalar value `v`
/// exactly when `v` is a Unicode scalar value (not a surrogate, at most
/// 0x10FFFF).
pub assume_specification[ char::from_u32 ](v: u32) -> (r: Option<char>)
    ensures
        r is Some <==> is_unicode_scalar(v),
        r matches Some(c) ==> c == char_of_u32(v) && c as u32 == v,
;

/// Whether `v` is a Unicode scalar value: a code point that is not a
/// surrogate.
pub open spec fn is_unicode_scalar(v: u32) -> bool {
    v < 0xD800 || (0xE000 <= v && v <= 0x10FFFF)
}

/// One JSON value of the flat shapes the protocol uses. A number that is not
/// a plain integer representable in 64 bits (negative, fractional, with an
/// exponent, or too large) is kept only as `OtherNum`: well-formed, but never
/// a valid field of any command.
pub enum Scalar {
    Text(String),
    Num(u64),
    OtherNum,
    Flag(bool),
    Null,
}

/// Mathematical model of a `Scalar`.
pub ghost enum ScalarV {
    Text(Seq<char>),
    Num(u64),
    OtherNum,
    Flag(bool),
    Null,
}

impl View for Scalar {
    type V = ScalarV;

    open spec fn view(&self) -> ScalarV {
        match self {
            Scalar::Text(t) => ScalarV::Text(t@),
            Scalar::Num(n) => ScalarV::Num(*n),
            Scalar::OtherNum => ScalarV::OtherNum,
            Scalar::Flag(b) => ScalarV::Flag(*b),
            Scalar::Null => ScalarV::Null,
        }
    }
}

/// One object member: a key and its value.
pub type Member = (String, Scalar);

/// Mathematical model of a `Member`.
pub type MemberV = (Seq<char>, ScalarV);

/// The view of a member list.
pub open spec fn members_view(ms: Seq<Member>) -> Seq<MemberV> {
    ms.map_values(|m: Member| (m.0@, m.1@))
}

/// JSON insignificant whitespace.
pub open spec fn is_json_ws(c: char) -> bool {
    c == ' ' || c == '\t' || c == '\n' || c == '\r'
}

/// A decimal digit.
pub open spec fn is_dec_digit(c: char) -> bool {
    48 <= c as u32 && c as u32 <= 57
}

/// The value of a decimal digit.
pub open spec fn dec_digit_val(c: char) -> int {
    c as u32 - 48
}

/// The value of a hexadecimal digit, if `c` is one.
pub open spec fn hex_digit_val(c: char) -> Option<u32> {
    let v = c as u32;
    if 48 <= v && v <= 57 {
        Some((v - 48) as u32)
    } else if 97 <= v && v <= 102 {
        Some((v - 87) as u32)
    } else if 65 <= v && v <= 70 {
        Some((v - 55) as u32)
    } else {
        None
    }
}

/// The first index at or after `i` holding no whitespace.
pub open spec fn skip_ws(s: Seq<char>, i: int) -> int
    decreases s.len() - i,
    when 0 <= i <= s.len()
{
    if i < s.len() && is_json_ws(s[i]) {
        skip_ws(s, i + 1)
    } else {
        i
    }
}

/// The first index at or after `i` holding no decimal digit.
pub open spec fn skip_digits(s: Seq<char>, i: int) -> int
    decreases s.len() - i,
    when 0 <= i <= s.len()
{
    if i < s.len() && is_dec_digit(s[i]) {
        skip_digits(s, i + 1)
    } else {
        i
    }
}

/// The value of the decimal digits `s[i..j)`.
pub open spec fn digits_value(s: Seq<char>, i: int, j: int) -> int
    decreases j - i,
    when i <= j
{
    if j <= i {
        0
    } else {
        digits_value(s, i, j - 1) * 10 + dec_digit_val(s[j - 1])
    }
}

/// The replacement for a single-character string escape, if the escape is
/// legal.
pub open spec fn escape_char_value(c: char) -> Option<char> {
    if c == '"' {
        Some('"')
    } else if c == '\\' {
        Some('\\')
    } else if c == '/' {
        Some('/')
    } else if c == 'b' {
        Some('\u{8}')
    } else if c == 'f' {
        Some('\u{c}')
    } else if c == 'n' {
        Some('\n')
    } else if c == 'r' {
        Some('\r')
    } else if c == 't' {
        Some('\t')
    } else {
        None
    }
}

/// The value of the four hexadecimal digits `s[i..i+4)`, if all four are
/// hexadecimal digits.
pub open spec fn hex4_value(s: Seq<char>, i: int) -> Option<u32>
    recommends
        0 <= i,
        i + 4 <= s.len(),
{
    match (hex_digit_val(s[i]), hex_digit_val(s[i + 1]), hex_digit_val(s[i + 2]), hex_digit_val(
        s[i + 3],
    )) {
        (Some(a), Some(b), Some(c), Some(d)) => Some(
            (((a * 16 + b) * 16 + c) * 16 + d) as u32,
        ),
        _ => None,
    }
}

/// The body of a JSON string starting at `i` (just after the opening quote):
/// the decoded characters and the index just past the closing quote. `None`
/// on an unterminated string, a bad escape, a `\u` escape that is no Unicode
/// scalar value, or a raw control character.
pub open spec fn parse_string_body(s: Seq<char>, i: int) -> Option<(Seq<char>, int)>
    decreases s.len() - i,
    when 0 <= i <= s.len()
{
    if i >= s.len() {
        None
    } else if s[i] == '"' {
        Some((Seq::empty(), i + 1))
    } else if s[i] == '\\' {
        if i + 1 < s.len() {
            if s[i + 1] == 'u' {
                if i + 6 <= s.len() {
                    match hex4_value(s, i + 2) {
                        Some(v) => if is_unicode_scalar(v) {
                            match parse_string_body(s, i + 6) {
                                Some((rest, j)) => Some((seq![char_of_u32(v)] + rest, j)),
                                None => None,
                            }
                        } else {
                            None
                        },
                        None => None,
                    }
                } else {
                    None
                }
            } else {
                match escape_char_value(s[i + 1]) {
                    Some(c) => match parse_string_body(s, i + 2) {
                        Some((rest, j)) => Some((seq![c] + rest, j)),
                        None => None,
                    },
                    None => None,
                }
            }
        } else {
            None
        }
    } else if (s[i] as u32) < 0x20 {
        None
    } else {
        match parse_string_body(s, i + 1) {
            Some((rest, j)) => Some((seq![s[i]] + rest, j)),
            None => None,
        }
    }
}

/// A JSON number starting at `i`: the scalar it denotes and the index just
/// past it. A plain integer representable in 64 bits becomes `Num`; any
/// other well-formed number becomes `OtherNum`.
pub open spec fn parse_number(s: Seq<char>, i: int) -> Option<(ScalarV, int)>
    recommends
        0 <= i <= s.len(),
{
    let p = if i < s.len() && s[i] == '-' {
        i + 1
    } else {
        i
    };
    if p >= s.len() || !is_dec_digit(s[p]) {
        None
    } else {
        let q = skip_digits(s, p);
        if s[p] == '0' && q > p + 1 {
            None
        } else {
            match scan_fraction(s, q) {
                Some((plain, end)) => {
                    if p == i && plain && digits_value(s, p, q) <= u64::MAX {
                        Some((ScalarV::Num(digits_value(s, p, q) as u64), end))
                    } else {
                        Some((ScalarV::OtherNum, end))
                    }
                },
                None => None,
            }
        }
    }
}

/// The optional fraction and exponent parts starting at `j`: whether both
/// are absent, and the index just past them. `None` when a fraction or
/// exponent is begun but holds no digit.
pub open spec fn scan_fraction(s: Seq<char>, j: int) -> Option<(bool, int)>
    recommends
        0 <= j <= s.len(),
{
    if j < s.len() && s[j] == '.' {
        let k = skip_digits(s, j + 1);
        if k == j + 1 {
            None
        } else {
            match scan_exponent(s, k) {
                Some(end) => Some((false, end)),
                None => None,
            }
        }
    } else {
        match scan_exponent(s, j) {
            Some(end) => if end == j {
                Some((true, end))
            } else {
                Some((false, end))
            },
            None => None,
        }
    }
}

/// The optional exponent part starting at `k`: the index just past it.
/// `None` when an exponent is begun but holds no digit.
pub open spec fn scan_exponent(s: Seq<char>, k: int) -> Option<int>
    recommends
        0 <= k <= s.len(),
{
    if k < s.len() && (s[k] == 'e' || s[k] == 'E') {
        let p = if k + 1 < s.len() && (s[k + 1] == '+' || s[k + 1] == '-') {
            k + 2
        } else {
            k + 1
        };
        let q = skip_digits(s, p);
        if q == p {
            None
        } else {
            Some(q)
        }
    } else {
        Some(k)
    }
}

/// One JSON value of the flat shapes starting at `i`: the scalar and the
/// index just past it.
pub open spec fn parse_value(s: Seq<char>, i: int) -> Option<(ScalarV, int)>
    recommends
        0 <= i <= s.len(),
{
    if i >= s.len() {
        None
    } else if s[i] == '"' {
        match parse_string_body(s, i + 1) {
            Some((t, j)) => Some((ScalarV::Text(t), j)),
            None => None,
        }
    } else if s[i] == 't' {
        if i + 4 <= s.len() && s[i + 1] == 'r' && s[i + 2] == 'u' && s[i + 3] == 'e' {
            Some((ScalarV::Flag(true), i + 4))
        } else {
            None
        }
    } else if s[i] == 'f' {
        if i + 5 <= s.len() && s[i + 1] == 'a' && s[i + 2] == 'l' && s[i + 3] == 's' && s[i + 4]
            == 'e' {
            Some((ScalarV::Flag(false), i + 5))
        } else {
            None
        }
    } else if s[i] == 'n' {
        if i + 4 <= s.len() && s[i + 1] == 'u' && s[i + 2] == 'l' && s[i + 3] == 'l' {
            Some((ScalarV::Null, i + 4))
        } else {
            None
        }
    } else if s[i] == '-' || is_dec_digit(s[i]) {
        parse_number(s, i)
    } else {
        None
    }
}

/// One object member starting at `i` (at its opening quote): the member and
/// the index just past its value.
pub open spec fn parse_member(s: Seq<char>, i: int) -> Option<(MemberV, int)>
    recommends
        0 <= i <= s.len(),
{
    if i < s.len() && s[i] == '"' {
        match parse_string_body(s, i + 1) {
            Some((key, j)) => {
                let j2 = skip_ws(s, j);
                if j2 < s.len() && s[j2] == ':' {
                    let j3 = skip_ws(s, j2 + 1);
                    match parse_value(s, j3) {
                        Some((v, j4)) => Some(((key, v), j4)),
                        None => None,
                    }
                } else {
                    None
                }
            },
            None => None,
        }
    } else {
        None
    }
}

/// The members of an object from `i` (at the first member's opening quote)
/// up to and including the closing brace: the member list and the index just
/// past the brace. `fuel` bounds the recursion; any value larger than the
/// number of members suffices and leaves the result unchanged.
pub open spec fn parse_members(s: Seq<char>, i: int, fuel: nat) -> Option<(Seq<MemberV>, int)>
    decreases fuel,
{
    if fuel == 0 {
        None
    } else {
        match parse_member(s, i) {
            Some((m, j)) => {
                let j2 = skip_ws(s, j);
                if j2 < s.len() && s[j2] == ',' {
                    let i2 = skip_ws(s, j2 + 1);
                    match parse_members(s, i2, (fuel - 1) as nat) {
                        Some((ms, end)) => Some((seq![m] + ms, end)),
                        None => None,
                    }
                } else if j2 < s.len() && s[j2] == '}' {
                    Some((seq![m], j2 + 1))
                } else {
                    None
                }
            },
            None => None,
        }
    }
}

/// A whole request line: one object, surrounded only by whitespace. The
/// result is the object's member list, `None` when the line is not exactly
/// one well-formed flat object.
pub open spec fn parse_line(s: Seq<char>) -> Option<Seq<MemberV>> {
    let i = skip_ws(s, 0);
    if i < s.len() && s[i] == '{' {
        let j = skip_ws(s, i + 1);
        if j < s.len() && s[j] == '}' {
            if skip_ws(s, j + 1) == s.len() {
                Some(Seq::empty())
            } else {
                None
            }
        } else {
            match parse_members(s, j, s.len() + 1) {
                Some((ms, end)) => if end <= s.len() && skip_ws(s, end) == s.len() {
                    Some(ms)
                } else {
                    None
                },
                None => None,
            }
        }
    } else {
        None
    }
}

proof fn lemma_digits_value_nonneg(s: Seq<char>, i: int, j: int)
    requires
        i <= j,
        forall|k: int| i <= k < j ==> is_dec_digit(#[trigger] s[k]),
    ensures
        digits_value(s, i, j) >= 0,
    decreases j - i,
{
    if j > i {
        lemma_digits_value_nonneg(s, i, j - 1);
    }
}

/// The first index at or after `i` holding no whitespace.
fn ws_end(cs: &Vec<char>, i: usize) -> (j: usize)
    requires
        i <= cs@.len(),
    ensures
        i <= j <= cs@.len(),
        j as int == skip_ws(cs@, i as int),
{
    let mut j = i;
    while j < cs.len() && (cs[j] == ' ' || cs[j] == '\t' || cs[j] == '\n' || cs[j] == '\r')
        invariant
            i <= j <= cs@.len(),
            skip_ws(cs@, i as int) == skip_ws(cs@, j as int),
        decreases cs@.len() - j,
    {
        j = j + 1;
    }
    proof {
        assert(skip_ws(cs@, j as int) == j as int);
    }
    j
}

/// The first index at or after `i` holding no decimal digit.
fn digits_end(cs: &Vec<char>, i: usize) -> (j: usize)
    requires
        i <= cs@.len(),
    ensures
        i <= j <= cs@.len(),
        j as int == skip_digits(cs@, i as int),
{
    let mut j = i;
    while j < cs.len() && (cs[j] as u32) >= 48 && (cs[j] as u32) <= 57
        invariant
            i <= j <= cs@.len(),
            skip_digits(cs@, i as int) == skip_digits(cs@, j as int),
        decreases cs@.len() - j,
    {
        j = j + 1;
    }
    proof {
        assert(skip_digits(cs@, j as int) == j as int);
    }
    j
}

/// The value of a hexadecimal digit, if `c` is one.
fn hex_digit_exec(c: char) -> (r: Option<u32>)
    ensures
        r == hex_digit_val(c),
{
    let v = c as u32;
    if 48 <= v && v <= 57 {
        Some(v - 48)
    } else if 97 <= v && v <= 102 {
        Some(v - 87)
    } else if 65 <= v && v <= 70 {
        Some(v - 55)
    } else {
        None
    }
}

/// The value of the four hexadecimal digits `cs[i..i+4)`, if all four are
/// hexadecimal digits.
fn hex4_exec(cs: &Vec<char>, i: usize) -> (r: Option<u32>)
    requires
        i + 4 <= cs@.len(),
    ensures
        r == hex4_value(cs@, i as int),
{
    let n = cs.len();
    proof {
        assert(i + 4 <= n);
    }
    let a = hex_digit_exec(cs[i]);
    let b = hex_digit_exec(cs[i + 1]);
    let c = hex_digit_exec(cs[i + 2]);
    let d = hex_digit_exec(cs[i + 3]);
    match (a, b, c, d) {
        (Some(a), Some(b), Some(c), Some(d)) => {
            proof {
                assert(a <= 15 && b <= 15 && c <= 15 && d <= 15);
            }
            Some(((a * 16 + b) * 16 + c) * 16 + d)
        },
        _ => None,
    }
}

/// The replacement for a single-character string escape, if the escape is
/// legal.
fn escape_exec(c: char) -> (r: Option<char>)
    ensures
        r == escape_char_value(c),
{
    if c == '"' {
        Some('"')
    } else if c == '\\' {
        Some('\\')
    } else if c == '/' {
        Some('/')
    } else if c == 'b' {
        Some('\u{8}')
    } else if c == 'f' {
        Some('\u{c}')
    } else if c == 'n' {
        Some('\n')
    } else if c == 'r' {
        Some('\r')
    } else if c == 't' {
        Some('\t')
    } else {
        None
    }
}

/// The body of a JSON string starting at `start` (just after the opening
/// quote): the decoded characters and the index just past the closing quote.
fn parse_string_body_exec(cs: &Vec<char>, start: usize) -> (r: Option<(Vec<char>, usize)>)
    requires
        start <= cs@.len(),
    ensures
        match r {
            Some(p) => parse_string_body(cs@, start as int) == Some((p.0@, p.1 as int)) && start
                < p.1 <= cs@.len(),
            None => parse_string_body(cs@, start as int) is None,
        },
{
    let ghost s = cs@;
    let mut acc: Vec<char> = Vec::new();
    let mut k = start;
    while k < cs.len()
        invariant
            start <= k <= cs@.len(),
            s == cs@,
            match parse_string_body(s, k as int) {
                Some(p) => parse_string_body(s, start as int) == Some((acc@ + p.0, p.1)),
                None => parse_string_body(s, start as int) is None,
            },
        decreases cs@.len() - k,
    {
        let c = cs[k];
        let ghost k0 = k as int;
        let ghost acc0 = acc@;
        if c == '"' {
            proof {
                assert(parse_string_body(s, k0) == Some((Seq::<char>::empty(), k0 + 1)));
                assert(acc0 + Seq::<char>::empty() =~= acc0);
            }
            return Some((acc, k + 1));
        } else if c == '\\' {
            if k + 1 >= cs.len() {
                proof {
                    assert(parse_string_body(s, k0) is None);
                }
                return None;
            }
            let e = cs[k + 1];
            if e == 'u' {
                if cs.len() - k < 6 {
                    proof {
                        assert(parse_string_body(s, k0) is None);
                    }
                    return None;
                }
                match hex4_exec(cs, k + 2) {
                    Some(v) => {
                        match char::from_u32(v) {
                            Some(ch) => {
                                acc.push(ch);
                                k = k + 6;
                                proof {
                                    match parse_string_body(s, k0 + 6) {
                                        Some(p) => {
                                            assert(parse_string_body(s, k0) == Some(
                                                (seq![char_of_u32(v)] + p.0, p.1),
                                            ));
                                            assert(acc@ + p.0 =~= acc0 + (seq![char_of_u32(v)]
                                                + p.0));
                                        },
                                        None => {
                                            assert(parse_string_body(s, k0) is None);
                                        },
                                    }
                                }
                            },
                            None => {
                                proof {
                                    assert(parse_string_body(s, k0) is None);
                                }
                                return None;
                            },
                        }
                    },
                    None => {
                        proof {
                            assert(parse_string_body(s, k0) is None);
                        }
                        return None;
                    },
                }
            } else {
                match escape_exec(e) {
                    Some(d) => {
                        acc.push(d);
                        k = k + 2;
                        proof {
                            match parse_string_body(s, k0 + 2) {
                                Some(p) => {
                                    assert(parse_string_body(s, k0) == Some(
                                        (seq![d] + p.0, p.1),
                                    ));
                                    assert(acc@ + p.0 =~= acc0 + (seq![d] + p.0));
                                },
                                None => {
                                    assert(parse_string_body(s, k0) is None);
                                },
                            }
                        }
                    },
                    None => {
                        proof {
                            assert(parse_string_body(s, k0) is None);
                        }
                        return None;
                    },
                }
            }
        } else if (c as u32) < 0x20 {
            proof {
                assert(parse_string_body(s, k0) is None);
            }
            return None;
        } else {
            acc.push(c);
            k = k + 1;
            proof {
                match parse_string_body(s, k0 + 1) {
                    Some(p) => {
                        assert(parse_string_body(s, k0) == Some((seq![c] + p.0, p.1)));
                        assert(acc@ + p.0 =~= acc0 + (seq![c] + p.0));
                    },
                    None => {
                        assert(parse_string_body(s, k0) is None);
                    },
                }
            }
        }
    }
    proof {
        assert(parse_string_body(s, k as int) is None);
    }
    None
}

/// A JSON number starting at `i`: the scalar it denotes and the index just
/// past it.
fn parse_number_exec(cs: &Vec<char>, i: usize) -> (r: Option<(Scalar, usize)>)
    requires
        i <= cs@.len(),
    ensures
        match r {
            Some(p) => parse_number(cs@, i as int) == Some((p.0@, p.1 as int)) && i < p.1
                <= cs@.len(),
            None => parse_number(cs@, i as int) is None,
        },
{
    let ghost s = cs@;
    let neg = i < cs.len() && cs[i] == '-';
    let p = if neg {
        i + 1
    } else {
        i
    };
    if p >= cs.len() || (cs[p] as u32) < 48 || (cs[p] as u32) > 57 {
        return None;
    }
    let ghost pi = p as int;
    let mut q = p;
    let mut val: u64 = 0;
    let mut big = false;
    while q < cs.len() && (cs[q] as u32) >= 48 && (cs[q] as u32) <= 57
        invariant
            p <= q <= cs@.len(),
            s == cs@,
            pi == p as int,
            skip_digits(s, pi) == skip_digits(s, q as int),
            forall|k: int| pi <= k < q as int ==> is_dec_digit(#[trigger] s[k]),
            !big ==> val == digits_value(s, pi, q as int),
            big ==> digits_value(s, pi, q as int) > u64::MAX,
        decreases cs@.len() - q,
    {
        let d = (cs[q] as u32 - 48) as u64;
        let ghost q0 = q as int;
        proof {
            assert(digits_value(s, pi, q0 + 1) == digits_value(s, pi, q0) * 10 + dec_digit_val(
                s[q0],
            ));
            lemma_digits_value_nonneg(s, pi, q0);
        }
        if !big {
            match val.checked_mul(10) {
                Some(m) => {
                    match m.checked_add(d) {
                        Some(nv) => {
                            val = nv;
                        },
                        None => {
                            big = true;
                        },
                    }
                },
                None => {
                    big = true;
                },
            }
        } else {
            proof {
                assert(digits_value(s, pi, q0) * 10 >= digits_value(s, pi, q0));
            }
        }
        q = q + 1;
    }
    proof {
        assert(skip_digits(s, q as int) == q as int);
        assert(skip_digits(s, pi) == skip_digits(s, pi + 1));
    }
    if cs[p] == '0' && q > p + 1 {
        return None;
    }
    match scan_fraction_exec(cs, q) {
        Some((plain, end)) => {
            if !neg && plain && !big {
                Some((Scalar::Num(val), end))
            } else {
                Some((Scalar::OtherNum, end))
            }
        },
        None => None,
    }
}

/// The optional fraction and exponent parts starting at `j`.
fn scan_fraction_exec(cs: &Vec<char>, j: usize) -> (r: Option<(bool, usize)>)
    requires
        j <= cs@.len(),
    ensures
        match r {
            Some(p) => scan_fraction(cs@, j as int) == Some((p.0, p.1 as int)) && j <= p.1
                <= cs@.len(),
            None => scan_fraction(cs@, j as int) is None,
        },
{
    if j < cs.len() && cs[j] == '.' {
        let k = digits_end(cs, j + 1);
        if k == j + 1 {
            None
        } else {
            match scan_exponent_exec(cs, k) {
                Some(end) => Some((false, end)),
                None => None,
            }
        }
    } else {
        match scan_exponent_exec(cs, j) {
            Some(end) => {
                if end == j {
                    Some((true, end))
                } else {
                    Some((false, end))
                }
            },
            None => None,
        }
    }
}

/// The optional exponent part starting at `k`.
fn scan_exponent_exec(cs: &Vec<char>, k: usize) -> (r: Option<usize>)
    requires
        k <= cs@.len(),
    ensures
        match r {
            Some(end) => scan_exponent(cs@, k as int) == Some(end as int) && k <= end
                <= cs@.len(),
            None => scan_exponent(cs@, k as int) is None,
        },
{
    if k < cs.len() && (cs[k] == 'e' || cs[k] == 'E') {
        let p = if k + 1 < cs.len() && (cs[k + 1] == '+' || cs[k + 1] == '-') {
            k + 2
        } else {
            k + 1
        };
        let q = digits_end(cs, p);
        if q == p {
            None
        } else {
            Some(q)
        }
    } else {
        Some(k)
    }
}

/// One JSON value of the flat shapes starting at `i`: the scalar and the
/// index just past it.
fn parse_value_exec(cs: &Vec<char>, i: usize) -> (r: Option<(Scalar, usize)>)
    requires
        i <= cs@.len(),
    ensures
        match r {
            Some(p) => parse_value(cs@, i as int) == Some((p.0@, p.1 as int)) && i < p.1
                <= cs@.len(),
            None => parse_value(cs@, i as int) is None,
        },
{
    if i >= cs.len() {
        return None;
    }
    let c = cs[i];
    if c == '"' {
        match parse_string_body_exec(cs, i + 1) {
            Some((t, j)) => Some((Scalar::Text(crate::text::string_from_chars(&t)), j)),
            None => None,
        }
    } else if c == 't' {
        if cs.len() - i >= 4 && cs[i + 1] == 'r' && cs[i + 2] == 'u' && cs[i + 3] == 'e' {
            Some((Scalar::Flag(true), i + 4))
        } else {
            None
        }
    } else if c == 'f' {
        if cs.len() - i >= 5 && cs[i + 1] == 'a' && cs[i + 2] == 'l' && cs[i + 3] == 's' && cs[i
            + 4] == 'e' {
            Some((Scalar::Flag(false), i + 5))
        } else {
            None
        }
    } else if c == 'n' {
        if cs.len() - i >= 4 && cs[i + 1] == 'u' && cs[i + 2] == 'l' && cs[i + 3] == 'l' {
            Some((Scalar::Null, i + 4))
        } else {
            None
        }
    } else if c == '-' || ((c as u32) >= 48 && (c as u32) <= 57) {
        parse_number_exec(cs, i)
    } else {
        None
    }
}

/// One object member starting at `i` (at its opening quote): the member and
/// the index just past its value.
fn parse_member_exec(cs: &Vec<char>, i: usize) -> (r: Option<(Member, usize)>)
    requires
        i <= cs@.len(),
    ensures
        match r {
            Some(p) => parse_member(cs@, i as int) == Some(((p.0.0@, p.0.1@), p.1 as int)) && i
                < p.1 <= cs@.len(),
            None => parse_member(cs@, i as int) is None,
        },
{
    if !(i < cs.len() && cs[i] == '"') {
        return None;
    }
    match parse_string_body_exec(cs, i + 1) {
        Some((key, j)) => {
            let j2 = ws_end(cs, j);
            if j2 < cs.len() && cs[j2] == ':' {
                let j3 = ws_end(cs, j2 + 1);
                match parse_value_exec(cs, j3) {
                    Some((v, j4)) => Some(((crate::text::string_from_chars(&key), v), j4)),
                    None => None,
                }
            } else {
                None
            }
        },
        None => None,
    }
}

/// The members of an object from `i` (at the first member's opening quote)
/// up to and including the closing brace.
fn parse_members_exec(cs: &Vec<char>, i: usize) -> (r: Option<(Vec<Member>, usize)>)
    requires
        i <= cs@.len(),
    ensures
        match r {
            Some(p) => parse_members(cs@, i as int, (cs@.len() + 1) as nat) == Some(
                (members_view(p.0@), p.1 as int),
            ) && p.1 <= cs@.len(),
            None => parse_members(cs@, i as int, (cs@.len() + 1) as nat) is None,
        },
{
    let ghost s = cs@;
    let ghost fuel0 = (cs@.len() + 1) as nat;
    let mut acc: Vec<Member> = Vec::new();
    let mut k = i;
    loop
        invariant
            i <= k <= cs@.len(),
            s == cs@,
            fuel0 == (cs@.len() + 1) as nat,
            acc@.len() <= k - i,
            match parse_members(s, k as int, (fuel0 - acc@.len()) as nat) {
                Some(p) => parse_members(s, i as int, fuel0) == Some(
                    (members_view(acc@) + p.0, p.1),
                ),
                None => parse_members(s, i as int, fuel0) is None,
            },
        decreases cs@.len() - k,
    {
        let ghost fuelk = (fuel0 - acc@.len()) as nat;
        proof {
            assert(fuelk >= 1);
        }
        match parse_member_exec(cs, k) {
            None => {
                proof {
                    assert(parse_members(s, k as int, fuelk) is None);
                }
                return None;
            },
            Some((m, j)) => {
                let ghost mv = (m.0@, m.1@);
                let j2 = ws_end(cs, j);
                if j2 < cs.len() && cs[j2] == ',' {
                    let k2 = ws_end(cs, j2 + 1);
                    let ghost acc0 = acc@;
                    acc.push(m);
                    proof {
                        acc0.lemma_push_map_commute(|mm: Member| (mm.0@, mm.1@), m);
                        assert(members_view(acc@) =~= members_view(acc0).push(mv));
                        match parse_members(s, k2 as int, (fuelk - 1) as nat) {
                            Some(p) => {
                                assert(parse_members(s, k as int, fuelk) == Some(
                                    (seq![mv] + p.0, p.1),
                                ));
                                assert(members_view(acc@) + p.0 =~= members_view(acc0) + (
                                seq![mv] + p.0));
                            },
                            None => {
                                assert(parse_members(s, k as int, fuelk) is None);
                            },
                        }
                    }
                    k = k2;
                } else if j2 < cs.len() && cs[j2] == '}' {
                    let ghost acc0 = acc@;
                    acc.push(m);
                    proof {
                        acc0.lemma_push_map_commute(|mm: Member| (mm.0@, mm.1@), m);
                        assert(parse_members(s, k as int, fuelk) == Some((seq![mv], j2 + 1)));
                        assert(members_view(acc@) =~= members_view(acc0) + seq![mv]);
                    }
                    return Some((acc, j2 + 1));
                } else {
                    proof {
                        assert(parse_members(s, k as int, fuelk) is None);
                    }
                    return None;
                }
            },
        }
    }
}

/// A whole request line, as characters: the object's member list, `None`
/// when the line is not exactly one well-formed flat object.
pub fn parse_line_exec(cs: &Vec<char>) -> (r: Option<Vec<Member>>)
    ensures
        match r {
            Some(ms) => parse_line(cs@) == Some(members_view(ms@)),
            None => parse_line(cs@) is None,
        },
{
    let i = ws_end(cs, 0);
    if !(i < cs.len() && cs[i] == '{') {
        return None;
    }
    let j = ws_end(cs, i + 1);
    if j < cs.len() && cs[j] == '}' {
        let e = ws_end(cs, j + 1);
        if e == cs.len() {
            let r: Vec<Member> = Vec::new();
            proof {
                assert(members_view(r@) =~= Seq::<MemberV>::empty());
            }
            Some(r)
        } else {
            None
        }
    } else {
        match parse_members_exec(cs, j) {
            Some((ms, end)) => {
                let e = ws_end(cs, end);
                if e == cs.len() {
                    Some(ms)
                } else {
                    None
                }
            },
            None => None,
        }
    }
}

} // verus!
