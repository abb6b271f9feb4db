//! The JSON grammar, written as a recursive specification parser over byte
//! sequences.
//!
//! Every parser returns the parsed value together with the number of input
//! bytes it consumed, or `None` when no prefix of the input matches the
//! grammar.  Leading whitespace is consumed by each parser itself, one byte
//! per recursive step.  A few branches guard index arithmetic that cannot in
//! fact go out of range; the guards keep the recursion measures evident.

use vstd::prelude::*;

use crate::json::{digits_run, is_digit, number_token_len, Json, JsonV};
use crate::json_ser::push_bytes;

verus! {

broadcast use {vstd::std_specs::vec::group_vec_axioms, vstd::seq::group_seq_axioms};

/// JSON inter-token whitespace.
pub open spec fn is_ws(b: u8) -> bool {
    b == 0x20 || b == 0x09 || b == 0x0a || b == 0x0d
}

pub open spec fn all_ws(s: Seq<u8>) -> bool {
    forall|i: int| 0 <= i < s.len() ==> is_ws(#[trigger] s[i])
}

/// The byte a simple escape `\x` stands for.
pub open spec fn unescape_simple(e: u8) -> Option<u8> {
    if e == '"' as u8 {
        Some('"' as u8)
    } else if e == '\\' as u8 {
        Some('\\' as u8)
    } else if e == '/' as u8 {
        Some('/' as u8)
    } else if e == 'b' as u8 {
        Some(0x08u8)
    } else if e == 'f' as u8 {
        Some(0x0cu8)
    } else if e == 'n' as u8 {
        Some(0x0au8)
    } else if e == 'r' as u8 {
        Some(0x0du8)
    } else if e == 't' as u8 {
        Some(0x09u8)
    } else {
        None
    }
}

/// Value of one hex digit, upper or lower case.
pub open spec fn hex_val(b: u8) -> Option<int> {
    if '0' as u8 <= b <= '9' as u8 {
        Some((b - 0x30) as int)
    } else if 'a' as u8 <= b <= 'f' as u8 {
        Some((b - 0x61 + 10) as int)
    } else if 'A' as u8 <= b <= 'F' as u8 {
        Some((b - 0x41 + 10) as int)
    } else {
        None
    }
}

/// Value of the four hex digits at `s[i .. i + 4]`.
pub open spec fn hex4(s: Seq<u8>, i: int) -> Option<int> {
    if 0 <= i && i + 4 <= s.len() {
        match (hex_val(s[i]), hex_val(s[i + 1]), hex_val(s[i + 2]), hex_val(s[i + 3])) {
            (Some(a), Some(b), Some(c), Some(d)) => Some(a * 4096 + b * 256 + c * 16 + d),
            _ => None,
        }
    } else {
        None
    }
}

/// UTF-8 encoding of a scalar value `0 <= c <= 0x10ffff`.
pub open spec fn utf8_enc(c: int) -> Seq<u8> {
    if c < 0x80 {
        seq![c as u8]
    } else if c < 0x800 {
        seq![(0xc0 + c / 64) as u8, (0x80 + c % 64) as u8]
    } else if c < 0x10000 {
        seq![(0xe0 + c / 4096) as u8, (0x80 + (c / 64) % 64) as u8, (0x80 + c % 64) as u8]
    } else {
        seq![
            (0xf0 + c / 0x40000) as u8,
            (0x80 + (c / 4096) % 64) as u8,
            (0x80 + (c / 64) % 64) as u8,
            (0x80 + c % 64) as u8,
        ]
    }
}

pub open spec fn is_high_surrogate(c: int) -> bool {
    0xd800 <= c <= 0xdbff
}

pub open spec fn is_low_surrogate(c: int) -> bool {
    0xdc00 <= c <= 0xdfff
}

/// Parses the body of a string literal after the opening quote, up to and
/// including the closing quote.  Returns the decoded bytes and the count of
/// input bytes consumed.
pub open spec fn parse_str_body(s: Seq<u8>) -> Option<(Seq<u8>, int)>
    decreases s.len(),
{
    if s.len() == 0 {
        None
    } else if s[0] == '"' as u8 {
        Some((Seq::empty(), 1))
    } else if s[0] == '\\' as u8 {
        if s.len() < 2 {
            None
        } else if s[1] == 'u' as u8 {
            match hex4(s, 2) {
                None => None,
                Some(cp) => if is_high_surrogate(cp) {
                    if s.len() >= 12 && s[6] == '\\' as u8 && s[7] == 'u' as u8 {
                        match hex4(s, 8) {
                            None => None,
                            Some(lo) => if is_low_surrogate(lo) {
                                let c = 0x10000 + (cp - 0xd800) * 0x400 + (lo - 0xdc00);
                                match parse_str_body(s.skip(12)) {
                                    None => None,
                                    Some((r, n)) => Some((utf8_enc(c) + r, 12 + n)),
                                }
                            } else {
                                None
                            },
                        }
                    } else {
                        None
                    }
                } else if is_low_surrogate(cp) {
                    None
                } else {
                    match parse_str_body(s.skip(6)) {
                        None => None,
                        Some((r, n)) => Some((utf8_enc(cp) + r, 6 + n)),
                    }
                },
            }
        } else {
            match unescape_simple(s[1]) {
                None => None,
                Some(b) => match parse_str_body(s.skip(2)) {
                    None => None,
                    Some((r, n)) => Some((seq![b] + r, 2 + n)),
                },
            }
        }
    } else if s[0] < 0x20 {
        None
    } else {
        match parse_str_body(s.skip(1)) {
            None => None,
            Some((r, n)) => Some((seq![s[0]] + r, 1 + n)),
        }
    }
}

/// Parses one JSON value, allowing leading whitespace.
pub open spec fn parse_value(s: Seq<u8>) -> Option<(JsonV, int)>
    decreases s.len(), 0int,
{
    if s.len() == 0 {
        None
    } else if is_ws(s[0]) {
        match parse_value(s.skip(1)) {
            None => None,
            Some((v, n)) => Some((v, 1 + n)),
        }
    } else if s[0] == '{' as u8 {
        match parse_members(s.skip(1), true) {
            None => None,
            Some((ms, n)) => Some((JsonV::Obj(ms), 1 + n)),
        }
    } else if s[0] == '[' as u8 {
        match parse_elements(s.skip(1), true) {
            None => None,
            Some((es, n)) => Some((JsonV::Arr(es), 1 + n)),
        }
    } else if s[0] == '"' as u8 {
        match parse_str_body(s.skip(1)) {
            None => None,
            Some((str, n)) => Some((JsonV::Str(str), 1 + n)),
        }
    } else if s[0] == 't' as u8 {
        if s.len() >= 4 && s[1] == 'r' as u8 && s[2] == 'u' as u8 && s[3] == 'e' as u8 {
            Some((JsonV::Bool(true), 4))
        } else {
            None
        }
    } else if s[0] == 'f' as u8 {
        if s.len() >= 5 && s[1] == 'a' as u8 && s[2] == 'l' as u8 && s[3] == 's' as u8 && s[4]
            == 'e' as u8 {
            Some((JsonV::Bool(false), 5))
        } else {
            None
        }
    } else if s[0] == 'n' as u8 {
        if s.len() >= 4 && s[1] == 'u' as u8 && s[2] == 'l' as u8 && s[3] == 'l' as u8 {
            Some((JsonV::Null, 4))
        } else {
            None
        }
    } else if s[0] == '-' as u8 || is_digit(s[0]) {
        let n = number_token_len(s);
        if n > 0 {
            Some((JsonV::Num(s.take(n)), n))
        } else {
            None
        }
    } else {
        None
    }
}

/// Parses `: value` with whitespace before the colon.
pub open spec fn parse_colon_value(s: Seq<u8>) -> Option<(JsonV, int)>
    decreases s.len(), 1int,
{
    if s.len() == 0 {
        None
    } else if is_ws(s[0]) {
        match parse_colon_value(s.skip(1)) {
            None => None,
            Some((v, n)) => Some((v, 1 + n)),
        }
    } else if s[0] == ':' as u8 {
        match parse_value(s.skip(1)) {
            None => None,
            Some((v, n)) => Some((v, 1 + n)),
        }
    } else {
        None
    }
}

/// After one array element: either `, elements` or the closing bracket.
/// Returns the remaining elements.
pub open spec fn parse_more_elements(s: Seq<u8>) -> Option<(Seq<JsonV>, int)>
    decreases s.len(), 1int,
{
    if s.len() == 0 {
        None
    } else if is_ws(s[0]) {
        match parse_more_elements(s.skip(1)) {
            None => None,
            Some((es, n)) => Some((es, 1 + n)),
        }
    } else if s[0] == ',' as u8 {
        match parse_elements(s.skip(1), false) {
            None => None,
            Some((es, n)) => Some((es, 1 + n)),
        }
    } else if s[0] == ']' as u8 {
        Some((Seq::empty(), 1))
    } else {
        None
    }
}

/// After one object member: either `, members` or the closing brace.
/// Returns the remaining members.
pub open spec fn parse_more_members(s: Seq<u8>) -> Option<(Seq<(Seq<u8>, JsonV)>, int)>
    decreases s.len(), 1int,
{
    if s.len() == 0 {
        None
    } else if is_ws(s[0]) {
        match parse_more_members(s.skip(1)) {
            None => None,
            Some((ms, n)) => Some((ms, 1 + n)),
        }
    } else if s[0] == ',' as u8 {
        match parse_members(s.skip(1), false) {
            None => None,
            Some((ms, n)) => Some((ms, 1 + n)),
        }
    } else if s[0] == '}' as u8 {
        Some((Seq::empty(), 1))
    } else {
        None
    }
}

/// Parses the elements of an array after the opening bracket, up to and
/// including the closing bracket.  `allow_close` is false directly after a
/// comma, where another element is required.
pub open spec fn parse_elements(s: Seq<u8>, allow_close: bool) -> Option<(Seq<JsonV>, int)>
    decreases s.len(), 2int,
{
    if s.len() == 0 {
        None
    } else if is_ws(s[0]) {
        match parse_elements(s.skip(1), allow_close) {
            None => None,
            Some((es, n)) => Some((es, 1 + n)),
        }
    } else if s[0] == ']' as u8 {
        if allow_close {
            Some((Seq::empty(), 1))
        } else {
            None
        }
    } else {
        match parse_value(s) {
            None => None,
            Some((v, vn)) => if vn < 1 || vn > s.len() {
                None  // unreachable: a value consumes at least one byte
            } else {
                match parse_more_elements(s.skip(vn)) {
                    None => None,
                    Some((rest, rn)) => Some((seq![v] + rest, vn + rn)),
                }
            },
        }
    }
}

/// Parses the members of an object after the opening brace, up to and
/// including the closing brace.  `allow_close` is false directly after a
/// comma, where another member is required.
pub open spec fn parse_members(s: Seq<u8>, allow_close: bool) -> Option<
    (Seq<(Seq<u8>, JsonV)>, int),
>
    decreases s.len(), 2int,
{
    if s.len() == 0 {
        None
    } else if is_ws(s[0]) {
        match parse_members(s.skip(1), allow_close) {
            None => None,
            Some((ms, n)) => Some((ms, 1 + n)),
        }
    } else if s[0] == '}' as u8 {
        if allow_close {
            Some((Seq::empty(), 1))
        } else {
            None
        }
    } else if s[0] == '"' as u8 {
        match parse_str_body(s.skip(1)) {
            None => None,
            Some((key, kn)) => if kn < 1 || 1 + kn > s.len() {
                None  // unreachable: the string body includes its closing quote
            } else {
                match parse_colon_value(s.skip(1 + kn)) {
                    None => None,
                    Some((v, vn)) => if vn < 1 || 1 + kn + vn > s.len() {
                        None  // unreachable
                    } else {
                        match parse_more_members(s.skip(1 + kn + vn)) {
                            None => None,
                            Some((rest, rn)) => Some((seq![(key, v)] + rest, 1 + kn + vn + rn)),
                        }
                    },
                }
            },
        }
    } else {
        None
    }
}

/// A parse outcome moved `d` bytes further into the input.
pub open spec fn shifted<T>(o: Option<(T, int)>, d: int) -> Option<(T, int)> {
    match o {
        None => None,
        Some((v, n)) => Some((v, d + n)),
    }
}

pub fn ws_byte(b: u8) -> (r: bool)
    ensures
        r == is_ws(b),
{
    b == 0x20 || b == 0x09 || b == 0x0a || b == 0x0d
}

pub fn hex_val_byte(b: u8) -> (r: Option<u32>)
    ensures
        match hex_val(b) {
            None => r is None,
            Some(v) => r matches Some(x) && x == v && x < 16,
        },
{
    if '0' as u8 <= b && b <= '9' as u8 {
        Some((b - 0x30) as u32)
    } else if 'a' as u8 <= b && b <= 'f' as u8 {
        Some((b - 0x61 + 10) as u32)
    } else if 'A' as u8 <= b && b <= 'F' as u8 {
        Some((b - 0x41 + 10) as u32)
    } else {
        None
    }
}

/// Reads the four hex digits at `s[p .. p + 4]`.
pub fn hex4_at(s: &[u8], p: usize) -> (r: Option<u32>)
    ensures
        match hex4(s@, p as int) {
            None => r is None,
            Some(v) => r matches Some(x) && x == v && x < 0x10000,
        },
{
    if p >= s.len() || s.len() - p < 4 {
        return None;
    }
    let a = hex_val_byte(s[p]);
    let b = hex_val_byte(s[p + 1]);
    let c = hex_val_byte(s[p + 2]);
    let d = hex_val_byte(s[p + 3]);
    match (a, b, c, d) {
        (Some(a), Some(b), Some(c), Some(d)) => Some(a * 4096 + b * 256 + c * 16 + d),
        _ => None,
    }
}

/// `hex4` sees the same digits through a suffix.
pub proof fn lemma_hex4_shift(s: Seq<u8>, k: int, m: int)
    requires
        0 <= k <= s.len(),
        0 <= m,
    ensures
        hex4(s.skip(k), m) == hex4(s, k + m),
    decreases s.len(),
{
    let t = s.skip(k);
    if m + 4 <= t.len() {
        assert(t[m] == s[k + m]);
        assert(t[m + 1] == s[k + m + 1]);
        assert(t[m + 2] == s[k + m + 2]);
        assert(t[m + 3] == s[k + m + 3]);
    }
}

/// Appends the UTF-8 encoding of the scalar `c`.
pub fn push_utf8(acc: &mut Vec<u8>, c: u32)
    requires
        c <= 0x10ffff,
    ensures
        final(acc)@ == old(acc)@ + utf8_enc(c as int),
{
    let ghost base = acc@;
    if c < 0x80 {
        acc.push(c as u8);
        proof {
            assert(acc@ =~= base + utf8_enc(c as int));
        }
    } else if c < 0x800 {
        acc.push((0xc0 + c / 64) as u8);
        acc.push((0x80 + c % 64) as u8);
        proof {
            assert((c / 64) as int == c as int / 64);
            assert((c % 64) as int == c as int % 64);
            assert(acc@ =~= base + utf8_enc(c as int));
        }
    } else if c < 0x10000 {
        acc.push((0xe0 + c / 4096) as u8);
        acc.push((0x80 + (c / 64) % 64) as u8);
        acc.push((0x80 + c % 64) as u8);
        proof {
            assert((c / 4096) as int == c as int / 4096);
            assert(((c / 64) % 64) as int == (c as int / 64) % 64);
            assert((c % 64) as int == c as int % 64);
            assert(acc@ =~= base + utf8_enc(c as int));
        }
    } else {
        acc.push((0xf0 + c / 0x40000) as u8);
        acc.push((0x80 + (c / 4096) % 64) as u8);
        acc.push((0x80 + (c / 64) % 64) as u8);
        acc.push((0x80 + c % 64) as u8);
        proof {
            assert((c / 0x40000) as int == c as int / 0x40000);
            assert(((c / 4096) % 64) as int == (c as int / 4096) % 64);
            assert(((c / 64) % 64) as int == (c as int / 64) % 64);
            assert((c % 64) as int == c as int % 64);
            assert(acc@ =~= base + utf8_enc(c as int));
        }
    }
}

/// Index just past the digit run starting at `i`.
pub fn digits_end(s: &[u8], i: usize) -> (j: usize)
    requires
        i <= s.len(),
    ensures
        i <= j <= s@.len(),
        j - i == digits_run(s@.skip(i as int)),
        j < s@.len() ==> !is_digit(s@[j as int]),
{
    let mut j = i;
    while j < s.len() && '0' as u8 <= s[j] && s[j] <= '9' as u8
        invariant
            i <= j <= s@.len(),
            digits_run(s@.skip(i as int)) == (j - i) + digits_run(s@.skip(j as int)),
        decreases s@.len() - j,
    {
        proof {
            assert(s@.skip(j as int)[0] == s@[j as int]);
            assert(s@.skip(j as int).drop_first() =~= s@.skip(j + 1int));
        }
        j = j + 1;
    }
    proof {
        if j < s@.len() {
            assert(s@.skip(j as int)[0] == s@[j as int]);
        }
        assert(digits_run(s@.skip(j as int)) == 0);
    }
    j
}

/// Parses a whole document: one value, with whitespace around it, spanning
/// the entire input.
pub open spec fn parse_json(s: Seq<u8>) -> Option<JsonV> {
    match parse_value(s) {
        None => None,
        Some((v, n)) => if 0 <= n <= s.len() && all_ws(s.skip(n)) {
            Some(v)
        } else {
            None
        },
    }
}

pub fn unescape_byte(e: u8) -> (r: Option<u8>)
    ensures
        r == unescape_simple(e),
{
    if e == '"' as u8 {
        Some('"' as u8)
    } else if e == '\\' as u8 {
        Some('\\' as u8)
    } else if e == '/' as u8 {
        Some('/' as u8)
    } else if e == 'b' as u8 {
        Some(0x08u8)
    } else if e == 'f' as u8 {
        Some(0x0cu8)
    } else if e == 'n' as u8 {
        Some(0x0au8)
    } else if e == 'r' as u8 {
        Some(0x0du8)
    } else if e == 't' as u8 {
        Some(0x09u8)
    } else {
        None
    }
}

/// The outcome of a string-body parse, continued after an already-decoded
/// prefix.
pub open spec fn str_cont(o: Option<(Seq<u8>, int)>, pre: Seq<u8>, d: int) -> Option<
    (Seq<u8>, int),
> {
    match o {
        None => None,
        Some((r, n)) => Some((pre + r, d + n)),
    }
}

/// Composing two decoded-prefix continuations.
pub proof fn lemma_str_cont_compose(
    o: Option<(Seq<u8>, int)>,
    d: Seq<u8>,
    dk: int,
    pre: Seq<u8>,
    dp: int,
)
    ensures
        str_cont(str_cont(o, d, dk), pre, dp) == str_cont(o, pre + d, dp + dk),
{
    match o {
        None => {},
        Some((r, n)) => {
            assert(pre + (d + r) =~= (pre + d) + r);
        },
    }
}

/// Decodes the `\uXXXX` escape (possibly a surrogate pair) at `k`.
#[verifier::rlimit(60)]
fn str_step_unicode(s: &[u8], k: usize) -> (r: Option<(Vec<u8>, usize)>)
    requires
        k + 1 < s@.len(),
        s@[k as int] == '\\' as u8,
        s@[k + 1int] == 'u' as u8,
    ensures
        match r {
            None => parse_str_body(s@.skip(k as int)) is None,
            Some((d, k2)) => k < k2 <= s@.len() && parse_str_body(s@.skip(k as int)) == str_cont(
                parse_str_body(s@.skip(k2 as int)),
                d@,
                k2 - k,
            ),
        },
{
    let slen = s.len();
    let ghost sk = s@.skip(k as int);
    proof {
        assert(sk[0] == s@[k as int]);
        assert(sk[1] == s@[k + 1int]);
        lemma_hex4_shift(s@, k as int, 2);
    }
    match hex4_at(s, k + 2) {
        None => None,
        Some(cp) => {
            if 0xd800 <= cp && cp <= 0xdbff {
                if s.len() - k >= 12 && s[k + 6] == '\\' as u8 && s[k + 7] == 'u' as u8 {
                    proof {
                        assert(sk[6] == s@[k + 6int]);
                        assert(sk[7] == s@[k + 7int]);
                        lemma_hex4_shift(s@, k as int, 8);
                    }
                    match hex4_at(s, k + 8) {
                        None => None,
                        Some(lo) => {
                            if 0xdc00 <= lo && lo <= 0xdfff {
                                let c: u32 = 0x10000 + (cp - 0xd800) * 0x400 + (lo - 0xdc00);
                                let mut d: Vec<u8> = Vec::new();
                                push_utf8(&mut d, c);
                                proof {
                                    assert(sk.skip(12) =~= s@.skip(k + 12int));
                                    assert(d@ =~= utf8_enc(c as int));
                                }
                                Some((d, k + 12))
                            } else {
                                None
                            }
                        },
                    }
                } else {
                    None
                }
            } else if 0xdc00 <= cp && cp <= 0xdfff {
                None
            } else {
                let mut d: Vec<u8> = Vec::new();
                push_utf8(&mut d, cp);
                proof {
                    assert(sk.skip(6) =~= s@.skip(k + 6int));
                    assert(d@ =~= utf8_enc(cp as int));
                }
                Some((d, k + 6))
            }
        },
    }
}

/// Decodes one string character (escaped or literal) at `k`, which is not
/// the closing quote.
#[verifier::rlimit(60)]
fn str_step(s: &[u8], k: usize) -> (r: Option<(Vec<u8>, usize)>)
    requires
        k < s@.len(),
        s@[k as int] != '"' as u8,
    ensures
        match r {
            None => parse_str_body(s@.skip(k as int)) is None,
            Some((d, k2)) => k < k2 <= s@.len() && parse_str_body(s@.skip(k as int)) == str_cont(
                parse_str_body(s@.skip(k2 as int)),
                d@,
                k2 - k,
            ),
        },
{
    let ghost sk = s@.skip(k as int);
    proof {
        assert(sk[0] == s@[k as int]);
    }
    let b = s[k];
    if b == '\\' as u8 {
        if s.len() - k < 2 {
            return None;
        }
        proof {
            assert(sk[1] == s@[k + 1int]);
        }
        let e = s[k + 1];
        if e == 'u' as u8 {
            str_step_unicode(s, k)
        } else {
            match unescape_byte(e) {
                None => None,
                Some(ub) => {
                    let mut d: Vec<u8> = Vec::new();
                    d.push(ub);
                    proof {
                        assert(sk.skip(2) =~= s@.skip(k + 2int));
                        assert(d@ =~= seq![ub]);
                    }
                    Some((d, k + 2))
                },
            }
        }
    } else if b < 0x20 {
        None
    } else {
        let mut d: Vec<u8> = Vec::new();
        d.push(b);
        proof {
            assert(sk.skip(1) =~= s@.skip(k + 1int));
            assert(d@ =~= seq![b]);
        }
        Some((d, k + 1))
    }
}

/// Parses a string body starting at `i` (just after the opening quote).
/// Success yields the decoded bytes and the index just past the closing
/// quote.
#[verifier::loop_isolation(false)]
pub fn parse_str_body_at(s: &[u8], i: usize) -> (r: Option<(Vec<u8>, usize)>)
    requires
        i <= s@.len(),
    ensures
        match parse_str_body(s@.skip(i as int)) {
            None => r is None,
            Some((str, n)) => r matches Some((b, j)) && b@ == str && j == i + n,
        },
        r matches Some((b, j)) ==> i < j <= s@.len(),
{
    let mut acc: Vec<u8> = Vec::new();
    let mut k = i;
    while k < s.len()
        invariant
            i <= k <= s@.len(),
            parse_str_body(s@.skip(i as int)) == str_cont(
                parse_str_body(s@.skip(k as int)),
                acc@,
                k - i,
            ),
        decreases s@.len() - k,
    {
        let ghost sk = s@.skip(k as int);
        proof {
            assert(sk[0] == s@[k as int]);
        }
        let b = s[k];
        if b == '"' as u8 {
            proof {
                assert(parse_str_body(sk) == Some((Seq::<u8>::empty(), 1int)));
                assert(acc@ + Seq::<u8>::empty() =~= acc@);
            }
            return Some((acc, k + 1));
        }
        match str_step(s, k) {
            None => {
                return None;
            },
            Some((d, k2)) => {
                proof {
                    lemma_str_cont_compose(
                        parse_str_body(s@.skip(k2 as int)),
                        d@,
                        k2 - k,
                        acc@,
                        k - i,
                    );
                }
                push_bytes(&mut acc, d.as_slice());
                k = k2;
            },
        }
    }
    proof {
        assert(s@.skip(k as int).len() == 0);
    }
    None
}

/// Index just past the number token at `k`; `j == k` when no token starts
/// there.
#[verifier::rlimit(60)]
pub fn number_token_end(s: &[u8], k: usize) -> (j: usize)
    requires
        k <= s@.len(),
    ensures
        k <= j <= s@.len(),
        j - k == number_token_len(s@.skip(k as int)),
{
    let slen = s.len();
    let ghost sk = s@.skip(k as int);
    let neg: usize = if k < slen && s[k] == '-' as u8 {
        1
    } else {
        0
    };
    proof {
        if k < slen {
            assert(sk[0] == s@[k as int]);
        }
        assert(sk.skip(neg as int) =~= s@.skip(k + neg as int));
    }
    let t0 = k + neg;
    let ghost t = s@.skip(t0 as int);
    if t0 >= slen || s[t0] < '0' as u8 || s[t0] > '9' as u8 {
        proof {
            if t0 < slen {
                assert(t[0] == s@[t0 as int]);
            }
            assert(crate::json::int_part_len(t) == 0);
        }
        return k;
    }
    proof {
        assert(t[0] == s@[t0 as int]);
    }
    let ip: usize = if s[t0] == '0' as u8 {
        1
    } else {
        digits_end(s, t0) - t0
    };
    proof {
        assert(crate::json::int_part_len(t) == ip);
        assert(ip >= 1) by {
            if s@[t0 as int] != '0' as u8 {
                assert(t[0] == s@[t0 as int]);
                assert(digits_run(t) >= 1);
            }
        }
    }
    let u0 = t0 + ip;
    let ghost u = s@.skip(u0 as int);
    proof {
        assert(t.skip(ip as int) =~= u);
    }
    let fp: usize = if u0 < slen && slen - u0 >= 2 && s[u0] == '.' as u8 && '0' as u8 <= s[u0 + 1] && s[u0 + 1]
        <= '9' as u8 {
        proof {
            assert(u[0] == s@[u0 as int]);
            assert(u[1] == s@[u0 + 1int]);
            assert(u.skip(1) =~= s@.skip(u0 + 1int));
        }
        1 + (digits_end(s, u0 + 1) - (u0 + 1))
    } else {
        proof {
            if u0 < slen && slen - u0 >= 2 {
                assert(u[0] == s@[u0 as int]);
                assert(u[1] == s@[u0 + 1int]);
            }
            assert(crate::json::frac_part_len(u) == 0);
        }
        0
    };
    proof {
        assert(crate::json::frac_part_len(u) == fp);
    }
    let w0 = u0 + fp;
    let ghost w = s@.skip(w0 as int);
    proof {
        assert(u.skip(fp as int) =~= w);
    }
    let ep: usize = if w0 < slen && slen - w0 >= 2 && (s[w0] == 'e' as u8 || s[w0] == 'E' as u8) {
        proof {
            assert(w[0] == s@[w0 as int]);
            assert(w[1] == s@[w0 + 1int]);
        }
        let sign: usize = if s[w0 + 1] == '+' as u8 || s[w0 + 1] == '-' as u8 {
            1
        } else {
            0
        };
        proof {
            assert(w.skip(1 + sign as int) =~= s@.skip(w0 + 1 + sign as int));
        }
        let dl = digits_end(s, w0 + 1 + sign) - (w0 + 1 + sign);
        if dl > 0 {
            1 + sign + dl
        } else {
            0
        }
    } else {
        proof {
            if w0 < slen && slen - w0 >= 2 {
                assert(w[0] == s@[w0 as int]);
                assert(w[1] == s@[w0 + 1int]);
            }
            assert(crate::json::exp_part_len(w) == 0);
        }
        0
    };
    proof {
        assert(crate::json::exp_part_len(w) == ep);
        assert(number_token_len(sk) == neg + ip + fp + ep);
    }
    w0 + ep
}

/// Parses one value starting at `i`, leading whitespace allowed.  Success
/// yields the value and the index just past it.
#[verifier::loop_isolation(false)]
#[verifier::rlimit(100)]
pub fn parse_value_at(s: &[u8], i: usize) -> (r: Option<(Json, usize)>)
    requires
        i <= s@.len(),
    ensures
        match parse_value(s@.skip(i as int)) {
            None => r is None,
            Some((v, n)) => r matches Some((jv, j)) && jv@ == v && j == i + n,
        },
        r matches Some((jv, j)) ==> i < j <= s@.len(),
    decreases s@.len() - i, 0int,
{
    let mut k = i;
    while k < s.len() && ws_byte(s[k])
        invariant
            i <= k <= s@.len(),
            parse_value(s@.skip(i as int)) == shifted(parse_value(s@.skip(k as int)), k - i),
        decreases s@.len() - k,
    {
        proof {
            assert(s@.skip(k as int)[0] == s@[k as int]);
            assert(s@.skip(k as int).skip(1) =~= s@.skip(k + 1int));
        }
        k = k + 1;
    }
    if k == s.len() {
        return None;
    }
    let ghost sk = s@.skip(k as int);
    proof {
        assert(sk[0] == s@[k as int]);
    }
    let b = s[k];
    if b == '{' as u8 {
        proof {
            assert(sk.skip(1) =~= s@.skip(k + 1int));
        }
        match parse_members_at(s, k + 1, true) {
            None => None,
            Some((ms, j)) => Some((Json::Obj(ms), j)),
        }
    } else if b == '[' as u8 {
        proof {
            assert(sk.skip(1) =~= s@.skip(k + 1int));
        }
        match parse_elements_at(s, k + 1, true) {
            None => None,
            Some((es, j)) => Some((Json::Arr(es), j)),
        }
    } else if b == '"' as u8 {
        proof {
            assert(sk.skip(1) =~= s@.skip(k + 1int));
        }
        match parse_str_body_at(s, k + 1) {
            None => None,
            Some((str, j)) => Some((Json::Str(str), j)),
        }
    } else if b == 't' as u8 {
        if s.len() - k >= 4 && s[k + 1] == 'r' as u8 && s[k + 2] == 'u' as u8 && s[k + 3]
            == 'e' as u8 {
            proof {
                assert(sk[1] == s@[k + 1int] && sk[2] == s@[k + 2int] && sk[3] == s@[k + 3int]);
            }
            Some((Json::Bool(true), k + 4))
        } else {
            proof {
                if sk.len() >= 4 {
                    assert(sk[1] == s@[k + 1int] && sk[2] == s@[k + 2int] && sk[3] == s@[k
                        + 3int]);
                }
            }
            None
        }
    } else if b == 'f' as u8 {
        if s.len() - k >= 5 && s[k + 1] == 'a' as u8 && s[k + 2] == 'l' as u8 && s[k + 3]
            == 's' as u8 && s[k + 4] == 'e' as u8 {
            proof {
                assert(sk[1] == s@[k + 1int] && sk[2] == s@[k + 2int] && sk[3] == s@[k + 3int]
                    && sk[4] == s@[k + 4int]);
            }
            Some((Json::Bool(false), k + 5))
        } else {
            proof {
                if sk.len() >= 5 {
                    assert(sk[1] == s@[k + 1int] && sk[2] == s@[k + 2int] && sk[3] == s@[k + 3int]
                        && sk[4] == s@[k + 4int]);
                }
            }
            None
        }
    } else if b == 'n' as u8 {
        if s.len() - k >= 4 && s[k + 1] == 'u' as u8 && s[k + 2] == 'l' as u8 && s[k + 3]
            == 'l' as u8 {
            proof {
                assert(sk[1] == s@[k + 1int] && sk[2] == s@[k + 2int] && sk[3] == s@[k + 3int]);
            }
            Some((Json::Null, k + 4))
        } else {
            proof {
                if sk.len() >= 4 {
                    assert(sk[1] == s@[k + 1int] && sk[2] == s@[k + 2int] && sk[3] == s@[k
                        + 3int]);
                }
            }
            None
        }
    } else if b == '-' as u8 || ('0' as u8 <= b && b <= '9' as u8) {
        let j = number_token_end(s, k);
        if j > k {
            let token = vstd::slice::slice_to_vec(vstd::slice::slice_subrange(s, k, j));
            proof {
                assert(token@ =~= sk.take(j - k as int));
            }
            Some((Json::Num(token), j))
        } else {
            None
        }
    } else {
        None
    }
}

/// Parses `: value` starting at `i`.
#[verifier::loop_isolation(false)]
pub fn parse_colon_value_at(s: &[u8], i: usize) -> (r: Option<(Json, usize)>)
    requires
        i <= s@.len(),
    ensures
        match parse_colon_value(s@.skip(i as int)) {
            None => r is None,
            Some((v, n)) => r matches Some((jv, j)) && jv@ == v && j == i + n,
        },
        r matches Some((jv, j)) ==> i < j <= s@.len(),
    decreases s@.len() - i, 1int,
{
    let mut k = i;
    while k < s.len() && ws_byte(s[k])
        invariant
            i <= k <= s@.len(),
            parse_colon_value(s@.skip(i as int)) == shifted(
                parse_colon_value(s@.skip(k as int)),
                k - i,
            ),
        decreases s@.len() - k,
    {
        proof {
            assert(s@.skip(k as int)[0] == s@[k as int]);
            assert(s@.skip(k as int).skip(1) =~= s@.skip(k + 1int));
        }
        k = k + 1;
    }
    if k == s.len() {
        return None;
    }
    let ghost sk = s@.skip(k as int);
    proof {
        assert(sk[0] == s@[k as int]);
    }
    if s[k] == ':' as u8 {
        proof {
            assert(sk.skip(1) =~= s@.skip(k + 1int));
        }
        match parse_value_at(s, k + 1) {
            None => None,
            Some((jv, j)) => Some((jv, j)),
        }
    } else {
        None
    }
}

/// Parses what follows one array element: `, elements` or `]`.
#[verifier::loop_isolation(false)]
pub fn parse_more_elements_at(s: &[u8], i: usize) -> (r: Option<(Vec<Json>, usize)>)
    requires
        i <= s@.len(),
    ensures
        match parse_more_elements(s@.skip(i as int)) {
            None => r is None,
            Some((es, n)) => r matches Some((vs, j)) && crate::json::arr_view(vs@) == es && j == i
                + n,
        },
        r matches Some((vs, j)) ==> i < j <= s@.len(),
    decreases s@.len() - i, 1int,
{
    let mut k = i;
    while k < s.len() && ws_byte(s[k])
        invariant
            i <= k <= s@.len(),
            parse_more_elements(s@.skip(i as int)) == shifted(
                parse_more_elements(s@.skip(k as int)),
                k - i,
            ),
        decreases s@.len() - k,
    {
        proof {
            assert(s@.skip(k as int)[0] == s@[k as int]);
            assert(s@.skip(k as int).skip(1) =~= s@.skip(k + 1int));
        }
        k = k + 1;
    }
    if k == s.len() {
        return None;
    }
    let ghost sk = s@.skip(k as int);
    proof {
        assert(sk[0] == s@[k as int]);
    }
    if s[k] == ',' as u8 {
        proof {
            assert(sk.skip(1) =~= s@.skip(k + 1int));
        }
        match parse_elements_at(s, k + 1, false) {
            None => None,
            Some((vs, j)) => Some((vs, j)),
        }
    } else if s[k] == ']' as u8 {
        proof {
            assert(crate::json::arr_view(Seq::<Json>::empty()) =~= Seq::<JsonV>::empty());
        }
        Some((Vec::new(), k + 1))
    } else {
        None
    }
}

/// Parses array elements starting at `i` (just after `[` or `,`), up to and
/// including the closing bracket.
#[verifier::loop_isolation(false)]
#[verifier::rlimit(60)]
pub fn parse_elements_at(s: &[u8], i: usize, allow_close: bool) -> (r: Option<(Vec<Json>, usize)>)
    requires
        i <= s@.len(),
    ensures
        match parse_elements(s@.skip(i as int), allow_close) {
            None => r is None,
            Some((es, n)) => r matches Some((vs, j)) && crate::json::arr_view(vs@) == es && j == i
                + n,
        },
        r matches Some((vs, j)) ==> i < j <= s@.len(),
    decreases s@.len() - i, 2int,
{
    let mut k = i;
    while k < s.len() && ws_byte(s[k])
        invariant
            i <= k <= s@.len(),
            parse_elements(s@.skip(i as int), allow_close) == shifted(
                parse_elements(s@.skip(k as int), allow_close),
                k - i,
            ),
        decreases s@.len() - k,
    {
        proof {
            assert(s@.skip(k as int)[0] == s@[k as int]);
            assert(s@.skip(k as int).skip(1) =~= s@.skip(k + 1int));
        }
        k = k + 1;
    }
    if k == s.len() {
        return None;
    }
    let ghost sk = s@.skip(k as int);
    proof {
        assert(sk[0] == s@[k as int]);
    }
    if s[k] == ']' as u8 {
        if allow_close {
            proof {
                assert(crate::json::arr_view(Seq::<Json>::empty()) =~= Seq::<JsonV>::empty());
            }
            Some((Vec::new(), k + 1))
        } else {
            None
        }
    } else {
        match parse_value_at(s, k) {
            None => None,
            Some((jv, j)) => {
                proof {
                    assert(sk.skip(j as int - k as int) =~= s@.skip(j as int));
                }
                match parse_more_elements_at(s, j) {
                    None => None,
                    Some((mut vs, j2)) => {
                        let ghost old_vs = vs@;
                        vs.insert(0, jv);
                        proof {
                            crate::json::lemma_arr_view(old_vs);
                            crate::json::lemma_arr_view(vs@);
                            assert(vs@ =~= seq![jv].add(old_vs));
                            assert forall|q: int|
                                0 <= q < vs@.len() implies crate::json::arr_view(vs@)[q] == (seq![
                                jv@,
                            ].add(crate::json::arr_view(old_vs)))[q] by {
                                if q > 0 {
                                    assert(vs@[q] == old_vs[q - 1]);
                                }
                            }
                            assert(crate::json::arr_view(vs@) =~= seq![jv@].add(
                                crate::json::arr_view(old_vs),
                            ));
                        }
                        Some((vs, j2))
                    },
                }
            },
        }
    }
}

/// Parses what follows one object member: `, members` or `}`.
#[verifier::loop_isolation(false)]
pub fn parse_more_members_at(s: &[u8], i: usize) -> (r: Option<(Vec<(Vec<u8>, Json)>, usize)>)
    requires
        i <= s@.len(),
    ensures
        match parse_more_members(s@.skip(i as int)) {
            None => r is None,
            Some((ms, n)) => r matches Some((vs, j)) && crate::json::obj_view(vs@) == ms && j == i
                + n,
        },
        r matches Some((vs, j)) ==> i < j <= s@.len(),
    decreases s@.len() - i, 1int,
{
    let mut k = i;
    while k < s.len() && ws_byte(s[k])
        invariant
            i <= k <= s@.len(),
            parse_more_members(s@.skip(i as int)) == shifted(
                parse_more_members(s@.skip(k as int)),
                k - i,
            ),
        decreases s@.len() - k,
    {
        proof {
            assert(s@.skip(k as int)[0] == s@[k as int]);
            assert(s@.skip(k as int).skip(1) =~= s@.skip(k + 1int));
        }
        k = k + 1;
    }
    if k == s.len() {
        return None;
    }
    let ghost sk = s@.skip(k as int);
    proof {
        assert(sk[0] == s@[k as int]);
    }
    if s[k] == ',' as u8 {
        proof {
            assert(sk.skip(1) =~= s@.skip(k + 1int));
        }
        match parse_members_at(s, k + 1, false) {
            None => None,
            Some((vs, j)) => Some((vs, j)),
        }
    } else if s[k] == '}' as u8 {
        proof {
            assert(crate::json::obj_view(Seq::<(Vec<u8>, Json)>::empty()) =~= Seq::<
                (Seq<u8>, JsonV),
            >::empty());
        }
        Some((Vec::new(), k + 1))
    } else {
        None
    }
}

/// Parses object members starting at `i` (just after `{` or `,`), up to and
/// including the closing brace.
#[verifier::loop_isolation(false)]
#[verifier::rlimit(100)]
pub fn parse_members_at(s: &[u8], i: usize, allow_close: bool) -> (r: Option<
    (Vec<(Vec<u8>, Json)>, usize),
>)
    requires
        i <= s@.len(),
    ensures
        match parse_members(s@.skip(i as int), allow_close) {
            None => r is None,
            Some((ms, n)) => r matches Some((vs, j)) && crate::json::obj_view(vs@) == ms && j == i
                + n,
        },
        r matches Some((vs, j)) ==> i < j <= s@.len(),
    decreases s@.len() - i, 2int,
{
    let mut k = i;
    while k < s.len() && ws_byte(s[k])
        invariant
            i <= k <= s@.len(),
            parse_members(s@.skip(i as int), allow_close) == shifted(
                parse_members(s@.skip(k as int), allow_close),
                k - i,
            ),
        decreases s@.len() - k,
    {
        proof {
            assert(s@.skip(k as int)[0] == s@[k as int]);
            assert(s@.skip(k as int).skip(1) =~= s@.skip(k + 1int));
        }
        k = k + 1;
    }
    if k == s.len() {
        return None;
    }
    let ghost sk = s@.skip(k as int);
    proof {
        assert(sk[0] == s@[k as int]);
    }
    if s[k] == '}' as u8 {
        if allow_close {
            proof {
                assert(crate::json::obj_view(Seq::<(Vec<u8>, Json)>::empty()) =~= Seq::<
                    (Seq<u8>, JsonV),
                >::empty());
            }
            Some((Vec::new(), k + 1))
        } else {
            None
        }
    } else if s[k] == '"' as u8 {
        proof {
            assert(sk.skip(1) =~= s@.skip(k + 1int));
        }
        match parse_str_body_at(s, k + 1) {
            None => None,
            Some((key, jk)) => {
                proof {
                    assert(sk.skip(1 + (jk - (k + 1)) as int) =~= s@.skip(jk as int));
                }
                match parse_colon_value_at(s, jk) {
                    None => None,
                    Some((jv, j2)) => {
                        proof {
                            assert(sk.skip(1 + (jk - (k + 1)) + (j2 - jk) as int) =~= s@.skip(
                                j2 as int,
                            ));
                        }
                        match parse_more_members_at(s, j2) {
                            None => None,
                            Some((mut vs, j3)) => {
                                let ghost old_vs = vs@;
                                vs.insert(0, (key, jv));
                                proof {
                                    crate::json::lemma_obj_view(old_vs);
                                    crate::json::lemma_obj_view(vs@);
                                    assert(vs@ =~= seq![(key, jv)].add(old_vs));
                                    assert forall|q: int|
                                        0 <= q < vs@.len() implies crate::json::obj_view(vs@)[q]
                                        == (seq![(key@, jv@)].add(
                                        crate::json::obj_view(old_vs),
                                    ))[q] by {
                                        assert(crate::json::obj_view(vs@)[q] == (
                                            vs@[q].0@,
                                            crate::json::json_view(vs@[q].1),
                                        ));
                                        if q > 0 {
                                            assert(vs@[q] == old_vs[q - 1]);
                                            assert(crate::json::obj_view(old_vs)[q - 1] == (
                                                old_vs[q - 1].0@,
                                                crate::json::json_view(old_vs[q - 1].1),
                                            ));
                                        } else {
                                            assert(vs@[0] == (key, jv));
                                        }
                                    }
                                    assert(crate::json::obj_view(vs@) =~= seq![(key@, jv@)].add(
                                        crate::json::obj_view(old_vs),
                                    ));
                                }
                                Some((vs, j3))
                            },
                        }
                    },
                }
            },
        }
    } else {
        None
    }
}

/// Parses a whole document from bytes.
#[verifier::loop_isolation(false)]
pub fn parse_json_bytes(s: &[u8]) -> (r: Option<Json>)
    ensures
        match parse_json(s@) {
            None => r is None,
            Some(v) => r matches Some(jv) && jv@ == v,
        },
{
    proof {
        assert(s@.skip(0int) =~= s@);
    }
    match parse_value_at(s, 0) {
        None => None,
        Some((jv, j)) => {
            let mut m = j;
            while m < s.len() && ws_byte(s[m])
                invariant
                    j <= m <= s@.len(),
                    forall|p: int| j <= p < m ==> is_ws(#[trigger] s@[p]),
                decreases s@.len() - m,
            {
                m = m + 1;
            }
            if m == s.len() {
                proof {
                    assert forall|q: int| 0 <= q < s@.skip(j as int).len() implies is_ws(
                        #[trigger] s@.skip(j as int)[q],
                    ) by {
                        assert(s@.skip(j as int)[q] == s@[j + q]);
                    }
                    assert(all_ws(s@.skip(j as int)));
                }
                Some(jv)
            } else {
                proof {
                    assert(s@.skip(j as int)[m - j] == s@[m as int]);
                    assert(!all_ws(s@.skip(j as int)));
                }
                None
            }
        },
    }
}

} // verus!
