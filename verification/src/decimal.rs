//! Decimal text for the integer fields of the protocol: execution counters
//! and history line numbers travel as JSON number tokens.

use vstd::prelude::*;

use crate::json::{digits_run, int_part_len, is_digit, is_number_token, number_token_len};

verus! {

broadcast use {vstd::std_specs::vec::group_vec_axioms, vstd::seq::group_seq_axioms};

/// The decimal digits of `n`, most significant first.
pub open spec fn dec_digits(n: nat) -> Seq<u8>
    decreases n,
{
    if n < 10 {
        seq![(0x30 + n) as u8]
    } else {
        dec_digits(n / 10).push((0x30 + n % 10) as u8)
    }
}

/// The value of a digit string, read left to right.
pub open spec fn dec_val(s: Seq<u8>) -> nat
    decreases s.len(),
{
    if s.len() == 0 {
        0
    } else {
        dec_val(s.drop_last()) * 10 + (if is_digit(s.last()) {
            (s.last() - 0x30) as nat
        } else {
            0
        })
    }
}

/// A canonical unsigned decimal token: all digits, no leading zero.
pub open spec fn is_dec_token(s: Seq<u8>) -> bool {
    &&& s.len() > 0
    &&& (forall|i: int| 0 <= i < s.len() ==> is_digit(#[trigger] s[i]))
    &&& (s[0] == '0' as u8 ==> s.len() == 1)
}

pub proof fn lemma_dec_digits_token(n: nat)
    ensures
        is_dec_token(dec_digits(n)),
        dec_val(dec_digits(n)) == n,
    decreases n,
{
    if n < 10 {
        assert(dec_digits(n) =~= seq![(0x30 + n) as u8]);
        assert(is_digit(dec_digits(n)[0]));
        assert(dec_digits(n).drop_last() =~= Seq::<u8>::empty());
        assert(dec_val(Seq::<u8>::empty()) == 0);
        assert(dec_digits(n).last() == (0x30 + n) as u8);
    } else {
        lemma_dec_digits_token(n / 10);
        let p = dec_digits(n / 10);
        assert(dec_val(p) == n / 10);
        assert(is_dec_token(p));
        let d = dec_digits(n);
        assert(d == p.push((0x30 + n % 10) as u8));
        assert(d[0] == p[0]);
        assert(forall|i: int| 0 <= i < d.len() ==> is_digit(#[trigger] d[i])) by {
            assert(forall|i: int|
                0 <= i < p.len() ==> #[trigger] d[i] == p[i]);
        }
        assert(p.len() >= 1);
        assert(d.drop_last() =~= p);
        assert(dec_val(d) == dec_val(p) * 10 + n % 10);
        if d[0] == '0' as u8 {
            assert(p[0] == '0' as u8);
            assert(p.len() == 1) by {
                assert(is_dec_token(p));
                assert(p[0] == '0' as u8);
            }
            assert(p.drop_last() =~= Seq::<u8>::empty());
            assert(p.last() == p[0]);
            assert(dec_val(Seq::<u8>::empty()) == 0);
            assert(dec_val(p) == 0);
            assert(false);
        }
    }
}

/// A digit run is one whole number token.
pub proof fn lemma_dec_token_is_number_token(s: Seq<u8>)
    requires
        is_dec_token(s),
    ensures
        is_number_token(s),
{
    lemma_all_digits_run(s);
    assert(s.skip(0int) =~= s);
    let ip = int_part_len(s);
    assert(ip == s.len() || (s[0] == '0' as u8 && ip == 1));
    assert(ip == s.len());
    assert(s.skip(s.len() as int).len() == 0);
    assert(number_token_len(s) == s.len());
}

pub proof fn lemma_all_digits_run(s: Seq<u8>)
    requires
        forall|i: int| 0 <= i < s.len() ==> is_digit(#[trigger] s[i]),
    ensures
        digits_run(s) == s.len(),
    decreases s.len(),
{
    if s.len() > 0 {
        lemma_all_digits_run(s.drop_first());
    }
}

/// Writes `n` in decimal.
pub fn u64_to_dec(n: u64) -> (r: Vec<u8>)
    ensures
        r@ == dec_digits(n as nat),
    decreases n,
{
    if n < 10 {
        let mut r: Vec<u8> = Vec::new();
        r.push(0x30 + n as u8);
        proof {
            assert(r@ =~= dec_digits(n as nat));
        }
        r
    } else {
        let mut r = u64_to_dec(n / 10);
        r.push(0x30 + (n % 10) as u8);
        proof {
            assert(r@ =~= dec_digits(n as nat));
        }
        r
    }
}

/// Reads an unsigned decimal token; `None` when the text is not a canonical
/// decimal or its value does not fit.
pub fn u64_from_dec(s: &[u8]) -> (r: Option<u64>)
    ensures
        match r {
            Some(n) => is_dec_token(s@) && n == dec_val(s@) && dec_val(s@) <= u64::MAX,
            None => !is_dec_token(s@) || dec_val(s@) > u64::MAX,
        },
{
    if s.len() == 0 {
        return None;
    }
    if s[0] == '0' as u8 && s.len() != 1 {
        return None;
    }
    let mut acc: u64 = 0;
    let mut i: usize = 0;
    while i < s.len()
        invariant
            0 <= i <= s@.len(),
            forall|q: int| 0 <= q < i ==> is_digit(#[trigger] s@[q]),
            acc == dec_val(s@.take(i as int)),
        decreases s@.len() - i,
    {
        let b = s[i];
        if b < '0' as u8 || b > '9' as u8 {
            proof {
                assert(!is_digit(s@[i as int]));
            }
            return None;
        }
        let d = (b - 0x30) as u64;
        proof {
            assert(s@.take(i + 1int).drop_last() =~= s@.take(i as int));
            assert(s@.take(i + 1int).last() == s@[i as int]);
        }
        if acc > (u64::MAX - d) / 10 {
            // the value would exceed `u64::MAX`
            proof {
                assert(dec_val(s@.take(i + 1int)) == acc * 10 + d);
                assert(acc * 10 + d > u64::MAX);
                lemma_dec_val_grows(s@, i + 1int);
            }
            return None;
        }
        acc = acc * 10 + d;
        i = i + 1;
    }
    proof {
        assert(s@.take(s@.len() as int) =~= s@);
    }
    Some(acc)
}

/// The `u64` a decimal token stands for, when canonical and in range.
pub open spec fn u64_of_dec_token(t: Seq<u8>) -> Option<u64> {
    if is_dec_token(t) && dec_val(t) <= u64::MAX {
        Some(dec_val(t) as u64)
    } else {
        None
    }
}

/// Round trip for unsigned counters.
pub proof fn lemma_u64_dec_round_trip(n: u64)
    ensures
        u64_of_dec_token(dec_digits(n as nat)) == Some(n),
{
    lemma_dec_digits_token(n as nat);
}

/// The decimal text of a signed integer.
pub open spec fn int_token(i: int) -> Seq<u8> {
    if i < 0 {
        seq!['-' as u8] + dec_digits((-i) as nat)
    } else {
        dec_digits(i as nat)
    }
}

/// The signed integer a decimal token stands for, within `i64` range.
pub open spec fn i64_of_token(s: Seq<u8>) -> Option<int> {
    if s.len() > 0 && s[0] == '-' as u8 {
        if is_dec_token(s.skip(1)) && dec_val(s.skip(1)) <= 0x8000_0000_0000_0000 {
            Some(-(dec_val(s.skip(1)) as int))
        } else {
            None
        }
    } else {
        if is_dec_token(s) && dec_val(s) <= i64::MAX {
            Some(dec_val(s) as int)
        } else {
            None
        }
    }
}

pub proof fn lemma_int_token_round_trip(i: int)
    requires
        i64::MIN <= i <= i64::MAX,
    ensures
        i64_of_token(int_token(i)) == Some(i),
{
    if i < 0 {
        lemma_dec_digits_token((-i) as nat);
        let t = int_token(i);
        assert(t[0] == '-' as u8);
        assert(t.skip(1) =~= dec_digits((-i) as nat));
    } else {
        lemma_dec_digits_token(i as nat);
        let t = int_token(i);
        assert(is_digit(t[0]));
        assert(t[0] != '-' as u8);
    }
}

/// A signed decimal token is one whole number token.
pub proof fn lemma_int_token_is_number_token(i: int)
    ensures
        is_number_token(int_token(i)),
{
    if i < 0 {
        lemma_dec_digits_token((-i) as nat);
        let d = dec_digits((-i) as nat);
        let t = int_token(i);
        assert(t[0] == '-' as u8);
        assert(t.skip(1) =~= d);
        lemma_all_digits_run(d);
        let ip = int_part_len(d);
        assert(ip == d.len());
        assert(d.skip(d.len() as int).len() == 0);
        assert(number_token_len(t) == 1 + d.len());
    } else {
        lemma_dec_digits_token(i as nat);
        lemma_dec_token_is_number_token(dec_digits(i as nat));
    }
}

/// Writes `i` in decimal.
pub fn i64_to_dec(i: i64) -> (r: Vec<u8>)
    ensures
        r@ == int_token(i as int),
{
    if i >= 0 {
        u64_to_dec(i as u64)
    } else {
        let m: u64 = ((-(i + 1)) as u64) + 1;
        proof {
            assert(m == -(i as int));
        }
        let mut r: Vec<u8> = Vec::new();
        r.push('-' as u8);
        let d = u64_to_dec(m);
        crate::json_ser::push_bytes(&mut r, d.as_slice());
        proof {
            assert(r@ =~= int_token(i as int));
        }
        r
    }
}

/// Reads a signed decimal token.
pub fn i64_from_dec(s: &[u8]) -> (r: Option<i64>)
    ensures
        match i64_of_token(s@) {
            None => r is None,
            Some(v) => r matches Some(x) && x == v,
        },
{
    if s.len() > 0 && s[0] == '-' as u8 {
        let rest = vstd::slice::slice_subrange(s, 1, s.len());
        proof {
            assert(rest@ =~= s@.skip(1));
        }
        match u64_from_dec(rest) {
            Some(n) => {
                if n <= 0x8000_0000_0000_0000 {
                    if n == 0x8000_0000_0000_0000 {
                        Some(i64::MIN)
                    } else {
                        Some(-(n as i64))
                    }
                } else {
                    None
                }
            },
            None => {
                proof {
                    if is_dec_token(s@.skip(1)) {
                        assert(dec_val(s@.skip(1)) > u64::MAX);
                    }
                }
                None
            },
        }
    } else {
        match u64_from_dec(s) {
            Some(n) => {
                if n <= i64::MAX as u64 {
                    Some(n as i64)
                } else {
                    None
                }
            },
            None => {
                proof {
                    if is_dec_token(s@) {
                        assert(dec_val(s@) > u64::MAX);
                    }
                }
                None
            },
        }
    }
}

/// Once a prefix exceeds the limit, the whole string does.
pub proof fn lemma_dec_val_grows(s: Seq<u8>, i: int)
    requires
        0 <= i <= s.len(),
    ensures
        dec_val(s) >= dec_val(s.take(i)),
    decreases s.len() - i,
{
    if i < s.len() {
        lemma_dec_val_grows(s, i + 1);
        assert(s.take(i + 1).drop_last() =~= s.take(i));
        assert(dec_val(s.take(i + 1)) >= dec_val(s.take(i)));
    } else {
        assert(s.take(i) =~= s);
    }
}

} // verus!
