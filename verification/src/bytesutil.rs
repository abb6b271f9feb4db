//! Byte-sequence comparisons used throughout the codec.

use vstd::prelude::*;

use crate::json::ascii_seq;

verus! {

broadcast use {vstd::std_specs::vec::group_vec_axioms, vstd::seq::group_seq_axioms};

/// Byte-wise equality of two slices.
pub fn bytes_eq(a: &[u8], b: &[u8]) -> (r: bool)
    ensures
        r <==> a@ == b@,
{
    if a.len() != b.len() {
        proof {
            assert(a@ != b@);
        }
        return false;
    }
    let mut i: usize = 0;
    while i < a.len()
        invariant
            i <= a@.len(),
            a@.len() == b@.len(),
            forall|q: int| 0 <= q < i ==> a@[q] == b@[q],
        decreases a@.len() - i,
    {
        if a[i] != b[i] {
            proof {
                assert(a@[i as int] != b@[i as int]);
            }
            return false;
        }
        i = i + 1;
    }
    proof {
        assert(a@ =~= b@);
    }
    true
}

/// A fresh copy of a byte vector.
pub fn dup_bytes(v: &Vec<u8>) -> (r: Vec<u8>)
    ensures
        r@ == v@,
{
    vstd::slice::slice_to_vec(v.as_slice())
}

/// Byte-wise equality of a slice against an ASCII string literal.
pub fn bytes_eq_str(a: &[u8], b: &str) -> (r: bool)
    requires
        b.is_ascii(),
    ensures
        r <==> a@ == ascii_seq(b@),
{
    proof {
        vstd::string::is_ascii_spec_bytes(b);
    }
    let bb = b.as_bytes();
    proof {
        assert(bb@ =~= ascii_seq(b@));
    }
    bytes_eq(a, bb)
}

} // verus!
