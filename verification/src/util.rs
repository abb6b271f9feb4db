//! Small text helpers used around logging and display.

use vstd::prelude::*;

use crate::json::{ascii_bytes, ascii_seq};

verus! {

broadcast use {vstd::std_specs::vec::group_vec_axioms, vstd::seq::group_seq_axioms};

/// What a long text is shortened to: its first five and last five bytes
/// around an ellipsis.
pub open spec fn abbreviated(s: Seq<u8>) -> Seq<u8> {
    if s.len() > 10 {
        s.take(5) + ascii_seq("..."@) + s.skip(s.len() - 5)
    } else {
        s
    }
}

/// Shortens a text for display: eleven bytes or more become the first five,
/// an ellipsis, and the last five.
pub fn abbreviate_string(s: &[u8]) -> (r: Vec<u8>)
    ensures
        r@ == abbreviated(s@),
{
    proof {
        reveal_strlit("...");
    }
    if s.len() > 10 {
        let mut r = vstd::slice::slice_to_vec(vstd::slice::slice_subrange(s, 0, 5));
        crate::json_ser::push_bytes(&mut r, ascii_bytes("...").as_slice());
        crate::json_ser::push_bytes(
            &mut r,
            vstd::slice::slice_subrange(s, s.len() - 5, s.len()),
        );
        proof {
            assert(r@ =~= abbreviated(s@));
        }
        r
    } else {
        vstd::slice::slice_to_vec(s)
    }
}

/// What each position of a header date holds: the ISO-8601 separators at
/// their fixed places, an ASCII digit everywhere else.
pub open spec fn iso_byte_ok(i: int, b: u8) -> bool {
    if i == 4 || i == 7 {
        b == 45u8  // '-'
    } else if i == 10 {
        b == 84u8  // 'T'
    } else if i == 13 || i == 16 {
        b == 58u8  // ':'
    } else if i == 19 {
        b == 46u8  // '.'
    } else if i == 26 {
        b == 90u8  // 'Z'
    } else {
        48u8 <= b <= 57u8
    }
}

/// The shape of a header date: `YYYY-MM-DDTHH:MM:SS.ssssssZ`, a UTC
/// timestamp with microsecond precision and a `Z` suffix.
pub open spec fn iso_micros_z_shaped(s: Seq<u8>) -> bool {
    &&& s.len() == 27
    &&& forall|i: int| 0 <= i < 27 ==> iso_byte_ok(i, #[trigger] s[i])
}

/// Whether a byte string has the header-date shape.
pub fn is_iso_micros_z(s: &[u8]) -> (b: bool)
    ensures
        b == iso_micros_z_shaped(s@),
{
    if s.len() != 27 {
        return false;
    }
    let mut i: usize = 0;
    while i < 27
        invariant
            i <= 27,
            s@.len() == 27,
            forall|q: int| 0 <= q < i ==> iso_byte_ok(q, #[trigger] s@[q]),
        decreases 27 - i,
    {
        let b = s[i];
        let ok: bool = if i == 4 || i == 7 {
            b == 45
        } else if i == 10 {
            b == 84
        } else if i == 13 || i == 16 {
            b == 58
        } else if i == 19 {
            b == 46
        } else if i == 26 {
            b == 90
        } else {
            48 <= b && b <= 57
        };
        if !ok {
            return false;
        }
        i = i + 1;
    }
    true
}

/// Relies on `chrono::Utc::now` and `to_rfc3339_opts` with microsecond
/// precision and a `Z` suffix: the present moment as text.  The value
/// depends on the machine's clock, so nothing is promised of it.
#[verifier::external_body]
fn clock_rfc3339_micros() -> (r: Vec<u8>)
{
    chrono::Utc::now().to_rfc3339_opts(chrono::SecondsFormat::Micros, true).into_bytes()
}

/// The present moment for a header date, always of the shape
/// `YYYY-MM-DDTHH:MM:SS.ssssssZ`.  The clock's reading is checked against
/// that shape; a reading the formatter could not fit into it (a clock set
/// outside the years 0 through 9999) falls back to the epoch instant.
#[allow(non_snake_case)]
pub fn iso_8601_Z_now() -> (r: Vec<u8>)
    ensures
        iso_micros_z_shaped(r@),
{
    let raw = clock_rfc3339_micros();
    if is_iso_micros_z(raw.as_slice()) {
        raw
    } else {
        proof {
            reveal_strlit("1970-01-01T00:00:00.000000Z");
        }
        ascii_bytes("1970-01-01T00:00:00.000000Z")
    }
}

} // verus!
