//! Canonical serialization of [`Json`] values: no inter-token whitespace,
//! minimal string escaping, number literals emitted verbatim.

use vstd::prelude::*;

use crate::json::{Json, JsonV};

verus! {

broadcast use {vstd::std_specs::vec::group_vec_axioms, vstd::seq::group_seq_axioms};

/// Lowercase hex digit for a nibble.
pub open spec fn hex_digit(n: u8) -> u8 {
    if n < 10 {
        (n + 0x30) as u8
    } else {
        (n + 0x57) as u8
    }
}

/// Canonical escape of one string byte.
pub open spec fn esc_byte(b: u8) -> Seq<u8> {
    if b == '"' as u8 {
        seq!['\\' as u8, '"' as u8]
    } else if b == '\\' as u8 {
        seq!['\\' as u8, '\\' as u8]
    } else if b == 0x08 {
        seq!['\\' as u8, 'b' as u8]
    } else if b == 0x09 {
        seq!['\\' as u8, 't' as u8]
    } else if b == 0x0a {
        seq!['\\' as u8, 'n' as u8]
    } else if b == 0x0c {
        seq!['\\' as u8, 'f' as u8]
    } else if b == 0x0d {
        seq!['\\' as u8, 'r' as u8]
    } else if b < 0x20 {
        seq!['\\' as u8, 'u' as u8, '0' as u8, '0' as u8, hex_digit(b / 16), hex_digit(b % 16)]
    } else {
        seq![b]
    }
}

pub open spec fn esc_bytes(s: Seq<u8>) -> Seq<u8>
    decreases s.len(),
{
    if s.len() == 0 {
        Seq::empty()
    } else {
        esc_byte(s[0]) + esc_bytes(s.drop_first())
    }
}

/// A serialized JSON string: quoted, escaped content.
pub open spec fn ser_string(s: Seq<u8>) -> Seq<u8> {
    seq!['"' as u8] + esc_bytes(s) + seq!['"' as u8]
}

pub open spec fn ser_value(v: JsonV) -> Seq<u8>
    decreases v, 0int,
{
    match v {
        JsonV::Null => seq!['n' as u8, 'u' as u8, 'l' as u8, 'l' as u8],
        JsonV::Bool(b) => if b {
            seq!['t' as u8, 'r' as u8, 'u' as u8, 'e' as u8]
        } else {
            seq!['f' as u8, 'a' as u8, 'l' as u8, 's' as u8, 'e' as u8]
        },
        JsonV::Num(t) => t,
        JsonV::Str(s) => ser_string(s),
        JsonV::Arr(elems) => if elems.len() == 0 {
            seq!['[' as u8, ']' as u8]
        } else {
            seq!['[' as u8] + ser_value(elems[0]) + ser_arr_rest(elems, 1)
        },
        JsonV::Obj(members) => if members.len() == 0 {
            seq!['{' as u8, '}' as u8]
        } else {
            seq!['{' as u8] + ser_member(members[0]) + ser_obj_rest(members, 1)
        },
    }
}

/// Elements from index `i` on, each preceded by a comma, then the closing bracket.
pub open spec fn ser_arr_rest(elems: Seq<JsonV>, i: int) -> Seq<u8>
    decreases elems, elems.len() - i,
{
    if i < 0 || i >= elems.len() {
        seq![']' as u8]
    } else {
        seq![',' as u8] + ser_value(elems[i]) + ser_arr_rest(elems, i + 1)
    }
}

pub open spec fn ser_member(m: (Seq<u8>, JsonV)) -> Seq<u8>
    decreases m, 0int,
{
    ser_string(m.0) + seq![':' as u8] + ser_value(m.1)
}

/// Members from index `i` on, each preceded by a comma, then the closing brace.
pub open spec fn ser_obj_rest(members: Seq<(Seq<u8>, JsonV)>, i: int) -> Seq<u8>
    decreases members, members.len() - i,
{
    if i < 0 || i >= members.len() {
        seq!['}' as u8]
    } else {
        seq![',' as u8] + ser_member(members[i]) + ser_obj_rest(members, i + 1)
    }
}

pub proof fn lemma_esc_bytes_snoc(a: Seq<u8>, b: u8)
    ensures
        esc_bytes(a.push(b)) == esc_bytes(a) + esc_byte(b),
    decreases a.len(),
{
    if a.len() == 0 {
        assert(a.push(b)[0] == b);
        assert(a.push(b).drop_first() =~= a);
        assert(esc_bytes(a) =~= Seq::<u8>::empty());
        assert(esc_bytes(a.push(b)) =~= esc_byte(b));
        assert(esc_bytes(a) + esc_byte(b) =~= esc_byte(b));
    } else {
        assert(a.push(b)[0] == a[0]);
        lemma_esc_bytes_snoc(a.drop_first(), b);
        assert(a.push(b).drop_first() =~= a.drop_first().push(b));
        assert(esc_byte(a[0]) + (esc_bytes(a.drop_first()) + esc_byte(b)) =~= (esc_byte(a[0])
            + esc_bytes(a.drop_first())) + esc_byte(b));
    }
}

/// Appends the bytes of `s` to `out`.
pub fn push_bytes(out: &mut Vec<u8>, s: &[u8])
    ensures
        final(out)@ == old(out)@ + s@,
{
    let ghost base = out@;
    let mut i: usize = 0;
    while i < s.len()
        invariant
            i <= s@.len(),
            out@ == base + s@.take(i as int),
        decreases s@.len() - i,
    {
        out.push(s[i]);
        proof {
            assert(s@.take(i + 1int) =~= s@.take(i as int).push(s@[i as int]));
            assert(base + s@.take(i + 1int) =~= (base + s@.take(i as int)).push(s@[i as int]));
        }
        i = i + 1;
    }
    proof {
        assert(s@.take(s@.len() as int) =~= s@);
    }
}

/// Appends the serialized form of the string `s` (quotes and escapes) to
/// `out`.
pub fn write_string(s: &[u8], out: &mut Vec<u8>)
    ensures
        final(out)@ == old(out)@ + ser_string(s@),
{
    let ghost base = out@;
    out.push('"' as u8);
    let mut i: usize = 0;
    while i < s.len()
        invariant
            i <= s@.len(),
            out@ == base + seq!['"' as u8] + esc_bytes(s@.take(i as int)),
        decreases s@.len() - i,
    {
        let b = s[i];
        let ghost prefix = out@;
        if b == '"' as u8 || b == '\\' as u8 {
            out.push('\\' as u8);
            out.push(b);
        } else if b == 0x08 {
            out.push('\\' as u8);
            out.push('b' as u8);
        } else if b == 0x09 {
            out.push('\\' as u8);
            out.push('t' as u8);
        } else if b == 0x0a {
            out.push('\\' as u8);
            out.push('n' as u8);
        } else if b == 0x0c {
            out.push('\\' as u8);
            out.push('f' as u8);
        } else if b == 0x0d {
            out.push('\\' as u8);
            out.push('r' as u8);
        } else if b < 0x20 {
            out.push('\\' as u8);
            out.push('u' as u8);
            out.push('0' as u8);
            out.push('0' as u8);
            out.push(if b / 16 < 10 {
                b / 16 + 0x30
            } else {
                b / 16 + 0x57
            });
            out.push(if b % 16 < 10 {
                b % 16 + 0x30
            } else {
                b % 16 + 0x57
            });
        } else {
            out.push(b);
        }
        proof {
            assert(out@ =~= prefix + esc_byte(b));
            lemma_esc_bytes_snoc(s@.take(i as int), b);
            assert(s@.take(i + 1int) =~= s@.take(i as int).push(b));
            assert(base + seq!['"' as u8] + (esc_bytes(s@.take(i as int)) + esc_byte(b)) =~= (base
                + seq!['"' as u8] + esc_bytes(s@.take(i as int))) + esc_byte(b));
        }
        i = i + 1;
    }
    out.push('"' as u8);
    proof {
        assert(s@.take(s@.len() as int) =~= s@);
        assert(final(out)@ =~= base + ser_string(s@)) by {
            assert(out@ =~= (base + seq!['"' as u8] + esc_bytes(s@)).push('"' as u8));
            assert((base + seq!['"' as u8] + esc_bytes(s@)).push('"' as u8) =~= base + (seq![
                '"' as u8,
            ] + esc_bytes(s@) + seq!['"' as u8]));
        }
    }
}

/// Appends the canonical serialization of `v` to `out`.
#[verifier::loop_isolation(false)]
pub fn write_json(v: &Json, out: &mut Vec<u8>)
    ensures
        final(out)@ == old(out)@ + ser_value(v@),
    decreases v,
{
    let ghost base = out@;
    match v {
        Json::Null => {
            out.push('n' as u8);
            out.push('u' as u8);
            out.push('l' as u8);
            out.push('l' as u8);
            proof {
                assert(out@ =~= base + ser_value(v@));
            }
        },
        Json::Bool(b) => {
            if *b {
                out.push('t' as u8);
                out.push('r' as u8);
                out.push('u' as u8);
                out.push('e' as u8);
            } else {
                out.push('f' as u8);
                out.push('a' as u8);
                out.push('l' as u8);
                out.push('s' as u8);
                out.push('e' as u8);
            }
            proof {
                assert(out@ =~= base + ser_value(v@));
            }
        },
        Json::Num(t) => {
            push_bytes(out, t.as_slice());
        },
        Json::Str(s) => {
            write_string(s.as_slice(), out);
        },
        Json::Arr(elems) => {
            let ghost ev = crate::json::arr_view(elems@);
            proof {
                crate::json::lemma_arr_view(elems@);
            }
            out.push('[' as u8);
            if elems.len() == 0 {
                out.push(']' as u8);
                proof {
                    assert(out@ =~= base + ser_value(v@));
                }
            } else {
                write_json(&elems[0], out);
                let mut j: usize = 1;
                while j < elems.len()
                    invariant
                        1 <= j <= elems@.len(),
                        ev == crate::json::arr_view(elems@),
                        ev.len() == elems@.len(),
                        forall|k: int|
                            0 <= k < elems@.len() ==> ev[k] == crate::json::json_view(
                                #[trigger] elems@[k],
                            ),
                        v@ == JsonV::Arr(ev),
                        out@ + ser_arr_rest(ev, j as int) == base + ser_value(v@),
                    decreases elems@.len() - j,
                {
                    let ghost prefix = out@;
                    proof {
                        assert(decreases_to!(*v => elems@[j as int]));
                    }
                    out.push(',' as u8);
                    write_json(&elems[j], out);
                    proof {
                        assert(out@ =~= prefix + seq![',' as u8] + ser_value(ev[j as int]));
                        assert(ser_arr_rest(ev, j as int) == seq![',' as u8] + ser_value(
                            ev[j as int],
                        ) + ser_arr_rest(ev, j + 1int));
                        assert(prefix + seq![',' as u8] + ser_value(ev[j as int]) + ser_arr_rest(
                            ev,
                            j + 1int,
                        ) =~= prefix + ser_arr_rest(ev, j as int));
                    }
                    j = j + 1;
                }
                out.push(']' as u8);
                proof {
                    assert(ser_arr_rest(ev, elems@.len() as int) =~= seq![']' as u8]);
                    assert(out@ =~= base + ser_value(v@));
                }
            }
        },
        Json::Obj(members) => {
            let ghost mv = crate::json::obj_view(members@);
            proof {
                crate::json::lemma_obj_view(members@);
            }
            out.push('{' as u8);
            if members.len() == 0 {
                out.push('}' as u8);
                proof {
                    assert(out@ =~= base + ser_value(v@));
                }
            } else {
                write_string(members[0].0.as_slice(), out);
                out.push(':' as u8);
                write_json(&members[0].1, out);
                proof {
                    assert(out@ =~= base + seq!['{' as u8] + ser_member(mv[0]));
                }
                let mut j: usize = 1;
                while j < members.len()
                    invariant
                        1 <= j <= members@.len(),
                        mv == crate::json::obj_view(members@),
                        mv.len() == members@.len(),
                        forall|k: int|
                            0 <= k < members@.len() ==> mv[k] == (
                            #[trigger] members@[k].0@,
                            crate::json::json_view(members@[k].1),
                            ),
                        v@ == JsonV::Obj(mv),
                        out@ + ser_obj_rest(mv, j as int) == base + ser_value(v@),
                    decreases members@.len() - j,
                {
                    let ghost prefix = out@;
                    out.push(',' as u8);
                    write_string(members[j].0.as_slice(), out);
                    out.push(':' as u8);
                    proof {
                        assert(decreases_to!(*v => members@[j as int].1));
                    }
                    write_json(&members[j].1, out);
                    proof {
                        assert(out@ =~= prefix + seq![',' as u8] + ser_member(mv[j as int]));
                        assert(ser_obj_rest(mv, j as int) == seq![',' as u8] + ser_member(
                            mv[j as int],
                        ) + ser_obj_rest(mv, j + 1int));
                        assert(prefix + seq![',' as u8] + ser_member(mv[j as int]) + ser_obj_rest(
                            mv,
                            j + 1int,
                        ) =~= prefix + ser_obj_rest(mv, j as int));
                    }
                    j = j + 1;
                }
                out.push('}' as u8);
                proof {
                    assert(ser_obj_rest(mv, members@.len() as int) =~= seq!['}' as u8]);
                    assert(out@ =~= base + ser_value(v@));
                }
            }
        },
    }
}

/// The canonical serialization of `v` as a fresh byte vector.
pub fn to_json_bytes(v: &Json) -> (r: Vec<u8>)
    ensures
        r@ == ser_value(v@),
{
    let mut out: Vec<u8> = Vec::new();
    write_json(v, &mut out);
    proof {
        assert(Seq::<u8>::empty() + ser_value(v@) =~= ser_value(v@));
    }
    out
}

} // verus!
