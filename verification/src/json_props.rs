//! Parsing inverts canonical serialization: for every well-formed document
//! `v`, `parse_json(ser_value(v)) == Some(v)`.

use vstd::prelude::*;

use crate::json::{
    digits_run, exp_part_len, frac_part_len, int_part_len, is_digit, is_number_token,
    lemma_digits_run_le, lemma_frac_part_len_le, lemma_int_part_len_le, lemma_number_token_len_le,
    number_token_len, wf_json, JsonV,
};
use crate::json_parse::{
    hex4, hex_val, is_ws, parse_colon_value, parse_elements, parse_json, parse_members,
    parse_more_elements, parse_more_members, parse_str_body, parse_value, unescape_simple,
    utf8_enc,
};
use crate::json_ser::{
    esc_byte, esc_bytes, hex_digit, ser_arr_rest, ser_member, ser_obj_rest, ser_string, ser_value,
};

verus! {

broadcast use {vstd::std_specs::vec::group_vec_axioms, vstd::seq::group_seq_axioms};

pub proof fn lemma_hex_val_digit(n: u8)
    requires
        n < 16,
    ensures
        hex_val(hex_digit(n)) == Some(n as int),
{
}

/// Parsing a string body inverts escaping, for any continuation after the
/// closing quote.
#[verifier::rlimit(50)]
pub proof fn lemma_parse_esc_bytes(s: Seq<u8>, rest: Seq<u8>)
    ensures
        parse_str_body(esc_bytes(s) + seq!['"' as u8] + rest) == Some(
            (s, esc_bytes(s).len() + 1int),
        ),
    decreases s.len(),
{
    let input = esc_bytes(s) + seq!['"' as u8] + rest;
    if s.len() == 0 {
        assert(esc_bytes(s).len() == 0);
        assert(input[0] == '"' as u8);
        assert(s =~= Seq::<u8>::empty());
    } else {
        let b = s[0];
        let e = esc_byte(b);
        let tail = s.drop_first();
        lemma_parse_esc_bytes(tail, rest);
        let tail_input = esc_bytes(tail) + seq!['"' as u8] + rest;
        assert(esc_bytes(s) == e + esc_bytes(tail));
        assert(input =~= e + tail_input);
        assert(forall|i: int| 0 <= i < e.len() ==> input[i] == e[i]);
        assert(input.skip(e.len() as int) =~= tail_input);
        if b == '"' as u8 || b == '\\' as u8 || b == 0x08 || b == 0x09 || b == 0x0a || b == 0x0c
            || b == 0x0d {
            assert(e.len() == 2);
            assert(input[0] == '\\' as u8);
            assert(input[1] != 'u' as u8);
            assert(unescape_simple(input[1]) == Some(b));
            assert(parse_str_body(input) == Some((seq![b] + tail, 2 + esc_bytes(tail).len() + 1int)));
            assert(seq![b] + tail =~= s);
        } else if b < 0x20 {
            assert(e.len() == 6);
            assert(input[0] == '\\' as u8);
            assert(input[1] == 'u' as u8);
            assert(input[2] == '0' as u8 && input[3] == '0' as u8);
            assert(input[4] == hex_digit(b / 16) && input[5] == hex_digit(b % 16));
            lemma_hex_val_digit(b / 16);
            lemma_hex_val_digit(b % 16);
            assert(hex_val(input[2]) == Some(0int));
            assert(hex4(input, 2) == Some((b / 16) as int * 16 + (b % 16) as int));
            assert((b / 16) as int * 16 + (b % 16) as int == b as int);
            assert(hex4(input, 2) == Some(b as int));
            assert(utf8_enc(b as int) =~= seq![b]);
            assert(parse_str_body(input) == Some((seq![b] + tail, 6 + esc_bytes(tail).len() + 1int)));
            assert(seq![b] + tail =~= s);
        } else {
            assert(e =~= seq![b]);
            assert(input[0] == b);
            assert(b != '"' as u8 && b != '\\' as u8 && !(b < 0x20));
            assert(parse_str_body(input) == Some((seq![b] + tail, 1 + esc_bytes(tail).len() + 1int)));
            assert(seq![b] + tail =~= s);
        }
    }
}

/// Bytes that may directly follow a serialized value inside a document.
/// None of them can extend a number token.
pub open spec fn is_boundary(rest: Seq<u8>) -> bool {
    rest.len() == 0 || rest[0] == ',' as u8 || rest[0] == '}' as u8 || rest[0] == ']' as u8
}

pub proof fn lemma_digits_run_stop(a: Seq<u8>, b: Seq<u8>)
    requires
        b.len() == 0 || !is_digit(b[0]),
    ensures
        digits_run(a + b) == digits_run(a),
    decreases a.len(),
{
    if a.len() == 0 {
        assert(a + b =~= b);
    } else if is_digit(a[0]) {
        assert((a + b)[0] == a[0]);
        lemma_digits_run_stop(a.drop_first(), b);
        assert((a + b).drop_first() =~= a.drop_first() + b);
    } else {
        assert((a + b)[0] == a[0]);
    }
}

pub proof fn lemma_int_part_extend(a: Seq<u8>, b: Seq<u8>)
    requires
        b.len() == 0 || !is_digit(b[0]),
    ensures
        int_part_len(a + b) == int_part_len(a),
{
    if a.len() == 0 {
        assert(a + b =~= b);
    } else {
        assert((a + b)[0] == a[0]);
        lemma_digits_run_stop(a, b);
    }
}

pub proof fn lemma_frac_part_extend(a: Seq<u8>, b: Seq<u8>)
    requires
        b.len() == 0 || (!is_digit(b[0]) && b[0] != '.' as u8),
    ensures
        frac_part_len(a + b) == frac_part_len(a),
{
    let s = a + b;
    if a.len() == 0 {
        assert(s =~= b);
    } else if a.len() == 1 {
        assert(s[0] == a[0]);
        if s.len() >= 2 && s[0] == '.' as u8 && is_digit(s[1]) {
            assert(s[1] == b[0]);
            assert(false);
        }
    } else {
        assert(s[0] == a[0] && s[1] == a[1]);
        if a[0] == '.' as u8 && is_digit(a[1]) {
            assert(s.skip(1) =~= a.skip(1) + b);
            lemma_digits_run_stop(a.skip(1), b);
        }
    }
}

pub proof fn lemma_exp_part_extend(a: Seq<u8>, b: Seq<u8>)
    requires
        b.len() == 0 || (!is_digit(b[0]) && b[0] != '+' as u8 && b[0] != '-' as u8 && b[0]
            != 'e' as u8 && b[0] != 'E' as u8),
    ensures
        exp_part_len(a + b) == exp_part_len(a),
{
    let s = a + b;
    if a.len() == 0 {
        assert(s =~= b);
        if s.len() >= 2 && (s[0] == 'e' as u8 || s[0] == 'E' as u8) {
            assert(s[0] == b[0]);
            assert(false);
        }
    } else if a.len() == 1 {
        assert(s[0] == a[0]);
        if s.len() >= 2 && (s[0] == 'e' as u8 || s[0] == 'E' as u8) {
            assert(s[1] == b[0]);
            let sign: int = if s[1] == '+' as u8 || s[1] == '-' as u8 {
                1int
            } else {
                0int
            };
            assert(sign == 0);
            assert(s.skip(1int) =~= b);
            assert(digits_run(b) == 0);
        }
    } else {
        assert(s[0] == a[0] && s[1] == a[1]);
        if a[0] == 'e' as u8 || a[0] == 'E' as u8 {
            let sign: int = if a[1] == '+' as u8 || a[1] == '-' as u8 {
                1int
            } else {
                0int
            };
            assert(s.skip(1 + sign) =~= a.skip(1 + sign) + b);
            lemma_digits_run_stop(a.skip(1 + sign), b);
        }
    }
}

/// A valid number token followed by a boundary byte parses to exactly the
/// token.
pub proof fn lemma_number_token_extend(t: Seq<u8>, rest: Seq<u8>)
    requires
        is_number_token(t),
        is_boundary(rest),
    ensures
        number_token_len(t + rest) == t.len(),
{
    let s = t + rest;
    assert(s[0] == t[0]);
    let neg: int = if t[0] == '-' as u8 {
        1int
    } else {
        0int
    };
    lemma_number_token_len_le(t);
    let tt = t.skip(neg);
    let st = s.skip(neg);
    assert(st =~= tt + rest);
    lemma_int_part_extend(tt, rest);
    let ip = int_part_len(tt);
    lemma_int_part_len_le(tt);
    assert(ip != 0);
    let tu = tt.skip(ip);
    let su = st.skip(ip);
    assert(su =~= tu + rest);
    lemma_frac_part_extend(tu, rest);
    let fp = frac_part_len(tu);
    lemma_frac_part_len_le(tu);
    let tw = tu.skip(fp);
    let sw = su.skip(fp);
    assert(sw =~= tw + rest);
    lemma_exp_part_extend(tw, rest);
    assert(number_token_len(s) == neg + ip + fp + exp_part_len(tw));
    assert(number_token_len(t) == neg + ip + fp + exp_part_len(tw));
}

/// Bytes a serialized well-formed value can start with.
pub open spec fn is_value_start(b: u8) -> bool {
    b == '{' as u8 || b == '[' as u8 || b == '"' as u8 || b == 't' as u8 || b == 'f' as u8 || b
        == 'n' as u8 || b == '-' as u8 || is_digit(b)
}

pub proof fn lemma_ser_value_first(v: JsonV)
    requires
        wf_json(v),
    ensures
        ser_value(v).len() > 0,
        is_value_start(ser_value(v)[0]),
        !is_ws(ser_value(v)[0]),
        ser_value(v)[0] != ']' as u8,
        ser_value(v)[0] != '}' as u8,
        ser_value(v)[0] != ',' as u8,
{
    match v {
        JsonV::Num(t) => {
            assert(is_number_token(t));
            assert(t.len() > 0);
            if t[0] != '-' as u8 {
                assert(t.skip(0int) =~= t);
                assert(int_part_len(t) != 0);
                assert(is_digit(t[0]));
            }
            assert(ser_value(v) == t);
        },
        _ => {},
    }
}

/// One element and the remainder of its array parse back to the elements
/// from `i` on.
pub proof fn lemma_rt_elements(elems: Seq<JsonV>, i: int, rest: Seq<u8>, allow_close: bool)
    requires
        0 <= i < elems.len(),
        forall|j: int| 0 <= j < elems.len() ==> wf_json(#[trigger] elems[j]),
        is_boundary(rest),
    ensures
        parse_elements(ser_value(elems[i]) + ser_arr_rest(elems, i + 1) + rest, allow_close)
            == Some(
            (elems.skip(i), ser_value(elems[i]).len() + ser_arr_rest(elems, i + 1).len() as int),
        ),
    decreases elems, elems.len() - i,
{
    let e = elems[i];
    let ser_e = ser_value(e);
    let tail = ser_arr_rest(elems, i + 1);
    let input = ser_e + tail + rest;
    lemma_ser_value_first(e);
    assert(input[0] == ser_e[0]);
    assert(input =~= ser_e + (tail + rest));
    assert(is_boundary(tail + rest)) by {
        assert((tail + rest)[0] == tail[0]);
    }
    lemma_rt_value(e, tail + rest);
    let vn = ser_e.len() as int;
    assert(parse_value(input) == Some((e, vn)));
    let w = input.skip(vn);
    assert(w =~= tail + rest);
    assert(w[0] == tail[0]);
    if i + 1 < elems.len() {
        assert(tail == seq![',' as u8] + ser_value(elems[i + 1]) + ser_arr_rest(elems, i + 2));
        assert(w[0] == ',' as u8);
        lemma_rt_elements(elems, i + 1, rest, false);
        assert(w.skip(1int) =~= ser_value(elems[i + 1]) + ser_arr_rest(elems, i + 2) + rest);
        let rn = ser_value(elems[i + 1]).len() + ser_arr_rest(elems, i + 2).len() as int;
        assert(parse_elements(w.skip(1int), false) == Some((elems.skip(i + 1), rn)));
        assert(parse_more_elements(w) == Some((elems.skip(i + 1), 1 + rn)));
        assert(seq![e] + elems.skip(i + 1) =~= elems.skip(i));
        assert(tail.len() == 1 + rn);
    } else {
        assert(tail =~= seq![']' as u8]);
        assert(w[0] == ']' as u8);
        assert(parse_more_elements(w) == Some((Seq::<JsonV>::empty(), 1int)));
        assert(seq![e] + Seq::<JsonV>::empty() =~= elems.skip(i));
    }
}

/// One member and the remainder of its object parse back to the members
/// from `i` on.
#[verifier::rlimit(100)]
pub proof fn lemma_rt_members(
    members: Seq<(Seq<u8>, JsonV)>,
    i: int,
    rest: Seq<u8>,
    allow_close: bool,
)
    requires
        0 <= i < members.len(),
        forall|j: int| 0 <= j < members.len() ==> wf_json(#[trigger] members[j].1),
        is_boundary(rest),
    ensures
        parse_members(ser_member(members[i]) + ser_obj_rest(members, i + 1) + rest, allow_close)
            == Some(
            (
                members.skip(i),
                ser_member(members[i]).len() + ser_obj_rest(members, i + 1).len() as int,
            ),
        ),
    decreases members, members.len() - i,
{
    let m = members[i];
    let key = m.0;
    let ser_m = ser_member(m);
    let ser_v = ser_value(m.1);
    let tail = ser_obj_rest(members, i + 1);
    let input = ser_m + tail + rest;
    assert(ser_m == ser_string(key) + seq![':' as u8] + ser_v);
    assert(input[0] == '"' as u8);
    let after_key = seq![':' as u8] + ser_v + tail + rest;
    assert(input.skip(1int) =~= esc_bytes(key) + seq!['"' as u8] + after_key);
    lemma_parse_esc_bytes(key, after_key);
    let kn = esc_bytes(key).len() + 1int;
    assert(parse_str_body(input.skip(1int)) == Some((key, kn)));
    assert(1 + kn <= input.len());
    let u = input.skip(1 + kn);
    assert(u =~= after_key);
    assert(u[0] == ':' as u8);
    assert(u.skip(1int) =~= ser_v + (tail + rest));
    lemma_ser_value_first(m.1);
    assert(is_boundary(tail + rest)) by {
        assert((tail + rest)[0] == tail[0]);
    }
    lemma_rt_value(m.1, tail + rest);
    assert(parse_value(u.skip(1int)) == Some((m.1, ser_v.len() as int)));
    let vn = 1 + ser_v.len() as int;
    assert(parse_colon_value(u) == Some((m.1, vn)));
    assert(1 + kn + vn <= input.len());
    let w = input.skip(1 + kn + vn);
    assert(w =~= tail + rest);
    assert(w[0] == tail[0]);
    if i + 1 < members.len() {
        assert(tail == seq![',' as u8] + ser_member(members[i + 1]) + ser_obj_rest(members, i + 2));
        assert(w[0] == ',' as u8);
        lemma_rt_members(members, i + 1, rest, false);
        assert(w.skip(1int) =~= ser_member(members[i + 1]) + ser_obj_rest(members, i + 2) + rest);
        let rn = ser_member(members[i + 1]).len() + ser_obj_rest(members, i + 2).len() as int;
        assert(parse_members(w.skip(1int), false) == Some((members.skip(i + 1), rn)));
        assert(parse_more_members(w) == Some((members.skip(i + 1), 1 + rn)));
        assert(seq![m] + members.skip(i + 1) =~= members.skip(i));
        assert(tail.len() == 1 + rn);
    } else {
        assert(tail =~= seq!['}' as u8]);
        assert(w[0] == '}' as u8);
        assert(parse_more_members(w) == Some((Seq::<(Seq<u8>, JsonV)>::empty(), 1int)));
        assert(seq![m] + Seq::<(Seq<u8>, JsonV)>::empty() =~= members.skip(i));
    }
}

/// Parsing inverts serialization for one well-formed value, for any
/// boundary continuation.
#[verifier::rlimit(100)]
pub proof fn lemma_rt_value(v: JsonV, rest: Seq<u8>)
    requires
        wf_json(v),
        is_boundary(rest),
    ensures
        parse_value(ser_value(v) + rest) == Some((v, ser_value(v).len() as int)),
    decreases v, 0int,
{
    let ser = ser_value(v);
    let input = ser + rest;
    lemma_ser_value_first(v);
    assert(input[0] == ser[0]);
    match v {
        JsonV::Null => {
            assert(input[0] == 'n' as u8 && input[1] == 'u' as u8 && input[2] == 'l' as u8
                && input[3] == 'l' as u8);
            assert(parse_value(input) == Some((v, ser.len() as int)));
        },
        JsonV::Bool(b) => {
            if b {
                assert(input[0] == 't' as u8 && input[1] == 'r' as u8 && input[2] == 'u' as u8
                    && input[3] == 'e' as u8);
            } else {
                assert(input[0] == 'f' as u8 && input[1] == 'a' as u8 && input[2] == 'l' as u8
                    && input[3] == 's' as u8 && input[4] == 'e' as u8);
            }
            assert(parse_value(input) == Some((v, ser.len() as int)));
        },
        JsonV::Num(t) => {
            lemma_number_token_extend(t, rest);
            assert(number_token_len(input) == t.len());
            assert(input.take(t.len() as int) =~= t);
            assert(parse_value(input) == Some((v, ser.len() as int)));
        },
        JsonV::Str(s) => {
            assert(input.skip(1int) =~= esc_bytes(s) + seq!['"' as u8] + rest);
            lemma_parse_esc_bytes(s, rest);
            assert(parse_value(input) == Some((v, ser.len() as int)));
        },
        JsonV::Arr(elems) => {
            if elems.len() == 0 {
                assert(input[0] == '[' as u8 && input[1] == ']' as u8);
                assert(input.skip(1int)[0] == ']' as u8);
                assert(parse_elements(input.skip(1int), true) == Some(
                    (Seq::<JsonV>::empty(), 1int),
                ));
                assert(elems =~= Seq::<JsonV>::empty());
            } else {
                crate::json::lemma_wf_json_arr(elems);
                assert(ser == seq!['[' as u8] + ser_value(elems[0]) + ser_arr_rest(elems, 1));
                assert(input[0] == '[' as u8);
                assert(input.skip(1int) =~= ser_value(elems[0]) + ser_arr_rest(elems, 1) + rest);
                lemma_rt_elements(elems, 0, rest, true);
                assert(elems.skip(0int) =~= elems);
                assert(ser.len() == 1 + ser_value(elems[0]).len() + ser_arr_rest(elems, 1).len());
            }
            assert(parse_value(input) == Some((v, ser.len() as int)));
        },
        JsonV::Obj(members) => {
            if members.len() == 0 {
                assert(input[0] == '{' as u8 && input[1] == '}' as u8);
                assert(input.skip(1int)[0] == '}' as u8);
                assert(parse_members(input.skip(1int), true) == Some(
                    (Seq::<(Seq<u8>, JsonV)>::empty(), 1int),
                ));
                assert(members =~= Seq::<(Seq<u8>, JsonV)>::empty());
            } else {
                crate::json::lemma_wf_json_obj(members);
                assert(ser == seq!['{' as u8] + ser_member(members[0]) + ser_obj_rest(members, 1));
                assert(input[0] == '{' as u8);
                assert(input.skip(1int) =~= ser_member(members[0]) + ser_obj_rest(members, 1)
                    + rest);
                lemma_rt_members(members, 0, rest, true);
                assert(members.skip(0int) =~= members);
                assert(ser.len() == 1 + ser_member(members[0]).len() + ser_obj_rest(
                    members,
                    1,
                ).len());
            }
            assert(parse_value(input) == Some((v, ser.len() as int)));
        },
    }
    assert(parse_value(ser + rest) == Some((v, ser.len() as int)));
}

/// Round trip: parsing a canonically serialized well-formed document yields
/// the document back.
pub proof fn lemma_parse_ser_value(v: JsonV)
    requires
        wf_json(v),
    ensures
        parse_json(ser_value(v)) == Some(v),
{
    let ser = ser_value(v);
    lemma_rt_value(v, Seq::empty());
    assert(ser + Seq::<u8>::empty() =~= ser);
    assert(parse_value(ser) == Some((v, ser.len() as int)));
    assert(ser.skip(ser.len() as int) =~= Seq::<u8>::empty());
}

} // verus!
