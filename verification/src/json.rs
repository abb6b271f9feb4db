//! A small JSON document model with a verified serializer and parser.
//!
//! Number literals keep their exact source text (so no floating point is
//! needed and re-encoding a parsed document is lossless); string contents are
//! the decoded bytes.  The serializer emits a canonical form (no extra
//! whitespace, minimal escaping); the parser accepts the full grammar,
//! including whitespace and `\uXXXX` escapes.

use vstd::prelude::*;

verus! {

broadcast use {vstd::std_specs::vec::group_vec_axioms, vstd::seq::group_seq_axioms};

/// Mathematical model of a JSON document.
pub ghost enum JsonV {
    Null,
    Bool(bool),
    Num(Seq<u8>),
    Str(Seq<u8>),
    Arr(Seq<JsonV>),
    Obj(Seq<(Seq<u8>, JsonV)>),
}

/// Executable JSON value mirroring [`JsonV`].
pub enum Json {
    Null,
    Bool(bool),
    Num(Vec<u8>),
    Str(Vec<u8>),
    Arr(Vec<Json>),
    Obj(Vec<(Vec<u8>, Json)>),
}

pub open spec fn json_view(j: Json) -> JsonV
    decreases j,
{
    match j {
        Json::Null => JsonV::Null,
        Json::Bool(b) => JsonV::Bool(b),
        Json::Num(t) => JsonV::Num(t@),
        Json::Str(s) => JsonV::Str(s@),
        Json::Arr(elems) => JsonV::Arr(arr_view(elems@)),
        Json::Obj(members) => JsonV::Obj(obj_view(members@)),
    }
}

pub open spec fn arr_view(elems: Seq<Json>) -> Seq<JsonV>
    decreases elems,
{
    if elems.len() == 0 {
        Seq::empty()
    } else {
        arr_view(elems.drop_last()).push(json_view(elems.last()))
    }
}

pub open spec fn obj_view(members: Seq<(Vec<u8>, Json)>) -> Seq<(Seq<u8>, JsonV)>
    decreases members,
{
    if members.len() == 0 {
        Seq::empty()
    } else {
        obj_view(members.drop_last()).push((members.last().0@, json_view(members.last().1)))
    }
}

impl View for Json {
    type V = JsonV;

    open spec fn view(&self) -> JsonV {
        json_view(*self)
    }
}

pub proof fn lemma_arr_view(elems: Seq<Json>)
    ensures
        arr_view(elems).len() == elems.len(),
        forall|i: int| 0 <= i < elems.len() ==> arr_view(elems)[i] == json_view(#[trigger] elems[i]),
    decreases elems,
{
    if elems.len() > 0 {
        lemma_arr_view(elems.drop_last());
        assert forall|i: int| 0 <= i < elems.len() implies arr_view(elems)[i] == json_view(
            #[trigger] elems[i],
        ) by {
            if i < elems.len() - 1 {
                assert(elems.drop_last()[i] == elems[i]);
            }
        }
    }
}

pub proof fn lemma_obj_view(members: Seq<(Vec<u8>, Json)>)
    ensures
        obj_view(members).len() == members.len(),
        forall|i: int|
            0 <= i < members.len() ==> obj_view(members)[i] == (
            #[trigger] members[i].0@,
            json_view(members[i].1),
            ),
    decreases members,
{
    if members.len() > 0 {
        lemma_obj_view(members.drop_last());
        assert forall|i: int| 0 <= i < members.len() implies obj_view(members)[i] == (
            #[trigger] members[i].0@,
            json_view(members[i].1),
        ) by {
            if i < members.len() - 1 {
                assert(members.drop_last()[i] == members[i]);
            }
        }
    }
}

pub open spec fn is_digit(b: u8) -> bool {
    '0' as u8 <= b <= '9' as u8
}

/// Length of the longest digit prefix.
pub open spec fn digits_run(s: Seq<u8>) -> nat
    decreases s.len(),
{
    if s.len() > 0 && is_digit(s[0]) {
        1 + digits_run(s.drop_first())
    } else {
        0
    }
}

pub proof fn lemma_digits_run_le(s: Seq<u8>)
    ensures
        digits_run(s) <= s.len(),
    decreases s.len(),
{
    if s.len() > 0 && is_digit(s[0]) {
        lemma_digits_run_le(s.drop_first());
    }
}

/// Length of the integer part at the head of `t`: one `0`, or a nonzero
/// digit run; 0 when there is none.
pub open spec fn int_part_len(t: Seq<u8>) -> int {
    if t.len() == 0 || !is_digit(t[0]) {
        0
    } else if t[0] == '0' as u8 {
        1
    } else {
        digits_run(t) as int
    }
}

/// Length of a fraction part `.digits` at the head of `u`; 0 when there is
/// none.
pub open spec fn frac_part_len(u: Seq<u8>) -> int {
    if u.len() >= 2 && u[0] == '.' as u8 && is_digit(u[1]) {
        1 + digits_run(u.skip(1)) as int
    } else {
        0
    }
}

/// Length of an exponent part `[eE][+-]?digits` at the head of `w`; 0 when
/// there is none.
pub open spec fn exp_part_len(w: Seq<u8>) -> int {
    if w.len() >= 2 && (w[0] == 'e' as u8 || w[0] == 'E' as u8) {
        let sign: int = if w[1] == '+' as u8 || w[1] == '-' as u8 {
            1int
        } else {
            0int
        };
        let dl = digits_run(w.skip(1 + sign)) as int;
        if dl > 0 {
            1 + sign + dl
        } else {
            0
        }
    } else {
        0
    }
}

/// Length of the longest prefix that is a JSON number token; 0 when there is
/// none.  The grammar is `-? (0 | [1-9][0-9]*) (. [0-9]+)? ([eE][+-]?[0-9]+)?`.
pub open spec fn number_token_len(s: Seq<u8>) -> int {
    let neg: int = if s.len() > 0 && s[0] == '-' as u8 {
        1int
    } else {
        0int
    };
    let t = s.skip(neg);
    let ip = int_part_len(t);
    if ip == 0 {
        0
    } else {
        let u = t.skip(ip);
        let fp = frac_part_len(u);
        let w = u.skip(fp);
        neg + ip + fp + exp_part_len(w)
    }
}

pub proof fn lemma_int_part_len_le(t: Seq<u8>)
    ensures
        0 <= int_part_len(t) <= t.len(),
{
    lemma_digits_run_le(t);
}

pub proof fn lemma_frac_part_len_le(u: Seq<u8>)
    ensures
        0 <= frac_part_len(u) <= u.len(),
{
    lemma_digits_run_le(u.skip(1));
}

pub proof fn lemma_exp_part_len_le(w: Seq<u8>)
    ensures
        0 <= exp_part_len(w) <= w.len(),
{
    if w.len() >= 2 && (w[0] == 'e' as u8 || w[0] == 'E' as u8) {
        let sign: int = if w[1] == '+' as u8 || w[1] == '-' as u8 {
            1int
        } else {
            0int
        };
        lemma_digits_run_le(w.skip(1 + sign));
    }
}

pub proof fn lemma_number_token_len_le(s: Seq<u8>)
    ensures
        0 <= number_token_len(s) <= s.len(),
{
    let neg: int = if s.len() > 0 && s[0] == '-' as u8 {
        1int
    } else {
        0int
    };
    let t = s.skip(neg);
    lemma_int_part_len_le(t);
    let ip = int_part_len(t);
    if ip != 0 {
        let u = t.skip(ip);
        lemma_frac_part_len_le(u);
        let fp = frac_part_len(u);
        let w = u.skip(fp);
        lemma_exp_part_len_le(w);
    }
}

/// A whole byte sequence that is exactly one number token.
pub open spec fn is_number_token(t: Seq<u8>) -> bool {
    t.len() > 0 && number_token_len(t) == t.len()
}

/// Well-formed documents: every number literal is a valid number token.
/// Serialization is lossless exactly on well-formed documents.
pub open spec fn wf_json(v: JsonV) -> bool
    decreases v, 0int,
{
    match v {
        JsonV::Null => true,
        JsonV::Bool(_) => true,
        JsonV::Num(t) => is_number_token(t),
        JsonV::Str(_) => true,
        JsonV::Arr(elems) => wf_json_arr(elems),
        JsonV::Obj(members) => wf_json_obj(members),
    }
}

pub open spec fn wf_json_arr(elems: Seq<JsonV>) -> bool
    decreases elems, 0int,
{
    if elems.len() == 0 {
        true
    } else {
        wf_json(elems[0]) && wf_json_arr(elems.drop_first())
    }
}

pub open spec fn wf_json_obj(members: Seq<(Seq<u8>, JsonV)>) -> bool
    decreases members, 0int,
{
    if members.len() == 0 {
        true
    } else {
        wf_json(members[0].1) && wf_json_obj(members.drop_first())
    }
}

pub proof fn lemma_wf_json_arr(elems: Seq<JsonV>)
    ensures
        wf_json_arr(elems) <==> (forall|i: int| 0 <= i < elems.len() ==> wf_json(#[trigger] elems[i])),
    decreases elems.len(),
{
    if elems.len() > 0 {
        lemma_wf_json_arr(elems.drop_first());
        if wf_json_arr(elems) {
            assert forall|i: int| 0 <= i < elems.len() implies wf_json(#[trigger] elems[i]) by {
                if i > 0 {
                    assert(elems.drop_first()[i - 1] == elems[i]);
                }
            }
        }
        if forall|i: int| 0 <= i < elems.len() ==> wf_json(#[trigger] elems[i]) {
            assert forall|i: int|
                0 <= i < elems.drop_first().len() implies wf_json(
                #[trigger] elems.drop_first()[i],
            ) by {
                assert(elems.drop_first()[i] == elems[i + 1]);
            }
        }
    }
}

pub proof fn lemma_wf_json_obj(members: Seq<(Seq<u8>, JsonV)>)
    ensures
        wf_json_obj(members) <==> (forall|i: int|
            0 <= i < members.len() ==> wf_json(#[trigger] members[i].1)),
    decreases members.len(),
{
    if members.len() > 0 {
        lemma_wf_json_obj(members.drop_first());
        if wf_json_obj(members) {
            assert forall|i: int| 0 <= i < members.len() implies wf_json(#[trigger] members[i].1) by {
                if i > 0 {
                    assert(members.drop_first()[i - 1] == members[i]);
                }
            }
        }
        if forall|i: int| 0 <= i < members.len() ==> wf_json(#[trigger] members[i].1) {
            assert forall|i: int|
                0 <= i < members.drop_first().len() implies wf_json(
                #[trigger] members.drop_first()[i].1,
            ) by {
                assert(members.drop_first()[i] == members[i + 1]);
            }
        }
    }
}

/// The byte sequence an ASCII string stands for.
pub open spec fn ascii_seq(s: Seq<char>) -> Seq<u8> {
    Seq::new(s.len(), |i: int| s[i] as u8)
}

/// Appending a member keeps or breaks object well-formedness with the new
/// value alone.
pub proof fn lemma_wf_json_obj_push(ms: Seq<(Seq<u8>, JsonV)>, p: (Seq<u8>, JsonV))
    ensures
        wf_json_obj(ms.push(p)) <==> (wf_json_obj(ms) && wf_json(p.1)),
{
    lemma_wf_json_obj(ms);
    lemma_wf_json_obj(ms.push(p));
    assert(ms.push(p)[ms.len() as int] == p);
    if wf_json_obj(ms) && wf_json(p.1) {
        assert forall|i: int| 0 <= i < ms.push(p).len() implies wf_json(
            #[trigger] ms.push(p)[i].1,
        ) by {
            if i < ms.len() {
                assert(ms.push(p)[i] == ms[i]);
            }
        }
    }
    if wf_json_obj(ms.push(p)) {
        assert forall|i: int| 0 <= i < ms.len() implies wf_json(#[trigger] ms[i].1) by {
            assert(ms.push(p)[i] == ms[i]);
        }
    }
}

/// A deep copy of a JSON value.
#[verifier::loop_isolation(false)]
pub fn dup_json(j: &Json) -> (r: Json)
    ensures
        r@ == j@,
    decreases j,
{
    match j {
        Json::Null => Json::Null,
        Json::Bool(b) => Json::Bool(*b),
        Json::Num(t) => Json::Num(vstd::slice::slice_to_vec(t.as_slice())),
        Json::Str(s) => Json::Str(vstd::slice::slice_to_vec(s.as_slice())),
        Json::Arr(elems) => {
            let mut out: Vec<Json> = Vec::new();
            let mut i: usize = 0;
            while i < elems.len()
                invariant
                    i <= elems@.len(),
                    out@.len() == i,
                    forall|q: int|
                        0 <= q < i ==> json_view(#[trigger] out@[q]) == json_view(elems@[q]),
                decreases elems@.len() - i,
            {
                proof {
                    assert(*j == Json::Arr(*elems));
                    assert(decreases_to!(Json::Arr(*elems) => *elems));
                    vstd::std_specs::vec::axiom_vec_index_decreases::<Json>(*elems, i as int);
                }
                out.push(dup_json(&elems[i]));
                i = i + 1;
            }
            let r = Json::Arr(out);
            proof {
                lemma_arr_view(out@);
                lemma_arr_view(elems@);
                assert forall|q: int|
                    0 <= q < out@.len() implies arr_view(out@)[q] == arr_view(elems@)[q] by {
                    assert(arr_view(out@)[q] == json_view(out@[q]));
                    assert(arr_view(elems@)[q] == json_view(elems@[q]));
                }
                assert(arr_view(out@) =~= arr_view(elems@));
            }
            r
        },
        Json::Obj(members) => {
            let mut out: Vec<(Vec<u8>, Json)> = Vec::new();
            let mut i: usize = 0;
            while i < members.len()
                invariant
                    i <= members@.len(),
                    out@.len() == i,
                    forall|q: int|
                        0 <= q < i ==> #[trigger] out@[q].0@ == members@[q].0@ && json_view(
                            out@[q].1,
                        ) == json_view(members@[q].1),
                decreases members@.len() - i,
            {
                proof {
                    assert(*j == Json::Obj(*members));
                    assert(decreases_to!(Json::Obj(*members) => *members));
                    vstd::std_specs::vec::axiom_vec_index_decreases::<(Vec<u8>, Json)>(
                        *members,
                        i as int,
                    );
                }
                let key = vstd::slice::slice_to_vec(members[i].0.as_slice());
                out.push((key, dup_json(&members[i].1)));
                i = i + 1;
            }
            let r = Json::Obj(out);
            proof {
                lemma_obj_view(out@);
                lemma_obj_view(members@);
                assert forall|q: int|
                    0 <= q < out@.len() implies obj_view(out@)[q] == obj_view(members@)[q] by {
                    assert(obj_view(out@)[q] == (out@[q].0@, json_view(out@[q].1)));
                    assert(obj_view(members@)[q] == (members@[q].0@, json_view(members@[q].1)));
                }
                assert(obj_view(out@) =~= obj_view(members@));
            }
            r
        },
    }
}

/// Copies the bytes of an ASCII string.
pub fn ascii_bytes(s: &str) -> (r: Vec<u8>)
    requires
        s.is_ascii(),
    ensures
        r@ == ascii_seq(s@),
{
    proof {
        vstd::string::is_ascii_spec_bytes(s);
    }
    let b = s.as_bytes();
    let r = vstd::slice::slice_to_vec(b);
    assert(r@ =~= ascii_seq(s@));
    r
}

} // verus!
