//! Field lookup in parsed JSON objects.  Lookups find the first member with
//! the given key; unknown members are ignored, which keeps decoding tolerant
//! of fields added by future protocol revisions.

use vstd::prelude::*;

use crate::json::{ascii_seq, obj_view, Json, JsonV};

verus! {

broadcast use {vstd::std_specs::vec::group_vec_axioms, vstd::seq::group_seq_axioms};

/// First member of `ms` with key `key`.
pub open spec fn jget(ms: Seq<(Seq<u8>, JsonV)>, key: Seq<u8>) -> Option<JsonV>
    decreases ms.len(),
{
    if ms.len() == 0 {
        None
    } else if ms[0].0 == key {
        Some(ms[0].1)
    } else {
        jget(ms.drop_first(), key)
    }
}

/// String content of a field, when it is present and a string.
pub open spec fn jget_str(ms: Seq<(Seq<u8>, JsonV)>, key: Seq<u8>) -> Option<Seq<u8>> {
    match jget(ms, key) {
        Some(JsonV::Str(s)) => Some(s),
        _ => None,
    }
}

/// Boolean value of a field, when it is present and a boolean.
pub open spec fn jget_bool(ms: Seq<(Seq<u8>, JsonV)>, key: Seq<u8>) -> Option<bool> {
    match jget(ms, key) {
        Some(JsonV::Bool(b)) => Some(b),
        _ => None,
    }
}

/// Number token of a field, when it is present and a number.
pub open spec fn jget_num(ms: Seq<(Seq<u8>, JsonV)>, key: Seq<u8>) -> Option<Seq<u8>> {
    match jget(ms, key) {
        Some(JsonV::Num(t)) => Some(t),
        _ => None,
    }
}

/// Looks a key up in the members of a parsed object.
pub fn obj_get<'a>(ms: &'a Vec<(Vec<u8>, Json)>, key: &str) -> (r: Option<&'a Json>)
    requires
        key.is_ascii(),
    ensures
        match jget(obj_view(ms@), ascii_seq(key@)) {
            None => r is None,
            Some(v) => r matches Some(j) && j@ == v,
        },
{
    proof {
        vstd::string::is_ascii_spec_bytes(key);
    }
    let kb = key.as_bytes();
    proof {
        assert(kb@ =~= ascii_seq(key@));
        crate::json::lemma_obj_view(ms@);
        assert(obj_view(ms@).skip(0int) =~= obj_view(ms@));
    }
    let mut i: usize = 0;
    while i < ms.len()
        invariant
            i <= ms@.len(),
            kb@ == ascii_seq(key@),
            forall|q: int| 0 <= q < i ==> #[trigger] ms@[q].0@ != ascii_seq(key@),
            jget(obj_view(ms@), ascii_seq(key@)) == jget(
                obj_view(ms@).skip(i as int),
                ascii_seq(key@),
            ),
        decreases ms@.len() - i,
    {
        proof {
            crate::json::lemma_obj_view(ms@);
            assert(obj_view(ms@).skip(i as int)[0] == obj_view(ms@)[i as int]);
        }
        if crate::bytesutil::bytes_eq(ms[i].0.as_slice(), kb) {
            proof {
                assert(jget(obj_view(ms@).skip(i as int), ascii_seq(key@)) == Some(
                    obj_view(ms@)[i as int].1,
                ));
            }
            return Some(&ms[i].1);
        }
        proof {
            assert(obj_view(ms@).skip(i as int).drop_first() =~= obj_view(ms@).skip(i + 1int));
        }
        i = i + 1;
    }
    proof {
        assert(obj_view(ms@).skip(i as int).len() == 0);
    }
    None
}

/// Looking a key up after appending one member.
pub proof fn lemma_jget_push(ms: Seq<(Seq<u8>, JsonV)>, p: (Seq<u8>, JsonV), key: Seq<u8>)
    ensures
        jget(ms.push(p), key) == match jget(ms, key) {
            Some(v) => Some(v),
            None => if p.0 == key {
                Some(p.1)
            } else {
                None
            },
        },
    decreases ms.len(),
{
    reveal_with_fuel(jget, 3);
    if ms.len() == 0 {
        assert(ms.push(p)[0] == p);
        assert(ms.push(p).drop_first() =~= Seq::<(Seq<u8>, JsonV)>::empty());
        assert(jget(Seq::<(Seq<u8>, JsonV)>::empty(), key) is None);
    } else {
        assert(ms.push(p)[0] == ms[0]);
        lemma_jget_push(ms.drop_first(), p, key);
        assert(ms.push(p).drop_first() =~= ms.drop_first().push(p));
    }
}

/// Appends an optional member.
pub open spec fn push_opt(ms: Seq<(Seq<u8>, JsonV)>, key: Seq<u8>, v: Option<JsonV>) -> Seq<
    (Seq<u8>, JsonV),
> {
    match v {
        Some(x) => ms.push((key, x)),
        None => ms,
    }
}

/// One optional member appended: what a lookup sees afterwards.
pub open spec fn after_push_opt(
    prev: Option<JsonV>,
    pushed_key: Seq<u8>,
    pushed: Option<JsonV>,
    key: Seq<u8>,
) -> Option<JsonV> {
    match prev {
        Some(v) => Some(v),
        None => match pushed {
            Some(x) => if pushed_key == key {
                Some(x)
            } else {
                None
            },
            None => None,
        },
    }
}

pub proof fn lemma_push_opt_get(
    ms: Seq<(Seq<u8>, JsonV)>,
    pushed_key: Seq<u8>,
    pushed: Option<JsonV>,
    key: Seq<u8>,
)
    ensures
        jget(push_opt(ms, pushed_key, pushed), key) == after_push_opt(
            jget(ms, key),
            pushed_key,
            pushed,
            key,
        ),
{
    match pushed {
        Some(x) => {
            lemma_jget_push(ms, (pushed_key, x), key);
        },
        None => {},
    }
}

/// A list of strings as a JSON array.
pub open spec fn strlist_jsonv(xs: Seq<Seq<u8>>) -> JsonV {
    JsonV::Arr(Seq::new(xs.len(), |i: int| JsonV::Str(xs[i])))
}

/// The strings of a JSON array; `None` when some element is not a string.
pub open spec fn strlist_of_elems(es: Seq<JsonV>) -> Option<Seq<Seq<u8>>>
    decreases es.len(),
{
    if es.len() == 0 {
        Some(Seq::empty())
    } else {
        match es[0] {
            JsonV::Str(s) => match strlist_of_elems(es.drop_first()) {
                Some(r) => Some(seq![s] + r),
                None => None,
            },
            _ => None,
        }
    }
}

pub proof fn lemma_strlist_round_trip(xs: Seq<Seq<u8>>)
    ensures
        strlist_of_elems(Seq::new(xs.len(), |i: int| JsonV::Str(xs[i]))) == Some(xs),
    decreases xs.len(),
{
    let es = Seq::new(xs.len(), |i: int| JsonV::Str(xs[i]));
    if xs.len() > 0 {
        lemma_strlist_round_trip(xs.drop_first());
        assert(es.drop_first() =~= Seq::new(
            xs.drop_first().len(),
            |i: int| JsonV::Str(xs.drop_first()[i]),
        ));
        assert(seq![xs[0]] + xs.drop_first() =~= xs);
    } else {
        assert(Seq::<Seq<u8>>::empty() =~= xs);
    }
}

pub fn strlist_to_json(xs: &Vec<Vec<u8>>) -> (r: Json)
    ensures
        r@ == strlist_jsonv(xs.deep_view()),
{
    let mut es: Vec<Json> = Vec::new();
    let mut i: usize = 0;
    while i < xs.len()
        invariant
            i <= xs@.len(),
            es@.len() == i,
            forall|q: int|
                0 <= q < i ==> crate::json::json_view(#[trigger] es@[q]) == JsonV::Str(xs@[q]@),
        decreases xs@.len() - i,
    {
        es.push(Json::Str(crate::bytesutil::dup_bytes(&xs[i])));
        i = i + 1;
    }
    let r = Json::Arr(es);
    proof {
        crate::json::lemma_arr_view(es@);
        assert forall|q: int|
            0 <= q < es@.len() implies crate::json::arr_view(es@)[q] == JsonV::Str(
            xs.deep_view()[q],
        ) by {
            assert(crate::json::json_view(es@[q]) == JsonV::Str(xs@[q]@));
            assert(xs.deep_view()[q] == xs@[q]@);
        }
        assert(crate::json::arr_view(es@) =~= Seq::new(
            xs.deep_view().len(),
            |i: int| JsonV::Str(xs.deep_view()[i]),
        ));
    }
    r
}

pub fn strlist_from_json(es: &Vec<Json>) -> (r: Option<Vec<Vec<u8>>>)
    ensures
        match strlist_of_elems(crate::json::arr_view(es@)) {
            None => r is None,
            Some(xs) => r matches Some(v) && v.deep_view() == xs,
        },
{
    proof {
        crate::json::lemma_arr_view(es@);
    }
    let mut out: Vec<Vec<u8>> = Vec::new();
    let mut i: usize = 0;
    while i < es.len()
        invariant
            i <= es@.len(),
            out@.len() == i,
            forall|q: int| 0 <= q < i ==> crate::json::arr_view(es@)[q] == JsonV::Str(
                #[trigger] out@[q]@,
            ),
            forall|q: int|
                0 <= q < es@.len() ==> crate::json::arr_view(es@)[q] == crate::json::json_view(
                    #[trigger] es@[q],
                ),
        decreases es@.len() - i,
    {
        match &es[i] {
            Json::Str(s) => {
                out.push(crate::bytesutil::dup_bytes(s));
                proof {
                    assert(crate::json::arr_view(es@)[i as int] == JsonV::Str(out@[i as int]@));
                }
            },
            _ => {
                proof {
                    crate::json::lemma_arr_view(es@);
                    assert(!(crate::json::json_view(es@[i as int]) is Str));
                    lemma_strlist_prefix_none(crate::json::arr_view(es@), i as int);
                }
                return None;
            },
        }
        i = i + 1;
    }
    proof {
        assert forall|q: int|
            0 <= q < crate::json::arr_view(es@).len() implies #[trigger] crate::json::arr_view(
            es@,
        )[q] == JsonV::Str(out.deep_view()[q]) by {
            assert(crate::json::arr_view(es@)[q] == JsonV::Str(out@[q]@));
            assert(out.deep_view()[q] == out@[q]@);
        }
        lemma_strlist_prefix_some(crate::json::arr_view(es@), out.deep_view());
    }
    Some(out)
}

/// When some element is not a string, the whole list fails to decode.
pub proof fn lemma_strlist_prefix_none(es: Seq<JsonV>, i: int)
    requires
        0 <= i < es.len(),
        !(es[i] is Str),
    ensures
        strlist_of_elems(es) is None,
    decreases i,
{
    if i > 0 {
        match es[0] {
            JsonV::Str(_) => {
                lemma_strlist_prefix_none(es.drop_first(), i - 1);
                assert(es.drop_first()[i - 1] == es[i]);
            },
            _ => {},
        }
    }
}

/// When every element is the string at the same index of `xs`, the list
/// decodes to `xs`.
pub proof fn lemma_strlist_prefix_some(es: Seq<JsonV>, xs: Seq<Seq<u8>>)
    requires
        es.len() == xs.len(),
        forall|q: int| 0 <= q < es.len() ==> #[trigger] es[q] == JsonV::Str(xs[q]),
    ensures
        strlist_of_elems(es) == Some(xs),
    decreases es.len(),
{
    if es.len() > 0 {
        assert forall|q: int|
            0 <= q < es.drop_first().len() implies #[trigger] es.drop_first()[q] == JsonV::Str(
            xs.drop_first()[q],
        ) by {
            assert(es.drop_first()[q] == es[q + 1]);
            assert(xs.drop_first()[q] == xs[q + 1]);
        }
        lemma_strlist_prefix_some(es.drop_first(), xs.drop_first());
        assert(seq![xs[0]] + xs.drop_first() =~= xs);
    } else {
        assert(xs =~= Seq::<Seq<u8>>::empty());
    }
}

/// A map with string values as a JSON object, keys in order.
pub open spec fn strmap_jsonv(ps: Seq<(Seq<u8>, Seq<u8>)>) -> JsonV {
    JsonV::Obj(Seq::new(ps.len(), |i: int| (ps[i].0, JsonV::Str(ps[i].1))))
}

/// The string pairs of a JSON object; `None` when some value is not a
/// string.
pub open spec fn strmap_of_members(ms: Seq<(Seq<u8>, JsonV)>) -> Option<Seq<(Seq<u8>, Seq<u8>)>>
    decreases ms.len(),
{
    if ms.len() == 0 {
        Some(Seq::empty())
    } else {
        match ms[0].1 {
            JsonV::Str(s) => match strmap_of_members(ms.drop_first()) {
                Some(r) => Some(seq![(ms[0].0, s)] + r),
                None => None,
            },
            _ => None,
        }
    }
}

pub proof fn lemma_strmap_prefix_none(ms: Seq<(Seq<u8>, JsonV)>, i: int)
    requires
        0 <= i < ms.len(),
        !(ms[i].1 is Str),
    ensures
        strmap_of_members(ms) is None,
    decreases i,
{
    if i > 0 {
        match ms[0].1 {
            JsonV::Str(_) => {
                lemma_strmap_prefix_none(ms.drop_first(), i - 1);
                assert(ms.drop_first()[i - 1] == ms[i]);
            },
            _ => {},
        }
    }
}

pub proof fn lemma_strmap_prefix_some(ms: Seq<(Seq<u8>, JsonV)>, ps: Seq<(Seq<u8>, Seq<u8>)>)
    requires
        ms.len() == ps.len(),
        forall|q: int|
            0 <= q < ms.len() ==> #[trigger] ms[q] == (ps[q].0, JsonV::Str(ps[q].1)),
    ensures
        strmap_of_members(ms) == Some(ps),
    decreases ms.len(),
{
    if ms.len() > 0 {
        assert forall|q: int|
            0 <= q < ms.drop_first().len() implies #[trigger] ms.drop_first()[q] == (
            ps.drop_first()[q].0,
            JsonV::Str(ps.drop_first()[q].1),
        ) by {
            assert(ms.drop_first()[q] == ms[q + 1]);
            assert(ps.drop_first()[q] == ps[q + 1]);
        }
        lemma_strmap_prefix_some(ms.drop_first(), ps.drop_first());
        assert(ms[0] == (ps[0].0, JsonV::Str(ps[0].1)));
        assert(seq![(ps[0].0, ps[0].1)] + ps.drop_first() =~= ps);
        assert((ps[0].0, ps[0].1) == ps[0]);
    } else {
        assert(ps =~= Seq::<(Seq<u8>, Seq<u8>)>::empty());
    }
}

pub proof fn lemma_strmap_round_trip(ps: Seq<(Seq<u8>, Seq<u8>)>)
    ensures
        strmap_of_members(Seq::new(ps.len(), |i: int| (ps[i].0, JsonV::Str(ps[i].1)))) == Some(ps),
{
    let ms = Seq::new(ps.len(), |i: int| (ps[i].0, JsonV::Str(ps[i].1)));
    lemma_strmap_prefix_some(ms, ps);
}

pub fn strmap_to_json(ps: &Vec<(Vec<u8>, Vec<u8>)>) -> (r: Json)
    ensures
        r@ == strmap_jsonv(ps.deep_view()),
{
    let mut ms: Vec<(Vec<u8>, Json)> = Vec::new();
    let mut i: usize = 0;
    while i < ps.len()
        invariant
            i <= ps@.len(),
            ms@.len() == i,
            forall|q: int|
                0 <= q < i ==> #[trigger] ms@[q].0@ == ps@[q].0@ && crate::json::json_view(
                    ms@[q].1,
                ) == JsonV::Str(ps@[q].1@),
        decreases ps@.len() - i,
    {
        ms.push(
            (crate::bytesutil::dup_bytes(&ps[i].0), Json::Str(crate::bytesutil::dup_bytes(&ps[i].1))),
        );
        i = i + 1;
    }
    let r = Json::Obj(ms);
    proof {
        crate::json::lemma_obj_view(ms@);
        assert forall|q: int|
            0 <= q < ms@.len() implies crate::json::obj_view(ms@)[q] == (
            ps.deep_view()[q].0,
            JsonV::Str(ps.deep_view()[q].1),
        ) by {
            assert(crate::json::obj_view(ms@)[q] == (
                ms@[q].0@,
                crate::json::json_view(ms@[q].1),
            ));
            assert(ms@[q].0@ == ps@[q].0@);
            assert(crate::json::json_view(ms@[q].1) == JsonV::Str(ps@[q].1@));
            assert(ps.deep_view()[q].0 == ps@[q].0@);
            assert(ps.deep_view()[q].1 == ps@[q].1@);
        }
        assert(crate::json::obj_view(ms@) =~= Seq::new(
            ps.deep_view().len(),
            |i: int| (ps.deep_view()[i].0, JsonV::Str(ps.deep_view()[i].1)),
        ));
    }
    r
}

pub fn strmap_from_json(ms: &Vec<(Vec<u8>, Json)>) -> (r: Option<Vec<(Vec<u8>, Vec<u8>)>>)
    ensures
        match strmap_of_members(crate::json::obj_view(ms@)) {
            None => r is None,
            Some(ps) => r matches Some(v) && v.deep_view() == ps,
        },
{
    proof {
        crate::json::lemma_obj_view(ms@);
    }
    let mut out: Vec<(Vec<u8>, Vec<u8>)> = Vec::new();
    let mut i: usize = 0;
    while i < ms.len()
        invariant
            i <= ms@.len(),
            out@.len() == i,
            forall|q: int|
                0 <= q < i ==> crate::json::obj_view(ms@)[q] == (
                    #[trigger] out@[q].0@,
                    JsonV::Str(out@[q].1@),
                ),
            forall|q: int|
                0 <= q < ms@.len() ==> #[trigger] crate::json::obj_view(ms@)[q] == (
                    ms@[q].0@,
                    crate::json::json_view(ms@[q].1),
                ),
        decreases ms@.len() - i,
    {
        match &ms[i].1 {
            Json::Str(s) => {
                out.push((crate::bytesutil::dup_bytes(&ms[i].0), crate::bytesutil::dup_bytes(s)));
                proof {
                    assert(crate::json::obj_view(ms@)[i as int] == (
                        out@[i as int].0@,
                        JsonV::Str(out@[i as int].1@),
                    ));
                }
            },
            _ => {
                proof {
                    crate::json::lemma_obj_view(ms@);
                    assert(!(crate::json::json_view(ms@[i as int].1) is Str));
                    lemma_strmap_prefix_none(crate::json::obj_view(ms@), i as int);
                }
                return None;
            },
        }
        i = i + 1;
    }
    proof {
        assert forall|q: int|
            0 <= q < crate::json::obj_view(ms@).len() implies #[trigger] crate::json::obj_view(
            ms@,
        )[q] == (out.deep_view()[q].0, JsonV::Str(out.deep_view()[q].1)) by {
            assert(crate::json::obj_view(ms@)[q] == (out@[q].0@, JsonV::Str(out@[q].1@)));
            assert(out.deep_view()[q].0 == out@[q].0@);
            assert(out.deep_view()[q].1 == out@[q].1@);
        }
        lemma_strmap_prefix_some(crate::json::obj_view(ms@), out.deep_view());
    }
    Some(out)
}

} // verus!
