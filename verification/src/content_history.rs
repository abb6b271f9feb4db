//! The history request.  This kernel keeps no history, so the request is
//! decoded and acknowledged but not answered with entries.

use vstd::prelude::*;

use crate::decimal::{dec_digits, i64_of_token, int_token, u64_of_dec_token};
use crate::json::{ascii_bytes, ascii_seq, Json, JsonV};
use crate::json_obj::{after_push_opt, jget, jget_bool, jget_num, jget_str, lemma_push_opt_get, push_opt};

verus! {

broadcast use {vstd::std_specs::vec::group_vec_axioms, vstd::seq::group_seq_axioms};

#[derive(Clone, Copy, Debug, PartialEq, Eq, Structural)]
pub enum HistoryAccessType {
    /// The last few entries.
    Tail,
    /// A line range within one session.
    Range,
    /// A glob search over cells.
    Search,
}

pub open spec fn history_access_token(t: HistoryAccessType) -> Seq<u8> {
    match t {
        HistoryAccessType::Tail => ascii_seq("tail"@),
        HistoryAccessType::Range => ascii_seq("range"@),
        HistoryAccessType::Search => ascii_seq("search"@),
    }
}

pub open spec fn history_access_of_token(t: Seq<u8>) -> Option<HistoryAccessType> {
    if t == history_access_token(HistoryAccessType::Tail) {
        Some(HistoryAccessType::Tail)
    } else if t == history_access_token(HistoryAccessType::Range) {
        Some(HistoryAccessType::Range)
    } else if t == history_access_token(HistoryAccessType::Search) {
        Some(HistoryAccessType::Search)
    } else {
        None
    }
}

pub proof fn lemma_history_access_round_trip(t: HistoryAccessType)
    ensures
        history_access_of_token(history_access_token(t)) == Some(t),
{
    reveal_strlit("tail");
    reveal_strlit("range");
    reveal_strlit("search");
    assert(ascii_seq("tail"@).len() == 4);
    assert(ascii_seq("range"@).len() == 5);
    assert(ascii_seq("search"@).len() == 6);
}

pub struct HistoryRequest {
    /// Also return output history.
    pub output: bool,
    /// Return raw input rather than the transformed input.
    pub raw: bool,
    pub history_access_type: HistoryAccessType,
    /// How many entries to access.
    pub number_of_items: u64,
    /// Session number, for range access; negative counts back from the
    /// current session.
    pub kernel_session: Option<i64>,
    /// First line of the range.
    pub line_start: Option<i64>,
    /// Line after the range.
    pub line_stop: Option<i64>,
    /// Glob pattern, for search access.
    pub search_pattern: Option<Vec<u8>>,
    /// Drop duplicated entries from a search.
    pub unique: Option<bool>,
}

pub ghost struct HistoryRequestV {
    pub output: bool,
    pub raw: bool,
    pub history_access_type: HistoryAccessType,
    pub number_of_items: u64,
    pub kernel_session: Option<int>,
    pub line_start: Option<int>,
    pub line_stop: Option<int>,
    pub search_pattern: Option<Seq<u8>>,
    pub unique: Option<bool>,
}

impl View for HistoryRequest {
    type V = HistoryRequestV;

    open spec fn view(&self) -> HistoryRequestV {
        HistoryRequestV {
            output: self.output,
            raw: self.raw,
            history_access_type: self.history_access_type,
            number_of_items: self.number_of_items,
            kernel_session: match self.kernel_session {
                Some(v) => Some(v as int),
                None => None,
            },
            line_start: match self.line_start {
                Some(v) => Some(v as int),
                None => None,
            },
            line_stop: match self.line_stop {
                Some(v) => Some(v as int),
                None => None,
            },
            search_pattern: match self.search_pattern {
                Some(v) => Some(v@),
                None => None,
            },
            unique: self.unique,
        }
    }
}

/// The members always present, in serialization order.
pub open spec fn history_request_base(c: HistoryRequestV) -> Seq<(Seq<u8>, JsonV)> {
    seq![
        (ascii_seq("output"@), JsonV::Bool(c.output)),
        (ascii_seq("raw"@), JsonV::Bool(c.raw)),
        (
            ascii_seq("hist_access_type"@),
            JsonV::Str(history_access_token(c.history_access_type)),
        ),
        (ascii_seq("n"@), JsonV::Num(dec_digits(c.number_of_items as nat))),
    ]
}

pub open spec fn history_request_jsonv(c: HistoryRequestV) -> JsonV {
    JsonV::Obj(
        push_opt(
            push_opt(
                push_opt(
                    push_opt(
                        push_opt(
                            history_request_base(c),
                            ascii_seq("session"@),
                            match c.kernel_session {
                                Some(i) => Some(JsonV::Num(int_token(i))),
                                None => None,
                            },
                        ),
                        ascii_seq("start"@),
                        match c.line_start {
                            Some(i) => Some(JsonV::Num(int_token(i))),
                            None => None,
                        },
                    ),
                    ascii_seq("stop"@),
                    match c.line_stop {
                        Some(i) => Some(JsonV::Num(int_token(i))),
                        None => None,
                    },
                ),
                ascii_seq("pattern"@),
                match c.search_pattern {
                    Some(p) => Some(JsonV::Str(p)),
                    None => None,
                },
            ),
            ascii_seq("unique"@),
            match c.unique {
                Some(b) => Some(JsonV::Bool(b)),
                None => None,
            },
        ),
    )
}

/// An optional signed-integer field: absent, or a number token in `i64`
/// range.
pub open spec fn opt_i64_field(ms: Seq<(Seq<u8>, JsonV)>, key: Seq<u8>) -> Option<Option<int>> {
    match jget(ms, key) {
        None => Some(None),
        Some(JsonV::Num(t)) => match i64_of_token(t) {
            Some(v) => Some(Some(v)),
            None => None,
        },
        Some(_) => None,
    }
}

pub open spec fn history_request_of_jsonv(j: JsonV) -> Option<HistoryRequestV> {
    match j {
        JsonV::Obj(ms) => match (
            jget_bool(ms, ascii_seq("output"@)),
            jget_bool(ms, ascii_seq("raw"@)),
            jget_str(ms, ascii_seq("hist_access_type"@)),
            jget_num(ms, ascii_seq("n"@)),
        ) {
            (Some(output), Some(raw), Some(at), Some(nt)) => match (
                history_access_of_token(at),
                u64_of_dec_token(nt),
            ) {
                (Some(access), Some(n)) => {
                    let session = opt_i64_field(ms, ascii_seq("session"@));
                    let start = opt_i64_field(ms, ascii_seq("start"@));
                    let stop = opt_i64_field(ms, ascii_seq("stop"@));
                    let pattern = match jget(ms, ascii_seq("pattern"@)) {
                        None => Some(None),
                        Some(JsonV::Str(p)) => Some(Some(p)),
                        Some(_) => None,
                    };
                    let unique = match jget(ms, ascii_seq("unique"@)) {
                        None => Some(None),
                        Some(JsonV::Bool(b)) => Some(Some(b)),
                        Some(_) => None,
                    };
                    match (session, start, stop, pattern, unique) {
                        (Some(se), Some(st), Some(sp), Some(pa), Some(un)) => Some(
                            HistoryRequestV {
                                output,
                                raw,
                                history_access_type: access,
                                number_of_items: n,
                                kernel_session: se,
                                line_start: st,
                                line_stop: sp,
                                search_pattern: pa,
                                unique: un,
                            },
                        ),
                        _ => None,
                    }
                },
                _ => None,
            },
            _ => None,
        },
        _ => None,
    }
}

pub proof fn reveal_history_keys()
    ensures
        ascii_seq("output"@).len() == 6,
        ascii_seq("raw"@).len() == 3,
        ascii_seq("hist_access_type"@).len() == 16,
        ascii_seq("n"@).len() == 1,
        ascii_seq("session"@).len() == 7,
        ascii_seq("start"@).len() == 5,
        ascii_seq("stop"@).len() == 4,
        ascii_seq("pattern"@).len() == 7,
        ascii_seq("unique"@).len() == 6,
        ascii_seq("output"@)[0] != ascii_seq("unique"@)[0],
        ascii_seq("session"@)[0] != ascii_seq("pattern"@)[0],
        ascii_seq("start"@)[3] != ascii_seq("stop"@)[3],
{
    reveal_strlit("output");
    reveal_strlit("raw");
    reveal_strlit("hist_access_type");
    reveal_strlit("n");
    reveal_strlit("session");
    reveal_strlit("start");
    reveal_strlit("stop");
    reveal_strlit("pattern");
    reveal_strlit("unique");
}

impl HistoryRequest {
    #[verifier::rlimit(100)]
    pub fn from_json(j: &Json) -> (r: Option<HistoryRequest>)
        ensures
            match history_request_of_jsonv(j@) {
                None => r is None,
                Some(cv) => r matches Some(c) && c@ == cv,
            },
    {
        proof {
            reveal_strlit("output");
            reveal_strlit("raw");
            reveal_strlit("hist_access_type");
            reveal_strlit("n");
            reveal_strlit("session");
            reveal_strlit("start");
            reveal_strlit("stop");
            reveal_strlit("pattern");
            reveal_strlit("unique");
            reveal_strlit("tail");
            reveal_strlit("range");
            reveal_strlit("search");
        }
        match j {
            Json::Obj(ms) => {
                let output = match crate::json_obj::obj_get(ms, "output") {
                    Some(Json::Bool(b)) => *b,
                    _ => {
                        return None;
                    },
                };
                let raw = match crate::json_obj::obj_get(ms, "raw") {
                    Some(Json::Bool(b)) => *b,
                    _ => {
                        return None;
                    },
                };
                let at = match crate::json_obj::obj_get(ms, "hist_access_type") {
                    Some(Json::Str(s)) => s,
                    _ => {
                        return None;
                    },
                };
                let access = if crate::bytesutil::bytes_eq_str(at.as_slice(), "tail") {
                    HistoryAccessType::Tail
                } else if crate::bytesutil::bytes_eq_str(at.as_slice(), "range") {
                    HistoryAccessType::Range
                } else if crate::bytesutil::bytes_eq_str(at.as_slice(), "search") {
                    HistoryAccessType::Search
                } else {
                    return None;
                };
                let n = match crate::json_obj::obj_get(ms, "n") {
                    Some(Json::Num(t)) => match crate::decimal::u64_from_dec(t.as_slice()) {
                        Some(n) => n,
                        None => {
                            return None;
                        },
                    },
                    _ => {
                        return None;
                    },
                };
                let session = match crate::json_obj::obj_get(ms, "session") {
                    None => None,
                    Some(Json::Num(t)) => match crate::decimal::i64_from_dec(t.as_slice()) {
                        Some(v) => Some(v),
                        None => {
                            return None;
                        },
                    },
                    Some(_) => {
                        return None;
                    },
                };
                let start = match crate::json_obj::obj_get(ms, "start") {
                    None => None,
                    Some(Json::Num(t)) => match crate::decimal::i64_from_dec(t.as_slice()) {
                        Some(v) => Some(v),
                        None => {
                            return None;
                        },
                    },
                    Some(_) => {
                        return None;
                    },
                };
                let stop = match crate::json_obj::obj_get(ms, "stop") {
                    None => None,
                    Some(Json::Num(t)) => match crate::decimal::i64_from_dec(t.as_slice()) {
                        Some(v) => Some(v),
                        None => {
                            return None;
                        },
                    },
                    Some(_) => {
                        return None;
                    },
                };
                let pattern = match crate::json_obj::obj_get(ms, "pattern") {
                    None => None,
                    Some(Json::Str(s)) => Some(crate::bytesutil::dup_bytes(s)),
                    Some(_) => {
                        return None;
                    },
                };
                let unique = match crate::json_obj::obj_get(ms, "unique") {
                    None => None,
                    Some(Json::Bool(b)) => Some(*b),
                    Some(_) => {
                        return None;
                    },
                };
                Some(
                    HistoryRequest {
                        output,
                        raw,
                        history_access_type: access,
                        number_of_items: n,
                        kernel_session: session,
                        line_start: start,
                        line_stop: stop,
                        search_pattern: pattern,
                        unique,
                    },
                )
            },
            _ => None,
        }
    }
}


pub proof fn lemma_history_request_round_trip(c: HistoryRequestV)
    requires
        c.kernel_session matches Some(i) ==> i64::MIN <= i <= i64::MAX,
        c.line_start matches Some(i) ==> i64::MIN <= i <= i64::MAX,
        c.line_stop matches Some(i) ==> i64::MIN <= i <= i64::MAX,
    ensures
        history_request_of_jsonv(history_request_jsonv(c)) == Some(c),
{
    reveal_history_keys();
    reveal_with_fuel(jget, 6);
    lemma_history_access_round_trip(c.history_access_type);
    crate::decimal::lemma_u64_dec_round_trip(c.number_of_items);
    let base = history_request_base(c);
    let p0 = (ascii_seq("output"@), JsonV::Bool(c.output));
    let p1 = (ascii_seq("raw"@), JsonV::Bool(c.raw));
    let p2 = (
        ascii_seq("hist_access_type"@),
        JsonV::Str(history_access_token(c.history_access_type)),
    );
    let p3 = (ascii_seq("n"@), JsonV::Num(dec_digits(c.number_of_items as nat)));
    assert(base =~= seq![p0, p1, p2, p3]);
    assert(seq![p0, p1, p2, p3].drop_first() =~= seq![p1, p2, p3]);
    assert(seq![p1, p2, p3].drop_first() =~= seq![p2, p3]);
    assert(seq![p2, p3].drop_first() =~= seq![p3]);
    assert(seq![p3].drop_first() =~= Seq::<(Seq<u8>, JsonV)>::empty());
    let ms1 = push_opt(
        base,
        ascii_seq("session"@),
        match c.kernel_session {
            Some(i) => Some(JsonV::Num(int_token(i))),
            None => None,
        },
    );
    let ms2 = push_opt(
        ms1,
        ascii_seq("start"@),
        match c.line_start {
            Some(i) => Some(JsonV::Num(int_token(i))),
            None => None,
        },
    );
    let ms3 = push_opt(
        ms2,
        ascii_seq("stop"@),
        match c.line_stop {
            Some(i) => Some(JsonV::Num(int_token(i))),
            None => None,
        },
    );
    let ms4 = push_opt(
        ms3,
        ascii_seq("pattern"@),
        match c.search_pattern {
            Some(p) => Some(JsonV::Str(p)),
            None => None,
        },
    );
    let ms5 = push_opt(
        ms4,
        ascii_seq("unique"@),
        match c.unique {
            Some(b) => Some(JsonV::Bool(b)),
            None => None,
        },
    );
    assert(history_request_jsonv(c) == JsonV::Obj(ms5));
    // walk each key through the chain of optional members
    lemma_history_chain(base, ms1, ms2, ms3, ms4, ms5, c);
    match c.kernel_session {
        Some(i) => {
            crate::decimal::lemma_int_token_round_trip(i);
        },
        None => {},
    }
    match c.line_start {
        Some(i) => {
            crate::decimal::lemma_int_token_round_trip(i);
        },
        None => {},
    }
    match c.line_stop {
        Some(i) => {
            crate::decimal::lemma_int_token_round_trip(i);
        },
        None => {},
    }
}

/// Field lookups across the serialized member chain: the four base fields
/// are found in the base, each optional field is found exactly when it was
/// appended.
#[verifier::rlimit(100)]
proof fn lemma_history_chain(
    base: Seq<(Seq<u8>, JsonV)>,
    ms1: Seq<(Seq<u8>, JsonV)>,
    ms2: Seq<(Seq<u8>, JsonV)>,
    ms3: Seq<(Seq<u8>, JsonV)>,
    ms4: Seq<(Seq<u8>, JsonV)>,
    ms5: Seq<(Seq<u8>, JsonV)>,
    c: HistoryRequestV,
)
    requires
        base == history_request_base(c),
        ms1 == push_opt(
            base,
            ascii_seq("session"@),
            match c.kernel_session {
                Some(i) => Some(JsonV::Num(int_token(i))),
                None => None,
            },
        ),
        ms2 == push_opt(
            ms1,
            ascii_seq("start"@),
            match c.line_start {
                Some(i) => Some(JsonV::Num(int_token(i))),
                None => None,
            },
        ),
        ms3 == push_opt(
            ms2,
            ascii_seq("stop"@),
            match c.line_stop {
                Some(i) => Some(JsonV::Num(int_token(i))),
                None => None,
            },
        ),
        ms4 == push_opt(
            ms3,
            ascii_seq("pattern"@),
            match c.search_pattern {
                Some(p) => Some(JsonV::Str(p)),
                None => None,
            },
        ),
        ms5 == push_opt(
            ms4,
            ascii_seq("unique"@),
            match c.unique {
                Some(b) => Some(JsonV::Bool(b)),
                None => None,
            },
        ),
    ensures
        jget(ms5, ascii_seq("output"@)) == Some(JsonV::Bool(c.output)),
        jget(ms5, ascii_seq("raw"@)) == Some(JsonV::Bool(c.raw)),
        jget(ms5, ascii_seq("hist_access_type"@)) == Some(
            JsonV::Str(history_access_token(c.history_access_type)),
        ),
        jget(ms5, ascii_seq("n"@)) == Some(JsonV::Num(dec_digits(c.number_of_items as nat))),
        jget(ms5, ascii_seq("session"@)) == match c.kernel_session {
            Some(i) => Some(JsonV::Num(int_token(i))),
            None => None::<JsonV>,
        },
        jget(ms5, ascii_seq("start"@)) == match c.line_start {
            Some(i) => Some(JsonV::Num(int_token(i))),
            None => None::<JsonV>,
        },
        jget(ms5, ascii_seq("stop"@)) == match c.line_stop {
            Some(i) => Some(JsonV::Num(int_token(i))),
            None => None::<JsonV>,
        },
        jget(ms5, ascii_seq("pattern"@)) == match c.search_pattern {
            Some(p) => Some(JsonV::Str(p)),
            None => None::<JsonV>,
        },
        jget(ms5, ascii_seq("unique"@)) == match c.unique {
            Some(b) => Some(JsonV::Bool(b)),
            None => None::<JsonV>,
        },
{
    reveal_history_keys();
    reveal_with_fuel(jget, 6);
    let p0 = (ascii_seq("output"@), JsonV::Bool(c.output));
    let p1 = (ascii_seq("raw"@), JsonV::Bool(c.raw));
    let p2 = (
        ascii_seq("hist_access_type"@),
        JsonV::Str(history_access_token(c.history_access_type)),
    );
    let p3 = (ascii_seq("n"@), JsonV::Num(dec_digits(c.number_of_items as nat)));
    assert(base =~= seq![p0, p1, p2, p3]);
    assert(seq![p0, p1, p2, p3].drop_first() =~= seq![p1, p2, p3]);
    assert(seq![p1, p2, p3].drop_first() =~= seq![p2, p3]);
    assert(seq![p2, p3].drop_first() =~= seq![p3]);
    assert(seq![p3].drop_first() =~= Seq::<(Seq<u8>, JsonV)>::empty());
    assert forall|key: Seq<u8>| true implies #[trigger] jget(ms5, key) == step5(
        step4(step3(step2(step1(jget(base, key), key, c), key, c), key, c), key, c),
        key,
        c,
    ) by {
        lemma_chain_steps(base, ms1, ms2, ms3, ms4, ms5, c, key);
    }
}

pub open spec fn step1(prev: Option<JsonV>, key: Seq<u8>, c: HistoryRequestV) -> Option<JsonV> {
    after_push_opt(
        prev,
        ascii_seq("session"@),
        match c.kernel_session {
            Some(i) => Some(JsonV::Num(int_token(i))),
            None => None,
        },
        key,
    )
}

pub open spec fn step2(prev: Option<JsonV>, key: Seq<u8>, c: HistoryRequestV) -> Option<JsonV> {
    after_push_opt(
        prev,
        ascii_seq("start"@),
        match c.line_start {
            Some(i) => Some(JsonV::Num(int_token(i))),
            None => None,
        },
        key,
    )
}

pub open spec fn step3(prev: Option<JsonV>, key: Seq<u8>, c: HistoryRequestV) -> Option<JsonV> {
    after_push_opt(
        prev,
        ascii_seq("stop"@),
        match c.line_stop {
            Some(i) => Some(JsonV::Num(int_token(i))),
            None => None,
        },
        key,
    )
}

pub open spec fn step4(prev: Option<JsonV>, key: Seq<u8>, c: HistoryRequestV) -> Option<JsonV> {
    after_push_opt(
        prev,
        ascii_seq("pattern"@),
        match c.search_pattern {
            Some(p) => Some(JsonV::Str(p)),
            None => None,
        },
        key,
    )
}

pub open spec fn step5(prev: Option<JsonV>, key: Seq<u8>, c: HistoryRequestV) -> Option<JsonV> {
    after_push_opt(
        prev,
        ascii_seq("unique"@),
        match c.unique {
            Some(b) => Some(JsonV::Bool(b)),
            None => None,
        },
        key,
    )
}

proof fn lemma_chain_steps(
    base: Seq<(Seq<u8>, JsonV)>,
    ms1: Seq<(Seq<u8>, JsonV)>,
    ms2: Seq<(Seq<u8>, JsonV)>,
    ms3: Seq<(Seq<u8>, JsonV)>,
    ms4: Seq<(Seq<u8>, JsonV)>,
    ms5: Seq<(Seq<u8>, JsonV)>,
    c: HistoryRequestV,
    key: Seq<u8>,
)
    requires
        ms1 == push_opt(
            base,
            ascii_seq("session"@),
            match c.kernel_session {
                Some(i) => Some(JsonV::Num(int_token(i))),
                None => None,
            },
        ),
        ms2 == push_opt(
            ms1,
            ascii_seq("start"@),
            match c.line_start {
                Some(i) => Some(JsonV::Num(int_token(i))),
                None => None,
            },
        ),
        ms3 == push_opt(
            ms2,
            ascii_seq("stop"@),
            match c.line_stop {
                Some(i) => Some(JsonV::Num(int_token(i))),
                None => None,
            },
        ),
        ms4 == push_opt(
            ms3,
            ascii_seq("pattern"@),
            match c.search_pattern {
                Some(p) => Some(JsonV::Str(p)),
                None => None,
            },
        ),
        ms5 == push_opt(
            ms4,
            ascii_seq("unique"@),
            match c.unique {
                Some(b) => Some(JsonV::Bool(b)),
                None => None,
            },
        ),
    ensures
        jget(ms5, key) == step5(
            step4(step3(step2(step1(jget(base, key), key, c), key, c), key, c), key, c),
            key,
            c,
        ),
{
    lemma_push_opt_get(base, ascii_seq("session"@), match c.kernel_session {
        Some(i) => Some(JsonV::Num(int_token(i))),
        None => None,
    }, key);
    lemma_push_opt_get(ms1, ascii_seq("start"@), match c.line_start {
        Some(i) => Some(JsonV::Num(int_token(i))),
        None => None,
    }, key);
    lemma_push_opt_get(ms2, ascii_seq("stop"@), match c.line_stop {
        Some(i) => Some(JsonV::Num(int_token(i))),
        None => None,
    }, key);
    lemma_push_opt_get(ms3, ascii_seq("pattern"@), match c.search_pattern {
        Some(p) => Some(JsonV::Str(p)),
        None => None,
    }, key);
    lemma_push_opt_get(ms4, ascii_seq("unique"@), match c.unique {
        Some(b) => Some(JsonV::Bool(b)),
        None => None,
    }, key);
}

impl HistoryRequest {
    /// The JSON form of this request.
    pub fn to_json(&self) -> (r: Json)
        ensures
            r@ == history_request_jsonv(self@),
    {
        proof {
            reveal_strlit("output");
            reveal_strlit("raw");
            reveal_strlit("hist_access_type");
            reveal_strlit("n");
            reveal_strlit("session");
            reveal_strlit("start");
            reveal_strlit("stop");
            reveal_strlit("pattern");
            reveal_strlit("unique");
            reveal_strlit("tail");
            reveal_strlit("range");
            reveal_strlit("search");
        }
        let token = match self.history_access_type {
            HistoryAccessType::Tail => ascii_bytes("tail"),
            HistoryAccessType::Range => ascii_bytes("range"),
            HistoryAccessType::Search => ascii_bytes("search"),
        };
        let mut ms: Vec<(Vec<u8>, Json)> = Vec::new();
        ms.push((ascii_bytes("output"), Json::Bool(self.output)));
        ms.push((ascii_bytes("raw"), Json::Bool(self.raw)));
        ms.push((ascii_bytes("hist_access_type"), Json::Str(token)));
        ms.push(
            (ascii_bytes("n"), Json::Num(crate::decimal::u64_to_dec(self.number_of_items))),
        );
        proof {
            crate::json::lemma_obj_view(ms@);
            assert forall|q: int|
                0 <= q < ms@.len() implies #[trigger] crate::json::obj_view(ms@)[q]
                == history_request_base(self@)[q] by {
                assert(crate::json::obj_view(ms@)[q] == (
                    ms@[q].0@,
                    crate::json::json_view(ms@[q].1),
                ));
            }
            assert(crate::json::obj_view(ms@) =~= history_request_base(self@));
        }
        let ghost g1 = push_opt(
            crate::json::obj_view(ms@),
            ascii_seq("session"@),
            match self@.kernel_session {
                Some(i) => Some(JsonV::Num(int_token(i))),
                None => None,
            },
        );
        match &self.kernel_session {
            Some(i) => {
                let ghost before = ms@;
                ms.push((ascii_bytes("session"), Json::Num(crate::decimal::i64_to_dec(*i))));
                proof {
                    assert(ms@.drop_last() =~= before);
                    assert(crate::json::obj_view(ms@) == crate::json::obj_view(before).push(
                        (ms@.last().0@, crate::json::json_view(ms@.last().1)),
                    ));
                }
            },
            None => {},
        }
        proof {
            assert(crate::json::obj_view(ms@) == g1);
        }
        let ghost g2 = push_opt(
            g1,
            ascii_seq("start"@),
            match self@.line_start {
                Some(i) => Some(JsonV::Num(int_token(i))),
                None => None,
            },
        );
        match &self.line_start {
            Some(i) => {
                let ghost before = ms@;
                ms.push((ascii_bytes("start"), Json::Num(crate::decimal::i64_to_dec(*i))));
                proof {
                    assert(ms@.drop_last() =~= before);
                    assert(crate::json::obj_view(ms@) == crate::json::obj_view(before).push(
                        (ms@.last().0@, crate::json::json_view(ms@.last().1)),
                    ));
                }
            },
            None => {},
        }
        proof {
            assert(crate::json::obj_view(ms@) == g2);
        }
        let ghost g3 = push_opt(
            g2,
            ascii_seq("stop"@),
            match self@.line_stop {
                Some(i) => Some(JsonV::Num(int_token(i))),
                None => None,
            },
        );
        match &self.line_stop {
            Some(i) => {
                let ghost before = ms@;
                ms.push((ascii_bytes("stop"), Json::Num(crate::decimal::i64_to_dec(*i))));
                proof {
                    assert(ms@.drop_last() =~= before);
                    assert(crate::json::obj_view(ms@) == crate::json::obj_view(before).push(
                        (ms@.last().0@, crate::json::json_view(ms@.last().1)),
                    ));
                }
            },
            None => {},
        }
        proof {
            assert(crate::json::obj_view(ms@) == g3);
        }
        let ghost g4 = push_opt(
            g3,
            ascii_seq("pattern"@),
            match self@.search_pattern {
                Some(p) => Some(JsonV::Str(p)),
                None => None,
            },
        );
        match &self.search_pattern {
            Some(p) => {
                let ghost before = ms@;
                ms.push((ascii_bytes("pattern"), Json::Str(crate::bytesutil::dup_bytes(p))));
                proof {
                    assert(ms@.drop_last() =~= before);
                    assert(crate::json::obj_view(ms@) == crate::json::obj_view(before).push(
                        (ms@.last().0@, crate::json::json_view(ms@.last().1)),
                    ));
                }
            },
            None => {},
        }
        proof {
            assert(crate::json::obj_view(ms@) == g4);
        }
        let ghost g5 = push_opt(
            g4,
            ascii_seq("unique"@),
            match self@.unique {
                Some(b) => Some(JsonV::Bool(b)),
                None => None,
            },
        );
        match &self.unique {
            Some(b) => {
                let ghost before = ms@;
                ms.push((ascii_bytes("unique"), Json::Bool(*b)));
                proof {
                    assert(ms@.drop_last() =~= before);
                    assert(crate::json::obj_view(ms@) == crate::json::obj_view(before).push(
                        (ms@.last().0@, crate::json::json_view(ms@.last().1)),
                    ));
                }
            },
            None => {},
        }
        proof {
            assert(crate::json::obj_view(ms@) == g5);
        }
        Json::Obj(ms)
    }
}

} // verus!
