//! Execution contents: the request, its reply, and the publications that
//! echo the input and carry its results.

use vstd::prelude::*;

use crate::decimal::{dec_digits, u64_of_dec_token};
use crate::json::{ascii_bytes, ascii_seq, dup_json, Json, JsonV};
use crate::json_obj::{jget, jget_bool, jget_num, jget_str, strmap_jsonv, strmap_of_members};

verus! {

broadcast use {vstd::std_specs::vec::group_vec_axioms, vstd::seq::group_seq_axioms};

pub struct ExecuteRequest {
    /// Source code to be executed, one or more lines.
    pub code: Vec<u8>,
    /// Execute as quietly as possible; forces `store_history` off.
    pub silent: bool,
    /// Record this request in the execution history.
    pub store_history: bool,
    /// Expressions to be evaluated in the user's namespace after execution.
    pub user_expressions: Vec<(Vec<u8>, Vec<u8>)>,
    /// The front-end can answer `input_request` prompts.
    pub allow_stdin: bool,
    /// Abort the queue when this request raises.
    pub stop_on_error: bool,
}

pub ghost struct ExecuteRequestV {
    pub code: Seq<u8>,
    pub silent: bool,
    pub store_history: bool,
    pub user_expressions: Seq<(Seq<u8>, Seq<u8>)>,
    pub allow_stdin: bool,
    pub stop_on_error: bool,
}

impl View for ExecuteRequest {
    type V = ExecuteRequestV;

    open spec fn view(&self) -> ExecuteRequestV {
        ExecuteRequestV {
            code: self.code@,
            silent: self.silent,
            store_history: self.store_history,
            user_expressions: self.user_expressions.deep_view(),
            allow_stdin: self.allow_stdin,
            stop_on_error: self.stop_on_error,
        }
    }
}

pub open spec fn execute_request_jsonv(c: ExecuteRequestV) -> JsonV {
    JsonV::Obj(
        seq![
            (ascii_seq("code"@), JsonV::Str(c.code)),
            (ascii_seq("silent"@), JsonV::Bool(c.silent)),
            (ascii_seq("store_history"@), JsonV::Bool(c.store_history)),
            (ascii_seq("user_expressions"@), strmap_jsonv(c.user_expressions)),
            (ascii_seq("allow_stdin"@), JsonV::Bool(c.allow_stdin)),
            (ascii_seq("stop_on_error"@), JsonV::Bool(c.stop_on_error)),
        ],
    )
}

pub open spec fn execute_request_of_jsonv(j: JsonV) -> Option<ExecuteRequestV> {
    match j {
        JsonV::Obj(ms) => match (
            jget_str(ms, ascii_seq("code"@)),
            jget_bool(ms, ascii_seq("silent"@)),
            jget_bool(ms, ascii_seq("store_history"@)),
            jget(ms, ascii_seq("user_expressions"@)),
            jget_bool(ms, ascii_seq("allow_stdin"@)),
            jget_bool(ms, ascii_seq("stop_on_error"@)),
        ) {
            (Some(code), Some(si), Some(sh), Some(JsonV::Obj(ue)), Some(ai), Some(se)) => match
                strmap_of_members(ue) {
                Some(pairs) => Some(
                    ExecuteRequestV {
                        code,
                        silent: si,
                        store_history: sh,
                        user_expressions: pairs,
                        allow_stdin: ai,
                        stop_on_error: se,
                    },
                ),
                None => None,
            },
            _ => None,
        },
        _ => None,
    }
}

pub proof fn reveal_execute_keys()
    ensures
        ascii_seq("code"@).len() == 4,
        ascii_seq("silent"@).len() == 6,
        ascii_seq("store_history"@).len() == 13,
        ascii_seq("user_expressions"@).len() == 16,
        ascii_seq("allow_stdin"@).len() == 11,
        ascii_seq("stop_on_error"@).len() == 13,
        ascii_seq("execution_count"@).len() == 15,
        ascii_seq("status"@).len() == 6,
        ascii_seq("payload"@).len() == 7,
        ascii_seq("data"@).len() == 4,
        ascii_seq("metadata"@).len() == 8,
        ascii_seq("name"@).len() == 4,
        ascii_seq("text"@).len() == 4,
        ascii_seq("store_history"@)[3] != ascii_seq("stop_on_error"@)[3],
        ascii_seq("code"@)[0] != ascii_seq("data"@)[0],
        ascii_seq("code"@)[0] != ascii_seq("name"@)[0],
        ascii_seq("code"@)[0] != ascii_seq("text"@)[0],
        ascii_seq("data"@)[0] != ascii_seq("name"@)[0],
        ascii_seq("data"@)[0] != ascii_seq("text"@)[0],
        ascii_seq("name"@)[0] != ascii_seq("text"@)[0],
{
    reveal_strlit("code");
    reveal_strlit("silent");
    reveal_strlit("store_history");
    reveal_strlit("user_expressions");
    reveal_strlit("allow_stdin");
    reveal_strlit("stop_on_error");
    reveal_strlit("execution_count");
    reveal_strlit("status");
    reveal_strlit("payload");
    reveal_strlit("data");
    reveal_strlit("metadata");
    reveal_strlit("name");
    reveal_strlit("text");
}

pub proof fn lemma_execute_request_round_trip(c: ExecuteRequestV)
    ensures
        execute_request_of_jsonv(execute_request_jsonv(c)) == Some(c),
{
    reveal_execute_keys();
    reveal_with_fuel(jget, 8);
    let p0 = (ascii_seq("code"@), JsonV::Str(c.code));
    let p1 = (ascii_seq("silent"@), JsonV::Bool(c.silent));
    let p2 = (ascii_seq("store_history"@), JsonV::Bool(c.store_history));
    let p3 = (ascii_seq("user_expressions"@), strmap_jsonv(c.user_expressions));
    let p4 = (ascii_seq("allow_stdin"@), JsonV::Bool(c.allow_stdin));
    let p5 = (ascii_seq("stop_on_error"@), JsonV::Bool(c.stop_on_error));
    let ms = seq![p0, p1, p2, p3, p4, p5];
    assert(ms.drop_first() =~= seq![p1, p2, p3, p4, p5]);
    assert(seq![p1, p2, p3, p4, p5].drop_first() =~= seq![p2, p3, p4, p5]);
    assert(seq![p2, p3, p4, p5].drop_first() =~= seq![p3, p4, p5]);
    assert(seq![p3, p4, p5].drop_first() =~= seq![p4, p5]);
    assert(seq![p4, p5].drop_first() =~= seq![p5]);
    assert(jget(ms, ascii_seq("code"@)) == Some(p0.1));
    assert(jget(ms, ascii_seq("silent"@)) == Some(p1.1));
    assert(jget(ms, ascii_seq("store_history"@)) == Some(p2.1));
    assert(jget(ms, ascii_seq("user_expressions"@)) == Some(p3.1));
    assert(jget(ms, ascii_seq("allow_stdin"@)) == Some(p4.1));
    assert(jget(ms, ascii_seq("stop_on_error"@)) == Some(p5.1));
    crate::json_obj::lemma_strmap_round_trip(c.user_expressions);
}

impl ExecuteRequest {
    pub fn to_json(&self) -> (r: Json)
        ensures
            r@ == execute_request_jsonv(self@),
    {
        proof {
            reveal_strlit("code");
            reveal_strlit("silent");
            reveal_strlit("store_history");
            reveal_strlit("user_expressions");
            reveal_strlit("allow_stdin");
            reveal_strlit("stop_on_error");
        }
        let mut ms: Vec<(Vec<u8>, Json)> = Vec::new();
        ms.push((ascii_bytes("code"), Json::Str(crate::bytesutil::dup_bytes(&self.code))));
        ms.push((ascii_bytes("silent"), Json::Bool(self.silent)));
        ms.push((ascii_bytes("store_history"), Json::Bool(self.store_history)));
        ms.push(
            (
                ascii_bytes("user_expressions"),
                crate::json_obj::strmap_to_json(&self.user_expressions),
            ),
        );
        ms.push((ascii_bytes("allow_stdin"), Json::Bool(self.allow_stdin)));
        ms.push((ascii_bytes("stop_on_error"), Json::Bool(self.stop_on_error)));
        let r = Json::Obj(ms);
        proof {
            crate::json::lemma_obj_view(ms@);
            let expect = seq![
                (ascii_seq("code"@), JsonV::Str(self@.code)),
                (ascii_seq("silent"@), JsonV::Bool(self@.silent)),
                (ascii_seq("store_history"@), JsonV::Bool(self@.store_history)),
                (ascii_seq("user_expressions"@), strmap_jsonv(self@.user_expressions)),
                (ascii_seq("allow_stdin"@), JsonV::Bool(self@.allow_stdin)),
                (ascii_seq("stop_on_error"@), JsonV::Bool(self@.stop_on_error)),
            ];
            assert forall|q: int|
                0 <= q < ms@.len() implies crate::json::obj_view(ms@)[q] == expect[q] by {
                assert(crate::json::obj_view(ms@)[q] == (
                    ms@[q].0@,
                    crate::json::json_view(ms@[q].1),
                ));
            }
            assert(crate::json::obj_view(ms@) =~= expect);
        }
        r
    }

    pub fn from_json(j: &Json) -> (r: Option<ExecuteRequest>)
        ensures
            match execute_request_of_jsonv(j@) {
                None => r is None,
                Some(cv) => r matches Some(c) && c@ == cv,
            },
    {
        proof {
            reveal_strlit("code");
            reveal_strlit("silent");
            reveal_strlit("store_history");
            reveal_strlit("user_expressions");
            reveal_strlit("allow_stdin");
            reveal_strlit("stop_on_error");
        }
        match j {
            Json::Obj(ms) => {
                let code = match crate::json_obj::obj_get(ms, "code") {
                    Some(Json::Str(s)) => crate::bytesutil::dup_bytes(s),
                    _ => {
                        return None;
                    },
                };
                let si = match crate::json_obj::obj_get(ms, "silent") {
                    Some(Json::Bool(b)) => *b,
                    _ => {
                        return None;
                    },
                };
                let sh = match crate::json_obj::obj_get(ms, "store_history") {
                    Some(Json::Bool(b)) => *b,
                    _ => {
                        return None;
                    },
                };
                let ue = match crate::json_obj::obj_get(ms, "user_expressions") {
                    Some(Json::Obj(m2)) => match crate::json_obj::strmap_from_json(m2) {
                        Some(v) => v,
                        None => {
                            return None;
                        },
                    },
                    _ => {
                        return None;
                    },
                };
                let ai = match crate::json_obj::obj_get(ms, "allow_stdin") {
                    Some(Json::Bool(b)) => *b,
                    _ => {
                        return None;
                    },
                };
                let se = match crate::json_obj::obj_get(ms, "stop_on_error") {
                    Some(Json::Bool(b)) => *b,
                    _ => {
                        return None;
                    },
                };
                Some(
                    ExecuteRequest {
                        code,
                        silent: si,
                        store_history: sh,
                        user_expressions: ue,
                        allow_stdin: ai,
                        stop_on_error: se,
                    },
                )
            },
            _ => None,
        }
    }

    /// `silent: true` forces the history off, whatever the request said.
    pub open spec fn spec_effective_store_history(c: ExecuteRequestV) -> bool {
        c.store_history && !c.silent
    }

    /// The history flag that actually applies to this request.
    pub fn effective_store_history(&self) -> (r: bool)
        ensures
            r == Self::spec_effective_store_history(self@),
    {
        self.store_history && !self.silent
    }
}

#[derive(Clone, Copy, Debug, PartialEq, Eq, Structural)]
pub enum ExecuteReplyStatus {
    Okay,
    Error,
    Aborted,
}

pub open spec fn execute_status_token(s: ExecuteReplyStatus) -> Seq<u8> {
    match s {
        ExecuteReplyStatus::Okay => ascii_seq("ok"@),
        ExecuteReplyStatus::Error => ascii_seq("error"@),
        ExecuteReplyStatus::Aborted => ascii_seq("aborted"@),
    }
}

pub open spec fn execute_status_of_token(t: Seq<u8>) -> Option<ExecuteReplyStatus> {
    if t == execute_status_token(ExecuteReplyStatus::Okay) {
        Some(ExecuteReplyStatus::Okay)
    } else if t == execute_status_token(ExecuteReplyStatus::Error) {
        Some(ExecuteReplyStatus::Error)
    } else if t == execute_status_token(ExecuteReplyStatus::Aborted) {
        Some(ExecuteReplyStatus::Aborted)
    } else {
        None
    }
}

pub proof fn lemma_execute_status_round_trip(s: ExecuteReplyStatus)
    ensures
        execute_status_of_token(execute_status_token(s)) == Some(s),
{
    reveal_strlit("ok");
    reveal_strlit("error");
    reveal_strlit("aborted");
    assert(ascii_seq("ok"@).len() == 2);
    assert(ascii_seq("error"@).len() == 5);
    assert(ascii_seq("aborted"@).len() == 7);
}

pub struct ExecuteReply {
    pub status: ExecuteReplyStatus,
    /// The session counter as of this request.
    pub execution_count: u64,
    /// Deprecated payload list; carried through when present.
    pub payload: Option<Json>,
    /// Results for the requested user expressions.
    pub user_expressions: Option<Vec<(Vec<u8>, Vec<u8>)>>,
}

pub ghost struct ExecuteReplyV {
    pub status: ExecuteReplyStatus,
    pub execution_count: u64,
    pub payload: Option<JsonV>,
    pub user_expressions: Option<Seq<(Seq<u8>, Seq<u8>)>>,
}

impl View for ExecuteReply {
    type V = ExecuteReplyV;

    open spec fn view(&self) -> ExecuteReplyV {
        ExecuteReplyV {
            status: self.status,
            execution_count: self.execution_count,
            payload: match self.payload {
                Some(p) => Some(p@),
                None => None,
            },
            user_expressions: match self.user_expressions {
                Some(ue) => Some(ue.deep_view()),
                None => None,
            },
        }
    }
}

pub open spec fn execute_reply_jsonv(c: ExecuteReplyV) -> JsonV {
    let base = seq![
        (ascii_seq("status"@), JsonV::Str(execute_status_token(c.status))),
        (ascii_seq("execution_count"@), JsonV::Num(dec_digits(c.execution_count as nat))),
    ];
    let with_payload = match c.payload {
        Some(p) => base.push((ascii_seq("payload"@), p)),
        None => base,
    };
    JsonV::Obj(
        match c.user_expressions {
            Some(ue) => with_payload.push((ascii_seq("user_expressions"@), strmap_jsonv(ue))),
            None => with_payload,
        },
    )
}

pub open spec fn execute_reply_of_jsonv(j: JsonV) -> Option<ExecuteReplyV> {
    match j {
        JsonV::Obj(ms) => match (
            jget_str(ms, ascii_seq("status"@)),
            jget_num(ms, ascii_seq("execution_count"@)),
        ) {
            (Some(st), Some(t)) => match (execute_status_of_token(st), u64_of_dec_token(t)) {
                (Some(status), Some(n)) => {
                    let payload = match jget(ms, ascii_seq("payload"@)) {
                        None => Some(None),
                        Some(p) => if p is Arr {
                            Some(Some(p))
                        } else {
                            None
                        },
                    };
                    let ue = match jget(ms, ascii_seq("user_expressions"@)) {
                        None => Some(None),
                        Some(JsonV::Obj(m2)) => match strmap_of_members(m2) {
                            Some(pairs) => Some(Some(pairs)),
                            None => None,
                        },
                        Some(_) => None,
                    };
                    match (payload, ue) {
                        (Some(p), Some(u)) => Some(
                            ExecuteReplyV {
                                status,
                                execution_count: n,
                                payload: p,
                                user_expressions: u,
                            },
                        ),
                        _ => None,
                    }
                },
                _ => None,
            },
            _ => None,
        },
        _ => None,
    }
}

#[verifier::rlimit(60)]
pub proof fn lemma_execute_reply_round_trip(c: ExecuteReplyV)
    requires
        c.payload matches Some(p) ==> p is Arr,
    ensures
        execute_reply_of_jsonv(execute_reply_jsonv(c)) == Some(c),
{
    reveal_execute_keys();
    reveal_with_fuel(jget, 6);
    lemma_execute_status_round_trip(c.status);
    crate::decimal::lemma_u64_dec_round_trip(c.execution_count);
    let p0 = (ascii_seq("status"@), JsonV::Str(execute_status_token(c.status)));
    let p1 = (ascii_seq("execution_count"@), JsonV::Num(dec_digits(c.execution_count as nat)));
    match (c.payload, c.user_expressions) {
        (None, None) => {
            let ms = seq![p0, p1];
            assert(execute_reply_jsonv(c) == JsonV::Obj(ms)) by {
                assert(seq![p0, p1] =~= ms);
            }
            assert(ms.drop_first() =~= seq![p1]);
            assert(jget(ms, ascii_seq("status"@)) == Some(p0.1));
            assert(jget(ms, ascii_seq("execution_count"@)) == Some(p1.1));
            assert(jget(ms, ascii_seq("payload"@)) is None);
            assert(jget(ms, ascii_seq("user_expressions"@)) is None);
        },
        (Some(p), None) => {
            let p2 = (ascii_seq("payload"@), p);
            let ms = seq![p0, p1].push(p2);
            assert(ms =~= seq![p0, p1, p2]);
            assert(seq![p0, p1, p2].drop_first() =~= seq![p1, p2]);
            assert(seq![p1, p2].drop_first() =~= seq![p2]);
            assert(jget(seq![p0, p1, p2], ascii_seq("status"@)) == Some(p0.1));
            assert(jget(seq![p0, p1, p2], ascii_seq("execution_count"@)) == Some(p1.1));
            assert(jget(seq![p0, p1, p2], ascii_seq("payload"@)) == Some(p2.1));
            assert(jget(seq![p0, p1, p2], ascii_seq("user_expressions"@)) is None);
        },
        (None, Some(ue)) => {
            let p3 = (ascii_seq("user_expressions"@), strmap_jsonv(ue));
            let ms = seq![p0, p1].push(p3);
            assert(ms =~= seq![p0, p1, p3]);
            assert(seq![p0, p1, p3].drop_first() =~= seq![p1, p3]);
            assert(seq![p1, p3].drop_first() =~= seq![p3]);
            assert(jget(seq![p0, p1, p3], ascii_seq("status"@)) == Some(p0.1));
            assert(jget(seq![p0, p1, p3], ascii_seq("execution_count"@)) == Some(p1.1));
            assert(jget(seq![p0, p1, p3], ascii_seq("payload"@)) is None);
            assert(jget(seq![p0, p1, p3], ascii_seq("user_expressions"@)) == Some(p3.1));
            crate::json_obj::lemma_strmap_round_trip(ue);
        },
        (Some(p), Some(ue)) => {
            let p2 = (ascii_seq("payload"@), p);
            let p3 = (ascii_seq("user_expressions"@), strmap_jsonv(ue));
            let ms = seq![p0, p1].push(p2).push(p3);
            assert(ms =~= seq![p0, p1, p2, p3]);
            assert(seq![p0, p1, p2, p3].drop_first() =~= seq![p1, p2, p3]);
            assert(seq![p1, p2, p3].drop_first() =~= seq![p2, p3]);
            assert(seq![p2, p3].drop_first() =~= seq![p3]);
            assert(jget(seq![p0, p1, p2, p3], ascii_seq("status"@)) == Some(p0.1));
            assert(jget(seq![p0, p1, p2, p3], ascii_seq("execution_count"@)) == Some(p1.1));
            assert(jget(seq![p0, p1, p2, p3], ascii_seq("payload"@)) == Some(p2.1));
            assert(jget(seq![p0, p1, p2, p3], ascii_seq("user_expressions"@)) == Some(p3.1));
            crate::json_obj::lemma_strmap_round_trip(ue);
        },
    }
}

impl ExecuteReply {
    #[verifier::rlimit(60)]
    pub fn to_json(&self) -> (r: Json)
        ensures
            r@ == execute_reply_jsonv(self@),
    {
        proof {
            reveal_strlit("status");
            reveal_strlit("execution_count");
            reveal_strlit("payload");
            reveal_strlit("user_expressions");
            reveal_strlit("ok");
            reveal_strlit("error");
            reveal_strlit("aborted");
        }
        let token = match self.status {
            ExecuteReplyStatus::Okay => ascii_bytes("ok"),
            ExecuteReplyStatus::Error => ascii_bytes("error"),
            ExecuteReplyStatus::Aborted => ascii_bytes("aborted"),
        };
        let mut ms: Vec<(Vec<u8>, Json)> = Vec::new();
        ms.push((ascii_bytes("status"), Json::Str(token)));
        ms.push(
            (
                ascii_bytes("execution_count"),
                Json::Num(crate::decimal::u64_to_dec(self.execution_count)),
            ),
        );
        match &self.payload {
            Some(p) => {
                ms.push((ascii_bytes("payload"), dup_json(p)));
            },
            None => {},
        }
        match &self.user_expressions {
            Some(ue) => {
                ms.push((ascii_bytes("user_expressions"), crate::json_obj::strmap_to_json(ue)));
            },
            None => {},
        }
        let r = Json::Obj(ms);
        proof {
            crate::json::lemma_obj_view(ms@);
            assert forall|q: int|
                0 <= q < ms@.len() implies #[trigger] crate::json::obj_view(ms@)[q] == (
                ms@[q].0@,
                crate::json::json_view(ms@[q].1),
            ) by {}
            let base = seq![
                (ascii_seq("status"@), JsonV::Str(execute_status_token(self@.status))),
                (
                    ascii_seq("execution_count"@),
                    JsonV::Num(dec_digits(self@.execution_count as nat)),
                ),
            ];
            match (self@.payload, self@.user_expressions) {
                (None, None) => {
                    assert(crate::json::obj_view(ms@) =~= base);
                },
                (Some(p), None) => {
                    assert(crate::json::obj_view(ms@) =~= base.push((ascii_seq("payload"@), p)));
                },
                (None, Some(ue)) => {
                    assert(crate::json::obj_view(ms@) =~= base.push(
                        (ascii_seq("user_expressions"@), strmap_jsonv(ue)),
                    ));
                },
                (Some(p), Some(ue)) => {
                    assert(crate::json::obj_view(ms@) =~= base.push(
                        (ascii_seq("payload"@), p),
                    ).push((ascii_seq("user_expressions"@), strmap_jsonv(ue))));
                },
            }
        }
        r
    }

    pub fn from_json(j: &Json) -> (r: Option<ExecuteReply>)
        ensures
            match execute_reply_of_jsonv(j@) {
                None => r is None,
                Some(cv) => r matches Some(c) && c@ == cv,
            },
    {
        proof {
            reveal_strlit("status");
            reveal_strlit("execution_count");
            reveal_strlit("payload");
            reveal_strlit("user_expressions");
            reveal_strlit("ok");
            reveal_strlit("error");
            reveal_strlit("aborted");
        }
        match j {
            Json::Obj(ms) => {
                let st = match crate::json_obj::obj_get(ms, "status") {
                    Some(Json::Str(s)) => s,
                    _ => {
                        return None;
                    },
                };
                let status = if crate::bytesutil::bytes_eq_str(st.as_slice(), "ok") {
                    ExecuteReplyStatus::Okay
                } else if crate::bytesutil::bytes_eq_str(st.as_slice(), "error") {
                    ExecuteReplyStatus::Error
                } else if crate::bytesutil::bytes_eq_str(st.as_slice(), "aborted") {
                    ExecuteReplyStatus::Aborted
                } else {
                    return None;
                };
                let n = match crate::json_obj::obj_get(ms, "execution_count") {
                    Some(Json::Num(t)) => match crate::decimal::u64_from_dec(t.as_slice()) {
                        Some(n) => n,
                        None => {
                            return None;
                        },
                    },
                    _ => {
                        return None;
                    },
                };
                let payload = match crate::json_obj::obj_get(ms, "payload") {
                    None => None,
                    Some(p) => {
                        match p {
                            Json::Arr(_) => Some(dup_json(p)),
                            _ => {
                                return None;
                            },
                        }
                    },
                };
                let ue = match crate::json_obj::obj_get(ms, "user_expressions") {
                    None => None,
                    Some(Json::Obj(m2)) => match crate::json_obj::strmap_from_json(m2) {
                        Some(v) => Some(v),
                        None => {
                            return None;
                        },
                    },
                    Some(_) => {
                        return None;
                    },
                };
                Some(
                    ExecuteReply {
                        status,
                        execution_count: n,
                        payload,
                        user_expressions: ue,
                    },
                )
            },
            _ => None,
        }
    }
}

pub struct ExecuteInputPublication {
    /// Re-broadcast of the submitted code.
    pub code: Vec<u8>,
    pub execution_count: u64,
}

pub ghost struct ExecuteInputPublicationV {
    pub code: Seq<u8>,
    pub execution_count: u64,
}

impl View for ExecuteInputPublication {
    type V = ExecuteInputPublicationV;

    open spec fn view(&self) -> ExecuteInputPublicationV {
        ExecuteInputPublicationV { code: self.code@, execution_count: self.execution_count }
    }
}

pub open spec fn execute_input_jsonv(c: ExecuteInputPublicationV) -> JsonV {
    JsonV::Obj(
        seq![
            (ascii_seq("code"@), JsonV::Str(c.code)),
            (ascii_seq("execution_count"@), JsonV::Num(dec_digits(c.execution_count as nat))),
        ],
    )
}

pub open spec fn execute_input_of_jsonv(j: JsonV) -> Option<ExecuteInputPublicationV> {
    match j {
        JsonV::Obj(ms) => match (
            jget_str(ms, ascii_seq("code"@)),
            jget_num(ms, ascii_seq("execution_count"@)),
        ) {
            (Some(code), Some(t)) => match u64_of_dec_token(t) {
                Some(n) => Some(ExecuteInputPublicationV { code, execution_count: n }),
                None => None,
            },
            _ => None,
        },
        _ => None,
    }
}

pub proof fn lemma_execute_input_round_trip(c: ExecuteInputPublicationV)
    ensures
        execute_input_of_jsonv(execute_input_jsonv(c)) == Some(c),
{
    reveal_execute_keys();
    reveal_with_fuel(jget, 4);
    crate::decimal::lemma_u64_dec_round_trip(c.execution_count);
    let p0 = (ascii_seq("code"@), JsonV::Str(c.code));
    let p1 = (ascii_seq("execution_count"@), JsonV::Num(dec_digits(c.execution_count as nat)));
    let ms = seq![p0, p1];
    assert(ms.drop_first() =~= seq![p1]);
    assert(jget(ms, ascii_seq("code"@)) == Some(p0.1));
    assert(jget(ms, ascii_seq("execution_count"@)) == Some(p1.1));
}

impl ExecuteInputPublication {
    pub fn to_json(&self) -> (r: Json)
        ensures
            r@ == execute_input_jsonv(self@),
    {
        proof {
            reveal_strlit("code");
            reveal_strlit("execution_count");
        }
        let mut ms: Vec<(Vec<u8>, Json)> = Vec::new();
        ms.push((ascii_bytes("code"), Json::Str(crate::bytesutil::dup_bytes(&self.code))));
        ms.push(
            (
                ascii_bytes("execution_count"),
                Json::Num(crate::decimal::u64_to_dec(self.execution_count)),
            ),
        );
        let r = Json::Obj(ms);
        proof {
            crate::json::lemma_obj_view(ms@);
            let expect = seq![
                (ascii_seq("code"@), JsonV::Str(self@.code)),
                (
                    ascii_seq("execution_count"@),
                    JsonV::Num(dec_digits(self@.execution_count as nat)),
                ),
            ];
            assert forall|q: int|
                0 <= q < ms@.len() implies crate::json::obj_view(ms@)[q] == expect[q] by {
                assert(crate::json::obj_view(ms@)[q] == (
                    ms@[q].0@,
                    crate::json::json_view(ms@[q].1),
                ));
            }
            assert(crate::json::obj_view(ms@) =~= expect);
        }
        r
    }

    pub fn from_json(j: &Json) -> (r: Option<ExecuteInputPublication>)
        ensures
            match execute_input_of_jsonv(j@) {
                None => r is None,
                Some(cv) => r matches Some(c) && c@ == cv,
            },
    {
        proof {
            reveal_strlit("code");
            reveal_strlit("execution_count");
        }
        match j {
            Json::Obj(ms) => {
                let code = match crate::json_obj::obj_get(ms, "code") {
                    Some(Json::Str(s)) => crate::bytesutil::dup_bytes(s),
                    _ => {
                        return None;
                    },
                };
                let n = match crate::json_obj::obj_get(ms, "execution_count") {
                    Some(Json::Num(t)) => match crate::decimal::u64_from_dec(t.as_slice()) {
                        Some(n) => n,
                        None => {
                            return None;
                        },
                    },
                    _ => {
                        return None;
                    },
                };
                Some(ExecuteInputPublication { code, execution_count: n })
            },
            _ => None,
        }
    }
}

pub struct ExecuteResultPublication {
    pub execution_count: u64,
    /// MIME type to representation; free-form JSON.
    pub data: Json,
    /// Metadata describing the data; an object on the wire.
    pub metadata: Json,
}

pub ghost struct ExecuteResultPublicationV {
    pub execution_count: u64,
    pub data: JsonV,
    pub metadata: JsonV,
}

impl View for ExecuteResultPublication {
    type V = ExecuteResultPublicationV;

    open spec fn view(&self) -> ExecuteResultPublicationV {
        ExecuteResultPublicationV {
            execution_count: self.execution_count,
            data: self.data@,
            metadata: self.metadata@,
        }
    }
}

pub open spec fn execute_result_jsonv(c: ExecuteResultPublicationV) -> JsonV {
    JsonV::Obj(
        seq![
            (ascii_seq("execution_count"@), JsonV::Num(dec_digits(c.execution_count as nat))),
            (ascii_seq("data"@), c.data),
            (ascii_seq("metadata"@), c.metadata),
        ],
    )
}

pub open spec fn execute_result_of_jsonv(j: JsonV) -> Option<ExecuteResultPublicationV> {
    match j {
        JsonV::Obj(ms) => match (
            jget_num(ms, ascii_seq("execution_count"@)),
            jget(ms, ascii_seq("data"@)),
            jget(ms, ascii_seq("metadata"@)),
        ) {
            (Some(t), Some(d), Some(md)) => match u64_of_dec_token(t) {
                Some(n) => if md is Obj {
                    Some(ExecuteResultPublicationV { execution_count: n, data: d, metadata: md })
                } else {
                    None
                },
                None => None,
            },
            _ => None,
        },
        _ => None,
    }
}

pub proof fn lemma_execute_result_round_trip(c: ExecuteResultPublicationV)
    requires
        c.metadata is Obj,
    ensures
        execute_result_of_jsonv(execute_result_jsonv(c)) == Some(c),
{
    reveal_execute_keys();
    reveal_with_fuel(jget, 5);
    crate::decimal::lemma_u64_dec_round_trip(c.execution_count);
    let p0 = (ascii_seq("execution_count"@), JsonV::Num(dec_digits(c.execution_count as nat)));
    let p1 = (ascii_seq("data"@), c.data);
    let p2 = (ascii_seq("metadata"@), c.metadata);
    let ms = seq![p0, p1, p2];
    assert(ms.drop_first() =~= seq![p1, p2]);
    assert(seq![p1, p2].drop_first() =~= seq![p2]);
    assert(jget(ms, ascii_seq("execution_count"@)) == Some(p0.1));
    assert(jget(ms, ascii_seq("data"@)) == Some(p1.1));
    assert(jget(ms, ascii_seq("metadata"@)) == Some(p2.1));
}

impl ExecuteResultPublication {
    pub fn to_json(&self) -> (r: Json)
        ensures
            r@ == execute_result_jsonv(self@),
    {
        proof {
            reveal_strlit("execution_count");
            reveal_strlit("data");
            reveal_strlit("metadata");
        }
        let mut ms: Vec<(Vec<u8>, Json)> = Vec::new();
        ms.push(
            (
                ascii_bytes("execution_count"),
                Json::Num(crate::decimal::u64_to_dec(self.execution_count)),
            ),
        );
        ms.push((ascii_bytes("data"), dup_json(&self.data)));
        ms.push((ascii_bytes("metadata"), dup_json(&self.metadata)));
        let r = Json::Obj(ms);
        proof {
            crate::json::lemma_obj_view(ms@);
            let expect = seq![
                (
                    ascii_seq("execution_count"@),
                    JsonV::Num(dec_digits(self@.execution_count as nat)),
                ),
                (ascii_seq("data"@), self@.data),
                (ascii_seq("metadata"@), self@.metadata),
            ];
            assert forall|q: int|
                0 <= q < ms@.len() implies crate::json::obj_view(ms@)[q] == expect[q] by {
                assert(crate::json::obj_view(ms@)[q] == (
                    ms@[q].0@,
                    crate::json::json_view(ms@[q].1),
                ));
            }
            assert(crate::json::obj_view(ms@) =~= expect);
        }
        r
    }

    pub fn from_json(j: &Json) -> (r: Option<ExecuteResultPublication>)
        ensures
            match execute_result_of_jsonv(j@) {
                None => r is None,
                Some(cv) => r matches Some(c) && c@ == cv,
            },
    {
        proof {
            reveal_strlit("execution_count");
            reveal_strlit("data");
            reveal_strlit("metadata");
        }
        match j {
            Json::Obj(ms) => {
                let n = match crate::json_obj::obj_get(ms, "execution_count") {
                    Some(Json::Num(t)) => match crate::decimal::u64_from_dec(t.as_slice()) {
                        Some(n) => n,
                        None => {
                            return None;
                        },
                    },
                    _ => {
                        return None;
                    },
                };
                let d = match crate::json_obj::obj_get(ms, "data") {
                    Some(v) => dup_json(v),
                    None => {
                        return None;
                    },
                };
                let md = match crate::json_obj::obj_get(ms, "metadata") {
                    Some(v) => {
                        match v {
                            Json::Obj(_) => dup_json(v),
                            _ => {
                                return None;
                            },
                        }
                    },
                    None => {
                        return None;
                    },
                };
                Some(ExecuteResultPublication { execution_count: n, data: d, metadata: md })
            },
            _ => None,
        }
    }
}

pub struct StreamPublication {
    /// `stdout` or `stderr`.
    pub name: Vec<u8>,
    /// The text written to that stream.
    pub text: Vec<u8>,
}

pub ghost struct StreamPublicationV {
    pub name: Seq<u8>,
    pub text: Seq<u8>,
}

impl View for StreamPublication {
    type V = StreamPublicationV;

    open spec fn view(&self) -> StreamPublicationV {
        StreamPublicationV { name: self.name@, text: self.text@ }
    }
}

pub open spec fn stream_jsonv(c: StreamPublicationV) -> JsonV {
    JsonV::Obj(
        seq![(ascii_seq("name"@), JsonV::Str(c.name)), (ascii_seq("text"@), JsonV::Str(c.text))],
    )
}

pub open spec fn stream_of_jsonv(j: JsonV) -> Option<StreamPublicationV> {
    match j {
        JsonV::Obj(ms) => match (
            jget_str(ms, ascii_seq("name"@)),
            jget_str(ms, ascii_seq("text"@)),
        ) {
            (Some(name), Some(text)) => Some(StreamPublicationV { name, text }),
            _ => None,
        },
        _ => None,
    }
}

pub proof fn lemma_stream_round_trip(c: StreamPublicationV)
    ensures
        stream_of_jsonv(stream_jsonv(c)) == Some(c),
{
    reveal_execute_keys();
    reveal_with_fuel(jget, 4);
    let p0 = (ascii_seq("name"@), JsonV::Str(c.name));
    let p1 = (ascii_seq("text"@), JsonV::Str(c.text));
    let ms = seq![p0, p1];
    assert(ms.drop_first() =~= seq![p1]);
    assert(jget(ms, ascii_seq("name"@)) == Some(p0.1));
    assert(jget(ms, ascii_seq("text"@)) == Some(p1.1));
}

impl StreamPublication {
    pub fn to_json(&self) -> (r: Json)
        ensures
            r@ == stream_jsonv(self@),
    {
        proof {
            reveal_strlit("name");
            reveal_strlit("text");
        }
        let mut ms: Vec<(Vec<u8>, Json)> = Vec::new();
        ms.push((ascii_bytes("name"), Json::Str(crate::bytesutil::dup_bytes(&self.name))));
        ms.push((ascii_bytes("text"), Json::Str(crate::bytesutil::dup_bytes(&self.text))));
        let r = Json::Obj(ms);
        proof {
            crate::json::lemma_obj_view(ms@);
            let expect = seq![
                (ascii_seq("name"@), JsonV::Str(self@.name)),
                (ascii_seq("text"@), JsonV::Str(self@.text)),
            ];
            assert forall|q: int|
                0 <= q < ms@.len() implies crate::json::obj_view(ms@)[q] == expect[q] by {
                assert(crate::json::obj_view(ms@)[q] == (
                    ms@[q].0@,
                    crate::json::json_view(ms@[q].1),
                ));
            }
            assert(crate::json::obj_view(ms@) =~= expect);
        }
        r
    }

    pub fn from_json(j: &Json) -> (r: Option<StreamPublication>)
        ensures
            match stream_of_jsonv(j@) {
                None => r is None,
                Some(cv) => r matches Some(c) && c@ == cv,
            },
    {
        proof {
            reveal_strlit("name");
            reveal_strlit("text");
        }
        match j {
            Json::Obj(ms) => {
                let name = match crate::json_obj::obj_get(ms, "name") {
                    Some(Json::Str(s)) => crate::bytesutil::dup_bytes(s),
                    _ => {
                        return None;
                    },
                };
                let text = match crate::json_obj::obj_get(ms, "text") {
                    Some(Json::Str(s)) => crate::bytesutil::dup_bytes(s),
                    _ => {
                        return None;
                    },
                };
                Some(StreamPublication { name, text })
            },
            _ => None,
        }
    }
}

} // verus!
