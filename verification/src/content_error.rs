//! The error payload that replaces a normal reply content on failure paths.

use vstd::prelude::*;

use crate::json::{ascii_bytes, ascii_seq, Json, JsonV};
use crate::json_obj::{jget, jget_str, strlist_jsonv, strlist_of_elems};
use crate::reply_status::{reply_status_of_token, reply_status_token, ReplyStatus};

verus! {

broadcast use {vstd::std_specs::vec::group_vec_axioms, vstd::seq::group_seq_axioms};

pub struct ErrorReply {
    pub status: ReplyStatus,
    pub error_name: Vec<u8>,
    pub error_message: Vec<u8>,
    pub stack_trace: Vec<Vec<u8>>,
}

pub ghost struct ErrorReplyV {
    pub status: ReplyStatus,
    pub error_name: Seq<u8>,
    pub error_message: Seq<u8>,
    pub stack_trace: Seq<Seq<u8>>,
}

impl View for ErrorReply {
    type V = ErrorReplyV;

    open spec fn view(&self) -> ErrorReplyV {
        ErrorReplyV {
            status: self.status,
            error_name: self.error_name@,
            error_message: self.error_message@,
            stack_trace: self.stack_trace.deep_view(),
        }
    }
}

pub open spec fn error_reply_jsonv(c: ErrorReplyV) -> JsonV {
    JsonV::Obj(
        seq![
            (ascii_seq("status"@), JsonV::Str(reply_status_token(c.status))),
            (ascii_seq("ename"@), JsonV::Str(c.error_name)),
            (ascii_seq("evalue"@), JsonV::Str(c.error_message)),
            (ascii_seq("traceback"@), strlist_jsonv(c.stack_trace)),
        ],
    )
}

pub open spec fn error_reply_of_jsonv(j: JsonV) -> Option<ErrorReplyV> {
    match j {
        JsonV::Obj(ms) => match (
            jget_str(ms, ascii_seq("status"@)),
            jget_str(ms, ascii_seq("ename"@)),
            jget_str(ms, ascii_seq("evalue"@)),
            jget(ms, ascii_seq("traceback"@)),
        ) {
            (Some(st), Some(en), Some(ev), Some(JsonV::Arr(tb))) => match (
                reply_status_of_token(st),
                strlist_of_elems(tb),
            ) {
                (Some(status), Some(stack)) => Some(
                    ErrorReplyV {
                        status,
                        error_name: en,
                        error_message: ev,
                        stack_trace: stack,
                    },
                ),
                _ => None,
            },
            _ => None,
        },
        _ => None,
    }
}

pub proof fn lemma_error_reply_round_trip(c: ErrorReplyV)
    ensures
        error_reply_of_jsonv(error_reply_jsonv(c)) == Some(c),
{
    reveal_strlit("status");
    reveal_strlit("ename");
    reveal_strlit("evalue");
    reveal_strlit("traceback");
    reveal_with_fuel(jget, 6);
    assert(ascii_seq("status"@).len() == 6);
    assert(ascii_seq("ename"@).len() == 5);
    assert(ascii_seq("evalue"@).len() == 6);
    assert(ascii_seq("traceback"@).len() == 9);
    assert(ascii_seq("status"@)[0] != ascii_seq("evalue"@)[0]);
    let p0 = (ascii_seq("status"@), JsonV::Str(reply_status_token(c.status)));
    let p1 = (ascii_seq("ename"@), JsonV::Str(c.error_name));
    let p2 = (ascii_seq("evalue"@), JsonV::Str(c.error_message));
    let p3 = (ascii_seq("traceback"@), strlist_jsonv(c.stack_trace));
    let ms = seq![p0, p1, p2, p3];
    assert(ms.drop_first() =~= seq![p1, p2, p3]);
    assert(seq![p1, p2, p3].drop_first() =~= seq![p2, p3]);
    assert(seq![p2, p3].drop_first() =~= seq![p3]);
    assert(jget(ms, ascii_seq("status"@)) == Some(p0.1));
    assert(jget(ms, ascii_seq("ename"@)) == Some(p1.1));
    assert(jget(ms, ascii_seq("evalue"@)) == Some(p2.1));
    assert(jget(ms, ascii_seq("traceback"@)) == Some(p3.1));
    crate::reply_status::lemma_reply_status_round_trip(c.status);
    crate::json_obj::lemma_strlist_round_trip(c.stack_trace);
}

impl ErrorReply {
    pub fn to_json(&self) -> (r: Json)
        ensures
            r@ == error_reply_jsonv(self@),
    {
        proof {
            reveal_strlit("status");
            reveal_strlit("ename");
            reveal_strlit("evalue");
            reveal_strlit("traceback");
        }
        let mut ms: Vec<(Vec<u8>, Json)> = Vec::new();
        ms.push((ascii_bytes("status"), Json::Str(self.status.to_bytes())));
        ms.push((ascii_bytes("ename"), Json::Str(crate::bytesutil::dup_bytes(&self.error_name))));
        ms.push(
            (ascii_bytes("evalue"), Json::Str(crate::bytesutil::dup_bytes(&self.error_message))),
        );
        ms.push((ascii_bytes("traceback"), crate::json_obj::strlist_to_json(&self.stack_trace)));
        let r = Json::Obj(ms);
        proof {
            crate::json::lemma_obj_view(ms@);
            let expect = seq![
                (ascii_seq("status"@), JsonV::Str(reply_status_token(self@.status))),
                (ascii_seq("ename"@), JsonV::Str(self@.error_name)),
                (ascii_seq("evalue"@), JsonV::Str(self@.error_message)),
                (ascii_seq("traceback"@), strlist_jsonv(self@.stack_trace)),
            ];
            assert forall|q: int|
                0 <= q < ms@.len() implies crate::json::obj_view(ms@)[q] == expect[q] by {
                assert(crate::json::obj_view(ms@)[q] == (
                    ms@[q].0@,
                    crate::json::json_view(ms@[q].1),
                ));
            }
            assert(crate::json::obj_view(ms@) =~= expect);
        }
        r
    }

    pub fn from_json(j: &Json) -> (r: Option<ErrorReply>)
        ensures
            match error_reply_of_jsonv(j@) {
                None => r is None,
                Some(cv) => r matches Some(c) && c@ == cv,
            },
    {
        proof {
            reveal_strlit("status");
            reveal_strlit("ename");
            reveal_strlit("evalue");
            reveal_strlit("traceback");
        }
        match j {
            Json::Obj(ms) => {
                let st = match crate::json_obj::obj_get(ms, "status") {
                    Some(Json::Str(s)) => s,
                    _ => {
                        return None;
                    },
                };
                let en = match crate::json_obj::obj_get(ms, "ename") {
                    Some(Json::Str(s)) => crate::bytesutil::dup_bytes(s),
                    _ => {
                        return None;
                    },
                };
                let ev = match crate::json_obj::obj_get(ms, "evalue") {
                    Some(Json::Str(s)) => crate::bytesutil::dup_bytes(s),
                    _ => {
                        return None;
                    },
                };
                let tb = match crate::json_obj::obj_get(ms, "traceback") {
                    Some(Json::Arr(es)) => match crate::json_obj::strlist_from_json(es) {
                        Some(v) => v,
                        None => {
                            return None;
                        },
                    },
                    _ => {
                        return None;
                    },
                };
                match ReplyStatus::from_bytes(st.as_slice()) {
                    Some(status) => Some(
                        ErrorReply {
                            status,
                            error_name: en,
                            error_message: ev,
                            stack_trace: tb,
                        },
                    ),
                    None => None,
                }
            },
            _ => None,
        }
    }
}

} // verus!
