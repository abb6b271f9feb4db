//! The `is_complete` request and reply: is the submitted code a complete
//! unit, and if not, how should the next line be indented?

use vstd::prelude::*;

use crate::json::{ascii_bytes, ascii_seq, Json, JsonV};
use crate::json_obj::{jget, jget_str};

verus! {

broadcast use {vstd::std_specs::vec::group_vec_axioms, vstd::seq::group_seq_axioms};

pub struct IsCompleteRequest {
    pub code: Vec<u8>,
}

pub ghost struct IsCompleteRequestV {
    pub code: Seq<u8>,
}

impl View for IsCompleteRequest {
    type V = IsCompleteRequestV;

    open spec fn view(&self) -> IsCompleteRequestV {
        IsCompleteRequestV { code: self.code@ }
    }
}

pub open spec fn is_complete_request_jsonv(c: IsCompleteRequestV) -> JsonV {
    JsonV::Obj(seq![(ascii_seq("code"@), JsonV::Str(c.code))])
}

pub open spec fn is_complete_request_of_jsonv(j: JsonV) -> Option<IsCompleteRequestV> {
    match j {
        JsonV::Obj(ms) => match jget_str(ms, ascii_seq("code"@)) {
            Some(code) => Some(IsCompleteRequestV { code }),
            None => None,
        },
        _ => None,
    }
}

pub proof fn lemma_is_complete_request_round_trip(c: IsCompleteRequestV)
    ensures
        is_complete_request_of_jsonv(is_complete_request_jsonv(c)) == Some(c),
{
}

impl IsCompleteRequest {
    pub fn to_json(&self) -> (r: Json)
        ensures
            r@ == is_complete_request_jsonv(self@),
    {
        proof {
            reveal_strlit("code");
        }
        let mut ms: Vec<(Vec<u8>, Json)> = Vec::new();
        ms.push((ascii_bytes("code"), Json::Str(crate::bytesutil::dup_bytes(&self.code))));
        let r = Json::Obj(ms);
        proof {
            crate::json::lemma_obj_view(ms@);
            assert(crate::json::obj_view(ms@)[0] == (ms@[0].0@, crate::json::json_view(ms@[0].1)));
            assert(crate::json::obj_view(ms@) =~= seq![
                (ascii_seq("code"@), JsonV::Str(self@.code)),
            ]);
        }
        r
    }

    pub fn from_json(j: &Json) -> (r: Option<IsCompleteRequest>)
        ensures
            match is_complete_request_of_jsonv(j@) {
                None => r is None,
                Some(cv) => r matches Some(c) && c@ == cv,
            },
    {
        proof {
            reveal_strlit("code");
        }
        match j {
            Json::Obj(ms) => match crate::json_obj::obj_get(ms, "code") {
                Some(Json::Str(s)) => Some(
                    IsCompleteRequest { code: crate::bytesutil::dup_bytes(s) },
                ),
                _ => None,
            },
            _ => None,
        }
    }
}

#[derive(Clone, Copy, Debug, PartialEq, Eq, Structural)]
pub enum IsCompleteReplyStatus {
    /// The code is ready to be executed.
    Complete,
    /// The front-end should prompt for another line.
    Incomplete,
    /// The code is broken; sending it for execution shows the error soonest.
    Invalid,
    /// The kernel cannot tell.
    Unknown,
}

pub open spec fn is_complete_status_token(s: IsCompleteReplyStatus) -> Seq<u8> {
    match s {
        IsCompleteReplyStatus::Complete => ascii_seq("complete"@),
        IsCompleteReplyStatus::Incomplete => ascii_seq("incomplete"@),
        IsCompleteReplyStatus::Invalid => ascii_seq("invalid"@),
        IsCompleteReplyStatus::Unknown => ascii_seq("unknown"@),
    }
}

pub open spec fn is_complete_status_of_token(t: Seq<u8>) -> Option<IsCompleteReplyStatus> {
    if t == is_complete_status_token(IsCompleteReplyStatus::Complete) {
        Some(IsCompleteReplyStatus::Complete)
    } else if t == is_complete_status_token(IsCompleteReplyStatus::Incomplete) {
        Some(IsCompleteReplyStatus::Incomplete)
    } else if t == is_complete_status_token(IsCompleteReplyStatus::Invalid) {
        Some(IsCompleteReplyStatus::Invalid)
    } else if t == is_complete_status_token(IsCompleteReplyStatus::Unknown) {
        Some(IsCompleteReplyStatus::Unknown)
    } else {
        None
    }
}

pub proof fn lemma_is_complete_status_round_trip(s: IsCompleteReplyStatus)
    ensures
        is_complete_status_of_token(is_complete_status_token(s)) == Some(s),
{
    reveal_strlit("complete");
    reveal_strlit("incomplete");
    reveal_strlit("invalid");
    reveal_strlit("unknown");
    assert(ascii_seq("complete"@).len() == 8);
    assert(ascii_seq("incomplete"@).len() == 10);
    assert(ascii_seq("invalid"@).len() == 7);
    assert(ascii_seq("unknown"@).len() == 7);
    assert(ascii_seq("invalid"@)[0] != ascii_seq("unknown"@)[0]);
}

pub struct IsCompleteReply {
    pub status: IsCompleteReplyStatus,
    /// Suggested indentation for the next line; meaningful, and present on
    /// the wire, only for an incomplete unit.
    pub indent: Option<Vec<u8>>,
}

pub ghost struct IsCompleteReplyV {
    pub status: IsCompleteReplyStatus,
    pub indent: Option<Seq<u8>>,
}

impl View for IsCompleteReply {
    type V = IsCompleteReplyV;

    open spec fn view(&self) -> IsCompleteReplyV {
        IsCompleteReplyV {
            status: self.status,
            indent: match self.indent {
                Some(v) => Some(v@),
                None => None,
            },
        }
    }
}

pub open spec fn is_complete_reply_jsonv(c: IsCompleteReplyV) -> JsonV {
    match c.indent {
        Some(ind) => JsonV::Obj(
            seq![
                (ascii_seq("status"@), JsonV::Str(is_complete_status_token(c.status))),
                (ascii_seq("indent"@), JsonV::Str(ind)),
            ],
        ),
        None => JsonV::Obj(
            seq![(ascii_seq("status"@), JsonV::Str(is_complete_status_token(c.status)))],
        ),
    }
}

pub open spec fn is_complete_reply_of_jsonv(j: JsonV) -> Option<IsCompleteReplyV> {
    match j {
        JsonV::Obj(ms) => match jget_str(ms, ascii_seq("status"@)) {
            Some(t) => match is_complete_status_of_token(t) {
                Some(st) => match jget(ms, ascii_seq("indent"@)) {
                    None => Some(IsCompleteReplyV { status: st, indent: None }),
                    Some(JsonV::Str(ind)) => Some(
                        IsCompleteReplyV { status: st, indent: Some(ind) },
                    ),
                    Some(_) => None,
                },
                None => None,
            },
            None => None,
        },
        _ => None,
    }
}

pub proof fn lemma_is_complete_reply_round_trip(c: IsCompleteReplyV)
    ensures
        is_complete_reply_of_jsonv(is_complete_reply_jsonv(c)) == Some(c),
{
    reveal_strlit("status");
    reveal_strlit("indent");
    reveal_with_fuel(jget, 4);
    assert(ascii_seq("status"@).len() == 6);
    assert(ascii_seq("indent"@).len() == 6);
    assert(ascii_seq("status"@)[0] != ascii_seq("indent"@)[0]);
    lemma_is_complete_status_round_trip(c.status);
    match c.indent {
        Some(ind) => {
            let p0 = (ascii_seq("status"@), JsonV::Str(is_complete_status_token(c.status)));
            let p1 = (ascii_seq("indent"@), JsonV::Str(ind));
            let ms = seq![p0, p1];
            assert(ms.drop_first() =~= seq![p1]);
            assert(jget(ms, ascii_seq("status"@)) == Some(p0.1));
            assert(jget(ms, ascii_seq("indent"@)) == Some(p1.1));
        },
        None => {
            let p0 = (ascii_seq("status"@), JsonV::Str(is_complete_status_token(c.status)));
            let ms = seq![p0];
            assert(ms.drop_first() =~= Seq::<(Seq<u8>, JsonV)>::empty());
            assert(jget(ms, ascii_seq("status"@)) == Some(p0.1));
            assert(jget(ms, ascii_seq("indent"@)) is None);
        },
    }
}

impl IsCompleteReply {
    pub fn to_json(&self) -> (r: Json)
        ensures
            r@ == is_complete_reply_jsonv(self@),
    {
        proof {
            reveal_strlit("status");
            reveal_strlit("indent");
            reveal_strlit("complete");
            reveal_strlit("incomplete");
            reveal_strlit("invalid");
            reveal_strlit("unknown");
        }
        let token = match self.status {
            IsCompleteReplyStatus::Complete => ascii_bytes("complete"),
            IsCompleteReplyStatus::Incomplete => ascii_bytes("incomplete"),
            IsCompleteReplyStatus::Invalid => ascii_bytes("invalid"),
            IsCompleteReplyStatus::Unknown => ascii_bytes("unknown"),
        };
        let mut ms: Vec<(Vec<u8>, Json)> = Vec::new();
        ms.push((ascii_bytes("status"), Json::Str(token)));
        match &self.indent {
            Some(ind) => {
                ms.push((ascii_bytes("indent"), Json::Str(crate::bytesutil::dup_bytes(ind))));
            },
            None => {},
        }
        let r = Json::Obj(ms);
        proof {
            crate::json::lemma_obj_view(ms@);
            assert forall|q: int|
                0 <= q < ms@.len() implies #[trigger] crate::json::obj_view(ms@)[q] == (
                ms@[q].0@,
                crate::json::json_view(ms@[q].1),
            ) by {}
            match self@.indent {
                Some(ind) => {
                    assert(crate::json::obj_view(ms@) =~= seq![
                        (
                            ascii_seq("status"@),
                            JsonV::Str(is_complete_status_token(self@.status)),
                        ),
                        (ascii_seq("indent"@), JsonV::Str(ind)),
                    ]);
                },
                None => {
                    assert(crate::json::obj_view(ms@) =~= seq![
                        (
                            ascii_seq("status"@),
                            JsonV::Str(is_complete_status_token(self@.status)),
                        ),
                    ]);
                },
            }
        }
        r
    }

    pub fn from_json(j: &Json) -> (r: Option<IsCompleteReply>)
        ensures
            match is_complete_reply_of_jsonv(j@) {
                None => r is None,
                Some(cv) => r matches Some(c) && c@ == cv,
            },
    {
        proof {
            reveal_strlit("status");
            reveal_strlit("indent");
            reveal_strlit("complete");
            reveal_strlit("incomplete");
            reveal_strlit("invalid");
            reveal_strlit("unknown");
        }
        match j {
            Json::Obj(ms) => {
                let t = match crate::json_obj::obj_get(ms, "status") {
                    Some(Json::Str(s)) => s,
                    _ => {
                        return None;
                    },
                };
                let st = if crate::bytesutil::bytes_eq_str(t.as_slice(), "complete") {
                    IsCompleteReplyStatus::Complete
                } else if crate::bytesutil::bytes_eq_str(t.as_slice(), "incomplete") {
                    IsCompleteReplyStatus::Incomplete
                } else if crate::bytesutil::bytes_eq_str(t.as_slice(), "invalid") {
                    IsCompleteReplyStatus::Invalid
                } else if crate::bytesutil::bytes_eq_str(t.as_slice(), "unknown") {
                    IsCompleteReplyStatus::Unknown
                } else {
                    return None;
                };
                match crate::json_obj::obj_get(ms, "indent") {
                    None => Some(IsCompleteReply { status: st, indent: None }),
                    Some(Json::Str(ind)) => Some(
                        IsCompleteReply {
                            status: st,
                            indent: Some(crate::bytesutil::dup_bytes(ind)),
                        },
                    ),
                    Some(_) => None,
                }
            },
            _ => None,
        }
    }
}

} // verus!
