//! The `ok` / `error` discriminant carried by reply contents.

use vstd::prelude::*;

use crate::json::{ascii_bytes, ascii_seq};

verus! {

broadcast use {vstd::std_specs::vec::group_vec_axioms, vstd::seq::group_seq_axioms};

#[derive(Clone, Copy, Debug, PartialEq, Eq, Structural)]
pub enum ReplyStatus {
    Okay,
    Error,
}

pub open spec fn reply_status_token(s: ReplyStatus) -> Seq<u8> {
    match s {
        ReplyStatus::Okay => ascii_seq("ok"@),
        ReplyStatus::Error => ascii_seq("error"@),
    }
}

pub open spec fn reply_status_of_token(t: Seq<u8>) -> Option<ReplyStatus> {
    if t == reply_status_token(ReplyStatus::Okay) {
        Some(ReplyStatus::Okay)
    } else if t == reply_status_token(ReplyStatus::Error) {
        Some(ReplyStatus::Error)
    } else {
        None
    }
}

pub proof fn lemma_reply_status_round_trip(s: ReplyStatus)
    ensures
        reply_status_of_token(reply_status_token(s)) == Some(s),
{
    reveal_strlit("ok");
    reveal_strlit("error");
    assert(ascii_seq("ok"@).len() == 2);
    assert(ascii_seq("error"@).len() == 5);
}

impl ReplyStatus {
    pub fn to_bytes(&self) -> (r: Vec<u8>)
        ensures
            r@ == reply_status_token(*self),
    {
        proof {
            reveal_strlit("ok");
            reveal_strlit("error");
        }
        match self {
            ReplyStatus::Okay => ascii_bytes("ok"),
            ReplyStatus::Error => ascii_bytes("error"),
        }
    }

    pub fn from_bytes(t: &[u8]) -> (r: Option<ReplyStatus>)
        ensures
            r == reply_status_of_token(t@),
    {
        proof {
            reveal_strlit("ok");
            reveal_strlit("error");
        }
        if crate::bytesutil::bytes_eq_str(t, "ok") {
            Some(ReplyStatus::Okay)
        } else if crate::bytesutil::bytes_eq_str(t, "error") {
            Some(ReplyStatus::Error)
        } else {
            None
        }
    }
}

} // verus!
