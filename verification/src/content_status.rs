//! The kernel status publication: `starting`, `busy` or `idle`, broadcast
//! around every handled request.

use vstd::prelude::*;

use crate::json::{ascii_bytes, ascii_seq, Json, JsonV};
use crate::json_obj::{jget, jget_str};

verus! {

broadcast use {vstd::std_specs::vec::group_vec_axioms, vstd::seq::group_seq_axioms};

#[derive(Clone, Copy, Debug, PartialEq, Eq, Structural)]
pub enum ExecutionState {
    Busy,
    Idle,
    /// Published exactly once, at process startup.
    Starting,
}

pub open spec fn state_token(s: ExecutionState) -> Seq<u8> {
    match s {
        ExecutionState::Busy => ascii_seq("busy"@),
        ExecutionState::Idle => ascii_seq("idle"@),
        ExecutionState::Starting => ascii_seq("starting"@),
    }
}

pub open spec fn state_of_token(t: Seq<u8>) -> Option<ExecutionState> {
    if t == state_token(ExecutionState::Busy) {
        Some(ExecutionState::Busy)
    } else if t == state_token(ExecutionState::Idle) {
        Some(ExecutionState::Idle)
    } else if t == state_token(ExecutionState::Starting) {
        Some(ExecutionState::Starting)
    } else {
        None
    }
}

pub proof fn lemma_state_token_round_trip(s: ExecutionState)
    ensures
        state_of_token(state_token(s)) == Some(s),
{
    reveal_strlit("busy");
    reveal_strlit("idle");
    reveal_strlit("starting");
    assert(ascii_seq("busy"@)[0] != ascii_seq("idle"@)[0]);
}

pub struct StatusPublication {
    pub execution_state: ExecutionState,
}

pub ghost struct StatusPublicationV {
    pub execution_state: ExecutionState,
}

impl View for StatusPublication {
    type V = StatusPublicationV;

    open spec fn view(&self) -> StatusPublicationV {
        StatusPublicationV { execution_state: self.execution_state }
    }
}

pub open spec fn status_jsonv(c: StatusPublicationV) -> JsonV {
    JsonV::Obj(seq![(ascii_seq("execution_state"@), JsonV::Str(state_token(c.execution_state)))])
}

pub open spec fn status_of_jsonv(j: JsonV) -> Option<StatusPublicationV> {
    match j {
        JsonV::Obj(ms) => match jget_str(ms, ascii_seq("execution_state"@)) {
            Some(t) => match state_of_token(t) {
                Some(s) => Some(StatusPublicationV { execution_state: s }),
                None => None,
            },
            None => None,
        },
        _ => None,
    }
}

pub proof fn lemma_status_round_trip(c: StatusPublicationV)
    ensures
        status_of_jsonv(status_jsonv(c)) == Some(c),
{
    lemma_state_token_round_trip(c.execution_state);
}

impl StatusPublication {
    pub fn to_json(&self) -> (r: Json)
        ensures
            r@ == status_jsonv(self@),
    {
        proof {
            reveal_strlit("execution_state");
            reveal_strlit("busy");
            reveal_strlit("idle");
            reveal_strlit("starting");
        }
        let token = match self.execution_state {
            ExecutionState::Busy => ascii_bytes("busy"),
            ExecutionState::Idle => ascii_bytes("idle"),
            ExecutionState::Starting => ascii_bytes("starting"),
        };
        let mut ms: Vec<(Vec<u8>, Json)> = Vec::new();
        ms.push((ascii_bytes("execution_state"), Json::Str(token)));
        let r = Json::Obj(ms);
        proof {
            crate::json::lemma_obj_view(ms@);
            let expect = seq![
                (ascii_seq("execution_state"@), JsonV::Str(state_token(self@.execution_state))),
            ];
            assert(crate::json::obj_view(ms@).len() == 1);
            assert(crate::json::obj_view(ms@)[0] == (ms@[0].0@, crate::json::json_view(ms@[0].1)));
            assert(crate::json::obj_view(ms@) =~= expect);
        }
        r
    }

    pub fn from_json(j: &Json) -> (r: Option<StatusPublication>)
        ensures
            match status_of_jsonv(j@) {
                None => r is None,
                Some(cv) => r matches Some(c) && c@ == cv,
            },
    {
        proof {
            reveal_strlit("execution_state");
            reveal_strlit("busy");
            reveal_strlit("idle");
            reveal_strlit("starting");
        }
        match j {
            Json::Obj(ms) => {
                let t = match crate::json_obj::obj_get(ms, "execution_state") {
                    Some(Json::Str(s)) => s,
                    _ => {
                        return None;
                    },
                };
                if crate::bytesutil::bytes_eq_str(t.as_slice(), "busy") {
                    Some(StatusPublication { execution_state: ExecutionState::Busy })
                } else if crate::bytesutil::bytes_eq_str(t.as_slice(), "idle") {
                    Some(StatusPublication { execution_state: ExecutionState::Idle })
                } else if crate::bytesutil::bytes_eq_str(t.as_slice(), "starting") {
                    Some(StatusPublication { execution_state: ExecutionState::Starting })
                } else {
                    None
                }
            },
            _ => None,
        }
    }
}

} // verus!
