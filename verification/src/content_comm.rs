//! Comm messages: paired application-defined sub-channels layered atop
//! shell/iopub.  This kernel implements no comm targets, so an opened comm
//! is immediately closed again.

use vstd::prelude::*;

use crate::json::{ascii_bytes, ascii_seq, dup_json, Json, JsonV};
use crate::json_obj::{jget, jget_str};

verus! {

broadcast use {vstd::std_specs::vec::group_vec_axioms, vstd::seq::group_seq_axioms};

pub struct CommOpen {
    pub comm_id: Vec<u8>,
    pub target_name: Vec<u8>,
    /// Free-form initialization payload.
    pub data: Json,
}

pub ghost struct CommOpenV {
    pub comm_id: Seq<u8>,
    pub target_name: Seq<u8>,
    pub data: JsonV,
}

impl View for CommOpen {
    type V = CommOpenV;

    open spec fn view(&self) -> CommOpenV {
        CommOpenV { comm_id: self.comm_id@, target_name: self.target_name@, data: self.data@ }
    }
}

pub open spec fn comm_open_jsonv(c: CommOpenV) -> JsonV {
    JsonV::Obj(
        seq![
            (ascii_seq("comm_id"@), JsonV::Str(c.comm_id)),
            (ascii_seq("target_name"@), JsonV::Str(c.target_name)),
            (ascii_seq("data"@), c.data),
        ],
    )
}

pub open spec fn comm_open_of_jsonv(j: JsonV) -> Option<CommOpenV> {
    match j {
        JsonV::Obj(ms) => match (
            jget_str(ms, ascii_seq("comm_id"@)),
            jget_str(ms, ascii_seq("target_name"@)),
            jget(ms, ascii_seq("data"@)),
        ) {
            (Some(id), Some(t), Some(d)) => Some(
                CommOpenV { comm_id: id, target_name: t, data: d },
            ),
            _ => None,
        },
        _ => None,
    }
}

pub proof fn lemma_comm_open_round_trip(c: CommOpenV)
    ensures
        comm_open_of_jsonv(comm_open_jsonv(c)) == Some(c),
{
    reveal_strlit("comm_id");
    reveal_strlit("target_name");
    reveal_strlit("data");
    reveal_with_fuel(jget, 5);
    assert(ascii_seq("comm_id"@).len() == 7);
    assert(ascii_seq("target_name"@).len() == 11);
    assert(ascii_seq("data"@).len() == 4);
    let p0 = (ascii_seq("comm_id"@), JsonV::Str(c.comm_id));
    let p1 = (ascii_seq("target_name"@), JsonV::Str(c.target_name));
    let p2 = (ascii_seq("data"@), c.data);
    let ms = seq![p0, p1, p2];
    assert(ms.drop_first() =~= seq![p1, p2]);
    assert(seq![p1, p2].drop_first() =~= seq![p2]);
    assert(jget(ms, ascii_seq("comm_id"@)) == Some(p0.1));
    assert(jget(ms, ascii_seq("target_name"@)) == Some(p1.1));
    assert(jget(ms, ascii_seq("data"@)) == Some(p2.1));
}

impl CommOpen {
    pub fn to_json(&self) -> (r: Json)
        ensures
            r@ == comm_open_jsonv(self@),
    {
        proof {
            reveal_strlit("comm_id");
            reveal_strlit("target_name");
            reveal_strlit("data");
        }
        let mut ms: Vec<(Vec<u8>, Json)> = Vec::new();
        ms.push((ascii_bytes("comm_id"), Json::Str(crate::bytesutil::dup_bytes(&self.comm_id))));
        ms.push(
            (ascii_bytes("target_name"), Json::Str(crate::bytesutil::dup_bytes(&self.target_name))),
        );
        ms.push((ascii_bytes("data"), dup_json(&self.data)));
        let r = Json::Obj(ms);
        proof {
            crate::json::lemma_obj_view(ms@);
            let expect = seq![
                (ascii_seq("comm_id"@), JsonV::Str(self@.comm_id)),
                (ascii_seq("target_name"@), JsonV::Str(self@.target_name)),
                (ascii_seq("data"@), self@.data),
            ];
            assert forall|q: int|
                0 <= q < ms@.len() implies crate::json::obj_view(ms@)[q] == expect[q] by {
                assert(crate::json::obj_view(ms@)[q] == (
                    ms@[q].0@,
                    crate::json::json_view(ms@[q].1),
                ));
            }
            assert(crate::json::obj_view(ms@) =~= expect);
        }
        r
    }

    pub fn from_json(j: &Json) -> (r: Option<CommOpen>)
        ensures
            match comm_open_of_jsonv(j@) {
                None => r is None,
                Some(cv) => r matches Some(c) && c@ == cv,
            },
    {
        proof {
            reveal_strlit("comm_id");
            reveal_strlit("target_name");
            reveal_strlit("data");
        }
        match j {
            Json::Obj(ms) => {
                let id = match crate::json_obj::obj_get(ms, "comm_id") {
                    Some(Json::Str(s)) => crate::bytesutil::dup_bytes(s),
                    _ => {
                        return None;
                    },
                };
                let t = match crate::json_obj::obj_get(ms, "target_name") {
                    Some(Json::Str(s)) => crate::bytesutil::dup_bytes(s),
                    _ => {
                        return None;
                    },
                };
                let d = match crate::json_obj::obj_get(ms, "data") {
                    Some(v) => dup_json(v),
                    None => {
                        return None;
                    },
                };
                Some(CommOpen { comm_id: id, target_name: t, data: d })
            },
            _ => None,
        }
    }
}

pub struct CommClose {
    pub comm_id: Vec<u8>,
    /// Free-form closing payload; an object on the wire.
    pub data: Json,
}

pub ghost struct CommCloseV {
    pub comm_id: Seq<u8>,
    pub data: JsonV,
}

impl View for CommClose {
    type V = CommCloseV;

    open spec fn view(&self) -> CommCloseV {
        CommCloseV { comm_id: self.comm_id@, data: self.data@ }
    }
}

pub open spec fn comm_close_jsonv(c: CommCloseV) -> JsonV {
    JsonV::Obj(
        seq![(ascii_seq("comm_id"@), JsonV::Str(c.comm_id)), (ascii_seq("data"@), c.data)],
    )
}

pub open spec fn comm_close_of_jsonv(j: JsonV) -> Option<CommCloseV> {
    match j {
        JsonV::Obj(ms) => match (jget_str(ms, ascii_seq("comm_id"@)), jget(ms, ascii_seq("data"@))) {
            (Some(id), Some(d)) => if d is Obj {
                Some(CommCloseV { comm_id: id, data: d })
            } else {
                None
            },
            _ => None,
        },
        _ => None,
    }
}

pub proof fn lemma_comm_close_round_trip(c: CommCloseV)
    requires
        c.data is Obj,
    ensures
        comm_close_of_jsonv(comm_close_jsonv(c)) == Some(c),
{
    reveal_strlit("comm_id");
    reveal_strlit("data");
    reveal_with_fuel(jget, 4);
    assert(ascii_seq("comm_id"@).len() == 7);
    assert(ascii_seq("data"@).len() == 4);
    let p0 = (ascii_seq("comm_id"@), JsonV::Str(c.comm_id));
    let p1 = (ascii_seq("data"@), c.data);
    let ms = seq![p0, p1];
    assert(ms.drop_first() =~= seq![p1]);
    assert(jget(ms, ascii_seq("comm_id"@)) == Some(p0.1));
    assert(jget(ms, ascii_seq("data"@)) == Some(p1.1));
}

impl CommClose {
    pub fn to_json(&self) -> (r: Json)
        ensures
            r@ == comm_close_jsonv(self@),
    {
        proof {
            reveal_strlit("comm_id");
            reveal_strlit("data");
        }
        let mut ms: Vec<(Vec<u8>, Json)> = Vec::new();
        ms.push((ascii_bytes("comm_id"), Json::Str(crate::bytesutil::dup_bytes(&self.comm_id))));
        ms.push((ascii_bytes("data"), dup_json(&self.data)));
        let r = Json::Obj(ms);
        proof {
            crate::json::lemma_obj_view(ms@);
            let expect = seq![
                (ascii_seq("comm_id"@), JsonV::Str(self@.comm_id)),
                (ascii_seq("data"@), self@.data),
            ];
            assert forall|q: int|
                0 <= q < ms@.len() implies crate::json::obj_view(ms@)[q] == expect[q] by {
                assert(crate::json::obj_view(ms@)[q] == (
                    ms@[q].0@,
                    crate::json::json_view(ms@[q].1),
                ));
            }
            assert(crate::json::obj_view(ms@) =~= expect);
        }
        r
    }

    pub fn from_json(j: &Json) -> (r: Option<CommClose>)
        ensures
            match comm_close_of_jsonv(j@) {
                None => r is None,
                Some(cv) => r matches Some(c) && c@ == cv,
            },
    {
        proof {
            reveal_strlit("comm_id");
            reveal_strlit("data");
        }
        match j {
            Json::Obj(ms) => {
                let id = match crate::json_obj::obj_get(ms, "comm_id") {
                    Some(Json::Str(s)) => crate::bytesutil::dup_bytes(s),
                    _ => {
                        return None;
                    },
                };
                let d = match crate::json_obj::obj_get(ms, "data") {
                    Some(v) => {
                        match v {
                            Json::Obj(_) => dup_json(v),
                            _ => {
                                return None;
                            },
                        }
                    },
                    None => {
                        return None;
                    },
                };
                Some(CommClose { comm_id: id, data: d })
            },
            _ => None,
        }
    }
}

pub struct CommMsg {
    pub comm_id: Vec<u8>,
    /// The comm pair's own message payload; an object on the wire.
    pub data: Json,
}

pub ghost struct CommMsgV {
    pub comm_id: Seq<u8>,
    pub data: JsonV,
}

impl View for CommMsg {
    type V = CommMsgV;

    open spec fn view(&self) -> CommMsgV {
        CommMsgV { comm_id: self.comm_id@, data: self.data@ }
    }
}

pub open spec fn comm_msg_jsonv(c: CommMsgV) -> JsonV {
    JsonV::Obj(
        seq![(ascii_seq("comm_id"@), JsonV::Str(c.comm_id)), (ascii_seq("data"@), c.data)],
    )
}

pub open spec fn comm_msg_of_jsonv(j: JsonV) -> Option<CommMsgV> {
    match j {
        JsonV::Obj(ms) => match (jget_str(ms, ascii_seq("comm_id"@)), jget(ms, ascii_seq("data"@))) {
            (Some(id), Some(d)) => if d is Obj {
                Some(CommMsgV { comm_id: id, data: d })
            } else {
                None
            },
            _ => None,
        },
        _ => None,
    }
}

pub proof fn lemma_comm_msg_round_trip(c: CommMsgV)
    requires
        c.data is Obj,
    ensures
        comm_msg_of_jsonv(comm_msg_jsonv(c)) == Some(c),
{
    reveal_strlit("comm_id");
    reveal_strlit("data");
    reveal_with_fuel(jget, 4);
    assert(ascii_seq("comm_id"@).len() == 7);
    assert(ascii_seq("data"@).len() == 4);
    let p0 = (ascii_seq("comm_id"@), JsonV::Str(c.comm_id));
    let p1 = (ascii_seq("data"@), c.data);
    let ms = seq![p0, p1];
    assert(ms.drop_first() =~= seq![p1]);
    assert(jget(ms, ascii_seq("comm_id"@)) == Some(p0.1));
    assert(jget(ms, ascii_seq("data"@)) == Some(p1.1));
}

impl CommMsg {
    pub fn to_json(&self) -> (r: Json)
        ensures
            r@ == comm_msg_jsonv(self@),
    {
        proof {
            reveal_strlit("comm_id");
            reveal_strlit("data");
        }
        let mut ms: Vec<(Vec<u8>, Json)> = Vec::new();
        ms.push((ascii_bytes("comm_id"), Json::Str(crate::bytesutil::dup_bytes(&self.comm_id))));
        ms.push((ascii_bytes("data"), dup_json(&self.data)));
        let r = Json::Obj(ms);
        proof {
            crate::json::lemma_obj_view(ms@);
            let expect = seq![
                (ascii_seq("comm_id"@), JsonV::Str(self@.comm_id)),
                (ascii_seq("data"@), self@.data),
            ];
            assert forall|q: int|
                0 <= q < ms@.len() implies crate::json::obj_view(ms@)[q] == expect[q] by {
                assert(crate::json::obj_view(ms@)[q] == (
                    ms@[q].0@,
                    crate::json::json_view(ms@[q].1),
                ));
            }
            assert(crate::json::obj_view(ms@) =~= expect);
        }
        r
    }

    pub fn from_json(j: &Json) -> (r: Option<CommMsg>)
        ensures
            match comm_msg_of_jsonv(j@) {
                None => r is None,
                Some(cv) => r matches Some(c) && c@ == cv,
            },
    {
        proof {
            reveal_strlit("comm_id");
            reveal_strlit("data");
        }
        match j {
            Json::Obj(ms) => {
                let id = match crate::json_obj::obj_get(ms, "comm_id") {
                    Some(Json::Str(s)) => crate::bytesutil::dup_bytes(s),
                    _ => {
                        return None;
                    },
                };
                let d = match crate::json_obj::obj_get(ms, "data") {
                    Some(v) => {
                        match v {
                            Json::Obj(_) => dup_json(v),
                            _ => {
                                return None;
                            },
                        }
                    },
                    None => {
                        return None;
                    },
                };
                Some(CommMsg { comm_id: id, data: d })
            },
            _ => None,
        }
    }
}

} // verus!
