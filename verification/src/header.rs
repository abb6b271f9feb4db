//! The message header: identity, type, origin and protocol version of one
//! message.

use vstd::prelude::*;

use crate::json::{ascii_bytes, ascii_seq, Json, JsonV};
use crate::json_obj::{jget, jget_str};
use crate::message_type::{type_of_token, type_token, MessageType};

verus! {

broadcast use {vstd::std_specs::vec::group_vec_axioms, vstd::seq::group_seq_axioms};

pub struct Header {
    pub message_id: Vec<u8>,
    pub message_type: MessageType,
    pub username: Vec<u8>,
    pub session: Vec<u8>,
    pub date: Vec<u8>,
    pub version: Vec<u8>,
}

pub ghost struct HeaderV {
    pub message_id: Seq<u8>,
    pub message_type: MessageType,
    pub username: Seq<u8>,
    pub session: Seq<u8>,
    pub date: Seq<u8>,
    pub version: Seq<u8>,
}

impl View for Header {
    type V = HeaderV;

    open spec fn view(&self) -> HeaderV {
        HeaderV {
            message_id: self.message_id@,
            message_type: self.message_type,
            username: self.username@,
            session: self.session@,
            date: self.date@,
            version: self.version@,
        }
    }
}

/// The JSON document a header serializes to.
pub open spec fn header_jsonv(h: HeaderV) -> JsonV {
    JsonV::Obj(
        seq![
            (ascii_seq("msg_id"@), JsonV::Str(h.message_id)),
            (ascii_seq("msg_type"@), JsonV::Str(type_token(h.message_type))),
            (ascii_seq("username"@), JsonV::Str(h.username)),
            (ascii_seq("session"@), JsonV::Str(h.session)),
            (ascii_seq("date"@), JsonV::Str(h.date)),
            (ascii_seq("version"@), JsonV::Str(h.version)),
        ],
    )
}

/// The header a JSON document decodes to: an object with the six known
/// fields, unknown fields tolerated.
pub open spec fn header_of_jsonv(j: JsonV) -> Option<HeaderV> {
    match j {
        JsonV::Obj(ms) => match (
            jget_str(ms, ascii_seq("msg_id"@)),
            jget_str(ms, ascii_seq("msg_type"@)),
            jget_str(ms, ascii_seq("username"@)),
            jget_str(ms, ascii_seq("session"@)),
            jget_str(ms, ascii_seq("date"@)),
            jget_str(ms, ascii_seq("version"@)),
        ) {
            (Some(id), Some(tt), Some(u), Some(se), Some(d), Some(v)) => match type_of_token(tt) {
                Some(t) => Some(
                    HeaderV {
                        message_id: id,
                        message_type: t,
                        username: u,
                        session: se,
                        date: d,
                        version: v,
                    },
                ),
                None => None,
            },
            _ => None,
        },
        _ => None,
    }
}

pub proof fn reveal_header_keys()
    ensures
        ascii_seq("msg_id"@).len() == 6,
        ascii_seq("msg_type"@).len() == 8,
        ascii_seq("username"@).len() == 8,
        ascii_seq("session"@).len() == 7,
        ascii_seq("date"@).len() == 4,
        ascii_seq("version"@).len() == 7,
        ascii_seq("msg_type"@)[0] != ascii_seq("username"@)[0],
        ascii_seq("session"@)[0] != ascii_seq("version"@)[0],
{
    reveal_strlit("msg_id");
    reveal_strlit("msg_type");
    reveal_strlit("username");
    reveal_strlit("session");
    reveal_strlit("date");
    reveal_strlit("version");
}

/// Decoding inverts encoding for headers.
pub proof fn lemma_header_round_trip(h: HeaderV)
    ensures
        header_of_jsonv(header_jsonv(h)) == Some(h),
{
    reveal_header_keys();
    let p0 = (ascii_seq("msg_id"@), JsonV::Str(h.message_id));
    let p1 = (ascii_seq("msg_type"@), JsonV::Str(type_token(h.message_type)));
    let p2 = (ascii_seq("username"@), JsonV::Str(h.username));
    let p3 = (ascii_seq("session"@), JsonV::Str(h.session));
    let p4 = (ascii_seq("date"@), JsonV::Str(h.date));
    let p5 = (ascii_seq("version"@), JsonV::Str(h.version));
    let ms = seq![p0, p1, p2, p3, p4, p5];
    reveal_with_fuel(jget, 8);
    assert(ms.drop_first() =~= seq![p1, p2, p3, p4, p5]);
    assert(seq![p1, p2, p3, p4, p5].drop_first() =~= seq![p2, p3, p4, p5]);
    assert(seq![p2, p3, p4, p5].drop_first() =~= seq![p3, p4, p5]);
    assert(seq![p3, p4, p5].drop_first() =~= seq![p4, p5]);
    assert(seq![p4, p5].drop_first() =~= seq![p5]);
    assert(jget(ms, ascii_seq("msg_id"@)) == Some(p0.1));
    assert(jget(ms, ascii_seq("msg_type"@)) == Some(p1.1));
    assert(jget(ms, ascii_seq("username"@)) == Some(p2.1));
    assert(jget(ms, ascii_seq("session"@)) == Some(p3.1));
    assert(jget(ms, ascii_seq("date"@)) == Some(p4.1));
    assert(jget(ms, ascii_seq("version"@)) == Some(p5.1));
    crate::message_type::lemma_type_token_round_trip(h.message_type);
}

/// A serialized header is a well-formed JSON document.
pub proof fn lemma_header_jsonv_wf(h: HeaderV)
    ensures
        crate::json::wf_json(header_jsonv(h)),
{
    let ms = seq![
        (ascii_seq("msg_id"@), JsonV::Str(h.message_id)),
        (ascii_seq("msg_type"@), JsonV::Str(type_token(h.message_type))),
        (ascii_seq("username"@), JsonV::Str(h.username)),
        (ascii_seq("session"@), JsonV::Str(h.session)),
        (ascii_seq("date"@), JsonV::Str(h.date)),
        (ascii_seq("version"@), JsonV::Str(h.version)),
    ];
    crate::json::lemma_wf_json_obj(ms);
    assert forall|i: int| 0 <= i < ms.len() implies crate::json::wf_json(#[trigger] ms[i].1) by {}
}

impl Header {
    /// A fresh header carrying this header's origin fields, with the given
    /// identity, type and date.
    pub fn with_id_type_date(
        &self,
        message_id: Vec<u8>,
        message_type: MessageType,
        date: Vec<u8>,
    ) -> (r: Header)
        ensures
            r@ == (HeaderV {
                message_id: message_id@,
                message_type,
                username: self@.username,
                session: self@.session,
                date: date@,
                version: self@.version,
            }),
    {
        Header {
            message_id,
            message_type,
            username: crate::bytesutil::dup_bytes(&self.username),
            session: crate::bytesutil::dup_bytes(&self.session),
            date,
            version: crate::bytesutil::dup_bytes(&self.version),
        }
    }

    /// A field-for-field copy.
    pub fn dup(&self) -> (r: Header)
        ensures
            r@ == self@,
    {
        Header {
            message_id: crate::bytesutil::dup_bytes(&self.message_id),
            message_type: self.message_type,
            username: crate::bytesutil::dup_bytes(&self.username),
            session: crate::bytesutil::dup_bytes(&self.session),
            date: crate::bytesutil::dup_bytes(&self.date),
            version: crate::bytesutil::dup_bytes(&self.version),
        }
    }

    /// The JSON form of this header.
    pub fn to_json(&self) -> (r: Json)
        ensures
            r@ == header_jsonv(self@),
    {
        proof {
            reveal_strlit("msg_id");
            reveal_strlit("msg_type");
            reveal_strlit("username");
            reveal_strlit("session");
            reveal_strlit("date");
            reveal_strlit("version");
        }
        let mut ms: Vec<(Vec<u8>, Json)> = Vec::new();
        ms.push((ascii_bytes("msg_id"), Json::Str(crate::bytesutil::dup_bytes(&self.message_id))));
        ms.push((ascii_bytes("msg_type"), Json::Str(self.message_type.to_bytes())));
        ms.push((ascii_bytes("username"), Json::Str(crate::bytesutil::dup_bytes(&self.username))));
        ms.push((ascii_bytes("session"), Json::Str(crate::bytesutil::dup_bytes(&self.session))));
        ms.push((ascii_bytes("date"), Json::Str(crate::bytesutil::dup_bytes(&self.date))));
        ms.push((ascii_bytes("version"), Json::Str(crate::bytesutil::dup_bytes(&self.version))));
        let r = Json::Obj(ms);
        proof {
            crate::json::lemma_obj_view(ms@);
            let expect = seq![
                (ascii_seq("msg_id"@), JsonV::Str(self@.message_id)),
                (ascii_seq("msg_type"@), JsonV::Str(type_token(self@.message_type))),
                (ascii_seq("username"@), JsonV::Str(self@.username)),
                (ascii_seq("session"@), JsonV::Str(self@.session)),
                (ascii_seq("date"@), JsonV::Str(self@.date)),
                (ascii_seq("version"@), JsonV::Str(self@.version)),
            ];
            assert(crate::json::obj_view(ms@).len() == 6);
            assert forall|q: int| 0 <= q < 6 implies crate::json::obj_view(ms@)[q] == expect[q] by {
                assert(crate::json::obj_view(ms@)[q] == (
                    ms@[q].0@,
                    crate::json::json_view(ms@[q].1),
                ));
            }
            assert(crate::json::obj_view(ms@) =~= expect);
            assert(r@ == header_jsonv(self@));
        }
        r
    }

    /// Decodes a header from its JSON form.
    pub fn from_json(j: &Json) -> (r: Option<Header>)
        ensures
            match header_of_jsonv(j@) {
                None => r is None,
                Some(hv) => r matches Some(h) && h@ == hv,
            },
    {
        proof {
            reveal_strlit("msg_id");
            reveal_strlit("msg_type");
            reveal_strlit("username");
            reveal_strlit("session");
            reveal_strlit("date");
            reveal_strlit("version");
        }
        match j {
            Json::Obj(ms) => {
                let id = match crate::json_obj::obj_get(ms, "msg_id") {
                    Some(Json::Str(s)) => crate::bytesutil::dup_bytes(s),
                    _ => {
                        return None;
                    },
                };
                let tt = match crate::json_obj::obj_get(ms, "msg_type") {
                    Some(Json::Str(s)) => s,
                    _ => {
                        return None;
                    },
                };
                let u = match crate::json_obj::obj_get(ms, "username") {
                    Some(Json::Str(s)) => crate::bytesutil::dup_bytes(s),
                    _ => {
                        return None;
                    },
                };
                let se = match crate::json_obj::obj_get(ms, "session") {
                    Some(Json::Str(s)) => crate::bytesutil::dup_bytes(s),
                    _ => {
                        return None;
                    },
                };
                let d = match crate::json_obj::obj_get(ms, "date") {
                    Some(Json::Str(s)) => crate::bytesutil::dup_bytes(s),
                    _ => {
                        return None;
                    },
                };
                let v = match crate::json_obj::obj_get(ms, "version") {
                    Some(Json::Str(s)) => crate::bytesutil::dup_bytes(s),
                    _ => {
                        return None;
                    },
                };
                match MessageType::from_bytes(tt.as_slice()) {
                    Some(t) => Some(
                        Header {
                            message_id: id,
                            message_type: t,
                            username: u,
                            session: se,
                            date: d,
                            version: v,
                        },
                    ),
                    None => None,
                }
            },
            _ => None,
        }
    }
}

} // verus!
