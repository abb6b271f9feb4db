//! The wire codec: multi-frame messages in, logical messages out, and back.
//!
//! A wire message is a list of frames: routing identities, the delimiter
//! frame, the signature, the four JSON frames (header, parent header,
//! metadata, content), and any auxiliary buffers.  Decoding locates the
//! single delimiter, checks the signature, and parses the JSON frames;
//! encoding recomputes the signature and serializes canonically.

use vstd::prelude::*;

use crate::content::{
    content_jsonv, content_of_jsonv_by_type, content_type, type_has_content, MessageContent,
    MessageContentV,
};
use crate::header::{header_jsonv, header_of_jsonv, Header, HeaderV};
use crate::json::{ascii_seq, wf_json, Json, JsonV};
use crate::json_obj::jget_str;
use crate::json_parse::parse_json;
use crate::json_ser::ser_value;
use crate::message_type::type_of_token;
use crate::signature::{signature_accepted, signature_of};

verus! {

broadcast use {vstd::std_specs::vec::group_vec_axioms, vstd::seq::group_seq_axioms};

/// A value that may be logically absent, serialized then as exactly `{}`.
pub enum EmptyObjectOr<T> {
    EmptyObject,
    Object(T),
}

impl<T: View> View for EmptyObjectOr<T> {
    type V = EmptyObjectOr<T::V>;

    open spec fn view(&self) -> EmptyObjectOr<T::V> {
        match self {
            EmptyObjectOr::EmptyObject => EmptyObjectOr::EmptyObject,
            EmptyObjectOr::Object(t) => EmptyObjectOr::Object(t@),
        }
    }
}

impl<T> EmptyObjectOr<T> {
    /// Maps the present case.
    pub fn map<U, F: FnOnce(T) -> U>(self, f: F) -> (r: EmptyObjectOr<U>)
        requires
            forall|t: T| self == EmptyObjectOr::Object(t) ==> f.requires((t,)),
        ensures
            match self {
                EmptyObjectOr::EmptyObject => r is EmptyObject,
                EmptyObjectOr::Object(t) => r matches EmptyObjectOr::Object(u) && f.ensures(
                    (t,),
                    u,
                ),
            },
    {
        match self {
            EmptyObjectOr::EmptyObject => EmptyObjectOr::EmptyObject,
            EmptyObjectOr::Object(t) => EmptyObjectOr::Object(f(t)),
        }
    }

    /// The present value; the caller must know one is there.
    pub fn unwrap(self) -> (r: T)
        requires
            self is Object,
        ensures
            self == EmptyObjectOr::Object(r),
    {
        match self {
            EmptyObjectOr::Object(t) => t,
            EmptyObjectOr::EmptyObject => unreached(),
        }
    }

    /// The plain optional this stands for.
    pub fn into_option(self) -> (r: Option<T>)
        ensures
            match self {
                EmptyObjectOr::EmptyObject => r is None,
                EmptyObjectOr::Object(t) => r matches Some(v) && v == t,
            },
    {
        match self {
            EmptyObjectOr::EmptyObject => None,
            EmptyObjectOr::Object(t) => Some(t),
        }
    }

    /// The sentinel form of a plain optional.
    pub fn of_option(o: Option<T>) -> (r: EmptyObjectOr<T>)
        ensures
            match o {
                None => r is EmptyObject,
                Some(t) => r matches EmptyObjectOr::Object(v) && v == t,
            },
    {
        match o {
            None => EmptyObjectOr::EmptyObject,
            Some(t) => EmptyObjectOr::Object(t),
        }
    }

    /// The present value, or the given error.
    pub fn ok_or<E>(self, err: E) -> (r: Result<T, E>)
        ensures
            match self {
                EmptyObjectOr::EmptyObject => r matches Err(e) && e == err,
                EmptyObjectOr::Object(t) => r matches Ok(v) && v == t,
            },
    {
        match self {
            EmptyObjectOr::EmptyObject => Err(err),
            EmptyObjectOr::Object(t) => Ok(t),
        }
    }
}

impl<T> Default for EmptyObjectOr<T> {
    /// The absent case.
    fn default() -> (r: EmptyObjectOr<T>)
        ensures
            r is EmptyObject,
    {
        EmptyObjectOr::EmptyObject
    }
}

/// The frame a decode error concerns.
#[derive(Clone, Copy, Debug, PartialEq, Eq, Structural)]
pub enum FrameSlot {
    Header,
    ParentHeader,
    Metadata,
    Content,
}

/// Why a wire message was rejected.  Every case is recoverable: the message
/// is dropped and the channel continues.
#[derive(Clone, Copy, Debug, PartialEq, Eq, Structural)]
pub enum DecodeError {
    /// No delimiter frame, more than one, or too few frames after it.
    FramingError,
    /// The claimed signature does not match the recomputed one.
    SignatureError,
    /// A JSON frame does not parse, or does not have the required shape.
    InvalidJson(FrameSlot),
    /// The header names a message type this kernel does not know.
    UnsupportedMessageType,
    /// The content does not decode as the variant the message type calls
    /// for.
    ContentDecodeError,
}

/// A decoded message.
pub struct Message {
    /// Routing identities, preserved verbatim into any reply.
    pub identities: Vec<Vec<u8>>,
    pub header: EmptyObjectOr<Header>,
    /// The header of the message that caused this one.
    pub parent_header: EmptyObjectOr<Header>,
    /// Free-form metadata; an object on the wire.
    pub metadata: Json,
    pub content: EmptyObjectOr<MessageContent>,
    /// Opaque binary buffers, passed through unchanged.
    pub extra_buffers: Vec<Vec<u8>>,
}

pub ghost struct MessageV {
    pub identities: Seq<Seq<u8>>,
    pub header: EmptyObjectOr<HeaderV>,
    pub parent_header: EmptyObjectOr<HeaderV>,
    pub metadata: JsonV,
    pub content: EmptyObjectOr<MessageContentV>,
    pub extra_buffers: Seq<Seq<u8>>,
}

impl View for Message {
    type V = MessageV;

    open spec fn view(&self) -> MessageV {
        MessageV {
            identities: self.identities.deep_view(),
            header: self.header@,
            parent_header: self.parent_header@,
            metadata: self.metadata@,
            content: self.content@,
            extra_buffers: self.extra_buffers.deep_view(),
        }
    }
}

/// The delimiter frame separating routing identities from protocol frames.
pub open spec fn delim() -> Seq<u8> {
    ascii_seq("<IDS|MSG>"@)
}

/// The JSON document of a possibly-absent header.
pub open spec fn header_slot_jsonv(h: EmptyObjectOr<HeaderV>) -> JsonV {
    match h {
        EmptyObjectOr::EmptyObject => JsonV::Obj(Seq::empty()),
        EmptyObjectOr::Object(hv) => header_jsonv(hv),
    }
}

/// The JSON document of a possibly-absent content.
pub open spec fn content_slot_jsonv(c: EmptyObjectOr<MessageContentV>) -> JsonV {
    match c {
        EmptyObjectOr::EmptyObject => JsonV::Obj(Seq::empty()),
        EmptyObjectOr::Object(cv) => content_jsonv(cv),
    }
}

/// The frames a message encodes to under a key: identities, delimiter,
/// signature, the four serialized JSON documents, auxiliary buffers.
pub open spec fn encode_spec(m: MessageV, key: Seq<u8>) -> Seq<Seq<u8>> {
    let hb = ser_value(header_slot_jsonv(m.header));
    let pb = ser_value(header_slot_jsonv(m.parent_header));
    let mb = ser_value(m.metadata);
    let cb = ser_value(content_slot_jsonv(m.content));
    let sig = signature_of(key, hb, pb, mb, cb, m.extra_buffers);
    m.identities + seq![delim(), sig, hb, pb, mb, cb] + m.extra_buffers
}

/// Number of delimiter frames at or after index `i`.
pub open spec fn delim_count_from(frames: Seq<Seq<u8>>, i: int) -> int
    decreases frames.len() - i,
{
    if i < 0 || i >= frames.len() {
        0
    } else {
        (if frames[i] == delim() {
            1int
        } else {
            0int
        }) + delim_count_from(frames, i + 1)
    }
}

/// Index of the first delimiter frame at or after `i`; the length when
/// there is none.
pub open spec fn first_delim_from(frames: Seq<Seq<u8>>, i: int) -> int
    decreases frames.len() - i,
{
    if i < 0 || i >= frames.len() {
        frames.len() as int
    } else if frames[i] == delim() {
        i
    } else {
        first_delim_from(frames, i + 1)
    }
}

/// Decoding a possibly-absent header frame.
pub open spec fn header_slot_of(b: Seq<u8>, slot: FrameSlot) -> Result<
    EmptyObjectOr<HeaderV>,
    DecodeError,
> {
    match parse_json(b) {
        None => Err(DecodeError::InvalidJson(slot)),
        Some(j) => match j {
            JsonV::Obj(ms) => if ms.len() == 0 {
                Ok(EmptyObjectOr::EmptyObject)
            } else {
                match header_of_jsonv(j) {
                    Some(h) => Ok(EmptyObjectOr::Object(h)),
                    None => match jget_str(ms, ascii_seq("msg_type"@)) {
                        Some(t) => if type_of_token(t) is None {
                            Err(DecodeError::UnsupportedMessageType)
                        } else {
                            Err(DecodeError::InvalidJson(slot))
                        },
                        None => Err(DecodeError::InvalidJson(slot)),
                    },
                }
            },
            _ => Err(DecodeError::InvalidJson(slot)),
        },
    }
}

/// Decoding the metadata frame: any JSON object.
pub open spec fn metadata_slot_of(b: Seq<u8>) -> Result<JsonV, DecodeError> {
    match parse_json(b) {
        None => Err(DecodeError::InvalidJson(FrameSlot::Metadata)),
        Some(j) => if j is Obj {
            Ok(j)
        } else {
            Err(DecodeError::InvalidJson(FrameSlot::Metadata))
        },
    }
}

/// Decoding the content frame: the empty object, or the variant the
/// header's message type calls for.
pub open spec fn content_slot_of(b: Seq<u8>, header: EmptyObjectOr<HeaderV>) -> Result<
    EmptyObjectOr<MessageContentV>,
    DecodeError,
> {
    match parse_json(b) {
        None => Err(DecodeError::InvalidJson(FrameSlot::Content)),
        Some(j) => match j {
            JsonV::Obj(ms) => if ms.len() == 0 {
                Ok(EmptyObjectOr::EmptyObject)
            } else {
                match header {
                    EmptyObjectOr::Object(h) => if !type_has_content(h.message_type) {
                        Err(DecodeError::UnsupportedMessageType)
                    } else {
                        match content_of_jsonv_by_type(h.message_type, j) {
                            Some(c) => Ok(EmptyObjectOr::Object(c)),
                            None => Err(DecodeError::ContentDecodeError),
                        }
                    },
                    EmptyObjectOr::EmptyObject => Err(DecodeError::ContentDecodeError),
                }
            },
            _ => Err(DecodeError::InvalidJson(FrameSlot::Content)),
        },
    }
}

/// What a list of frames decodes to under a key.
pub open spec fn decode_spec(frames: Seq<Seq<u8>>, key: Seq<u8>) -> Result<MessageV, DecodeError> {
    if delim_count_from(frames, 0) != 1 {
        Err(DecodeError::FramingError)
    } else {
        let d = first_delim_from(frames, 0);
        if frames.len() < d + 6 {
            Err(DecodeError::FramingError)
        } else {
            let sig = frames[d + 1];
            let hb = frames[d + 2];
            let pb = frames[d + 3];
            let mb = frames[d + 4];
            let cb = frames[d + 5];
            let bufs = frames.skip(d + 6);
            if !signature_accepted(key, hb, pb, mb, cb, bufs, sig) {
                Err(DecodeError::SignatureError)
            } else {
                match header_slot_of(hb, FrameSlot::Header) {
                    Err(e) => Err(e),
                    Ok(header) => match header_slot_of(pb, FrameSlot::ParentHeader) {
                        Err(e) => Err(e),
                        Ok(parent_header) => match metadata_slot_of(mb) {
                            Err(e) => Err(e),
                            Ok(metadata) => match content_slot_of(cb, header) {
                                Err(e) => Err(e),
                                Ok(content) => Ok(
                                    MessageV {
                                        identities: frames.take(d),
                                        header,
                                        parent_header,
                                        metadata,
                                        content,
                                        extra_buffers: bufs,
                                    },
                                ),
                            },
                        },
                    },
                }
            }
        }
    }
}

/// A message the codec can carry faithfully: no identity or buffer mimics
/// the delimiter frame, metadata is a well-formed object, the content is
/// well-formed and travels under the header's own message type.
pub open spec fn message_wf(m: MessageV) -> bool {
    &&& forall|i: int| 0 <= i < m.identities.len() ==> #[trigger] m.identities[i] != delim()
    &&& forall|i: int| 0 <= i < m.extra_buffers.len() ==> #[trigger] m.extra_buffers[i] != delim()
    &&& m.metadata is Obj
    &&& wf_json(m.metadata)
    &&& match m.content {
        EmptyObjectOr::Object(c) => crate::content::content_wf(c),
        EmptyObjectOr::EmptyObject => true,
    }
    &&& match (m.header, m.content) {
        (EmptyObjectOr::Object(h), EmptyObjectOr::Object(c)) => h.message_type == content_type(c),
        (EmptyObjectOr::EmptyObject, EmptyObjectOr::Object(_)) => false,
        _ => true,
    }
}

impl Message {
    /// The exact frame for a possibly-absent header.
    fn header_slot_bytes(h: &EmptyObjectOr<Header>) -> (r: Vec<u8>)
        ensures
            r@ == ser_value(header_slot_jsonv(h@)),
    {
        match h {
            EmptyObjectOr::EmptyObject => {
                let empty: Vec<(Vec<u8>, Json)> = Vec::new();
                proof {
                    crate::json::lemma_obj_view(empty@);
                    assert(crate::json::obj_view(empty@) =~= Seq::<(Seq<u8>, JsonV)>::empty());
                }
                crate::json_ser::to_json_bytes(&Json::Obj(empty))
            },
            EmptyObjectOr::Object(hv) => crate::json_ser::to_json_bytes(&hv.to_json()),
        }
    }

    /// Encodes this message under a key: frames out, signature recomputed.
    pub fn encode(&self, key: &[u8]) -> (r: Vec<Vec<u8>>)
        ensures
            r.deep_view() == encode_spec(self@, key@),
    {
        proof {
            reveal_strlit("<IDS|MSG>");
        }
        let hb = Self::header_slot_bytes(&self.header);
        let pb = Self::header_slot_bytes(&self.parent_header);
        let mb = crate::json_ser::to_json_bytes(&self.metadata);
        let cb = match &self.content {
            EmptyObjectOr::EmptyObject => {
                let empty: Vec<(Vec<u8>, Json)> = Vec::new();
                proof {
                    crate::json::lemma_obj_view(empty@);
                    assert(crate::json::obj_view(empty@) =~= Seq::<(Seq<u8>, JsonV)>::empty());
                }
                crate::json_ser::to_json_bytes(&Json::Obj(empty))
            },
            EmptyObjectOr::Object(cv) => crate::json_ser::to_json_bytes(&cv.to_json()),
        };
        let sig = crate::signature::sign(key, &hb, &pb, &mb, &cb, &self.extra_buffers);
        let ghost e = encode_spec(self@, key@);
        let mut frames: Vec<Vec<u8>> = Vec::new();
        let mut i: usize = 0;
        while i < self.identities.len()
            invariant
                i <= self.identities@.len(),
                frames@.len() == i,
                forall|q: int| 0 <= q < i ==> #[trigger] frames@[q]@ == self.identities@[q]@,
            decreases self.identities@.len() - i,
        {
            frames.push(crate::bytesutil::dup_bytes(&self.identities[i]));
            i = i + 1;
        }
        let ghost nids = self.identities@.len() as int;
        frames.push(crate::json::ascii_bytes("<IDS|MSG>"));
        frames.push(sig);
        frames.push(hb);
        frames.push(pb);
        frames.push(mb);
        frames.push(cb);
        proof {
            assert(frames@.len() == nids + 6);
            assert(forall|q: int|
                0 <= q < nids + 6 ==> #[trigger] frames@[q]@ == e[q]) by {
                assert forall|q: int| 0 <= q < nids + 6 implies #[trigger] frames@[q]@ == e[q] by {
                    if q < nids {
                        assert(frames@[q]@ == self.identities@[q]@);
                        assert(e[q] == self@.identities[q]);
                        assert(self@.identities[q] == self.identities@[q]@);
                    }
                }
            }
        }
        let ghost head = frames@;
        let mut j: usize = 0;
        while j < self.extra_buffers.len()
            invariant
                j <= self.extra_buffers@.len(),
                frames@.len() == head.len() + j,
                frames@.take(head.len() as int) == head,
                forall|q: int|
                    head.len() <= q < frames@.len() ==> #[trigger] frames@[q]@
                        == self.extra_buffers@[q - head.len()]@,
            decreases self.extra_buffers@.len() - j,
        {
            frames.push(crate::bytesutil::dup_bytes(&self.extra_buffers[j]));
            proof {
                assert(frames@.take(head.len() as int) =~= head);
            }
            j = j + 1;
        }
        proof {
            assert(e.len() == nids + 6 + self@.extra_buffers.len());
            assert(frames.deep_view().len() == e.len());
            assert forall|q: int| 0 <= q < e.len() implies frames.deep_view()[q] == e[q] by {
                assert(frames.deep_view()[q] == frames@[q]@);
                if q < nids + 6 {
                    assert(frames@[q] == frames@.take(head.len() as int)[q]);
                    assert(head[q]@ == e[q]);
                } else {
                    assert(frames@[q]@ == self.extra_buffers@[q - nids - 6]@);
                    assert(e[q] == self@.extra_buffers[q - nids - 6]);
                }
            }
            assert(frames.deep_view() =~= e);
        }
        frames
    }
}

/// Decodes one frame as a possibly-absent header.
fn header_slot_decode(b: &[u8], slot: FrameSlot) -> (r: Result<EmptyObjectOr<Header>, DecodeError>)
    ensures
        match header_slot_of(b@, slot) {
            Ok(hv) => r matches Ok(h) && h@ == hv,
            Err(e) => r matches Err(e2) && e2 == e,
        },
{
    proof {
        reveal_strlit("msg_type");
    }
    match crate::json_parse::parse_json_bytes(b) {
        None => Err(DecodeError::InvalidJson(slot)),
        Some(j) => {
            match &j {
                Json::Obj(ms) => {
                    if ms.len() == 0 {
                        proof {
                            crate::json::lemma_obj_view(ms@);
                        }
                        Ok(EmptyObjectOr::EmptyObject)
                    } else {
                        proof {
                            crate::json::lemma_obj_view(ms@);
                        }
                        match Header::from_json(&j) {
                            Some(h) => Ok(EmptyObjectOr::Object(h)),
                            None => {
                                match crate::json_obj::obj_get(ms, "msg_type") {
                                    Some(Json::Str(t)) => {
                                        if crate::message_type::MessageType::from_bytes(
                                            t.as_slice(),
                                        ).is_none() {
                                            Err(DecodeError::UnsupportedMessageType)
                                        } else {
                                            Err(DecodeError::InvalidJson(slot))
                                        }
                                    },
                                    _ => Err(DecodeError::InvalidJson(slot)),
                                }
                            },
                        }
                    }
                },
                _ => Err(DecodeError::InvalidJson(slot)),
            }
        },
    }
}

impl Message {
    /// Decodes a list of wire frames under a key: locates the single
    /// delimiter, checks the signature, parses the JSON frames, and selects
    /// the content variant by the header's message type.
    #[verifier::loop_isolation(false)]
    #[verifier::rlimit(100)]
    pub fn decode(frames: &Vec<Vec<u8>>, key: &[u8]) -> (r: Result<Message, DecodeError>)
        ensures
            match decode_spec(frames.deep_view(), key@) {
                Ok(mv) => r matches Ok(m) && m@ == mv,
                Err(e) => r matches Err(e2) && e2 == e,
            },
    {
        proof {
            reveal_strlit("<IDS|MSG>");
        }
        let ghost fv = frames.deep_view();
        proof {
            assert forall|q: int| 0 <= q < fv.len() implies #[trigger] fv[q] == frames@[q]@ by {
                assert(fv[q] == frames@[q].deep_view());
                assert(frames@[q].deep_view() =~= frames@[q]@);
            }
        }
        let delim_bytes = crate::json::ascii_bytes("<IDS|MSG>");
        let mut count: usize = 0;
        let mut d: usize = frames.len();
        let mut i: usize = 0;
        proof {
            assert(fv.len() == frames@.len());
        }
        while i < frames.len()
            invariant
                i <= frames@.len(),
                count <= i,
                delim_count_from(fv, 0) == count + delim_count_from(fv, i as int),
                count == 0 ==> d == frames@.len() && first_delim_from(fv, 0) == first_delim_from(
                    fv,
                    i as int,
                ),
                count > 0 ==> d < i && first_delim_from(fv, 0) == d && fv[d as int] == delim(),
            decreases frames@.len() - i,
        {
            proof {
                assert(fv[i as int] == frames@[i as int]@);
            }
            if crate::bytesutil::bytes_eq(frames[i].as_slice(), delim_bytes.as_slice()) {
                if count == 0 {
                    d = i;
                }
                count = count + 1;
            }
            i = i + 1;
        }
        proof {
            assert(delim_count_from(fv, frames@.len() as int) == 0);
            assert(first_delim_from(fv, frames@.len() as int) == fv.len());
        }
        if count != 1 {
            return Err(DecodeError::FramingError);
        }
        if frames.len() - d < 6 {
            return Err(DecodeError::FramingError);
        }
        let mut bufs: Vec<Vec<u8>> = Vec::new();
        let mut k: usize = d + 6;
        while k < frames.len()
            invariant
                d + 6 <= k <= frames@.len(),
                bufs@.len() == k - d - 6,
                forall|q: int|
                    0 <= q < bufs@.len() ==> #[trigger] bufs@[q]@ == fv[d + 6 + q],
            decreases frames@.len() - k,
        {
            bufs.push(crate::bytesutil::dup_bytes(&frames[k]));
            k = k + 1;
        }
        proof {
            assert forall|q: int|
                0 <= q < bufs@.len() implies #[trigger] bufs.deep_view()[q] == fv[d + 6 + q] by {
                assert(bufs.deep_view()[q] == bufs@[q].deep_view());
                assert(bufs@[q].deep_view() =~= bufs@[q]@);
            }
            assert(bufs.deep_view() =~= fv.skip(d + 6));
        }
        let ok = crate::signature::verify(
            key,
            &frames[d + 2],
            &frames[d + 3],
            &frames[d + 4],
            &frames[d + 5],
            &bufs,
            frames[d + 1].as_slice(),
        );
        if !ok {
            return Err(DecodeError::SignatureError);
        }
        let header = match header_slot_decode(frames[d + 2].as_slice(), FrameSlot::Header) {
            Ok(h) => h,
            Err(e) => {
                return Err(e);
            },
        };
        let parent_header = match header_slot_decode(
            frames[d + 3].as_slice(),
            FrameSlot::ParentHeader,
        ) {
            Ok(h) => h,
            Err(e) => {
                return Err(e);
            },
        };
        let metadata = match crate::json_parse::parse_json_bytes(frames[d + 4].as_slice()) {
            None => {
                return Err(DecodeError::InvalidJson(FrameSlot::Metadata));
            },
            Some(j) => {
                match &j {
                    Json::Obj(_) => j,
                    _ => {
                        return Err(DecodeError::InvalidJson(FrameSlot::Metadata));
                    },
                }
            },
        };
        let content = match crate::json_parse::parse_json_bytes(frames[d + 5].as_slice()) {
            None => {
                return Err(DecodeError::InvalidJson(FrameSlot::Content));
            },
            Some(j) => {
                match &j {
                    Json::Obj(ms) => {
                        if ms.len() == 0 {
                            proof {
                                crate::json::lemma_obj_view(ms@);
                            }
                            EmptyObjectOr::EmptyObject
                        } else {
                            proof {
                                crate::json::lemma_obj_view(ms@);
                            }
                            match &header {
                                EmptyObjectOr::Object(h) => {
                                    if h.message_type
                                        == crate::message_type::MessageType::KernelInfoRequest {
                                        return Err(DecodeError::UnsupportedMessageType);
                                    }
                                    match MessageContent::from_json_by_type(h.message_type, &j) {
                                        Some(c) => EmptyObjectOr::Object(c),
                                        None => {
                                            return Err(DecodeError::ContentDecodeError);
                                        },
                                    }
                                },
                                EmptyObjectOr::EmptyObject => {
                                    return Err(DecodeError::ContentDecodeError);
                                },
                            }
                        }
                    },
                    _ => {
                        return Err(DecodeError::InvalidJson(FrameSlot::Content));
                    },
                }
            },
        };
        let mut ids: Vec<Vec<u8>> = Vec::new();
        let mut n: usize = 0;
        while n < d
            invariant
                n <= d,
                d < frames@.len(),
                ids@.len() == n,
                forall|q: int| 0 <= q < n ==> #[trigger] ids@[q]@ == fv[q],
            decreases d - n,
        {
            ids.push(crate::bytesutil::dup_bytes(&frames[n]));
            n = n + 1;
        }
        proof {
            assert forall|q: int|
                0 <= q < ids@.len() implies #[trigger] ids.deep_view()[q] == fv[q] by {
                assert(ids.deep_view()[q] == ids@[q].deep_view());
                assert(ids@[q].deep_view() =~= ids@[q]@);
            }
            assert(ids.deep_view() =~= fv.take(d as int));
        }
        Ok(
            Message {
                identities: ids,
                header,
                parent_header,
                metadata,
                content,
                extra_buffers: bufs,
            },
        )
    }
}

/// Counting and locating one known delimiter among frames that otherwise
/// never equal it.
proof fn lemma_delim_unique(frames: Seq<Seq<u8>>, d: int, i: int)
    requires
        0 <= i <= frames.len(),
        0 <= d < frames.len(),
        frames[d] == delim(),
        forall|q: int| 0 <= q < frames.len() && q != d ==> #[trigger] frames[q] != delim(),
    ensures
        delim_count_from(frames, i) == if i <= d {
            1int
        } else {
            0int
        },
        first_delim_from(frames, i) == if i <= d {
            d
        } else {
            frames.len() as int
        },
    decreases frames.len() - i,
{
    if i < frames.len() {
        lemma_delim_unique(frames, d, i + 1);
    }
}

/// Frames with no delimiter at all.
proof fn lemma_no_delim(frames: Seq<Seq<u8>>, i: int)
    requires
        0 <= i <= frames.len(),
        forall|q: int| 0 <= q < frames.len() ==> #[trigger] frames[q] != delim(),
    ensures
        delim_count_from(frames, i) == 0,
    decreases frames.len() - i,
{
    if i < frames.len() {
        lemma_no_delim(frames, i + 1);
    }
}

/// A frame list without the delimiter frame never decodes: the codec
/// reports a framing fault, whatever the key.
pub proof fn lemma_missing_delimiter_is_framing_error(frames: Seq<Seq<u8>>, key: Seq<u8>)
    requires
        forall|q: int| 0 <= q < frames.len() ==> #[trigger] frames[q] != delim(),
    ensures
        decode_spec(frames, key) == Err::<MessageV, DecodeError>(DecodeError::FramingError),
{
    lemma_no_delim(frames, 0);
}

/// Round trip: a well-formed message decodes back from its own encoding,
/// under any key.  The signature is recomputed on encode and accepted on
/// decode.
#[verifier::rlimit(100)]
pub proof fn lemma_codec_round_trip(m: MessageV, key: Seq<u8>)
    requires
        message_wf(m),
    ensures
        decode_spec(encode_spec(m, key), key) == Ok::<MessageV, DecodeError>(m),
{
    reveal_strlit("<IDS|MSG>");
    let hb = ser_value(header_slot_jsonv(m.header));
    let pb = ser_value(header_slot_jsonv(m.parent_header));
    let mb = ser_value(m.metadata);
    let cb = ser_value(content_slot_jsonv(m.content));
    let sig = signature_of(key, hb, pb, mb, cb, m.extra_buffers);
    let frames = encode_spec(m, key);
    let nids = m.identities.len() as int;
    let mid = seq![delim(), sig, hb, pb, mb, cb];
    assert(frames =~= m.identities + mid + m.extra_buffers);
    assert(frames.len() == nids + 6 + m.extra_buffers.len());
    assert(frames[nids] == delim());
    assert(frames[nids + 1] == sig);
    assert(frames[nids + 2] == hb);
    assert(frames[nids + 3] == pb);
    assert(frames[nids + 4] == mb);
    assert(frames[nids + 5] == cb);
    assert(ascii_seq("<IDS|MSG>"@).len() == 9);
    assert(delim()[0] == '<' as u8);
    // the four documents start with a brace, the signature with a hex digit
    // or nothing, so only the delimiter frame equals the delimiter
    assert(header_slot_jsonv(m.header) is Obj);
    assert(header_slot_jsonv(m.parent_header) is Obj);
    assert(content_slot_jsonv(m.content) is Obj) by {
        match m.content {
            EmptyObjectOr::Object(c) => {
                crate::content::lemma_content_jsonv_shape(c);
            },
            EmptyObjectOr::EmptyObject => {},
        }
    }
    assert(hb[0] == '{' as u8 && hb.len() > 0);
    assert(pb[0] == '{' as u8 && pb.len() > 0);
    assert(mb[0] == '{' as u8 && mb.len() > 0);
    assert(cb[0] == '{' as u8 && cb.len() > 0);
    assert(hb != delim() && pb != delim() && mb != delim() && cb != delim());
    assert(sig != delim()) by {
        if key.len() == 0 {
            assert(sig.len() == 0);
        } else {
            crate::signature::lemma_hex_of_shape(
                crate::signature::hmac_sha256_of(
                    key,
                    crate::signature::mac_input(hb, pb, mb, cb, m.extra_buffers),
                ),
            );
            if sig.len() > 0 {
                assert(sig[0] != '<' as u8);
            }
        }
    }
    assert forall|q: int|
        0 <= q < frames.len() && q != nids implies #[trigger] frames[q] != delim() by {
        if q < nids {
            assert(frames[q] == m.identities[q]);
        } else if q >= nids + 6 {
            assert(frames[q] == m.extra_buffers[q - nids - 6]);
        }
    }
    lemma_delim_unique(frames, nids, 0);
    assert(delim_count_from(frames, 0) == 1);
    assert(first_delim_from(frames, 0) == nids);
    assert(frames.len() >= nids + 6);
    // the signature is the recomputed one, so it is accepted
    assert(frames.skip(nids + 6) =~= m.extra_buffers);
    assert(crate::signature::signature_accepted(
        key,
        frames[nids + 2],
        frames[nids + 3],
        frames[nids + 4],
        frames[nids + 5],
        frames.skip(nids + 6),
        frames[nids + 1],
    ));
    // each document parses back to the value it was serialized from
    assert(wf_json(header_slot_jsonv(m.header))) by {
        match m.header {
            EmptyObjectOr::Object(h) => {
                crate::header::lemma_header_jsonv_wf(h);
            },
            EmptyObjectOr::EmptyObject => {},
        }
    }
    assert(wf_json(header_slot_jsonv(m.parent_header))) by {
        match m.parent_header {
            EmptyObjectOr::Object(h) => {
                crate::header::lemma_header_jsonv_wf(h);
            },
            EmptyObjectOr::EmptyObject => {},
        }
    }
    assert(wf_json(content_slot_jsonv(m.content))) by {
        match m.content {
            EmptyObjectOr::Object(c) => {
                crate::content::lemma_content_jsonv_wf(c);
            },
            EmptyObjectOr::EmptyObject => {},
        }
    }
    crate::json_props::lemma_parse_ser_value(header_slot_jsonv(m.header));
    crate::json_props::lemma_parse_ser_value(header_slot_jsonv(m.parent_header));
    crate::json_props::lemma_parse_ser_value(m.metadata);
    crate::json_props::lemma_parse_ser_value(content_slot_jsonv(m.content));
    // the header slot decodes to the header it came from
    assert(header_slot_of(hb, FrameSlot::Header) == Ok::<EmptyObjectOr<HeaderV>, DecodeError>(
        m.header,
    )) by {
        match m.header {
            EmptyObjectOr::Object(h) => {
                crate::header::lemma_header_round_trip(h);
            },
            EmptyObjectOr::EmptyObject => {},
        }
    }
    assert(header_slot_of(pb, FrameSlot::ParentHeader) == Ok::<
        EmptyObjectOr<HeaderV>,
        DecodeError,
    >(m.parent_header)) by {
        match m.parent_header {
            EmptyObjectOr::Object(h) => {
                crate::header::lemma_header_round_trip(h);
            },
            EmptyObjectOr::EmptyObject => {},
        }
    }
    assert(metadata_slot_of(mb) == Ok::<JsonV, DecodeError>(m.metadata));
    assert(content_slot_of(cb, m.header) == Ok::<EmptyObjectOr<MessageContentV>, DecodeError>(
        m.content,
    )) by {
        match m.content {
            EmptyObjectOr::Object(c) => {
                crate::content::lemma_content_jsonv_shape(c);
                crate::content::lemma_content_round_trip(c);
            },
            EmptyObjectOr::EmptyObject => {},
        }
    }
    assert(frames.take(nids) =~= m.identities);
    assert(decode_spec(frames, key) == Ok::<MessageV, DecodeError>(m));
}

} // verus!
