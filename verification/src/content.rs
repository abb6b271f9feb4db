//! The closed union of message contents, selected by the header's message
//! type when decoding a received message, and serialized variant by variant.

use vstd::prelude::*;

use crate::content_comm::{
    comm_close_jsonv, comm_close_of_jsonv, comm_msg_jsonv, comm_msg_of_jsonv, comm_open_jsonv,
    comm_open_of_jsonv, CommClose, CommCloseV, CommMsg, CommMsgV, CommOpen, CommOpenV,
};
use crate::content_execute::{
    execute_input_jsonv, execute_input_of_jsonv, execute_reply_jsonv, execute_reply_of_jsonv,
    execute_request_jsonv, execute_request_of_jsonv, execute_result_jsonv,
    execute_result_of_jsonv, stream_jsonv, stream_of_jsonv, ExecuteInputPublication,
    ExecuteInputPublicationV, ExecuteReply, ExecuteReplyV, ExecuteRequest, ExecuteRequestV,
    ExecuteResultPublication, ExecuteResultPublicationV, StreamPublication, StreamPublicationV,
};
use crate::content_history::{
    history_request_jsonv, history_request_of_jsonv, HistoryRequest, HistoryRequestV,
};
use crate::content_is_complete::{
    is_complete_reply_jsonv, is_complete_reply_of_jsonv, is_complete_request_jsonv,
    is_complete_request_of_jsonv, IsCompleteReply, IsCompleteReplyV, IsCompleteRequest,
    IsCompleteRequestV,
};
use crate::content_kernel_info::{
    kernel_info_jsonv, kernel_info_of_jsonv, KernelInfoReply, KernelInfoReplyV,
};
use crate::content_status::{
    status_jsonv, status_of_jsonv, StatusPublication, StatusPublicationV,
};
use crate::json::{wf_json, Json, JsonV};
use crate::message_type::MessageType;

verus! {

broadcast use {vstd::std_specs::vec::group_vec_axioms, vstd::seq::group_seq_axioms};

pub enum MessageContent {
    KernelInfoReply(KernelInfoReply),
    HistoryRequest(HistoryRequest),
    ExecuteRequest(ExecuteRequest),
    ExecuteReply(ExecuteReply),
    ExecuteInputPublication(ExecuteInputPublication),
    ExecuteResultPublication(ExecuteResultPublication),
    StatusPublication(StatusPublication),
    StreamPublication(StreamPublication),
    IsCompleteRequest(IsCompleteRequest),
    IsCompleteReply(IsCompleteReply),
    CommOpen(CommOpen),
    CommClose(CommClose),
    CommMsg(CommMsg),
}

pub ghost enum MessageContentV {
    KernelInfoReply(KernelInfoReplyV),
    HistoryRequest(HistoryRequestV),
    ExecuteRequest(ExecuteRequestV),
    ExecuteReply(ExecuteReplyV),
    ExecuteInputPublication(ExecuteInputPublicationV),
    ExecuteResultPublication(ExecuteResultPublicationV),
    StatusPublication(StatusPublicationV),
    StreamPublication(StreamPublicationV),
    IsCompleteRequest(IsCompleteRequestV),
    IsCompleteReply(IsCompleteReplyV),
    CommOpen(CommOpenV),
    CommClose(CommCloseV),
    CommMsg(CommMsgV),
}

impl View for MessageContent {
    type V = MessageContentV;

    open spec fn view(&self) -> MessageContentV {
        match self {
            MessageContent::KernelInfoReply(c) => MessageContentV::KernelInfoReply(c@),
            MessageContent::HistoryRequest(c) => MessageContentV::HistoryRequest(c@),
            MessageContent::ExecuteRequest(c) => MessageContentV::ExecuteRequest(c@),
            MessageContent::ExecuteReply(c) => MessageContentV::ExecuteReply(c@),
            MessageContent::ExecuteInputPublication(c) => MessageContentV::ExecuteInputPublication(
                c@,
            ),
            MessageContent::ExecuteResultPublication(c) => MessageContentV::ExecuteResultPublication(
                c@,
            ),
            MessageContent::StatusPublication(c) => MessageContentV::StatusPublication(c@),
            MessageContent::StreamPublication(c) => MessageContentV::StreamPublication(c@),
            MessageContent::IsCompleteRequest(c) => MessageContentV::IsCompleteRequest(c@),
            MessageContent::IsCompleteReply(c) => MessageContentV::IsCompleteReply(c@),
            MessageContent::CommOpen(c) => MessageContentV::CommOpen(c@),
            MessageContent::CommClose(c) => MessageContentV::CommClose(c@),
            MessageContent::CommMsg(c) => MessageContentV::CommMsg(c@),
        }
    }
}

/// The message type a content variant travels under.
pub open spec fn content_type(c: MessageContentV) -> MessageType {
    match c {
        MessageContentV::KernelInfoReply(_) => MessageType::KernelInfoReply,
        MessageContentV::HistoryRequest(_) => MessageType::HistoryRequest,
        MessageContentV::ExecuteRequest(_) => MessageType::ExecuteRequest,
        MessageContentV::ExecuteReply(_) => MessageType::ExecuteReply,
        MessageContentV::ExecuteInputPublication(_) => MessageType::ExecuteInput,
        MessageContentV::ExecuteResultPublication(_) => MessageType::ExecuteResult,
        MessageContentV::StatusPublication(_) => MessageType::Status,
        MessageContentV::StreamPublication(_) => MessageType::Stream,
        MessageContentV::IsCompleteRequest(_) => MessageType::IsCompleteRequest,
        MessageContentV::IsCompleteReply(_) => MessageType::IsCompleteReply,
        MessageContentV::CommOpen(_) => MessageType::CommOpen,
        MessageContentV::CommClose(_) => MessageType::CommClose,
        MessageContentV::CommMsg(_) => MessageType::CommMsg,
    }
}

/// The JSON document a content serializes to.
pub open spec fn content_jsonv(c: MessageContentV) -> JsonV {
    match c {
        MessageContentV::KernelInfoReply(x) => kernel_info_jsonv(x),
        MessageContentV::HistoryRequest(x) => history_request_jsonv(x),
        MessageContentV::ExecuteRequest(x) => execute_request_jsonv(x),
        MessageContentV::ExecuteReply(x) => execute_reply_jsonv(x),
        MessageContentV::ExecuteInputPublication(x) => execute_input_jsonv(x),
        MessageContentV::ExecuteResultPublication(x) => execute_result_jsonv(x),
        MessageContentV::StatusPublication(x) => status_jsonv(x),
        MessageContentV::StreamPublication(x) => stream_jsonv(x),
        MessageContentV::IsCompleteRequest(x) => is_complete_request_jsonv(x),
        MessageContentV::IsCompleteReply(x) => is_complete_reply_jsonv(x),
        MessageContentV::CommOpen(x) => comm_open_jsonv(x),
        MessageContentV::CommClose(x) => comm_close_jsonv(x),
        MessageContentV::CommMsg(x) => comm_msg_jsonv(x),
    }
}

/// Whether a message type has a content variant at all.  A
/// `kernel_info_request` carries only the empty object.
pub open spec fn type_has_content(t: MessageType) -> bool {
    t != MessageType::KernelInfoRequest
}

/// Decodes a content document as the variant the message type calls for.
pub open spec fn content_of_jsonv_by_type(t: MessageType, j: JsonV) -> Option<MessageContentV> {
    match t {
        MessageType::KernelInfoReply => match kernel_info_of_jsonv(j) {
            Some(x) => Some(MessageContentV::KernelInfoReply(x)),
            None => None,
        },
        MessageType::HistoryRequest => match history_request_of_jsonv(j) {
            Some(x) => Some(MessageContentV::HistoryRequest(x)),
            None => None,
        },
        MessageType::ExecuteRequest => match execute_request_of_jsonv(j) {
            Some(x) => Some(MessageContentV::ExecuteRequest(x)),
            None => None,
        },
        MessageType::ExecuteReply => match execute_reply_of_jsonv(j) {
            Some(x) => Some(MessageContentV::ExecuteReply(x)),
            None => None,
        },
        MessageType::ExecuteInput => match execute_input_of_jsonv(j) {
            Some(x) => Some(MessageContentV::ExecuteInputPublication(x)),
            None => None,
        },
        MessageType::ExecuteResult => match execute_result_of_jsonv(j) {
            Some(x) => Some(MessageContentV::ExecuteResultPublication(x)),
            None => None,
        },
        MessageType::Status => match status_of_jsonv(j) {
            Some(x) => Some(MessageContentV::StatusPublication(x)),
            None => None,
        },
        MessageType::Stream => match stream_of_jsonv(j) {
            Some(x) => Some(MessageContentV::StreamPublication(x)),
            None => None,
        },
        MessageType::IsCompleteRequest => match is_complete_request_of_jsonv(j) {
            Some(x) => Some(MessageContentV::IsCompleteRequest(x)),
            None => None,
        },
        MessageType::IsCompleteReply => match is_complete_reply_of_jsonv(j) {
            Some(x) => Some(MessageContentV::IsCompleteReply(x)),
            None => None,
        },
        MessageType::CommOpen => match comm_open_of_jsonv(j) {
            Some(x) => Some(MessageContentV::CommOpen(x)),
            None => None,
        },
        MessageType::CommClose => match comm_close_of_jsonv(j) {
            Some(x) => Some(MessageContentV::CommClose(x)),
            None => None,
        },
        MessageType::CommMsg => match comm_msg_of_jsonv(j) {
            Some(x) => Some(MessageContentV::CommMsg(x)),
            None => None,
        },
        MessageType::KernelInfoRequest => None,
    }
}

/// Structural constraints beyond the field types: free-form JSON payloads
/// must be well-formed documents, and object-shaped where the wire requires
/// an object.
pub open spec fn content_wf(c: MessageContentV) -> bool {
    match c {
        MessageContentV::ExecuteReply(x) => match x.payload {
            Some(p) => p is Arr && wf_json(p),
            None => true,
        },
        MessageContentV::ExecuteResultPublication(x) => wf_json(x.data) && x.metadata is Obj
            && wf_json(x.metadata),
        MessageContentV::CommOpen(x) => wf_json(x.data),
        MessageContentV::CommClose(x) => x.data is Obj && wf_json(x.data),
        MessageContentV::CommMsg(x) => x.data is Obj && wf_json(x.data),
        MessageContentV::HistoryRequest(x) => {
            &&& (x.kernel_session matches Some(i) ==> i64::MIN <= i <= i64::MAX)
            &&& (x.line_start matches Some(i) ==> i64::MIN <= i <= i64::MAX)
            &&& (x.line_stop matches Some(i) ==> i64::MIN <= i <= i64::MAX)
        },
        _ => true,
    }
}

/// The serialized form of a well-formed content is a well-formed JSON
/// document, so its byte form parses back.
#[verifier::rlimit(100)]
pub proof fn lemma_content_jsonv_wf(c: MessageContentV)
    requires
        content_wf(c),
    ensures
        wf_json(content_jsonv(c)),
{
    match c {
        MessageContentV::KernelInfoReply(x) => {
            lemma_language_info_wf(x.language_info);
            let links = Seq::new(x.help_links.len(), |i: int| crate::content_kernel_info::link_jsonv(x.help_links[i]));
            assert forall|i: int| 0 <= i < links.len() implies wf_json(#[trigger] links[i]) by {
                let lm = seq![
                    (crate::json::ascii_seq("text"@), JsonV::Str(x.help_links[i].text)),
                    (crate::json::ascii_seq("url"@), JsonV::Str(x.help_links[i].url)),
                ];
                crate::json::lemma_wf_json_obj(lm);
            }
            crate::json::lemma_wf_json_arr(links);
            let ms = match content_jsonv(c) {
                JsonV::Obj(ms) => ms,
                _ => Seq::empty(),
            };
            crate::json::lemma_wf_json_obj(ms);
        },
        MessageContentV::HistoryRequest(x) => {
            crate::decimal::lemma_dec_digits_token(x.number_of_items as nat);
            crate::decimal::lemma_dec_token_is_number_token(
                crate::decimal::dec_digits(x.number_of_items as nat),
            );
            let base = crate::content_history::history_request_base(x);
            crate::json::lemma_wf_json_obj(base);
            assert forall|i: int| 0 <= i < base.len() implies wf_json(#[trigger] base[i].1) by {}
            assert(crate::json::wf_json_obj(base));
            let ms = match content_jsonv(c) {
                JsonV::Obj(ms) => ms,
                _ => Seq::empty(),
            };
            lemma_wf_opt_num_chain(x, base, ms);
        },
        MessageContentV::ExecuteRequest(x) => {
            lemma_strmap_wf(x.user_expressions);
            let ms = match content_jsonv(c) {
                JsonV::Obj(ms) => ms,
                _ => Seq::empty(),
            };
            crate::json::lemma_wf_json_obj(ms);
        },
        MessageContentV::ExecuteReply(x) => {
            crate::decimal::lemma_dec_digits_token(x.execution_count as nat);
            crate::decimal::lemma_dec_token_is_number_token(
                crate::decimal::dec_digits(x.execution_count as nat),
            );
            let base = seq![
                (
                    crate::json::ascii_seq("status"@),
                    JsonV::Str(crate::content_execute::execute_status_token(x.status)),
                ),
                (
                    crate::json::ascii_seq("execution_count"@),
                    JsonV::Num(crate::decimal::dec_digits(x.execution_count as nat)),
                ),
            ];
            crate::json::lemma_wf_json_obj(base);
            assert(crate::json::wf_json_obj(base));
            let with_payload = match x.payload {
                Some(p) => base.push((crate::json::ascii_seq("payload"@), p)),
                None => base,
            };
            match x.payload {
                Some(p) => {
                    crate::json::lemma_wf_json_obj_push(
                        base,
                        (crate::json::ascii_seq("payload"@), p),
                    );
                },
                None => {},
            }
            assert(crate::json::wf_json_obj(with_payload));
            match x.user_expressions {
                Some(ue) => {
                    lemma_strmap_wf(ue);
                    crate::json::lemma_wf_json_obj_push(
                        with_payload,
                        (
                            crate::json::ascii_seq("user_expressions"@),
                            crate::json_obj::strmap_jsonv(ue),
                        ),
                    );
                },
                None => {},
            }
        },
        MessageContentV::ExecuteInputPublication(x) => {
            crate::decimal::lemma_dec_digits_token(x.execution_count as nat);
            crate::decimal::lemma_dec_token_is_number_token(
                crate::decimal::dec_digits(x.execution_count as nat),
            );
            let ms = match content_jsonv(c) {
                JsonV::Obj(ms) => ms,
                _ => Seq::empty(),
            };
            crate::json::lemma_wf_json_obj(ms);
        },
        MessageContentV::ExecuteResultPublication(x) => {
            crate::decimal::lemma_dec_digits_token(x.execution_count as nat);
            crate::decimal::lemma_dec_token_is_number_token(
                crate::decimal::dec_digits(x.execution_count as nat),
            );
            let ms = match content_jsonv(c) {
                JsonV::Obj(ms) => ms,
                _ => Seq::empty(),
            };
            crate::json::lemma_wf_json_obj(ms);
        },
        MessageContentV::StatusPublication(x) => {
            let ms = match content_jsonv(c) {
                JsonV::Obj(ms) => ms,
                _ => Seq::empty(),
            };
            crate::json::lemma_wf_json_obj(ms);
        },
        MessageContentV::StreamPublication(x) => {
            let ms = match content_jsonv(c) {
                JsonV::Obj(ms) => ms,
                _ => Seq::empty(),
            };
            crate::json::lemma_wf_json_obj(ms);
        },
        MessageContentV::IsCompleteRequest(x) => {
            let ms = match content_jsonv(c) {
                JsonV::Obj(ms) => ms,
                _ => Seq::empty(),
            };
            crate::json::lemma_wf_json_obj(ms);
        },
        MessageContentV::IsCompleteReply(x) => {
            let ms = match content_jsonv(c) {
                JsonV::Obj(ms) => ms,
                _ => Seq::empty(),
            };
            crate::json::lemma_wf_json_obj(ms);
        },
        MessageContentV::CommOpen(x) => {
            let ms = match content_jsonv(c) {
                JsonV::Obj(ms) => ms,
                _ => Seq::empty(),
            };
            crate::json::lemma_wf_json_obj(ms);
        },
        MessageContentV::CommClose(x) => {
            let ms = match content_jsonv(c) {
                JsonV::Obj(ms) => ms,
                _ => Seq::empty(),
            };
            crate::json::lemma_wf_json_obj(ms);
        },
        MessageContentV::CommMsg(x) => {
            let ms = match content_jsonv(c) {
                JsonV::Obj(ms) => ms,
                _ => Seq::empty(),
            };
            crate::json::lemma_wf_json_obj(ms);
        },
    }
}

/// Every value of a string map document is a string, so the document is
/// well-formed.
proof fn lemma_strmap_wf(ps: Seq<(Seq<u8>, Seq<u8>)>)
    ensures
        wf_json(crate::json_obj::strmap_jsonv(ps)),
{
    let ms = Seq::new(ps.len(), |i: int| (ps[i].0, JsonV::Str(ps[i].1)));
    crate::json::lemma_wf_json_obj(ms);
    assert forall|i: int| 0 <= i < ms.len() implies wf_json(#[trigger] ms[i].1) by {}
}

/// Every member of a serialized language descriptor is a string.
proof fn lemma_language_info_wf(x: crate::content_kernel_info::LanguageInfoV)
    ensures
        wf_json(crate::content_kernel_info::language_info_jsonv(x)),
{
    let base = crate::content_kernel_info::language_info_base(x);
    crate::json::lemma_wf_json_obj(base);
    assert forall|i: int| 0 <= i < base.len() implies wf_json(#[trigger] base[i].1) by {}
    assert(crate::json::wf_json_obj(base));
    let ms1 = crate::json_obj::push_opt(
        base,
        crate::json::ascii_seq("pygments_lexer"@),
        crate::content_kernel_info::opt_str_jsonv(x.pygments_lexer),
    );
    match x.pygments_lexer {
        Some(s) => {
            crate::json::lemma_wf_json_obj_push(
                base,
                (crate::json::ascii_seq("pygments_lexer"@), JsonV::Str(s)),
            );
        },
        None => {},
    }
    assert(crate::json::wf_json_obj(ms1));
    let ms2 = crate::json_obj::push_opt(
        ms1,
        crate::json::ascii_seq("codemirror_mode"@),
        crate::content_kernel_info::opt_str_jsonv(x.codemirror_mode),
    );
    match x.codemirror_mode {
        Some(s) => {
            crate::json::lemma_wf_json_obj_push(
                ms1,
                (crate::json::ascii_seq("codemirror_mode"@), JsonV::Str(s)),
            );
        },
        None => {},
    }
    assert(crate::json::wf_json_obj(ms2));
    match x.nbconvert_exporter {
        Some(s) => {
            crate::json::lemma_wf_json_obj_push(
                ms2,
                (crate::json::ascii_seq("nbconvert_exporter"@), JsonV::Str(s)),
            );
        },
        None => {},
    }
}

/// The optional signed-integer members of a history request are well-formed
/// number tokens.
proof fn lemma_wf_opt_num_chain(
    x: HistoryRequestV,
    base: Seq<(Seq<u8>, JsonV)>,
    ms: Seq<(Seq<u8>, JsonV)>,
)
    requires
        crate::json::wf_json_obj(base),
        x.kernel_session matches Some(i) ==> i64::MIN <= i <= i64::MAX,
        x.line_start matches Some(i) ==> i64::MIN <= i <= i64::MAX,
        x.line_stop matches Some(i) ==> i64::MIN <= i <= i64::MAX,
        base == crate::content_history::history_request_base(x),
        JsonV::Obj(ms) == history_request_jsonv(x),
    ensures
        crate::json::wf_json_obj(ms),
{
    let ms1 = crate::json_obj::push_opt(
        base,
        crate::json::ascii_seq("session"@),
        match x.kernel_session {
            Some(i) => Some(JsonV::Num(crate::decimal::int_token(i))),
            None => None,
        },
    );
    match x.kernel_session {
        Some(i) => {
            crate::decimal::lemma_int_token_is_number_token(i);
            crate::json::lemma_wf_json_obj_push(
                base,
                (crate::json::ascii_seq("session"@), JsonV::Num(crate::decimal::int_token(i))),
            );
        },
        None => {},
    }
    assert(crate::json::wf_json_obj(ms1));
    let ms2 = crate::json_obj::push_opt(
        ms1,
        crate::json::ascii_seq("start"@),
        match x.line_start {
            Some(i) => Some(JsonV::Num(crate::decimal::int_token(i))),
            None => None,
        },
    );
    match x.line_start {
        Some(i) => {
            crate::decimal::lemma_int_token_is_number_token(i);
            crate::json::lemma_wf_json_obj_push(
                ms1,
                (crate::json::ascii_seq("start"@), JsonV::Num(crate::decimal::int_token(i))),
            );
        },
        None => {},
    }
    assert(crate::json::wf_json_obj(ms2));
    let ms3 = crate::json_obj::push_opt(
        ms2,
        crate::json::ascii_seq("stop"@),
        match x.line_stop {
            Some(i) => Some(JsonV::Num(crate::decimal::int_token(i))),
            None => None,
        },
    );
    match x.line_stop {
        Some(i) => {
            crate::decimal::lemma_int_token_is_number_token(i);
            crate::json::lemma_wf_json_obj_push(
                ms2,
                (crate::json::ascii_seq("stop"@), JsonV::Num(crate::decimal::int_token(i))),
            );
        },
        None => {},
    }
    assert(crate::json::wf_json_obj(ms3));
    let ms4 = crate::json_obj::push_opt(
        ms3,
        crate::json::ascii_seq("pattern"@),
        match x.search_pattern {
            Some(p) => Some(JsonV::Str(p)),
            None => None,
        },
    );
    match x.search_pattern {
        Some(p) => {
            crate::json::lemma_wf_json_obj_push(
                ms3,
                (crate::json::ascii_seq("pattern"@), JsonV::Str(p)),
            );
        },
        None => {},
    }
    assert(crate::json::wf_json_obj(ms4));
    match x.unique {
        Some(b) => {
            crate::json::lemma_wf_json_obj_push(
                ms4,
                (crate::json::ascii_seq("unique"@), JsonV::Bool(b)),
            );
        },
        None => {},
    }
}

/// Every serialized content is a nonempty JSON object, and no content
/// travels as a `kernel_info_request`.
pub proof fn lemma_content_jsonv_shape(c: MessageContentV)
    ensures
        content_jsonv(c) matches JsonV::Obj(ms) && ms.len() > 0,
        content_type(c) != MessageType::KernelInfoRequest,
{
    match c {
        MessageContentV::HistoryRequest(x) => {
            let base = crate::content_history::history_request_base(x);
            assert(base.len() == 4);
        },
        MessageContentV::ExecuteReply(x) => {},
        _ => {},
    }
}

/// A well-formed content decodes back from its own serialization, under its
/// own message type.
pub proof fn lemma_content_round_trip(c: MessageContentV)
    requires
        content_wf(c),
    ensures
        content_of_jsonv_by_type(content_type(c), content_jsonv(c)) == Some(c),
{
    match c {
        MessageContentV::KernelInfoReply(x) => {
            crate::content_kernel_info::lemma_kernel_info_round_trip(x);
        },
        MessageContentV::HistoryRequest(x) => {
            crate::content_history::lemma_history_request_round_trip(x);
        },
        MessageContentV::ExecuteRequest(x) => {
            crate::content_execute::lemma_execute_request_round_trip(x);
        },
        MessageContentV::ExecuteReply(x) => {
            crate::content_execute::lemma_execute_reply_round_trip(x);
        },
        MessageContentV::ExecuteInputPublication(x) => {
            crate::content_execute::lemma_execute_input_round_trip(x);
        },
        MessageContentV::ExecuteResultPublication(x) => {
            crate::content_execute::lemma_execute_result_round_trip(x);
        },
        MessageContentV::StatusPublication(x) => {
            crate::content_status::lemma_status_round_trip(x);
        },
        MessageContentV::StreamPublication(x) => {
            crate::content_execute::lemma_stream_round_trip(x);
        },
        MessageContentV::IsCompleteRequest(x) => {
            crate::content_is_complete::lemma_is_complete_request_round_trip(x);
        },
        MessageContentV::IsCompleteReply(x) => {
            crate::content_is_complete::lemma_is_complete_reply_round_trip(x);
        },
        MessageContentV::CommOpen(x) => {
            crate::content_comm::lemma_comm_open_round_trip(x);
        },
        MessageContentV::CommClose(x) => {
            crate::content_comm::lemma_comm_close_round_trip(x);
        },
        MessageContentV::CommMsg(x) => {
            crate::content_comm::lemma_comm_msg_round_trip(x);
        },
    }
}

/// Decodes a content document structurally, trying each variant in the
/// order the wire model lists them.  This is for stand-alone introspection
/// only; a received message's variant is always selected by its header's
/// message type.
pub open spec fn content_of_jsonv_structural(j: JsonV) -> Option<MessageContentV> {
    if kernel_info_of_jsonv(j) is Some {
        Some(MessageContentV::KernelInfoReply(kernel_info_of_jsonv(j).unwrap()))
    } else if history_request_of_jsonv(j) is Some {
        Some(MessageContentV::HistoryRequest(history_request_of_jsonv(j).unwrap()))
    } else if execute_request_of_jsonv(j) is Some {
        Some(MessageContentV::ExecuteRequest(execute_request_of_jsonv(j).unwrap()))
    } else if execute_reply_of_jsonv(j) is Some {
        Some(MessageContentV::ExecuteReply(execute_reply_of_jsonv(j).unwrap()))
    } else if execute_input_of_jsonv(j) is Some {
        Some(MessageContentV::ExecuteInputPublication(execute_input_of_jsonv(j).unwrap()))
    } else if execute_result_of_jsonv(j) is Some {
        Some(MessageContentV::ExecuteResultPublication(execute_result_of_jsonv(j).unwrap()))
    } else if status_of_jsonv(j) is Some {
        Some(MessageContentV::StatusPublication(status_of_jsonv(j).unwrap()))
    } else if stream_of_jsonv(j) is Some {
        Some(MessageContentV::StreamPublication(stream_of_jsonv(j).unwrap()))
    } else if is_complete_request_of_jsonv(j) is Some {
        Some(MessageContentV::IsCompleteRequest(is_complete_request_of_jsonv(j).unwrap()))
    } else if is_complete_reply_of_jsonv(j) is Some {
        Some(MessageContentV::IsCompleteReply(is_complete_reply_of_jsonv(j).unwrap()))
    } else if comm_open_of_jsonv(j) is Some {
        Some(MessageContentV::CommOpen(comm_open_of_jsonv(j).unwrap()))
    } else if comm_close_of_jsonv(j) is Some {
        Some(MessageContentV::CommClose(comm_close_of_jsonv(j).unwrap()))
    } else if comm_msg_of_jsonv(j) is Some {
        Some(MessageContentV::CommMsg(comm_msg_of_jsonv(j).unwrap()))
    } else {
        None
    }
}

impl MessageContent {
    /// Decodes a content document structurally, for stand-alone
    /// introspection.
    pub fn from_json_structural(j: &Json) -> (r: Option<MessageContent>)
        ensures
            match content_of_jsonv_structural(j@) {
                None => r is None,
                Some(cv) => r matches Some(c) && c@ == cv,
            },
    {
        if let Some(x) = KernelInfoReply::from_json(j) {
            return Some(MessageContent::KernelInfoReply(x));
        }
        if let Some(x) = HistoryRequest::from_json(j) {
            return Some(MessageContent::HistoryRequest(x));
        }
        if let Some(x) = ExecuteRequest::from_json(j) {
            return Some(MessageContent::ExecuteRequest(x));
        }
        if let Some(x) = ExecuteReply::from_json(j) {
            return Some(MessageContent::ExecuteReply(x));
        }
        if let Some(x) = ExecuteInputPublication::from_json(j) {
            return Some(MessageContent::ExecuteInputPublication(x));
        }
        if let Some(x) = ExecuteResultPublication::from_json(j) {
            return Some(MessageContent::ExecuteResultPublication(x));
        }
        if let Some(x) = StatusPublication::from_json(j) {
            return Some(MessageContent::StatusPublication(x));
        }
        if let Some(x) = StreamPublication::from_json(j) {
            return Some(MessageContent::StreamPublication(x));
        }
        if let Some(x) = IsCompleteRequest::from_json(j) {
            return Some(MessageContent::IsCompleteRequest(x));
        }
        if let Some(x) = IsCompleteReply::from_json(j) {
            return Some(MessageContent::IsCompleteReply(x));
        }
        if let Some(x) = CommOpen::from_json(j) {
            return Some(MessageContent::CommOpen(x));
        }
        if let Some(x) = CommClose::from_json(j) {
            return Some(MessageContent::CommClose(x));
        }
        if let Some(x) = CommMsg::from_json(j) {
            return Some(MessageContent::CommMsg(x));
        }
        None
    }

    /// The message type this content travels under.
    pub fn message_type(&self) -> (r: MessageType)
        ensures
            r == content_type(self@),
    {
        match self {
            MessageContent::KernelInfoReply(_) => MessageType::KernelInfoReply,
            MessageContent::HistoryRequest(_) => MessageType::HistoryRequest,
            MessageContent::ExecuteRequest(_) => MessageType::ExecuteRequest,
            MessageContent::ExecuteReply(_) => MessageType::ExecuteReply,
            MessageContent::ExecuteInputPublication(_) => MessageType::ExecuteInput,
            MessageContent::ExecuteResultPublication(_) => MessageType::ExecuteResult,
            MessageContent::StatusPublication(_) => MessageType::Status,
            MessageContent::StreamPublication(_) => MessageType::Stream,
            MessageContent::IsCompleteRequest(_) => MessageType::IsCompleteRequest,
            MessageContent::IsCompleteReply(_) => MessageType::IsCompleteReply,
            MessageContent::CommOpen(_) => MessageType::CommOpen,
            MessageContent::CommClose(_) => MessageType::CommClose,
            MessageContent::CommMsg(_) => MessageType::CommMsg,
        }
    }

    /// The JSON form of this content.
    pub fn to_json(&self) -> (r: Json)
        ensures
            r@ == content_jsonv(self@),
    {
        match self {
            MessageContent::KernelInfoReply(x) => x.to_json(),
            MessageContent::HistoryRequest(x) => x.to_json(),
            MessageContent::ExecuteRequest(x) => x.to_json(),
            MessageContent::ExecuteReply(x) => x.to_json(),
            MessageContent::ExecuteInputPublication(x) => x.to_json(),
            MessageContent::ExecuteResultPublication(x) => x.to_json(),
            MessageContent::StatusPublication(x) => x.to_json(),
            MessageContent::StreamPublication(x) => x.to_json(),
            MessageContent::IsCompleteRequest(x) => x.to_json(),
            MessageContent::IsCompleteReply(x) => x.to_json(),
            MessageContent::CommOpen(x) => x.to_json(),
            MessageContent::CommClose(x) => x.to_json(),
            MessageContent::CommMsg(x) => x.to_json(),
        }
    }

    /// Decodes a content document as the variant `t` calls for.
    pub fn from_json_by_type(t: MessageType, j: &Json) -> (r: Option<MessageContent>)
        ensures
            match content_of_jsonv_by_type(t, j@) {
                None => r is None,
                Some(cv) => r matches Some(c) && c@ == cv,
            },
    {
        match t {
            MessageType::KernelInfoReply => match KernelInfoReply::from_json(j) {
                Some(x) => Some(MessageContent::KernelInfoReply(x)),
                None => None,
            },
            MessageType::HistoryRequest => match HistoryRequest::from_json(j) {
                Some(x) => Some(MessageContent::HistoryRequest(x)),
                None => None,
            },
            MessageType::ExecuteRequest => match ExecuteRequest::from_json(j) {
                Some(x) => Some(MessageContent::ExecuteRequest(x)),
                None => None,
            },
            MessageType::ExecuteReply => match ExecuteReply::from_json(j) {
                Some(x) => Some(MessageContent::ExecuteReply(x)),
                None => None,
            },
            MessageType::ExecuteInput => match ExecuteInputPublication::from_json(j) {
                Some(x) => Some(MessageContent::ExecuteInputPublication(x)),
                None => None,
            },
            MessageType::ExecuteResult => match ExecuteResultPublication::from_json(j) {
                Some(x) => Some(MessageContent::ExecuteResultPublication(x)),
                None => None,
            },
            MessageType::Status => match StatusPublication::from_json(j) {
                Some(x) => Some(MessageContent::StatusPublication(x)),
                None => None,
            },
            MessageType::Stream => match StreamPublication::from_json(j) {
                Some(x) => Some(MessageContent::StreamPublication(x)),
                None => None,
            },
            MessageType::IsCompleteRequest => match IsCompleteRequest::from_json(j) {
                Some(x) => Some(MessageContent::IsCompleteRequest(x)),
                None => None,
            },
            MessageType::IsCompleteReply => match IsCompleteReply::from_json(j) {
                Some(x) => Some(MessageContent::IsCompleteReply(x)),
                None => None,
            },
            MessageType::CommOpen => match CommOpen::from_json(j) {
                Some(x) => Some(MessageContent::CommOpen(x)),
                None => None,
            },
            MessageType::CommClose => match CommClose::from_json(j) {
                Some(x) => Some(MessageContent::CommClose(x)),
                None => None,
            },
            MessageType::CommMsg => match CommMsg::from_json(j) {
                Some(x) => Some(MessageContent::CommMsg(x)),
                None => None,
            },
            MessageType::KernelInfoRequest => None,
        }
    }
}

} // verus!
