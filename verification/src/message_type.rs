//! The closed set of message types this kernel speaks, and their snake_case
//! wire tokens.

use vstd::prelude::*;

use crate::json::{ascii_bytes, ascii_seq};

verus! {

broadcast use {vstd::std_specs::vec::group_vec_axioms, vstd::seq::group_seq_axioms};

#[derive(Clone, Copy, Debug, PartialEq, Eq, Structural)]
pub enum MessageType {
    // shell
    ExecuteRequest,
    ExecuteReply,
    KernelInfoRequest,
    KernelInfoReply,
    IsCompleteRequest,
    IsCompleteReply,
    HistoryRequest,
    CommOpen,
    CommClose,
    CommMsg,
    // iopub
    Stream,
    ExecuteResult,
    ExecuteInput,
    Status,
}

/// The wire token of a message type.
pub open spec fn type_token(t: MessageType) -> Seq<u8> {
    match t {
        MessageType::ExecuteRequest => ascii_seq("execute_request"@),
        MessageType::ExecuteReply => ascii_seq("execute_reply"@),
        MessageType::KernelInfoRequest => ascii_seq("kernel_info_request"@),
        MessageType::KernelInfoReply => ascii_seq("kernel_info_reply"@),
        MessageType::IsCompleteRequest => ascii_seq("is_complete_request"@),
        MessageType::IsCompleteReply => ascii_seq("is_complete_reply"@),
        MessageType::HistoryRequest => ascii_seq("history_request"@),
        MessageType::CommOpen => ascii_seq("comm_open"@),
        MessageType::CommClose => ascii_seq("comm_close"@),
        MessageType::CommMsg => ascii_seq("comm_msg"@),
        MessageType::Stream => ascii_seq("stream"@),
        MessageType::ExecuteResult => ascii_seq("execute_result"@),
        MessageType::ExecuteInput => ascii_seq("execute_input"@),
        MessageType::Status => ascii_seq("status"@),
    }
}

/// The message type a wire token stands for, if any.
pub open spec fn type_of_token(s: Seq<u8>) -> Option<MessageType> {
    if s == type_token(MessageType::ExecuteRequest) {
        Some(MessageType::ExecuteRequest)
    } else if s == type_token(MessageType::ExecuteReply) {
        Some(MessageType::ExecuteReply)
    } else if s == type_token(MessageType::KernelInfoRequest) {
        Some(MessageType::KernelInfoRequest)
    } else if s == type_token(MessageType::KernelInfoReply) {
        Some(MessageType::KernelInfoReply)
    } else if s == type_token(MessageType::IsCompleteRequest) {
        Some(MessageType::IsCompleteRequest)
    } else if s == type_token(MessageType::IsCompleteReply) {
        Some(MessageType::IsCompleteReply)
    } else if s == type_token(MessageType::HistoryRequest) {
        Some(MessageType::HistoryRequest)
    } else if s == type_token(MessageType::CommOpen) {
        Some(MessageType::CommOpen)
    } else if s == type_token(MessageType::CommClose) {
        Some(MessageType::CommClose)
    } else if s == type_token(MessageType::CommMsg) {
        Some(MessageType::CommMsg)
    } else if s == type_token(MessageType::Stream) {
        Some(MessageType::Stream)
    } else if s == type_token(MessageType::ExecuteResult) {
        Some(MessageType::ExecuteResult)
    } else if s == type_token(MessageType::ExecuteInput) {
        Some(MessageType::ExecuteInput)
    } else if s == type_token(MessageType::Status) {
        Some(MessageType::Status)
    } else {
        None
    }
}

pub proof fn reveal_type_tokens()
    ensures
        type_token(MessageType::ExecuteRequest).len() == 15,
        type_token(MessageType::ExecuteReply).len() == 13,
        type_token(MessageType::KernelInfoRequest).len() == 19,
        type_token(MessageType::KernelInfoReply).len() == 17,
        type_token(MessageType::IsCompleteRequest).len() == 19,
        type_token(MessageType::IsCompleteReply).len() == 17,
        type_token(MessageType::HistoryRequest).len() == 15,
        type_token(MessageType::CommOpen).len() == 9,
        type_token(MessageType::CommClose).len() == 10,
        type_token(MessageType::CommMsg).len() == 8,
        type_token(MessageType::Stream).len() == 6,
        type_token(MessageType::ExecuteResult).len() == 14,
        type_token(MessageType::ExecuteInput).len() == 13,
        type_token(MessageType::Status).len() == 6,
        type_token(MessageType::KernelInfoRequest)[0] != type_token(
            MessageType::IsCompleteRequest,
        )[0],
        type_token(MessageType::KernelInfoReply)[0] != type_token(MessageType::IsCompleteReply)[0],
        type_token(MessageType::ExecuteRequest)[0] != type_token(MessageType::HistoryRequest)[0],
        type_token(MessageType::ExecuteReply)[8] != type_token(MessageType::ExecuteInput)[8],
        type_token(MessageType::Stream)[2] != type_token(MessageType::Status)[2],
{
    reveal_strlit("execute_request");
    reveal_strlit("execute_reply");
    reveal_strlit("kernel_info_request");
    reveal_strlit("kernel_info_reply");
    reveal_strlit("is_complete_request");
    reveal_strlit("is_complete_reply");
    reveal_strlit("history_request");
    reveal_strlit("comm_open");
    reveal_strlit("comm_close");
    reveal_strlit("comm_msg");
    reveal_strlit("stream");
    reveal_strlit("execute_result");
    reveal_strlit("execute_input");
    reveal_strlit("status");
}

/// Distinct message types have distinct tokens, so the token decodes back.
pub proof fn lemma_type_token_round_trip(t: MessageType)
    ensures
        type_of_token(type_token(t)) == Some(t),
{
    reveal_type_tokens();
}

impl MessageType {
    /// The wire token, as bytes.
    pub fn to_bytes(&self) -> (r: Vec<u8>)
        ensures
            r@ == type_token(*self),
    {
        proof {
            reveal_strlit("execute_request");
            reveal_strlit("execute_reply");
            reveal_strlit("kernel_info_request");
            reveal_strlit("kernel_info_reply");
            reveal_strlit("is_complete_request");
            reveal_strlit("is_complete_reply");
            reveal_strlit("history_request");
            reveal_strlit("comm_open");
            reveal_strlit("comm_close");
            reveal_strlit("comm_msg");
            reveal_strlit("stream");
            reveal_strlit("execute_result");
            reveal_strlit("execute_input");
            reveal_strlit("status");
        }
        match self {
            MessageType::ExecuteRequest => ascii_bytes("execute_request"),
            MessageType::ExecuteReply => ascii_bytes("execute_reply"),
            MessageType::KernelInfoRequest => ascii_bytes("kernel_info_request"),
            MessageType::KernelInfoReply => ascii_bytes("kernel_info_reply"),
            MessageType::IsCompleteRequest => ascii_bytes("is_complete_request"),
            MessageType::IsCompleteReply => ascii_bytes("is_complete_reply"),
            MessageType::HistoryRequest => ascii_bytes("history_request"),
            MessageType::CommOpen => ascii_bytes("comm_open"),
            MessageType::CommClose => ascii_bytes("comm_close"),
            MessageType::CommMsg => ascii_bytes("comm_msg"),
            MessageType::Stream => ascii_bytes("stream"),
            MessageType::ExecuteResult => ascii_bytes("execute_result"),
            MessageType::ExecuteInput => ascii_bytes("execute_input"),
            MessageType::Status => ascii_bytes("status"),
        }
    }

    /// Decodes a wire token.
    pub fn from_bytes(s: &[u8]) -> (r: Option<MessageType>)
        ensures
            r == type_of_token(s@),
    {
        proof {
            reveal_strlit("execute_request");
            reveal_strlit("execute_reply");
            reveal_strlit("kernel_info_request");
            reveal_strlit("kernel_info_reply");
            reveal_strlit("is_complete_request");
            reveal_strlit("is_complete_reply");
            reveal_strlit("history_request");
            reveal_strlit("comm_open");
            reveal_strlit("comm_close");
            reveal_strlit("comm_msg");
            reveal_strlit("stream");
            reveal_strlit("execute_result");
            reveal_strlit("execute_input");
            reveal_strlit("status");
        }
        if crate::bytesutil::bytes_eq_str(s, "execute_request") {
            Some(MessageType::ExecuteRequest)
        } else if crate::bytesutil::bytes_eq_str(s, "execute_reply") {
            Some(MessageType::ExecuteReply)
        } else if crate::bytesutil::bytes_eq_str(s, "kernel_info_request") {
            Some(MessageType::KernelInfoRequest)
        } else if crate::bytesutil::bytes_eq_str(s, "kernel_info_reply") {
            Some(MessageType::KernelInfoReply)
        } else if crate::bytesutil::bytes_eq_str(s, "is_complete_request") {
            Some(MessageType::IsCompleteRequest)
        } else if crate::bytesutil::bytes_eq_str(s, "is_complete_reply") {
            Some(MessageType::IsCompleteReply)
        } else if crate::bytesutil::bytes_eq_str(s, "history_request") {
            Some(MessageType::HistoryRequest)
        } else if crate::bytesutil::bytes_eq_str(s, "comm_open") {
            Some(MessageType::CommOpen)
        } else if crate::bytesutil::bytes_eq_str(s, "comm_close") {
            Some(MessageType::CommClose)
        } else if crate::bytesutil::bytes_eq_str(s, "comm_msg") {
            Some(MessageType::CommMsg)
        } else if crate::bytesutil::bytes_eq_str(s, "stream") {
            Some(MessageType::Stream)
        } else if crate::bytesutil::bytes_eq_str(s, "execute_result") {
            Some(MessageType::ExecuteResult)
        } else if crate::bytesutil::bytes_eq_str(s, "execute_input") {
            Some(MessageType::ExecuteInput)
        } else if crate::bytesutil::bytes_eq_str(s, "status") {
            Some(MessageType::Status)
        } else {
            None
        }
    }
}

} // verus!
