//! The session state machine and the shell dispatcher.
//!
//! One kernel session owns the stable session identity and the execution
//! counter.  Each decoded shell or control message drives exactly one
//! busy/idle cycle on iopub: a `busy` status first, the handler's own
//! publications strictly between, an `idle` status last, whatever the
//! handler did.  The cycle comes in two phases, so the opening `busy` and
//! the input echo can go out on the wire before the submitted code runs:
//! `begin_shell_message` opens it, `finish_shell_message` closes it once
//! the outcome is in hand, and `handle_shell_message` does both in one
//! sweep.

use vstd::prelude::*;

use crate::content::{MessageContent, MessageContentV};
use crate::content_comm::CommClose;
use crate::content_execute::{
    ExecuteInputPublication, ExecuteReply, ExecuteReplyStatus, ExecuteResultPublication,
    StreamPublication,
};
use crate::content_is_complete::{IsCompleteReply, IsCompleteReplyStatus};
use crate::content_kernel_info::KernelInfoReply;
use crate::content_status::{ExecutionState, StatusPublication};
use crate::header::{Header, HeaderV};
use crate::json::{ascii_seq, Json, JsonV};
use crate::message::{EmptyObjectOr, Message, MessageV};
use crate::message_type::MessageType;

verus! {

broadcast use {vstd::std_specs::vec::group_vec_axioms, vstd::seq::group_seq_axioms};

/// Process-wide kernel identity and progress.
pub struct KernelSession {
    /// Stable random identifier, chosen once at startup.
    pub session_id: Vec<u8>,
    /// The name the kernel signs its own messages with.
    pub username: Vec<u8>,
    /// Monotonically increasing count of history-recorded executions.
    pub execution_count: u64,
    pub state: ExecutionState,
}

pub ghost struct KernelSessionV {
    pub session_id: Seq<u8>,
    pub username: Seq<u8>,
    pub execution_count: u64,
    pub state: ExecutionState,
}

impl View for KernelSession {
    type V = KernelSessionV;

    open spec fn view(&self) -> KernelSessionV {
        KernelSessionV {
            session_id: self.session_id@,
            username: self.username@,
            execution_count: self.execution_count,
            state: self.state,
        }
    }
}

/// What the execution collaborator said about a piece of code: its textual
/// result, or its error text.
pub enum ExecOutcome {
    Success(Vec<u8>),
    Failure(Vec<u8>),
}

pub ghost enum ExecOutcomeV {
    Success(Seq<u8>),
    Failure(Seq<u8>),
}

impl View for ExecOutcome {
    type V = ExecOutcomeV;

    open spec fn view(&self) -> ExecOutcomeV {
        match self {
            ExecOutcome::Success(t) => ExecOutcomeV::Success(t@),
            ExecOutcome::Failure(t) => ExecOutcomeV::Failure(t@),
        }
    }
}

impl DeepView for Message {
    type V = MessageV;

    open spec fn deep_view(&self) -> MessageV {
        self.view()
    }
}

/// Everything one handled message sends out: replies on the request's own
/// channel, publications on iopub.
pub struct DispatchOutcome {
    pub shell_replies: Vec<Message>,
    pub iopub_messages: Vec<Message>,
}

/// A header this kernel stamps on an outbound message: the given type, the
/// session's own identity, the protocol version it speaks, and a date of
/// the ISO-8601 microsecond shape.
pub open spec fn own_header(h: HeaderV, t: MessageType, s: KernelSessionV) -> bool {
    &&& h.message_type == t
    &&& h.session == s.session_id
    &&& h.username == s.username
    &&& h.version == ascii_seq("5.3"@)
    &&& crate::util::iso_micros_z_shaped(h.date)
}

/// An outbound message from this kernel: fresh header of the given type,
/// the triggering message's routing identities and header carried over,
/// empty metadata, no buffers.
pub open spec fn outbound(
    mv: MessageV,
    t: MessageType,
    s: KernelSessionV,
    identities: Seq<Seq<u8>>,
    parent: EmptyObjectOr<HeaderV>,
    content: EmptyObjectOr<MessageContentV>,
) -> bool {
    &&& mv.header matches EmptyObjectOr::Object(h) && own_header(h, t, s)
    &&& mv.identities == identities
    &&& mv.parent_header == parent
    &&& mv.metadata == JsonV::Obj(Seq::<(Seq<u8>, JsonV)>::empty())
    &&& mv.content == content
    &&& mv.extra_buffers == Seq::<Seq<u8>>::empty()
}

/// A status publication for the given state, parented on the triggering
/// message's header.
pub open spec fn is_status(
    mv: MessageV,
    st: ExecutionState,
    s: KernelSessionV,
    parent: EmptyObjectOr<HeaderV>,
) -> bool {
    outbound(
        mv,
        MessageType::Status,
        s,
        Seq::empty(),
        parent,
        EmptyObjectOr::Object(
            MessageContentV::StatusPublication(
                crate::content_status::StatusPublicationV { execution_state: st },
            ),
        ),
    )
}

/// Whether a message carries a status publication at all.
pub open spec fn carries_status(mv: MessageV) -> bool {
    mv.content matches EmptyObjectOr::Object(c) && c is StatusPublication
}

/// The iopub publications of one handled message bracket its work: exactly
/// a `busy` first and an `idle` last, with only non-status publications
/// between them, all parented on the triggering message's header.
pub open spec fn bracketed(
    iopub: Seq<MessageV>,
    s: KernelSessionV,
    parent: EmptyObjectOr<HeaderV>,
) -> bool {
    &&& iopub.len() >= 2
    &&& is_status(iopub[0], ExecutionState::Busy, s, parent)
    &&& is_status(iopub[iopub.len() - 1], ExecutionState::Idle, s, parent)
    &&& forall|i: int| 0 < i < iopub.len() - 1 ==> !carries_status(#[trigger] iopub[i])
    &&& forall|i: int| 0 <= i < iopub.len() ==> (#[trigger] iopub[i]).parent_header == parent
}

/// Relies on `uuid::Uuid::new_v4`: a fresh random message identifier.
/// Nothing is promised of its value.
#[verifier::external_body]
fn fresh_message_id() -> (r: Vec<u8>)
{
    uuid::Uuid::new_v4().to_string().into_bytes()
}

impl KernelSession {
    /// A fresh header for an outbound message of the given type.
    fn make_header(&self, t: MessageType) -> (r: Header)
        ensures
            own_header(r@, t, self@),
    {
        proof {
            reveal_strlit("5.3");
        }
        Header {
            message_id: fresh_message_id(),
            message_type: t,
            username: crate::bytesutil::dup_bytes(&self.username),
            session: crate::bytesutil::dup_bytes(&self.session_id),
            date: crate::util::iso_8601_Z_now(),
            version: crate::json::ascii_bytes("5.3"),
        }
    }

    /// An outbound message of the given type and content, carrying the
    /// triggering message's identities and header.
    fn make_outbound(
        &self,
        t: MessageType,
        identities: &Vec<Vec<u8>>,
        parent: &EmptyObjectOr<Header>,
        content: MessageContent,
    ) -> (r: Message)
        ensures
            outbound(
                r@,
                t,
                self@,
                identities.deep_view(),
                parent@,
                EmptyObjectOr::Object(content@),
            ),
    {
        let mut ids: Vec<Vec<u8>> = Vec::new();
        let mut i: usize = 0;
        while i < identities.len()
            invariant
                i <= identities@.len(),
                ids@.len() == i,
                forall|q: int| 0 <= q < i ==> #[trigger] ids@[q]@ == identities@[q]@,
            decreases identities@.len() - i,
        {
            ids.push(crate::bytesutil::dup_bytes(&identities[i]));
            i = i + 1;
        }
        proof {
            assert forall|q: int|
                0 <= q < ids@.len() implies #[trigger] ids.deep_view()[q]
                == identities.deep_view()[q] by {
                assert(ids.deep_view()[q] == ids@[q].deep_view());
                assert(ids@[q].deep_view() =~= ids@[q]@);
                assert(identities.deep_view()[q] == identities@[q].deep_view());
                assert(identities@[q].deep_view() =~= identities@[q]@);
            }
            assert(ids.deep_view() =~= identities.deep_view());
        }
        let parent_copy = match parent {
            EmptyObjectOr::EmptyObject => EmptyObjectOr::EmptyObject,
            EmptyObjectOr::Object(h) => EmptyObjectOr::Object(h.dup()),
        };
        let empty_meta: Vec<(Vec<u8>, Json)> = Vec::new();
        proof {
            crate::json::lemma_obj_view(empty_meta@);
            assert(crate::json::obj_view(empty_meta@) =~= Seq::<(Seq<u8>, JsonV)>::empty());
        }
        let r = Message {
            identities: ids,
            header: EmptyObjectOr::Object(self.make_header(t)),
            parent_header: parent_copy,
            metadata: Json::Obj(empty_meta),
            content: EmptyObjectOr::Object(content),
            extra_buffers: Vec::new(),
        };
        proof {
            assert(r@.extra_buffers =~= Seq::<Seq<u8>>::empty());
        }
        r
    }

    /// A status publication for the given state, parented on the triggering
    /// message's header.
    fn make_status(&self, st: ExecutionState, parent: &EmptyObjectOr<Header>) -> (r: Message)
        ensures
            is_status(r@, st, self@, parent@),
    {
        let none_ids: Vec<Vec<u8>> = Vec::new();
        let r = self.make_outbound(
            MessageType::Status,
            &none_ids,
            parent,
            MessageContent::StatusPublication(StatusPublication { execution_state: st }),
        );
        proof {
            assert(none_ids.deep_view() =~= Seq::<Seq<u8>>::empty());
        }
        r
    }

    /// The two status publications of process startup: `starting`, then
    /// `idle`, with no parent.  Run once; the session is idle afterwards.
    pub fn startup_messages(&mut self) -> (r: Vec<Message>)
        requires
            old(self)@.state == ExecutionState::Starting,
        ensures
            final(self)@.state == ExecutionState::Idle,
            final(self)@.session_id == old(self)@.session_id,
            final(self)@.username == old(self)@.username,
            final(self)@.execution_count == old(self)@.execution_count,
            r.deep_view().len() == 2,
            is_status(
                r.deep_view()[0],
                ExecutionState::Starting,
                final(self)@,
                EmptyObjectOr::EmptyObject,
            ),
            is_status(
                r.deep_view()[1],
                ExecutionState::Idle,
                final(self)@,
                EmptyObjectOr::EmptyObject,
            ),
    {
        self.state = ExecutionState::Idle;
        let mut r: Vec<Message> = Vec::new();
        let absent: EmptyObjectOr<Header> = EmptyObjectOr::EmptyObject;
        r.push(self.make_status(ExecutionState::Starting, &absent));
        r.push(self.make_status(ExecutionState::Idle, &absent));
        r
    }
}

/// The reply and publication pattern of one handled message, by its type.
pub open spec fn handled(
    m: MessageV,
    s_old: KernelSessionV,
    s_new: KernelSessionV,
    exec: ExecOutcomeV,
    shell: Seq<MessageV>,
    iopub: Seq<MessageV>,
) -> bool {
    match m.header {
        EmptyObjectOr::EmptyObject => {
            &&& shell.len() == 0
            &&& iopub.len() == 2
            &&& s_new.execution_count == s_old.execution_count
        },
        EmptyObjectOr::Object(h) => {
            if h.message_type == MessageType::KernelInfoRequest {
                &&& shell.len() == 1
                &&& outbound_kernel_info_reply(shell[0], m, s_new)
                &&& iopub.len() == 2
                &&& s_new.execution_count == s_old.execution_count
            } else if h.message_type == MessageType::ExecuteRequest {
                match m.content {
                    EmptyObjectOr::Object(MessageContentV::ExecuteRequest(req)) => {
                        let sh =
                            crate::content_execute::ExecuteRequest::spec_effective_store_history(
                            req,
                        );
                        &&& s_new.execution_count == s_old.execution_count + (if sh {
                            1int
                        } else {
                            0int
                        })
                        &&& shell.len() == 1
                        &&& outbound_execute_reply(shell[0], m, s_new, exec)
                        &&& execute_publications(iopub, m, s_new, req, exec)
                    },
                    _ => {
                        &&& shell.len() == 0
                        &&& iopub.len() == 2
                        &&& s_new.execution_count == s_old.execution_count
                    },
                }
            } else if h.message_type == MessageType::IsCompleteRequest {
                &&& shell.len() == 1
                &&& outbound(
                    shell[0],
                    MessageType::IsCompleteReply,
                    s_new,
                    m.identities,
                    m.header,
                    EmptyObjectOr::Object(
                        MessageContentV::IsCompleteReply(
                            crate::content_is_complete::IsCompleteReplyV {
                                status: IsCompleteReplyStatus::Complete,
                                indent: None,
                            },
                        ),
                    ),
                )
                &&& iopub.len() == 2
                &&& s_new.execution_count == s_old.execution_count
            } else if h.message_type == MessageType::CommOpen {
                match m.content {
                    EmptyObjectOr::Object(MessageContentV::CommOpen(co)) => {
                        &&& shell.len() == 1
                        &&& outbound(
                            shell[0],
                            MessageType::CommClose,
                            s_new,
                            m.identities,
                            m.header,
                            EmptyObjectOr::Object(
                                MessageContentV::CommClose(
                                    crate::content_comm::CommCloseV {
                                        comm_id: co.comm_id,
                                        data: JsonV::Obj(Seq::<(Seq<u8>, JsonV)>::empty()),
                                    },
                                ),
                            ),
                        )
                        &&& iopub.len() == 2
                        &&& s_new.execution_count == s_old.execution_count
                    },
                    _ => {
                        &&& shell.len() == 0
                        &&& iopub.len() == 2
                        &&& s_new.execution_count == s_old.execution_count
                    },
                }
            } else {
                // history requests, comm traffic without a handler, and
                // reply-only types received in error: logged and skipped
                &&& shell.len() == 0
                &&& iopub.len() == 2
                &&& s_new.execution_count == s_old.execution_count
            }
        },
    }
}

/// The kernel capability reply to a `kernel_info_request`: it carries the
/// default capability descriptor, whole.
pub open spec fn outbound_kernel_info_reply(r: MessageV, m: MessageV, s: KernelSessionV) -> bool {
    &&& outbound(r, MessageType::KernelInfoReply, s, m.identities, m.header, r.content)
    &&& r.content matches EmptyObjectOr::Object(MessageContentV::KernelInfoReply(k))
        && k == KernelInfoReply::spec_default_reply()
}

/// The execute reply: ok or error by the collaborator's outcome, carrying
/// the session counter as of this request.
pub open spec fn outbound_execute_reply(
    r: MessageV,
    m: MessageV,
    s: KernelSessionV,
    exec: ExecOutcomeV,
) -> bool {
    outbound(
        r,
        MessageType::ExecuteReply,
        s,
        m.identities,
        m.header,
        EmptyObjectOr::Object(
            MessageContentV::ExecuteReply(
                crate::content_execute::ExecuteReplyV {
                    status: match exec {
                        ExecOutcomeV::Success(_) => ExecuteReplyStatus::Okay,
                        ExecOutcomeV::Failure(_) => ExecuteReplyStatus::Error,
                    },
                    execution_count: s.execution_count,
                    payload: None,
                    user_expressions: None,
                },
            ),
        ),
    )
}

/// The input echo of an execute request: the submitted code and the counter
/// as of this request, published to all.
pub open spec fn is_input_echo(
    mv: MessageV,
    m: MessageV,
    s: KernelSessionV,
    req: crate::content_execute::ExecuteRequestV,
) -> bool {
    outbound(
        mv,
        MessageType::ExecuteInput,
        s,
        Seq::empty(),
        m.header,
        EmptyObjectOr::Object(
            MessageContentV::ExecuteInputPublication(
                crate::content_execute::ExecuteInputPublicationV {
                    code: req.code,
                    execution_count: s.execution_count,
                },
            ),
        ),
    )
}

/// A stream publication with the given stream name and text.
pub open spec fn is_stream_pub(
    mv: MessageV,
    m: MessageV,
    s: KernelSessionV,
    name: Seq<u8>,
    text: Seq<u8>,
) -> bool {
    outbound(
        mv,
        MessageType::Stream,
        s,
        Seq::empty(),
        m.header,
        EmptyObjectOr::Object(
            MessageContentV::StreamPublication(
                crate::content_execute::StreamPublicationV { name: name, text: text },
            ),
        ),
    )
}

/// The execute-result publication: the result text as `text/plain`, the
/// counter as of this request.
pub open spec fn is_exec_result_pub(
    mv: MessageV,
    m: MessageV,
    s: KernelSessionV,
    text: Seq<u8>,
) -> bool {
    outbound(
        mv,
        MessageType::ExecuteResult,
        s,
        Seq::empty(),
        m.header,
        EmptyObjectOr::Object(
            MessageContentV::ExecuteResultPublication(
                crate::content_execute::ExecuteResultPublicationV {
                    execution_count: s.execution_count,
                    data: JsonV::Obj(seq![(ascii_seq("text/plain"@), JsonV::Str(text))]),
                    metadata: JsonV::Obj(Seq::<(Seq<u8>, JsonV)>::empty()),
                },
            ),
        ),
    )
}

/// The iopub publications of one executed request: the input echo, the
/// textual result as a stream and an execute-result on success, or an error
/// stream on failure, all between the busy and idle statuses.
pub open spec fn execute_publications(
    iopub: Seq<MessageV>,
    m: MessageV,
    s: KernelSessionV,
    req: crate::content_execute::ExecuteRequestV,
    exec: ExecOutcomeV,
) -> bool {
    match exec {
        ExecOutcomeV::Success(text) => {
            &&& iopub.len() == 5
            &&& is_input_echo(iopub[1], m, s, req)
            &&& is_stream_pub(iopub[2], m, s, ascii_seq("stdout"@), text)
            &&& is_exec_result_pub(iopub[3], m, s, text)
        },
        ExecOutcomeV::Failure(text) => {
            &&& iopub.len() == 4
            &&& is_input_echo(iopub[1], m, s, req)
            &&& is_stream_pub(iopub[2], m, s, ascii_seq("stderr"@), text)
        },
    }
}

/// The execute request a message carries, when its header and content both
/// say it is one.
pub open spec fn exec_request_of(m: MessageV) -> Option<
    crate::content_execute::ExecuteRequestV,
> {
    match m.header {
        EmptyObjectOr::Object(h) => {
            if h.message_type == MessageType::ExecuteRequest {
                match m.content {
                    EmptyObjectOr::Object(MessageContentV::ExecuteRequest(req)) => Some(req),
                    _ => None,
                }
            } else {
                None
            }
        },
        EmptyObjectOr::EmptyObject => None,
    }
}

/// What the opening phase of one message sends and changes: the session
/// turns busy, the `busy` status goes out first, and an execute request has
/// its counter advanced and its input echoed before any code runs.
pub open spec fn begun(
    m: MessageV,
    s_old: KernelSessionV,
    s_new: KernelSessionV,
    prefix: Seq<MessageV>,
) -> bool {
    &&& s_new.session_id == s_old.session_id
    &&& s_new.username == s_old.username
    &&& s_new.state == ExecutionState::Busy
    &&& prefix.len() >= 1
    &&& is_status(prefix[0], ExecutionState::Busy, s_new, m.header)
    &&& match exec_request_of(m) {
        Some(req) => {
            let sh = crate::content_execute::ExecuteRequest::spec_effective_store_history(req);
            &&& s_new.execution_count == s_old.execution_count + (if sh {
                1int
            } else {
                0int
            })
            &&& prefix.len() == 2
            &&& is_input_echo(prefix[1], m, s_new, req)
        },
        None => {
            &&& s_new.execution_count == s_old.execution_count
            &&& prefix.len() == 1
        },
    }
}

/// What the closing phase of one message sends: the per-type reply, the
/// result or error publications of an executed request, and the closing
/// `idle` status, by the message's type.
pub open spec fn finished(
    m: MessageV,
    s: KernelSessionV,
    exec: ExecOutcomeV,
    shell: Seq<MessageV>,
    rest: Seq<MessageV>,
) -> bool {
    &&& rest.len() >= 1
    &&& is_status(rest[rest.len() - 1], ExecutionState::Idle, s, m.header)
    &&& match m.header {
        EmptyObjectOr::EmptyObject => {
            &&& shell.len() == 0
            &&& rest.len() == 1
        },
        EmptyObjectOr::Object(h) => {
            if h.message_type == MessageType::KernelInfoRequest {
                &&& shell.len() == 1
                &&& outbound_kernel_info_reply(shell[0], m, s)
                &&& rest.len() == 1
            } else if h.message_type == MessageType::ExecuteRequest {
                match m.content {
                    EmptyObjectOr::Object(MessageContentV::ExecuteRequest(req)) => {
                        &&& shell.len() == 1
                        &&& outbound_execute_reply(shell[0], m, s, exec)
                        &&& match exec {
                            ExecOutcomeV::Success(text) => {
                                &&& rest.len() == 3
                                &&& is_stream_pub(rest[0], m, s, ascii_seq("stdout"@), text)
                                &&& is_exec_result_pub(rest[1], m, s, text)
                            },
                            ExecOutcomeV::Failure(text) => {
                                &&& rest.len() == 2
                                &&& is_stream_pub(rest[0], m, s, ascii_seq("stderr"@), text)
                            },
                        }
                    },
                    _ => {
                        &&& shell.len() == 0
                        &&& rest.len() == 1
                    },
                }
            } else if h.message_type == MessageType::IsCompleteRequest {
                &&& shell.len() == 1
                &&& outbound(
                    shell[0],
                    MessageType::IsCompleteReply,
                    s,
                    m.identities,
                    m.header,
                    EmptyObjectOr::Object(
                        MessageContentV::IsCompleteReply(
                            crate::content_is_complete::IsCompleteReplyV {
                                status: IsCompleteReplyStatus::Complete,
                                indent: None,
                            },
                        ),
                    ),
                )
                &&& rest.len() == 1
            } else if h.message_type == MessageType::CommOpen {
                match m.content {
                    EmptyObjectOr::Object(MessageContentV::CommOpen(co)) => {
                        &&& shell.len() == 1
                        &&& outbound(
                            shell[0],
                            MessageType::CommClose,
                            s,
                            m.identities,
                            m.header,
                            EmptyObjectOr::Object(
                                MessageContentV::CommClose(
                                    crate::content_comm::CommCloseV {
                                        comm_id: co.comm_id,
                                        data: JsonV::Obj(Seq::<(Seq<u8>, JsonV)>::empty()),
                                    },
                                ),
                            ),
                        )
                        &&& rest.len() == 1
                    },
                    _ => {
                        &&& shell.len() == 0
                        &&& rest.len() == 1
                    },
                }
            } else {
                // history requests, comm traffic without a handler, and
                // reply-only types received in error: logged and skipped
                &&& shell.len() == 0
                &&& rest.len() == 1
            }
        },
    }
}

impl KernelSession {
    /// The opening phase of one message: the session turns busy and the
    /// `busy` status goes out, and an execute request has its counter
    /// advanced and its input echoed.  Published before any code runs, so
    /// the front-end sees the bracket open while the work is still under
    /// way.
    pub fn begin_shell_message(&mut self, msg: &Message) -> (r: Vec<Message>)
        requires
            old(self)@.state == ExecutionState::Idle,
            old(self)@.execution_count < u64::MAX,
        ensures
            begun(msg@, old(self)@, final(self)@, r.deep_view()),
    {
        let mut iopub: Vec<Message> = Vec::new();
        self.state = ExecutionState::Busy;
        iopub.push(self.make_status(ExecutionState::Busy, &msg.header));
        match &msg.header {
            EmptyObjectOr::EmptyObject => {},
            EmptyObjectOr::Object(h) => {
                match h.message_type {
                    MessageType::ExecuteRequest => {
                        match &msg.content {
                            EmptyObjectOr::Object(MessageContent::ExecuteRequest(req)) => {
                                if req.effective_store_history() {
                                    self.execution_count = self.execution_count + 1;
                                }
                                let none_ids: Vec<Vec<u8>> = Vec::new();
                                proof {
                                    assert(none_ids.deep_view() =~= Seq::<Seq<u8>>::empty());
                                }
                                iopub.push(
                                    self.make_outbound(
                                        MessageType::ExecuteInput,
                                        &none_ids,
                                        &msg.header,
                                        MessageContent::ExecuteInputPublication(
                                            ExecuteInputPublication {
                                                code: crate::bytesutil::dup_bytes(&req.code),
                                                execution_count: self.execution_count,
                                            },
                                        ),
                                    ),
                                );
                            },
                            _ => {},
                        }
                    },
                    _ => {},
                }
            },
        }
        iopub
    }

    /// The closing phase of one message, once the collaborator's outcome
    /// for the submitted code, if any, is in hand: the per-type reply, the
    /// result or error publications, and the closing `idle` status.
    #[verifier::rlimit(100)]
    pub fn finish_shell_message(
        &mut self,
        msg: &Message,
        exec: &ExecOutcome,
    ) -> (r: DispatchOutcome)
        requires
            old(self)@.state == ExecutionState::Busy,
        ensures
            final(self)@.state == ExecutionState::Idle,
            final(self)@.session_id == old(self)@.session_id,
            final(self)@.username == old(self)@.username,
            final(self)@.execution_count == old(self)@.execution_count,
            finished(
                msg@,
                final(self)@,
                exec@,
                r.shell_replies.deep_view(),
                r.iopub_messages.deep_view(),
            ),
    {
        proof {
            reveal_strlit("stdout");
            reveal_strlit("stderr");
            reveal_strlit("text/plain");
        }
        let mut shell: Vec<Message> = Vec::new();
        let mut iopub: Vec<Message> = Vec::new();
        match &msg.header {
            EmptyObjectOr::EmptyObject => {},
            EmptyObjectOr::Object(h) => {
                match h.message_type {
                    MessageType::KernelInfoRequest => {
                        shell.push(
                            self.make_outbound(
                                MessageType::KernelInfoReply,
                                &msg.identities,
                                &msg.header,
                                MessageContent::KernelInfoReply(KernelInfoReply::default_reply()),
                            ),
                        );
                    },
                    MessageType::ExecuteRequest => {
                        match &msg.content {
                            EmptyObjectOr::Object(MessageContent::ExecuteRequest(_)) => {
                                let none_ids: Vec<Vec<u8>> = Vec::new();
                                proof {
                                    assert(none_ids.deep_view() =~= Seq::<Seq<u8>>::empty());
                                }
                                match exec {
                                    ExecOutcome::Success(text) => {
                                        iopub.push(
                                            self.make_outbound(
                                                MessageType::Stream,
                                                &none_ids,
                                                &msg.header,
                                                MessageContent::StreamPublication(
                                                    StreamPublication {
                                                        name: crate::json::ascii_bytes("stdout"),
                                                        text: crate::bytesutil::dup_bytes(text),
                                                    },
                                                ),
                                            ),
                                        );
                                        let mut data: Vec<(Vec<u8>, Json)> = Vec::new();
                                        data.push(
                                            (
                                                crate::json::ascii_bytes("text/plain"),
                                                Json::Str(crate::bytesutil::dup_bytes(text)),
                                            ),
                                        );
                                        let empty_meta: Vec<(Vec<u8>, Json)> = Vec::new();
                                        proof {
                                            crate::json::lemma_obj_view(data@);
                                            assert(crate::json::obj_view(data@) =~= seq![
                                                (ascii_seq("text/plain"@), JsonV::Str(text@)),
                                            ]);
                                            crate::json::lemma_obj_view(empty_meta@);
                                            assert(crate::json::obj_view(empty_meta@) =~= Seq::<
                                                (Seq<u8>, JsonV),
                                            >::empty());
                                        }
                                        iopub.push(
                                            self.make_outbound(
                                                MessageType::ExecuteResult,
                                                &none_ids,
                                                &msg.header,
                                                MessageContent::ExecuteResultPublication(
                                                    ExecuteResultPublication {
                                                        execution_count: self.execution_count,
                                                        data: Json::Obj(data),
                                                        metadata: Json::Obj(empty_meta),
                                                    },
                                                ),
                                            ),
                                        );
                                    },
                                    ExecOutcome::Failure(text) => {
                                        iopub.push(
                                            self.make_outbound(
                                                MessageType::Stream,
                                                &none_ids,
                                                &msg.header,
                                                MessageContent::StreamPublication(
                                                    StreamPublication {
                                                        name: crate::json::ascii_bytes("stderr"),
                                                        text: crate::bytesutil::dup_bytes(text),
                                                    },
                                                ),
                                            ),
                                        );
                                    },
                                }
                                let status = match exec {
                                    ExecOutcome::Success(_) => ExecuteReplyStatus::Okay,
                                    ExecOutcome::Failure(_) => ExecuteReplyStatus::Error,
                                };
                                shell.push(
                                    self.make_outbound(
                                        MessageType::ExecuteReply,
                                        &msg.identities,
                                        &msg.header,
                                        MessageContent::ExecuteReply(
                                            ExecuteReply {
                                                status,
                                                execution_count: self.execution_count,
                                                payload: None,
                                                user_expressions: None,
                                            },
                                        ),
                                    ),
                                );
                            },
                            _ => {},
                        }
                    },
                    MessageType::IsCompleteRequest => {
                        shell.push(
                            self.make_outbound(
                                MessageType::IsCompleteReply,
                                &msg.identities,
                                &msg.header,
                                MessageContent::IsCompleteReply(
                                    IsCompleteReply {
                                        status: IsCompleteReplyStatus::Complete,
                                        indent: None,
                                    },
                                ),
                            ),
                        );
                    },
                    MessageType::CommOpen => {
                        match &msg.content {
                            EmptyObjectOr::Object(MessageContent::CommOpen(co)) => {
                                let empty_data: Vec<(Vec<u8>, Json)> = Vec::new();
                                proof {
                                    crate::json::lemma_obj_view(empty_data@);
                                    assert(crate::json::obj_view(empty_data@) =~= Seq::<
                                        (Seq<u8>, JsonV),
                                    >::empty());
                                }
                                shell.push(
                                    self.make_outbound(
                                        MessageType::CommClose,
                                        &msg.identities,
                                        &msg.header,
                                        MessageContent::CommClose(
                                            CommClose {
                                                comm_id: crate::bytesutil::dup_bytes(&co.comm_id),
                                                data: Json::Obj(empty_data),
                                            },
                                        ),
                                    ),
                                );
                            },
                            _ => {},
                        }
                    },
                    _ => {},
                }
            },
        }
        self.state = ExecutionState::Idle;
        iopub.push(self.make_status(ExecutionState::Idle, &msg.header));
        DispatchOutcome { shell_replies: shell, iopub_messages: iopub }
    }

    /// Handles one decoded shell or control message in one sweep: the
    /// opening phase, then the closing phase against the given outcome.
    /// A caller that runs the collaborator itself publishes the opening
    /// phase first instead, and finishes once the outcome is in hand.
    #[verifier::rlimit(100)]
    pub fn handle_shell_message(
        &mut self,
        msg: &Message,
        exec: &ExecOutcome,
    ) -> (r: DispatchOutcome)
        requires
            old(self)@.state == ExecutionState::Idle,
            old(self)@.execution_count < u64::MAX,
        ensures
            final(self)@.state == ExecutionState::Idle,
            final(self)@.session_id == old(self)@.session_id,
            final(self)@.username == old(self)@.username,
            bracketed(r.iopub_messages.deep_view(), final(self)@, msg@.header),
            handled(
                msg@,
                old(self)@,
                final(self)@,
                exec@,
                r.shell_replies.deep_view(),
                r.iopub_messages.deep_view(),
            ),
    {
        let mut iopub = self.begin_shell_message(msg);
        let ghost prefix = iopub.deep_view();
        let mut out = self.finish_shell_message(msg, exec);
        let ghost rest = out.iopub_messages.deep_view();
        iopub.append(&mut out.iopub_messages);
        proof {
            assert(iopub.deep_view() =~= prefix + rest);
        }
        DispatchOutcome { shell_replies: out.shell_replies, iopub_messages: iopub }
    }
}

/// Echoes a heartbeat payload back unchanged.
pub fn heartbeat_reply(frames: Vec<Vec<u8>>) -> (r: Vec<Vec<u8>>)
    ensures
        r == frames,
{
    frames
}

} // verus!
