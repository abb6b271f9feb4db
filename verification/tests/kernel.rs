//! Tests of the dispatcher, the session state machine, and the content
//! model.

use nickkerish::content::MessageContent;
use nickkerish::content_comm::CommOpen;
use nickkerish::content_execute::{ExecuteReplyStatus, ExecuteRequest};
use nickkerish::content_history::{HistoryAccessType, HistoryRequest};
use nickkerish::content_kernel_info::KernelInfoReply;
use nickkerish::content_status::ExecutionState;
use nickkerish::dispatch::{heartbeat_reply, ExecOutcome, KernelSession};
use nickkerish::header::Header;
use nickkerish::json::Json;
use nickkerish::json_parse::parse_json_bytes;
use nickkerish::message::{EmptyObjectOr, Message};
use nickkerish::message_type::MessageType;
use nickkerish::reply_status::ReplyStatus;
use nickkerish::util::abbreviate_string;

fn fresh_session() -> KernelSession {
    KernelSession {
        session_id: b"session-1".to_vec(),
        username: b"kernel".to_vec(),
        execution_count: 0,
        state: ExecutionState::Starting,
    }
}

fn request(t: MessageType, content: EmptyObjectOr<MessageContent>) -> Message {
    Message {
        identities: vec![b"front-end".to_vec()],
        header: EmptyObjectOr::Object(Header {
            message_id: b"req-1".to_vec(),
            message_type: t,
            username: b"user".to_vec(),
            session: b"client-session".to_vec(),
            date: b"2024-01-04T19:52:04.268331Z".to_vec(),
            version: b"5.3".to_vec(),
        }),
        parent_header: EmptyObjectOr::EmptyObject,
        metadata: Json::Obj(Vec::new()),
        content,
        extra_buffers: Vec::new(),
    }
}

fn execute_request(code: &[u8], silent: bool, store_history: bool) -> Message {
    request(
        MessageType::ExecuteRequest,
        EmptyObjectOr::Object(MessageContent::ExecuteRequest(ExecuteRequest {
            code: code.to_vec(),
            silent,
            store_history,
            user_expressions: Vec::new(),
            allow_stdin: false,
            stop_on_error: false,
        })),
    )
}

fn status_of(m: &Message) -> Option<ExecutionState> {
    match &m.content {
        EmptyObjectOr::Object(MessageContent::StatusPublication(s)) => Some(s.execution_state),
        _ => None,
    }
}

#[test]
fn startup_publishes_starting_then_idle() {
    let mut session = fresh_session();
    let boot = session.startup_messages();
    assert_eq!(boot.len(), 2);
    assert_eq!(status_of(&boot[0]), Some(ExecutionState::Starting));
    assert_eq!(status_of(&boot[1]), Some(ExecutionState::Idle));
    assert_eq!(session.state, ExecutionState::Idle);
}

#[test]
fn kernel_info_request_gets_reply_with_busy_idle_bracket() {
    let mut session = fresh_session();
    session.startup_messages();
    let msg = request(MessageType::KernelInfoRequest, EmptyObjectOr::EmptyObject);
    let out = session.handle_shell_message(&msg, &ExecOutcome::Success(Vec::new()));
    assert_eq!(out.shell_replies.len(), 1);
    let reply = &out.shell_replies[0];
    match &reply.header {
        EmptyObjectOr::Object(h) => assert_eq!(h.message_type, MessageType::KernelInfoReply),
        _ => panic!("expected a header"),
    }
    match &reply.content {
        EmptyObjectOr::Object(MessageContent::KernelInfoReply(k)) => {
            assert_eq!(k.status, ReplyStatus::Okay);
            assert_eq!(k.protocol_version, b"5.3".to_vec());
        }
        _ => panic!("expected a kernel info reply"),
    }
    // the reply goes back to the requesting client
    assert_eq!(reply.identities, vec![b"front-end".to_vec()]);
    // iopub brackets the work: busy first, idle last
    assert_eq!(out.iopub_messages.len(), 2);
    assert_eq!(status_of(&out.iopub_messages[0]), Some(ExecutionState::Busy));
    assert_eq!(status_of(&out.iopub_messages[1]), Some(ExecutionState::Idle));
    for p in &out.iopub_messages {
        match (&p.parent_header, &msg.header) {
            (EmptyObjectOr::Object(a), EmptyObjectOr::Object(b)) => {
                assert_eq!(a.message_id, b.message_id)
            }
            _ => panic!("expected parented publications"),
        }
    }
}

#[test]
fn execution_counter_increases_by_one_per_stored_request() {
    let mut session = fresh_session();
    session.startup_messages();
    let mut expected: u64 = 0;
    for _ in 0..3 {
        let msg = execute_request(b"+ 1 1", false, true);
        let out = session.handle_shell_message(&msg, &ExecOutcome::Success(b"2".to_vec()));
        expected += 1;
        // the same counter value appears in the input echo, the result, and
        // the reply
        match &out.iopub_messages[1].content {
            EmptyObjectOr::Object(MessageContent::ExecuteInputPublication(p)) => {
                assert_eq!(p.execution_count, expected);
                assert_eq!(p.code, b"+ 1 1".to_vec());
            }
            _ => panic!("expected the input echo"),
        }
        match &out.iopub_messages[3].content {
            EmptyObjectOr::Object(MessageContent::ExecuteResultPublication(p)) => {
                assert_eq!(p.execution_count, expected);
            }
            _ => panic!("expected the execute result"),
        }
        match &out.shell_replies[0].content {
            EmptyObjectOr::Object(MessageContent::ExecuteReply(p)) => {
                assert_eq!(p.execution_count, expected);
                assert_eq!(p.status, ExecuteReplyStatus::Okay);
            }
            _ => panic!("expected the execute reply"),
        }
        assert_eq!(out.iopub_messages.len(), 5);
        assert_eq!(status_of(&out.iopub_messages[0]), Some(ExecutionState::Busy));
        assert_eq!(status_of(&out.iopub_messages[4]), Some(ExecutionState::Idle));
    }
    assert_eq!(session.execution_count, 3);
    // a silent request forces the history off and keeps the counter
    let msg = execute_request(b"+ 2 2", true, true);
    session.handle_shell_message(&msg, &ExecOutcome::Success(b"4".to_vec()));
    assert_eq!(session.execution_count, 3);
}

#[test]
fn failed_execution_reports_an_error_reply() {
    let mut session = fresh_session();
    session.startup_messages();
    let msg = execute_request(b"1 + 1", false, true);
    let out = session.handle_shell_message(&msg, &ExecOutcome::Failure(b"oops".to_vec()));
    match &out.shell_replies[0].content {
        EmptyObjectOr::Object(MessageContent::ExecuteReply(p)) => {
            assert_eq!(p.status, ExecuteReplyStatus::Error);
        }
        _ => panic!("expected the execute reply"),
    }
    match &out.iopub_messages[2].content {
        EmptyObjectOr::Object(MessageContent::StreamPublication(p)) => {
            assert_eq!(p.name, b"stderr".to_vec());
            assert_eq!(p.text, b"oops".to_vec());
        }
        _ => panic!("expected the error stream"),
    }
    assert_eq!(out.iopub_messages.len(), 4);
}

#[test]
fn comm_open_is_answered_with_comm_close_for_same_comm_id() {
    let mut session = fresh_session();
    session.startup_messages();
    let msg = request(
        MessageType::CommOpen,
        EmptyObjectOr::Object(MessageContent::CommOpen(CommOpen {
            comm_id: b"comm-42".to_vec(),
            target_name: b"widget".to_vec(),
            data: Json::Obj(Vec::new()),
        })),
    );
    let out = session.handle_shell_message(&msg, &ExecOutcome::Success(Vec::new()));
    assert_eq!(out.shell_replies.len(), 1);
    match &out.shell_replies[0].content {
        EmptyObjectOr::Object(MessageContent::CommClose(c)) => {
            assert_eq!(c.comm_id, b"comm-42".to_vec());
        }
        _ => panic!("expected a comm close"),
    }
}

#[test]
fn is_complete_request_is_answered_complete() {
    let mut session = fresh_session();
    session.startup_messages();
    let msg = request(MessageType::IsCompleteRequest, EmptyObjectOr::EmptyObject);
    let out = session.handle_shell_message(&msg, &ExecOutcome::Success(Vec::new()));
    match &out.shell_replies[0].header {
        EmptyObjectOr::Object(h) => assert_eq!(h.message_type, MessageType::IsCompleteReply),
        _ => panic!("expected a header"),
    }
}

#[test]
fn heartbeat_echoes_payload_unchanged() {
    let payload = vec![b"ping".to_vec()];
    assert_eq!(heartbeat_reply(payload.clone()), payload);
    // repeated beats keep echoing, independent of anything else
    for _ in 0..3 {
        assert_eq!(heartbeat_reply(vec![b"ping".to_vec()]), vec![b"ping".to_vec()]);
    }
}

#[test]
fn test_history_request() {
    let data = b"{\"raw\": true, \"output\": false, \"hist_access_type\": \"tail\", \"n\": 1000}";
    let json = parse_json_bytes(data).unwrap();
    let history_request = HistoryRequest::from_json(&json).unwrap();
    assert_eq!(history_request.history_access_type, HistoryAccessType::Tail);
    assert_eq!(history_request.number_of_items, 1000);
    assert!(history_request.raw);
    assert!(!history_request.output);
}

#[test]
fn message_content_test_history_request() {
    let data = b"{\"raw\": true, \"output\": false, \"hist_access_type\": \"tail\", \"n\": 1000}";
    let json = parse_json_bytes(data).unwrap();
    let content = MessageContent::from_json_structural(&json).unwrap();
    assert!(matches!(content, MessageContent::HistoryRequest(_)));
    let by_type = MessageContent::from_json_by_type(MessageType::HistoryRequest, &json).unwrap();
    assert!(matches!(by_type, MessageContent::HistoryRequest(_)));
}

#[test]
fn message_content_history_test_history_request() {
    let data = b"{\"raw\": true, \"output\": false, \"hist_access_type\": \"tail\", \"n\": 1000}";
    let json = parse_json_bytes(data).unwrap();
    let history_request = HistoryRequest::from_json(&json).unwrap();
    assert!(history_request.kernel_session.is_none());
    assert!(history_request.search_pattern.is_none());
}

#[test]
fn default_kernel_info_reply() {
    let content = KernelInfoReply::default_reply();
    let message = Message {
        identities: Vec::new(),
        header: EmptyObjectOr::EmptyObject,
        parent_header: EmptyObjectOr::EmptyObject,
        metadata: Json::Obj(Vec::new()),
        content: EmptyObjectOr::Object(MessageContent::KernelInfoReply(content)),
        extra_buffers: Vec::new(),
    };
    let frames = message.encode(b"key");
    assert_eq!(frames[0], b"<IDS|MSG>".to_vec());
    assert!(!frames[1].is_empty());
}

#[test]
fn default_kernel_info_reply_pins_the_descriptor() {
    let content = KernelInfoReply::default_reply();
    assert_eq!(content.status, ReplyStatus::Okay);
    assert_eq!(content.protocol_version, b"5.3".to_vec());
    assert_eq!(content.implementation, b"nickkerish".to_vec());
    assert_eq!(content.implementation_version, b"0.1.0".to_vec());
    assert!(content.banner.is_empty());
    assert!(!content.debugger);
    assert_eq!(content.language_info.name, b"uiua".to_vec());
    assert_eq!(content.language_info.version, b"v0.1.0".to_vec());
    assert_eq!(content.language_info.mimetype, b"text/x-uiua".to_vec());
    assert_eq!(content.language_info.file_extension, b".ua".to_vec());
    assert!(content.language_info.pygments_lexer.is_none());
    assert!(content.language_info.codemirror_mode.is_none());
    assert!(content.language_info.nbconvert_exporter.is_none());
    // exactly one help link, to the kernel's repository
    assert_eq!(content.help_links.len(), 1);
    assert_eq!(content.help_links[0].text, b"Nickkerish Repo".to_vec());
    assert_eq!(
        content.help_links[0].url,
        b"https://github.com/thehappycheese/nickkerish".to_vec()
    );
}

#[test]
fn split_phases_bracket_like_the_one_sweep_handler() {
    let mut session = fresh_session();
    session.startup_messages();
    let msg = execute_request(b"+ 1 1", false, true);
    // opening phase: busy and the input echo, counter already advanced
    let prefix = session.begin_shell_message(&msg);
    assert_eq!(prefix.len(), 2);
    assert_eq!(status_of(&prefix[0]), Some(ExecutionState::Busy));
    assert_eq!(session.state, ExecutionState::Busy);
    match &prefix[1].content {
        EmptyObjectOr::Object(MessageContent::ExecuteInputPublication(p)) => {
            assert_eq!(p.execution_count, 1);
            assert_eq!(p.code, b"+ 1 1".to_vec());
        }
        _ => panic!("expected the input echo"),
    }
    // closing phase: result, reply, and the idle status
    let out = session.finish_shell_message(&msg, &ExecOutcome::Success(b"2".to_vec()));
    assert_eq!(session.state, ExecutionState::Idle);
    assert_eq!(out.iopub_messages.len(), 3);
    assert_eq!(
        status_of(&out.iopub_messages[2]),
        Some(ExecutionState::Idle)
    );
    match &out.iopub_messages[1].content {
        EmptyObjectOr::Object(MessageContent::ExecuteResultPublication(p)) => {
            assert_eq!(p.execution_count, 1);
        }
        _ => panic!("expected the execute result"),
    }
    match &out.shell_replies[0].content {
        EmptyObjectOr::Object(MessageContent::ExecuteReply(p)) => {
            assert_eq!(p.status, ExecuteReplyStatus::Okay);
            assert_eq!(p.execution_count, 1);
        }
        _ => panic!("expected the execute reply"),
    }
}

#[test]
fn test_run_wrapped() {
    let code = "+ 1 1";
    let result = nickkerish::execute::run_wrapped(code);
    assert_eq!(result, Ok("2".to_string()));
}

#[test]
fn test_error() {
    let code = "1 + 1";
    let result = nickkerish::execute::run_wrapped(code);
    println!("{result:?}");
}

#[test]
fn run_wrapped_reports_errors() {
    // an unbound identifier cannot compile, so the error arm must come back
    let result = nickkerish::execute::run_wrapped("ThisNameIsNotBound");
    assert!(result.is_err());
}

#[test]
#[allow(non_snake_case)]
fn test_iso_8601_Z_now() {
    let now = nickkerish::util::iso_8601_Z_now();
    println!("{:?}", now);
    // the proved shape: YYYY-MM-DDTHH:MM:SS.ssssssZ
    assert_eq!(now.len(), 27);
    assert_eq!(now[4], b'-');
    assert_eq!(now[7], b'-');
    assert_eq!(now[10], b'T');
    assert_eq!(now[13], b':');
    assert_eq!(now[16], b':');
    assert_eq!(now[19], b'.');
    assert_eq!(now[26], b'Z');
    assert!(now
        .iter()
        .enumerate()
        .all(|(i, b)| [4, 7, 10, 13, 16, 19, 26].contains(&i) || b.is_ascii_digit()));
}

#[test]
fn abbreviate_string_keeps_short_and_shortens_long() {
    assert_eq!(abbreviate_string(b"short"), b"short".to_vec());
    assert_eq!(abbreviate_string(b"exactly10!"), b"exactly10!".to_vec());
    assert_eq!(abbreviate_string(b"0123456789ab"), b"01234...789ab".to_vec());
}

#[test]
fn message_type_tokens_round_trip() {
    let types = [
        MessageType::ExecuteRequest,
        MessageType::ExecuteReply,
        MessageType::KernelInfoRequest,
        MessageType::KernelInfoReply,
        MessageType::IsCompleteRequest,
        MessageType::IsCompleteReply,
        MessageType::HistoryRequest,
        MessageType::CommOpen,
        MessageType::CommClose,
        MessageType::CommMsg,
        MessageType::Stream,
        MessageType::ExecuteResult,
        MessageType::ExecuteInput,
        MessageType::Status,
    ];
    for t in types {
        let bytes = t.to_bytes();
        assert_eq!(MessageType::from_bytes(&bytes), Some(t));
    }
    assert_eq!(MessageType::from_bytes(b"shutdown_request"), None);
}

#[test]
fn connection_endpoint_text() {
    let info = nickkerish::connection::ConnectionInformation {
        ip_address: b"127.0.0.1".to_vec(),
        signature_scheme: nickkerish::connection::SignatureScheme::HmacSha256,
        key: b"k".to_vec(),
        transport: nickkerish::connection::Transport::Tcp,
        kernel_name: b"nickkerish".to_vec(),
        shell_port: 5001,
        iopub_port: 5002,
        stdin_port: 5003,
        control_port: 5004,
        heartbeat_port: 5005,
    };
    assert_eq!(info.endpoint_bytes(5001), b"tcp://127.0.0.1:5001".to_vec());
}
