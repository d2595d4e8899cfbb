use agent_host::json::Json;
use agent_host::opencode::approvals::{
    approval_from_answer, permission_reply, request_permission_approval, ApprovalFailure,
    ApprovalStatus,
};
use agent_host::opencode::listener::{
    retry_backoff, EventListener, ListenerAction, ListenerEvent, MAX_ATTEMPTS, MAX_BACKOFF_MS,
};
use agent_host::opencode::sse::{next_sse_chunk, parse_sse_event};
use agent_host::opencode::stream::{
    event_matches_session, ControlEvent, EventStreamOutcome, StreamAction, StreamState,
};

fn parse(s: &str) -> Json {
    Json::parse(s).unwrap()
}

#[test]
fn events_are_cut_out_of_a_buffer() {
    let mut buffer = "a\n\nb\r\n\r\n\n\rc".to_string();
    assert_eq!(next_sse_chunk(&mut buffer), Some("a".to_string()));
    assert_eq!(buffer, "b\r\n\r\n\n\rc");
    assert_eq!(next_sse_chunk(&mut buffer), Some("b".to_string()));
    assert_eq!(buffer, "c");
    assert_eq!(next_sse_chunk(&mut buffer), None);
    assert_eq!(buffer, "c");
}

#[test]
fn a_complete_event_is_not_changed_by_what_follows() {
    for more in ["", "\n", "\r\n\r\nx", "data: y\n\n"] {
        let mut buffer = format!("data: x\r\n\r\n{more}");
        assert_eq!(next_sse_chunk(&mut buffer), Some("data: x".to_string()));
        assert!(!buffer.starts_with('\n') && !buffer.starts_with('\r'));
    }
}

#[test]
fn events_are_read() {
    let event = parse_sse_event(
        "event: message\nid: 1\ndata: {\"a\":\ndata:  1}\nid:   \nretry: 250\nretry: soon\n",
    );
    assert_eq!(event.data, Some(parse("{\"a\":1}")));
    assert_eq!(event.id, Some("1".to_string()));
    assert_eq!(event.retry, Some(250));
    let event = parse_sse_event("data: {\nid:2 ");
    assert_eq!(event.data, None);
    assert_eq!(event.id, Some("2".to_string()));
    assert_eq!(event.retry, None);
    assert_eq!(parse_sse_event(": comment").data, None);
}

#[test]
fn events_tell_of_a_session() {
    let own = parse("{\"properties\":{\"sessionID\":\"s\"}}");
    let info = parse("{\"properties\":{\"info\":{\"sessionID\":\"s\"}}}");
    let part = parse("{\"properties\":{\"part\":{\"sessionID\":\"s\"}}}");
    assert!(event_matches_session("message.updated", &info, "s"));
    assert!(!event_matches_session("message.updated", &own, "s"));
    assert!(event_matches_session("message.part.updated", &part, "s"));
    assert!(!event_matches_session("message.part.updated", &info, "s"));
    for ty in [
        "permission.asked",
        "permission.replied",
        "session.idle",
        "session.error",
    ] {
        assert!(event_matches_session(ty, &own, "s"));
        assert!(!event_matches_session(ty, &info, "s"));
    }
    for event in [&own, &info, &part] {
        assert!(event_matches_session("other", event, "s"));
        assert!(!event_matches_session("other", event, "t"));
    }
}

const IDLE: &str = "{\"type\":\"session.idle\",\"properties\":{\"sessionID\":\"s\"}}";

#[test]
fn an_idle_session_ends_the_reading() {
    let mut state = StreamState::new();
    let report = state.on_data(parse(IDLE), "s");
    assert_eq!(report.outcome, Some(EventStreamOutcome::Idle));
    assert_eq!(
        report.actions,
        vec![
            StreamAction::LogEvent(parse(IDLE)),
            StreamAction::Control(ControlEvent::Idle)
        ]
    );
    let report = state.on_data(parse(IDLE), "other");
    assert_eq!(report.actions, vec![]);
    assert_eq!(report.outcome, None);
    assert_eq!(state.on_data(parse("{}"), "s").actions, vec![]);
}

#[test]
fn errors_of_the_session_are_told_of() {
    let mut state = StreamState::new();
    let auth = parse("{\"type\":\"session.error\",\"properties\":{\"sessionID\":\"s\",\"error\":{\"name\":\"ProviderAuthError\",\"data\":{\"message\":\"log in\"}}}}");
    let report = state.on_data(auth, "s");
    assert_eq!(report.outcome, Some(EventStreamOutcome::Terminal));
    assert_eq!(
        report.actions[1],
        StreamAction::Control(ControlEvent::AuthRequired {
            message: "log in".to_string()
        })
    );
    let other = parse("{\"type\":\"session.error\",\"properties\":{\"sessionID\":\"s\",\"error\":{\"type\":\"X\",\"message\":\"bad\"}}}");
    let report = state.on_data(other, "s");
    assert_eq!(report.outcome, None);
    assert_eq!(
        report.actions[1],
        StreamAction::Control(ControlEvent::SessionError {
            message: "bad".to_string()
        })
    );
    let bare = parse("{\"type\":\"session.error\",\"properties\":{\"sessionID\":\"s\"}}");
    assert_eq!(
        state.on_data(bare, "s").actions[1],
        StreamAction::Control(ControlEvent::SessionError {
            message: "OpenCode session error".to_string()
        })
    );
    // A name that is no text hides the type.
    let odd = parse("{\"type\":\"session.error\",\"properties\":{\"sessionID\":\"s\",\"error\":{\"name\":1,\"type\":\"ProviderAuthError\"}}}");
    assert_eq!(state.on_data(odd, "s").outcome, None);
}

fn asked(id: &str) -> String {
    format!("{{\"type\":\"permission.asked\",\"properties\":{{\"sessionID\":\"s\",\"id\":\"{id}\",\"permission\":\"bash\",\"tool\":{{\"callID\":\"c\"}}}}}}")
}

#[test]
fn permissions_are_asked_once() {
    let mut state = StreamState::new();
    let mut buffer = String::new();
    let chunk = format!(
        "data: {}\n\ndata: {}\n\ndata: {}\n\n",
        asked("p1"),
        asked("p1"),
        asked("")
    );
    let report = state.on_chunk(&mut buffer, &chunk.into_bytes(), "s");
    assert_eq!(report.outcome, None);
    let ids: Vec<&str> = report
        .actions
        .iter()
        .filter_map(|a| match a {
            StreamAction::AskPermission(r) => Some(r.request_id.as_str()),
            _ => None,
        })
        .collect();
    assert_eq!(ids, vec!["p1"]);
    assert_eq!(report.actions.len(), 4);
    let report = state.on_data(parse(&asked("p1")), "s");
    assert_eq!(report.actions.len(), 1);
}

#[test]
fn requests_for_permission_are_read() {
    let mut state = StreamState::new();
    let report = state.on_data(parse(&asked("p")), "s");
    match &report.actions[1] {
        StreamAction::AskPermission(r) => {
            assert_eq!(r.tool_call_id, "c");
            assert_eq!(r.permission, "bash");
            assert_eq!(r.tool_input.get("id"), Some(&parse("\"p\"")));
        }
        other => panic!("{other:?}"),
    }
    let bare = parse("{\"type\":\"permission.asked\",\"properties\":{\"sessionID\":\"s\",\"id\":\"q\"}}");
    match &state.on_data(bare, "s").actions[1] {
        StreamAction::AskPermission(r) => {
            assert_eq!(r.tool_call_id, "q");
            assert_eq!(r.permission, "tool");
        }
        other => panic!("{other:?}"),
    }
}

#[test]
fn chunks_are_put_together() {
    let mut state = StreamState::new();
    let mut buffer = String::new();
    let report = state.on_chunk(&mut buffer, &b"id: 7\nretry: 10\ndata: {\"type\":".to_vec(), "s");
    assert_eq!(report.actions, vec![]);
    assert_eq!(state.last_id(), None);
    let rest = format!("{}\n\ndata: {IDLE}\n\nid: 9\n\n", &IDLE["{\"type\":".len()..]);
    let report = state.on_chunk(&mut buffer, &rest.into_bytes(), "s");
    assert_eq!(report.outcome, Some(EventStreamOutcome::Idle));
    assert_eq!(report.actions.len(), 2);
    assert_eq!(state.last_id(), Some("7"));
    assert_eq!(state.base_retry_delay, 10);
    // What follows the end of the reading is not looked at.
    assert!(buffer.starts_with("data: "));
}

#[test]
fn it_does_not_matter_where_a_stream_is_cut() {
    let asked = r#"{"type":"permission.asked","properties":{"sessionID":"s","id":"p"}}"#;
    let stream = format!(
        "retry: 5\n\n\n\ndata: {asked}\nid: 1\r\n\r\n\r\ndata: {{}}\n\n\ndata: {IDLE}\n\n"
    );
    let mut whole = StreamState::new();
    let at_once = whole.on_chunk(&mut String::new(), &stream.clone().into_bytes(), "s");
    assert_eq!(at_once.actions.len(), 4);
    for cut in 0..stream.len() {
        let mut state = StreamState::new();
        let mut buffer = String::new();
        let (head, tail) = stream.split_at(cut);
        let first = state.on_chunk(&mut buffer, &head.as_bytes().to_vec(), "s");
        assert_eq!(first.outcome, None);
        let later = state.on_chunk(&mut buffer, &tail.as_bytes().to_vec(), "s");
        let mut actions = first.actions;
        actions.extend(later.actions);
        assert_eq!(actions, at_once.actions);
        assert_eq!(later.outcome, at_once.outcome);
        assert_eq!(state.last_id(), whole.last_id());
        assert_eq!(state.base_retry_delay, whole.base_retry_delay);
    }
}

#[test]
fn a_stray_return_hides_a_field_only_where_the_stream_is_cut_before_it() {
    let mut state = StreamState::new();
    let mut buffer = String::new();
    state.on_chunk(&mut buffer, &b"id: 1\n\n\rid: 2\n\n".to_vec(), "s");
    assert_eq!(state.last_id(), Some("2"));
    let mut state = StreamState::new();
    state.on_chunk(&mut buffer, &b"id: 1\n\n".to_vec(), "s");
    state.on_chunk(&mut buffer, &b"\rid: 2\n\n".to_vec(), "s");
    assert_eq!(state.last_id(), Some("1"));
}

#[test]
fn only_events_of_the_session_are_logged() {
    let mut state = StreamState::new();
    let mut buffer = format!(
        "data: {{\"type\":\"x\",\"properties\":{{\"sessionID\":\"t\"}}}}\n\ndata: {{\"type\":\"x\",\"properties\":{{\"sessionID\":\"s\"}}}}\n\n"
    );
    let report = state.drain(&mut buffer, "s");
    assert_eq!(
        report.actions,
        vec![StreamAction::LogEvent(parse(
            "{\"type\":\"x\",\"properties\":{\"sessionID\":\"s\"}}"
        ))]
    );
}

#[test]
fn delays_double_up_to_a_limit() {
    assert_eq!(retry_backoff(3000, 0), 3000);
    assert_eq!(retry_backoff(3000, 1), 3000);
    assert_eq!(retry_backoff(3000, 2), 6000);
    assert_eq!(retry_backoff(3000, 4), 24000);
    assert_eq!(retry_backoff(3000, 5), 30000);
    assert_eq!(retry_backoff(1, 11), 1024);
    assert_eq!(retry_backoff(1, 19), 1024);
    assert_eq!(retry_backoff(0, 19), 0);
    assert_eq!(retry_backoff(u64::MAX, 11), MAX_BACKOFF_MS);
}

#[test]
fn the_listener_gives_up_at_the_last_attempt() {
    let mut listener = EventListener::new();
    assert_eq!(
        listener.on_event(ListenerEvent::Connected),
        ListenerAction::Read
    );
    assert_eq!(
        listener.on_event(ListenerEvent::Ended(EventStreamOutcome::Disconnected)),
        ListenerAction::Reconnect {
            error: None,
            delay_ms: 3000
        }
    );
    listener.on_event(ListenerEvent::Connected);
    assert_eq!(listener.attempt, 0);
    for n in 1..MAX_ATTEMPTS {
        match listener.on_event(ListenerEvent::ConnectFailed("down".to_string())) {
            ListenerAction::Reconnect { error, delay_ms } => {
                assert_eq!(
                    error,
                    Some("OpenCode event stream reconnect failed: down".to_string())
                );
                assert_eq!(delay_ms, retry_backoff(3000, n));
            }
            other => panic!("{other:?}"),
        }
    }
    assert!(matches!(
        listener.on_event(ListenerEvent::Failed),
        ListenerAction::GiveUp { error: None }
    ));
}

#[test]
fn the_listener_stops_with_the_session() {
    for outcome in [EventStreamOutcome::Idle, EventStreamOutcome::Terminal] {
        let mut listener = EventListener::new();
        assert_eq!(
            listener.on_event(ListenerEvent::Ended(outcome)),
            ListenerAction::Stop
        );
    }
}

#[test]
fn approvals_go_by_the_answer() {
    assert_eq!(
        request_permission_approval(true, true),
        Some(ApprovalStatus::Approved)
    );
    assert_eq!(
        request_permission_approval(false, false),
        Some(ApprovalStatus::Approved)
    );
    assert_eq!(request_permission_approval(false, true), None);
    assert_eq!(
        approval_from_answer(Ok(ApprovalStatus::TimedOut)),
        ApprovalStatus::TimedOut
    );
    assert_eq!(
        approval_from_answer(Err(ApprovalFailure::ServiceUnavailable)),
        ApprovalStatus::Approved
    );
    assert_eq!(
        approval_from_answer(Err(ApprovalFailure::SessionNotRegistered)),
        ApprovalStatus::Approved
    );
    assert_eq!(
        approval_from_answer(Err(ApprovalFailure::Other("x".to_string()))),
        ApprovalStatus::Denied {
            reason: Some("Approval request failed: x".to_string())
        }
    );
}

#[test]
fn rejections_always_say_something() {
    let reply = permission_reply(&ApprovalStatus::Approved);
    assert_eq!((reply.reply.as_str(), reply.message), ("once", None));
    let denied = |reason: Option<&str>| {
        permission_reply(&ApprovalStatus::Denied {
            reason: reason.map(|r| r.to_string()),
        })
    };
    assert_eq!(denied(Some(" no ")).message, Some("no".to_string()));
    assert_eq!(
        denied(Some("  ")).message,
        Some("User denied this tool use request".to_string())
    );
    assert_eq!(
        denied(None).message,
        Some("User denied this tool use request".to_string())
    );
    assert_eq!(denied(None).reply, "reject");
    assert_eq!(
        permission_reply(&ApprovalStatus::TimedOut).message,
        Some("Approval request timed out; proceed without using this tool call.".to_string())
    );
    assert_eq!(
        permission_reply(&ApprovalStatus::Pending).message,
        Some(
            "Approval request could not be completed; proceed without using this tool call."
                .to_string()
        )
    );
}
