use agent_host::opencode::approvals::ApprovalStatus;
use agent_host::opencode::event_report::{
    collect_sdk_event_types, count_line, dump_message_events, dump_stderr_tail, top_event_types,
};
use agent_host::opencode::executor::ExecutorExitResult;
use agent_host::opencode::logs::{NormalizedEntry, NormalizedEntryError, NormalizedEntryType};
use agent_host::opencode::report::{
    build_read_only_prompt, collect_normalized_entries, count_type, error_line,
    last_assistant_message, request_tool_approval, system_message, waited_exit, LogMsg,
};

fn entry(entry_type: NormalizedEntryType, content: &str) -> NormalizedEntry {
    NormalizedEntry {
        timestamp: None,
        entry_type,
        content: content.to_string(),
        metadata: None,
    }
}

fn at(index: usize, entry_type: NormalizedEntryType, content: &str) -> LogMsg {
    LogMsg::Entry {
        index,
        entry: entry(entry_type, content),
    }
}

#[test]
fn only_tools_that_read_are_approved() {
    assert_eq!(request_tool_approval(" READ "), ApprovalStatus::Approved);
    assert_eq!(request_tool_approval("todowrite"), ApprovalStatus::Approved);
    assert_eq!(
        request_tool_approval("bash"),
        ApprovalStatus::Denied {
            reason: Some("Debug helper: denying `bash` (read-only run)".to_string())
        }
    );
}

#[test]
fn the_prompt_says_what_is_allowed() {
    let prompt = build_read_only_prompt();
    assert_eq!(prompt.lines().count(), 5);
    assert!(prompt.starts_with("Read-only debugging run.\nSummarize"));
    assert!(prompt.ends_with("If a tool is denied, continue without it."));
}

#[test]
fn a_run_is_waited_for() {
    assert_eq!(waited_exit(None), ExecutorExitResult::Success);
    assert_eq!(waited_exit(Some(None)), ExecutorExitResult::Failure);
    assert_eq!(
        waited_exit(Some(Some(ExecutorExitResult::Success))),
        ExecutorExitResult::Success
    );
}

#[test]
fn entries_are_collected_by_index() {
    let history = vec![
        LogMsg::Stdout("x".to_string()),
        at(5, NormalizedEntryType::AssistantMessage, "first"),
        LogMsg::SessionId("s1".to_string()),
        at(2, NormalizedEntryType::SystemMessage, " sys "),
        at(
            3,
            NormalizedEntryType::ErrorMessage {
                error_type: NormalizedEntryError::Other,
            },
            "bad\nthing",
        ),
        LogMsg::SessionId("s2".to_string()),
        at(5, NormalizedEntryType::AssistantMessage, " last "),
        LogMsg::Other,
    ];
    let got = collect_normalized_entries(&history);
    assert_eq!(got.session_id, Some("s1".to_string()));
    let contents: Vec<&str> = got.entries.iter().map(|e| e.content.as_str()).collect();
    assert_eq!(contents, vec![" sys ", "bad\nthing", " last "]);
    assert_eq!(got.errors, vec!["bad\nthing"]);
    assert_eq!(error_line(&got.errors[0]), "- bad\\nthing");
    assert_eq!(system_message(&got.entries), Some("sys".to_string()));
    assert_eq!(
        last_assistant_message(&got.entries),
        Some("last".to_string())
    );
    assert_eq!(
        count_type(&got.entries, |t: &NormalizedEntryType| matches!(
            t,
            NormalizedEntryType::AssistantMessage
        )),
        1
    );
    let empty = vec![LogMsg::Other];
    let none = collect_normalized_entries(&empty);
    assert_eq!(system_message(&none.entries), None);
    assert_eq!(last_assistant_message(&none.entries), None);
}

fn log() -> Vec<LogMsg> {
    vec![
        LogMsg::Stdout("{\"type\":\"sdk_event\",\"event\":{\"type\":\"session.status\",\"properties\":{\"status\":{\"type\":\"busy\"}}}}\nnoise\n{\"type\":\"sdk_ev".to_string()),
        LogMsg::Stderr("one\ntwo\n".to_string()),
        LogMsg::Stdout("ent\",\"event\":{\"type\":\"message.updated\",\"properties\":{\"info\":{\"id\":\"m\",\"role\":\"user\",\"sessionId\":\"s\"}}}}\n".to_string()),
        LogMsg::Stderr("three".to_string()),
        LogMsg::Stdout("{\"type\":\"done\"}\n{\"type\":\"sdk_event\",\"event\":{\"type\":\"message.part.updated\",\"properties\":{\"delta\":\"é!\",\"part\":{\"type\":\"tool\",\"messageID\":\"m\",\"callId\":\"c\",\"tool\":\"bash\"}}}}\n{\"type\":\"sdk_event\",\"event\":{\"type\":\"message.updated\"}}\n{\"type\":\"sdk_event\",\"event\":{\"type\":\"other\"}}\n".to_string()),
    ]
}

#[test]
fn types_of_events_are_counted() {
    let counts = collect_sdk_event_types(&log());
    assert_eq!(
        counts,
        vec![
            ("session.status".to_string(), 1),
            ("message.updated".to_string(), 2),
            ("message.part.updated".to_string(), 1),
            ("other".to_string(), 1)
        ]
    );
    let top = top_event_types(&counts, 2);
    assert_eq!(
        top,
        vec![
            ("message.updated".to_string(), 2),
            ("session.status".to_string(), 1)
        ]
    );
    assert_eq!(top_event_types(&counts, 12).len(), 4);
    assert_eq!(count_line(&top[0].0, top[0].1), "- message.updated: 2");
}

#[test]
fn events_are_dumped() {
    assert_eq!(
        dump_message_events(&log()),
        vec![
            "- session.status type=busy",
            "- message.updated id=m role=user session=s",
            "- message.part.updated messageID=m part_type=tool tool=bash callID=c delta_len=3",
            "- message.updated id=<none> role=<none> session=<none>"
        ]
    );
}

#[test]
fn the_last_lines_of_the_standard_error_are_dumped() {
    assert_eq!(dump_stderr_tail(&log(), 2), vec!["- two", "- three"]);
    assert_eq!(
        dump_stderr_tail(&log(), 30),
        vec!["- one", "- two", "- three"]
    );
}
