use agent_host::json::Json;
use agent_host::opencode::approvals::ApprovalStatus;
use agent_host::opencode::events::{
    read_part, read_role, MessageRole, Part, SdkEvent, ToolPart, ToolStateStatus, ToolStateUpdate,
};
use agent_host::opencode::inputs::{
    extract_diff_from_metadata, read_search, read_todos, read_write_input, TodoItem,
};
use agent_host::opencode::logs::{
    ActionType, CommandExitStatus, CommandRunResult, EntryIndexProvider, FileChange, LogPatch,
    NormalizedEntry, NormalizedEntryError, NormalizedEntryType, ToolResult, ToolStatus,
};
use agent_host::opencode::normalize::{LogNormalizer, LogState};
use agent_host::opencode::tool_calls::{Rendered, Tool, ToolCallState};
use agent_host::opencode::types::OpencodeExecutorEvent;

fn parse(s: &str) -> Json {
    Json::parse(s).unwrap()
}

fn shown() -> Rendered {
    Rendered {
        path: "src/a.rs".to_string(),
        diff: "shown diff".to_string(),
    }
}

#[test]
fn roles_are_read() {
    assert_eq!(read_role(&parse("\"user\"")), Some(MessageRole::User));
    assert_eq!(
        read_role(&parse("{\"assistant\":null}")),
        Some(MessageRole::Assistant)
    );
    assert_eq!(read_role(&parse("{\"assistant\":1}")), None);
    assert_eq!(read_role(&parse("\"system\"")), None);
    assert_eq!(read_role(&parse("3")), None);
}

#[test]
fn messages_are_read() {
    let event = SdkEvent::parse(&parse(
        "{\"type\":\"message.updated\",\"properties\":{\"info\":{\"id\":\"m\",\"role\":\"assistant\",\"providerID\":\"p\",\"modelID\":\"x\"}}}",
    ));
    match event {
        Some(SdkEvent::MessageUpdated { info }) => {
            assert_eq!(info.id, "m");
            assert_eq!(info.role, MessageRole::Assistant);
            assert_eq!(info.provider_id(), Some("p"));
            assert_eq!(info.model_id(), Some("x"));
        }
        other => panic!("{other:?}"),
    }
    let nested = SdkEvent::parse(&parse(
        "{\"type\":\"message.updated\",\"properties\":{\"info\":{\"id\":\"m\",\"role\":\"user\",\"model\":{\"providerId\":\"q\",\"modelID\":\"y\"},\"providerID\":\"p\"}}}",
    ));
    match nested {
        Some(SdkEvent::MessageUpdated { info }) => {
            assert_eq!(info.provider_id(), Some("q"));
            assert_eq!(info.model_id(), Some("y"));
        }
        other => panic!("{other:?}"),
    }
    // Both names of the same field are one too many.
    assert_eq!(
        SdkEvent::parse(&parse(
            "{\"type\":\"message.updated\",\"properties\":{\"info\":{\"id\":\"m\",\"role\":\"user\",\"model\":{\"providerId\":\"q\",\"providerID\":\"q\",\"modelID\":\"y\"}}}}",
        )),
        None
    );
    // Records may be written by position.
    assert!(matches!(
        SdkEvent::parse(&parse(
            "[\"message.updated\",[[\"m\",\"user\",[\"q\",\"y\"]]]]"
        )),
        Some(SdkEvent::MessageUpdated { info }) if info.model_id() == Some("y")
    ));
    assert_eq!(SdkEvent::parse(&parse("{\"type\":\"session.idle\"}")), None);
    assert_eq!(SdkEvent::parse(&parse("{\"type\":\"message.updated\"}")), None);
    assert_eq!(SdkEvent::parse(&parse("null")), None);
}

#[test]
fn parts_are_read() {
    assert!(matches!(
        read_part(&parse("{\"type\":\"text\",\"messageID\":\"m\",\"text\":\"t\"}")),
        Some(Part::Text(p)) if p.text == "t" && p.message_id == "m"
    ));
    assert!(matches!(
        read_part(&parse("[\"reasoning\",\"m\",\"t\"]")),
        Some(Part::Reasoning(p)) if p.text == "t"
    ));
    assert_eq!(read_part(&parse("{\"type\":\"step\"}")), Some(Part::Other));
    assert_eq!(read_part(&parse("[\"step\"]")), Some(Part::Other));
    assert_eq!(read_part(&parse("[\"step\",1]")), None);
    assert_eq!(read_part(&parse("{\"type\":1}")), None);
    assert_eq!(read_part(&parse("{\"type\":\"text\"}")), None);
}

fn state(s: &str) -> Option<ToolStateUpdate> {
    agent_host::opencode::events::read_tool_state(&parse(s))
}

#[test]
fn states_of_calls_are_read() {
    assert_eq!(
        state("{\"status\":\"pending\",\"input\":null}"),
        Some(ToolStateUpdate::Pending { input: None })
    );
    assert_eq!(
        state("{\"status\":\"completed\",\"output\":\"o\",\"title\":\"t\",\"metadata\":{}}"),
        Some(ToolStateUpdate::Completed {
            input: None,
            output: Some("o".to_string()),
            title: Some("t".to_string()),
            metadata: Some(parse("{}")),
        })
    );
    assert_eq!(
        state("{\"status\":\"error\",\"error\":\"e\"}"),
        Some(ToolStateUpdate::Error {
            input: None,
            error: Some("e".to_string()),
            metadata: None
        })
    );
    assert_eq!(state("{\"status\":\"odd\"}"), Some(ToolStateUpdate::Unknown));
    assert_eq!(
        state("{\"status\":1}"),
        Some(ToolStateUpdate::Running {
            input: None,
            title: None,
            metadata: None
        })
    );
    assert_eq!(
        state("{\"status\":18446744073709551615}"),
        Some(ToolStateUpdate::Unknown)
    );
    assert_eq!(state("{\"status\":-1}"), None);
    assert_eq!(state("{\"status\":1.5}"), None);
    assert_eq!(state("{}"), None);
    assert_eq!(state("{\"status\":\"running\",\"title\":3}"), None);
}

#[test]
fn records_have_named_members_or_positions() {
    for s in [
        "{\"command\":\"ls\"}",
        "{\"command\":1}",
        "[\"ls\"]",
        "[\"ls\",2]",
        "[]",
        "\"ls\"",
        "null",
    ] {
        let expected = match serde_json::from_str::<serde_json::Value>(s).unwrap() {
            serde_json::Value::Object(m) => m.get("command").and_then(|v| v.as_str().map(|t| t.to_string())),
            serde_json::Value::Array(a) if a.len() == 1 => a[0].as_str().map(|t| t.to_string()),
            _ => None,
        };
        assert_eq!(
            agent_host::opencode::inputs::read_command(&parse(s)),
            expected,
            "{s}"
        );
    }
}

#[test]
fn inputs_are_read() {
    let written = read_write_input(&parse("{\"filePath\":\"a\",\"content\":\"c\"}")).unwrap();
    assert_eq!((written.file_path.as_str(), written.content.as_str()), ("a", "c"));
    assert_eq!(read_write_input(&parse("{\"filePath\":\"a\"}")), None);
    assert_eq!(
        read_search(&parse("{\"pattern\":\"p\"}")),
        Some(Some("p".to_string()))
    );
    assert_eq!(
        read_search(&parse("{\"pattern\":\"p\",\"query\":\"q\"}")),
        Some(Some("q".to_string()))
    );
    assert_eq!(read_search(&parse("{}")), Some(None));
    assert_eq!(read_search(&parse("{\"query\":1}")), None);
    assert_eq!(
        read_todos(&parse("{\"todos\":[{\"content\":\"c\",\"status\":\"s\"},[\"d\",\"t\",\"high\"]]}")),
        Some(vec![
            TodoItem {
                content: "c".to_string(),
                status: "s".to_string(),
                priority: None
            },
            TodoItem {
                content: "d".to_string(),
                status: "t".to_string(),
                priority: Some("high".to_string())
            }
        ])
    );
    assert_eq!(read_todos(&parse("{}")), Some(vec![]));
    assert_eq!(read_todos(&parse("{\"todos\":null}")), None);
    assert_eq!(read_todos(&parse("{\"todos\":[1]}")), None);
}

#[test]
fn differences_are_found() {
    assert_eq!(
        extract_diff_from_metadata(&parse("{\"diff\":\"d\",\"results\":[{\"diff\":\"e\"}]}")),
        Some("d".to_string())
    );
    assert_eq!(
        extract_diff_from_metadata(&parse("{\"diff\":1,\"results\":[{\"diff\":\"e\"},{\"diff\":\"f\"}]}")),
        Some("f".to_string())
    );
    assert_eq!(
        extract_diff_from_metadata(&parse("{\"results\":[{\"diff\":\"e\"},{}]}")),
        None
    );
    assert_eq!(extract_diff_from_metadata(&parse("{\"results\":[]}")), None);
}

fn tool_part(tool: &str, state: &str) -> ToolPart {
    ToolPart {
        message_id: "m".to_string(),
        call_id: "c".to_string(),
        tool: tool.to_string(),
        state: agent_host::opencode::events::read_tool_state(&parse(state)).unwrap(),
    }
}

fn call(parts: Vec<ToolPart>) -> ToolCallState {
    let mut call = ToolCallState::new("c".to_string());
    for part in parts {
        call = call.update_from_part(part);
    }
    call
}

fn action(entry: NormalizedEntry) -> (ActionType, ToolStatus, String) {
    match entry.entry_type {
        NormalizedEntryType::ToolUse {
            action_type,
            status,
            ..
        } => (action_type, status, entry.content),
        other => panic!("{other:?}"),
    }
}

#[test]
fn commands_are_shown() {
    let call = call(vec![
        tool_part("bash", "{\"status\":\"pending\",\"input\":{\"command\":\" ls \"}}"),
        tool_part("", "{\"status\":\"error\",\"error\":\"boom\"}"),
        tool_part(
            "",
            "{\"status\":\"completed\",\"output\":\"out\",\"title\":\"List\",\"metadata\":{\"exit\":4294967298}}",
        ),
    ]);
    assert_eq!(call.common.state, ToolStateStatus::Completed);
    let (action, status, content) = action(call.to_normalized_entry(&shown()));
    assert_eq!(
        action,
        ActionType::CommandRun {
            command: " ls ".to_string(),
            result: Some(CommandRunResult {
                exit_status: Some(CommandExitStatus::ExitCode { code: 2 }),
                output: Some("out".to_string()),
            }),
        }
    );
    assert_eq!(status, ToolStatus::Success);
    assert_eq!(content, "ls");
}

#[test]
fn errors_of_commands_are_shown() {
    let failed = call(vec![
        tool_part("bash", "{\"status\":\"error\",\"error\":\"boom\"}"),
        tool_part("bash", "{\"status\":\"error\",\"error\":\"  \"}"),
    ]);
    let (act, status, content) = action(failed.to_normalized_entry(&shown()));
    assert_eq!(
        act,
        ActionType::CommandRun {
            command: String::new(),
            result: Some(CommandRunResult {
                exit_status: None,
                output: Some("boom".to_string()),
            }),
        }
    );
    assert_eq!(status, ToolStatus::Failed);
    assert_eq!(content, "bash");
}

#[test]
fn files_are_shown() {
    let read = call(vec![tool_part(
        "read",
        "{\"status\":\"running\",\"input\":{\"filePath\":\"/w/src/a.rs\"}}",
    )]);
    assert_eq!(
        read.render_request().file_path,
        Some("/w/src/a.rs".to_string())
    );
    let (act, status, content) = action(read.to_normalized_entry(&shown()));
    assert_eq!(
        act,
        ActionType::FileRead {
            path: "src/a.rs".to_string()
        }
    );
    assert_eq!(status, ToolStatus::Created);
    assert_eq!(content, "src/a.rs");

    let edit = call(vec![tool_part(
        "edit",
        "{\"status\":\"completed\",\"input\":{\"filePath\":\"/w/src/a.rs\"},\"metadata\":{\"diff\":\"d\"}}",
    )]);
    assert_eq!(edit.render_request().diff, Some("d".to_string()));
    let (act, _, _) = action(edit.to_normalized_entry(&shown()));
    assert_eq!(
        act,
        ActionType::FileEdit {
            path: "src/a.rs".to_string(),
            changes: vec![FileChange::Edit {
                unified_diff: "shown diff".to_string(),
                has_line_numbers: true
            }],
        }
    );

    let write = call(vec![tool_part(
        "write",
        "{\"status\":\"completed\",\"input\":{\"filePath\":\"a\",\"content\":\"new\"},\"metadata\":{\"diff\":\"d\"}}",
    )]);
    assert_eq!(write.render_request().diff, None);
    let (act, _, _) = action(write.to_normalized_entry(&shown()));
    assert_eq!(
        act,
        ActionType::FileEdit {
            path: "src/a.rs".to_string(),
            changes: vec![FileChange::Write {
                content: "new".to_string()
            }],
        }
    );
    let unknown = call(vec![tool_part("multiedit", "{\"status\":\"pending\"}")]);
    let (act, _, content) = action(unknown.to_normalized_entry(&shown()));
    assert_eq!(
        act,
        ActionType::FileEdit {
            path: String::new(),
            changes: vec![]
        }
    );
    assert_eq!(content, "multiedit");
}

#[test]
fn other_tools_are_shown() {
    let todo = call(vec![tool_part(
        "todowrite",
        "{\"status\":\"completed\",\"input\":{\"todos\":[{\"content\":\"c\",\"status\":\"s\"}]},\"title\":\"1 todo\"}",
    )]);
    let (act, _, content) = action(todo.to_normalized_entry(&shown()));
    assert!(matches!(&act, ActionType::TodoManagement { todos, operation } if todos.len() == 1 && operation == "write"));
    assert_eq!(content, "1 todo");
    let read = call(vec![tool_part(
        "todoread",
        "{\"status\":\"completed\",\"input\":{\"todos\":[]},\"metadata\":{\"todos\":[[\"a\",\"b\"]]}}",
    )]);
    let (act, _, _) = action(read.to_normalized_entry(&shown()));
    assert!(matches!(&act, ActionType::TodoManagement { todos, operation } if todos.len() == 1 && operation == "read"));
    let search = call(vec![tool_part(
        "grep",
        "{\"status\":\"pending\",\"input\":{\"pattern\":\"x\"}}",
    )]);
    let (act, _, _) = action(search.to_normalized_entry(&shown()));
    assert_eq!(
        act,
        ActionType::Search {
            query: "x".to_string()
        }
    );
    let fetch = call(vec![tool_part(
        "webfetch",
        "{\"status\":\"pending\",\"input\":{\"url\":\"u\"}}",
    )]);
    let (act, _, _) = action(fetch.to_normalized_entry(&shown()));
    assert_eq!(
        act,
        ActionType::WebFetch {
            url: "u".to_string()
        }
    );
    let task = call(vec![tool_part(
        "task",
        "{\"status\":\"pending\",\"input\":{\"description\":\"d\"}}",
    )]);
    let (act, _, content) = action(task.to_normalized_entry(&shown()));
    assert_eq!(
        act,
        ActionType::TaskCreate {
            description: "d".to_string()
        }
    );
    assert_eq!(content, "task");
    let other = call(vec![tool_part(
        "mystery",
        "{\"status\":\"completed\",\"input\":{\"a\":1},\"output\":\"o\"}",
    )]);
    let (act, _, _) = action(other.to_normalized_entry(&shown()));
    assert_eq!(
        act,
        ActionType::Tool {
            tool_name: "mystery".to_string(),
            arguments: Some(parse("{\"a\":1}")),
            result: Some(ToolResult::Markdown("o".to_string())),
        }
    );
    let list = call(vec![tool_part("mystery", "{\"status\":\"pending\",\"input\":[1]}")]);
    let (act, _, _) = action(list.to_normalized_entry(&shown()));
    assert!(matches!(act, ActionType::Tool { arguments: None, result: None, .. }));
}

#[test]
fn a_tool_may_be_named_late() {
    let late = call(vec![
        tool_part(" ", "{\"status\":\"pending\",\"input\":{\"command\":\"ls\"}}"),
        tool_part("bash", "{\"status\":\"odd\"}"),
    ]);
    let early = call(vec![tool_part(
        "bash",
        "{\"status\":\"pending\",\"input\":{\"command\":\"ls\"}}",
    )]);
    assert_eq!(late, early);
    assert!(matches!(late.tool, Tool::Bash(_)));
    // A call of a known tool stays one.
    let renamed = call(vec![
        tool_part("bash", "{\"status\":\"pending\"}"),
        tool_part("read", "{\"status\":\"pending\"}"),
    ]);
    assert!(matches!(renamed.tool, Tool::Bash(_)));
    assert_eq!(renamed.common.tool_name, "read");
}

fn sdk(s: &str) -> OpencodeExecutorEvent {
    OpencodeExecutorEvent::SdkEvent { event: parse(s) }
}

const MESSAGE: &str = "{\"type\":\"message.updated\",\"properties\":{\"info\":{\"id\":\"m\",\"role\":\"assistant\",\"providerID\":\"p\",\"modelID\":\"x\"}}}";

fn text_delta(delta: &str) -> String {
    format!("{{\"type\":\"message.part.updated\",\"properties\":{{\"part\":{{\"type\":\"text\",\"messageID\":\"m\",\"text\":\"whole\"}},\"delta\":\"{delta}\"}}}}")
}

fn added(patch: Option<LogPatch>) -> (usize, NormalizedEntry) {
    match patch {
        Some(LogPatch::Add { index, entry }) => (index, entry),
        other => panic!("{other:?}"),
    }
}

fn replaced(patch: Option<LogPatch>) -> (usize, NormalizedEntry) {
    match patch {
        Some(LogPatch::Replace { index, entry }) => (index, entry),
        other => panic!("{other:?}"),
    }
}

#[test]
fn the_log_becomes_a_conversation() {
    let mut log = LogNormalizer::new();
    let mut indexes = EntryIndexProvider { next: 10 };
    let start = |id: &str| OpencodeExecutorEvent::SessionStart {
        session_id: id.to_string(),
    };
    assert_eq!(
        log.on_event(start("a"), &mut indexes).session_id,
        Some("a".to_string())
    );
    assert_eq!(log.on_event(start("b"), &mut indexes).session_id, None);

    // Text of a message that is not known is left out.
    assert_eq!(
        log.on_event(sdk(&text_delta("x")), &mut indexes).patch,
        None
    );
    let (index, entry) = added(log.on_event(sdk(MESSAGE), &mut indexes).patch);
    assert_eq!(index, 10);
    assert_eq!(entry.content, "model: x  provider: p");
    assert_eq!(entry.entry_type, NormalizedEntryType::SystemMessage);
    assert_eq!(log.on_event(sdk(MESSAGE), &mut indexes).patch, None);

    let (index, entry) = added(log.on_event(sdk(&text_delta("Hel")), &mut indexes).patch);
    assert_eq!((index, entry.content.as_str()), (11, "Hel"));
    assert_eq!(entry.entry_type, NormalizedEntryType::AssistantMessage);
    assert_eq!(log.on_event(sdk(&text_delta("")), &mut indexes).patch, None);
    let (index, entry) = replaced(log.on_event(sdk(&text_delta("lo")), &mut indexes).patch);
    assert_eq!((index, entry.content.as_str()), (11, "Hello"));
    let whole = "{\"type\":\"message.part.updated\",\"properties\":{\"part\":{\"type\":\"text\",\"messageID\":\"m\",\"text\":\"whole\"}}}";
    let (index, entry) = replaced(log.on_event(sdk(whole), &mut indexes).patch);
    assert_eq!((index, entry.content.as_str()), (11, "whole"));

    let thought = "{\"type\":\"message.part.updated\",\"properties\":{\"part\":{\"type\":\"reasoning\",\"messageID\":\"m\",\"text\":\"hm\"}}}";
    let (index, entry) = added(log.on_event(sdk(thought), &mut indexes).patch);
    assert_eq!((index, entry.content.as_str()), (12, "hm"));
    assert_eq!(entry.entry_type, NormalizedEntryType::Thinking);

    let error = OpencodeExecutorEvent::Error {
        message: "bad".to_string(),
    };
    let (index, entry) = added(log.on_event(error, &mut indexes).patch);
    assert_eq!((index, entry.content.as_str()), (13, "bad"));
    let done = log.on_event(OpencodeExecutorEvent::Done, &mut indexes);
    assert_eq!((done.patch, done.call, done.session_id), (None, None, None));
    assert_eq!(indexes.next, 14);
}

#[test]
fn errors_of_the_session_become_entries() {
    let mut log = LogState::new();
    let mut indexes = EntryIndexProvider { next: 0 };
    let auth = parse("{\"type\":\"session.error\",\"properties\":{\"error\":{\"name\":\"ProviderAuthError\",\"data\":{\"message\":\"log in\"}}}}");
    let (_, entry) = added(log.handle_sdk_event(&auth, &mut indexes).patch);
    assert_eq!(entry.content, "log in");
    assert_eq!(
        entry.entry_type,
        NormalizedEntryType::ErrorMessage {
            error_type: NormalizedEntryError::SetupRequired
        }
    );
    let other = parse("{\"type\":\"session.error\",\"properties\":{\"error\":{\"name\":\"X\"}}}");
    let (_, entry) = added(log.handle_sdk_event(&other, &mut indexes).patch);
    assert_eq!(entry.content, "OpenCode session error: {\"name\":\"X\"}");
    assert_eq!(
        entry.entry_type,
        NormalizedEntryType::ErrorMessage {
            error_type: NormalizedEntryError::Other
        }
    );
    let none = parse("{\"type\":\"session.error\",\"properties\":{\"error\":null}}");
    let (index, entry) = added(log.handle_sdk_event(&none, &mut indexes).patch);
    assert_eq!((index, entry.content.as_str()), (2, "OpenCode session error"));
}

fn tool_event(call_id: &str, state: &str) -> Json {
    parse(&format!("{{\"type\":\"message.part.updated\",\"properties\":{{\"part\":{{\"type\":\"tool\",\"messageID\":\"m\",\"callID\":\"{call_id}\",\"tool\":\"bash\",\"state\":{state}}}}}}}"))
}

#[test]
fn calls_are_shown_at_one_index() {
    let mut log = LogState::new();
    let mut indexes = EntryIndexProvider { next: 0 };
    log.handle_sdk_event(&parse(MESSAGE), &mut indexes);
    assert_eq!(
        log.handle_sdk_event(&tool_event(" ", "{\"status\":\"pending\"}"), &mut indexes)
            .call,
        None
    );
    let handled = log.handle_sdk_event(
        &tool_event("c", "{\"status\":\"pending\",\"input\":{\"command\":\"ls\"}}"),
        &mut indexes,
    );
    assert_eq!(handled.patch, None);
    assert_eq!(handled.call, Some("c".to_string()));
    assert_eq!(log.render_request("c").unwrap().file_path, None);
    assert_eq!(log.render_request("d"), None);
    let (index, entry) = added(log.show_call("c", &shown(), &mut indexes));
    assert_eq!((index, entry.content.as_str()), (1, "ls"));
    assert_eq!(entry.metadata.unwrap().tool_call_id, "c");
    log.handle_sdk_event(&tool_event("c", "{\"status\":\"completed\"}"), &mut indexes);
    let (index, _) = replaced(log.show_call("c", &shown(), &mut indexes));
    assert_eq!(index, 1);
    assert_eq!(log.show_call("d", &shown(), &mut indexes), None);
}

#[test]
fn each_call_has_an_entry_of_its_own() {
    let mut log = LogState::new();
    let mut indexes = EntryIndexProvider { next: 4 };
    log.message_roles
        .insert("m".to_string(), MessageRole::Assistant);
    let denied = ApprovalStatus::Denied { reason: None };
    log.approvals.insert("b".to_string(), denied);
    let mut changes = Vec::new();
    for id in ["a", "b", "a", "c", "b", "a"] {
        let event = tool_event(id, "{\"status\":\"running\"}");
        let handled = log.handle_sdk_event(&event, &mut indexes);
        assert_eq!(handled.call.as_deref(), Some(id));
        match log.show_call(id, &shown(), &mut indexes) {
            Some(LogPatch::Add { index, entry }) => changes.push((id, true, index, action(entry).1)),
            Some(LogPatch::Replace { index, entry }) => {
                changes.push((id, false, index, action(entry).1))
            }
            None => panic!("{id}"),
        }
    }
    assert_eq!(
        changes,
        vec![
            ("a", true, 4, ToolStatus::Created),
            ("b", true, 5, ToolStatus::Denied { reason: None }),
            ("a", false, 4, ToolStatus::Created),
            ("c", true, 6, ToolStatus::Created),
            ("b", false, 5, ToolStatus::Denied { reason: None }),
            ("a", false, 4, ToolStatus::Created),
        ]
    );
    assert_eq!(indexes.next, 7);
}

#[test]
fn denials_are_told_of_and_kept() {
    let mut log = LogState::new();
    let mut indexes = EntryIndexProvider { next: 0 };
    log.handle_sdk_event(&parse(MESSAGE), &mut indexes);
    log.handle_sdk_event(&tool_event("c", "{\"status\":\"pending\"}"), &mut indexes);
    log.show_call("c", &shown(), &mut indexes);
    let denied = ApprovalStatus::Denied {
        reason: Some(" no ".to_string()),
    };
    let handled = log.handle_approval_response("c", denied, &mut indexes);
    let (index, entry) = added(handled.patch);
    assert_eq!((index, entry.content.as_str()), (2, "no"));
    assert_eq!(
        entry.entry_type,
        NormalizedEntryType::UserFeedback {
            denied_tool: "bash".to_string()
        }
    );
    assert_eq!(handled.call, Some("c".to_string()));
    log.handle_sdk_event(&tool_event("c", "{\"status\":\"completed\"}"), &mut indexes);
    let (_, entry) = replaced(log.show_call("c", &shown(), &mut indexes));
    let (_, status, _) = action(entry);
    assert_eq!(
        status,
        ToolStatus::Denied {
            reason: Some(" no ".to_string())
        }
    );
}

#[test]
fn approvals_may_come_before_calls() {
    let mut log = LogState::new();
    let mut indexes = EntryIndexProvider { next: 0 };
    log.handle_sdk_event(&parse(MESSAGE), &mut indexes);
    let handled = log.handle_approval_response("c", ApprovalStatus::TimedOut, &mut indexes);
    assert_eq!((handled.patch, handled.call), (None, None));
    log.handle_sdk_event(&tool_event("c", "{\"status\":\"completed\"}"), &mut indexes);
    let (_, entry) = added(log.show_call("c", &shown(), &mut indexes));
    assert_eq!(action(entry).1, ToolStatus::TimedOut);
    let handled = log.handle_approval_response(
        "unknown",
        ApprovalStatus::Denied { reason: None },
        &mut indexes,
    );
    let (_, entry) = added(handled.patch);
    assert_eq!(entry.content, "User denied this tool use request");
    assert_eq!(
        entry.entry_type,
        NormalizedEntryType::UserFeedback {
            denied_tool: "tool".to_string()
        }
    );
}

#[test]
fn indexes_come_one_after_the_other() {
    let mut indexes = EntryIndexProvider {
        next: usize::MAX - 1,
    };
    assert_eq!(indexes.next(), usize::MAX - 1);
    assert_eq!(indexes.next(), usize::MAX);
    assert_eq!(indexes.next(), 0);
}
