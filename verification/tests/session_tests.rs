use agent_host::json::Json;
use agent_host::opencode::error::ExecutorError;
use agent_host::opencode::executor::{
    default_to_true, exit_result, server_env, setup_approvals_env, AvailabilityInfo, ExecutionEnv,
    ExecutorExitResult, Opencode,
};
use agent_host::opencode::server_url::{
    output_text, try_extract_url, ServerUrlWait, StreamKind, OUTPUT_TAIL_MAX, SEARCH_BUF_MAX,
};
use agent_host::opencode::session::{
    build_default_headers, create_session, event_stream_headers, event_stream_refused, event_url,
    fork_session, fork_url, health_url, message_url, open_session_url, opened_session,
    parse_model, permission_reply_url, prompt,
    prompt_request, prompt_value_outcome, session_url, HealthProbe, HealthWait, ModelSpec,
    PromptRun, SessionAnswer,
};
use agent_host::opencode::stream::ControlEvent;

fn io<T>(message: &str) -> Result<T, ExecutorError> {
    Err(ExecutorError::Io(message.to_string()))
}

#[test]
fn urls_of_the_server() {
    assert_eq!(health_url("b"), "b/global/health");
    assert_eq!(session_url("b"), "b/session");
    assert_eq!(fork_url("b", "s"), "b/session/s/fork");
    assert_eq!(open_session_url("b", None), "b/session");
    assert_eq!(open_session_url("b", Some("s")), "b/session/s/fork");
    assert_eq!(message_url("b", "s"), "b/session/s/message");
    assert_eq!(event_url("b"), "b/event");
    assert_eq!(permission_reply_url("b", "p"), "b/permission/p/reply");
}

#[test]
fn headers_hold_the_directory_where_they_can() {
    for (directory, fits) in [
        ("/home/x", true),
        ("/home/\t x", true),
        ("/home/é", true),
        ("", true),
        ("/a\nb", false),
        ("/a\u{7f}", false),
        ("/a\u{1f}", false),
        ("/a\u{80}", true),
    ] {
        let headers = build_default_headers(directory);
        if fits {
            assert_eq!(
                headers,
                vec![("x-opencode-directory".to_string(), directory.to_string())]
            );
        } else {
            assert!(headers.is_empty());
        }
        assert_eq!(
            reqwest::header::HeaderValue::from_str(directory).is_ok(),
            fits
        );
    }
    assert_eq!(event_stream_headers(None).len(), 1);
    assert_eq!(
        event_stream_headers(Some("5"))[1],
        ("Last-Event-ID".to_string(), "5".to_string())
    );
}

#[test]
fn models_are_read() {
    let read = |s: &str| -> ModelSpec { parse_model(s).unwrap() };
    assert_eq!(read("google-vertex/gemini/3").provider_id, "google-vertex");
    assert_eq!(read("google-vertex/gemini/3").model_id, "gemini/3");
    assert_eq!(read("anthropic").provider_id, "anthropic");
    assert_eq!(read("anthropic").model_id, "");
    assert_eq!(read("/m").provider_id, "");
}

#[test]
fn prompts_are_requested() {
    let request = prompt_request("do it", parse_model("a/b"), Some("build".to_string()));
    assert_eq!(request.parts.len(), 1);
    assert_eq!(request.parts[0].kind, "text");
    assert_eq!(request.parts[0].text, "do it");
    assert_eq!(request.agent, Some("build".to_string()));
    assert_eq!(request.model.unwrap().model_id, "b");
}

#[test]
fn sessions_are_made() {
    assert_eq!(
        create_session(SessionAnswer::Session("s".to_string())),
        Ok("s".to_string())
    );
    assert_eq!(
        create_session(SessionAnswer::Refused("500".to_string())),
        io("OpenCode session.create failed: HTTP 500")
    );
    assert_eq!(
        fork_session(SessionAnswer::Refused("404".to_string())),
        io("OpenCode session.fork failed: HTTP 404")
    );
    assert_eq!(fork_session(SessionAnswer::Failed("down".to_string())), io("down"));
    assert_eq!(
        create_session(SessionAnswer::Unreadable("eof".to_string())),
        io("eof")
    );
    assert_eq!(
        event_stream_refused("500", None),
        ExecutorError::Io(
            "OpenCode event stream failed: HTTP 500 <failed to read response body>".to_string()
        )
    );
    assert_eq!(
        event_stream_refused("500", Some("oops")),
        ExecutorError::Io("OpenCode event stream failed: HTTP 500 oops".to_string())
    );
}

#[test]
fn answers_to_prompts() {
    assert_eq!(
        prompt(true, "200 OK", " {\"info\":{},\"parts\":[]} "),
        Ok(())
    );
    assert_eq!(
        prompt(false, "500 Internal Server Error", "x"),
        io("OpenCode session.prompt failed: HTTP 500 Internal Server Error x")
    );
    assert_eq!(
        prompt(true, "200 OK", " \n"),
        io("OpenCode session.prompt returned empty response body")
    );
    assert_eq!(
        prompt(true, "200 OK", "{\"name\":\"E\",\"data\":{\"message\":\"m\"}}"),
        io("OpenCode session.prompt failed: E: m")
    );
    assert_eq!(
        prompt(true, "200 OK", "{\"name\":\"E\"}"),
        io("OpenCode session.prompt failed: E: {\"name\":\"E\"}")
    );
    assert_eq!(
        prompt(true, "200 OK", "[1]"),
        io("OpenCode session.prompt returned unexpected response: [1]")
    );
    assert!(matches!(prompt(true, "200 OK", "nope"), Err(ExecutorError::Io(m)) if m.contains("line 1")));
    let value = Json::parse("{\"info\":null,\"parts\":null}").unwrap();
    assert_eq!(prompt_value_outcome(&value, "raw"), Ok(()));
}

#[test]
fn health_is_waited_for() {
    let mut wait = HealthWait::new();
    assert_eq!(
        wait.timed_out(),
        ExecutorError::Io(
            "Timed out waiting for OpenCode server health: unknown error".to_string()
        )
    );
    assert!(!wait.on_probe(HealthProbe::Failed("refused".to_string())));
    assert_eq!(wait.last_err, Some("refused".to_string()));
    assert!(!wait.on_probe(HealthProbe::Refused("503".to_string())));
    assert_eq!(wait.last_err, Some("HTTP 503".to_string()));
    assert!(!wait.on_probe(HealthProbe::Unreadable));
    assert_eq!(
        wait.last_err,
        Some("failed to parse health response".to_string())
    );
    assert!(!wait.on_probe(HealthProbe::Answered {
        healthy: false,
        version: "1.1".to_string()
    }));
    assert_eq!(
        wait.timed_out(),
        ExecutorError::Io(
            "Timed out waiting for OpenCode server health: unhealthy server (version 1.1)"
                .to_string()
        )
    );
    assert!(wait.on_probe(HealthProbe::Answered {
        healthy: true,
        version: "1.1".to_string()
    }));
}

fn session_error(message: &str) -> ControlEvent {
    ControlEvent::SessionError {
        message: message.to_string(),
    }
}

#[test]
fn a_prompt_ends_when_it_is_answered_and_the_session_is_idle() {
    let mut run = PromptRun::new();
    assert_eq!(run.on_control(ControlEvent::Idle), None);
    assert_eq!(run.on_answer(Ok(())), Some(Ok(())));

    let mut run = PromptRun::new();
    assert_eq!(run.on_control_closed(), None);
    assert_eq!(run.on_answer(Ok(())), None);
    assert_eq!(run.on_control(ControlEvent::Idle), Some(Ok(())));

    let mut run = PromptRun::new();
    assert_eq!(run.on_answer(Ok(())), None);
    assert_eq!(run.on_control_closed(), Some(Ok(())));
}

#[test]
fn errors_of_the_session_are_kept() {
    let mut run = PromptRun::new();
    assert_eq!(run.on_control(session_error("a")), None);
    assert_eq!(run.on_answer(Ok(())), None);
    assert_eq!(run.on_control(session_error("b")), None);
    assert_eq!(run.on_control(ControlEvent::Idle), Some(io("a\nb")));
}

#[test]
fn a_prompt_can_end_early() {
    let mut run = PromptRun::new();
    assert_eq!(
        run.on_control(ControlEvent::AuthRequired {
            message: "m".to_string()
        }),
        Some(Err(ExecutorError::AuthRequired("m".to_string())))
    );
    let mut run = PromptRun::new();
    assert_eq!(
        run.on_control(ControlEvent::Disconnected),
        Some(io(
            "OpenCode event stream disconnected while prompt was running"
        ))
    );
    let mut run = PromptRun::new();
    run.on_answer(Ok(()));
    assert_eq!(
        run.on_control(ControlEvent::Disconnected),
        Some(io(
            "OpenCode event stream disconnected while waiting for session to go idle"
        ))
    );
    let mut run = PromptRun::new();
    run.on_control(session_error("a"));
    assert_eq!(run.on_answer(io("b")), Some(io("b")));
}

#[test]
fn the_url_is_found_in_the_output() {
    assert_eq!(
        try_extract_url("x opencode server listening on http://127.0.0.1:4096\n"),
        Some("http://127.0.0.1:4096".to_string())
    );
    assert_eq!(
        try_extract_url("opencode server listening on http://127.0.0.1:40"),
        None
    );
    assert_eq!(
        try_extract_url("opencode server listening on ftp://x "),
        None
    );
    assert_eq!(
        try_extract_url(
            "opencode server listening on http://a \nopencode server listening on https://b\n"
        ),
        Some("https://b".to_string())
    );
    assert_eq!(try_extract_url("opencode server listening on  "), None);
    assert_eq!(try_extract_url(""), None);
}

#[test]
fn the_url_is_waited_for() {
    let mut wait = ServerUrlWait::new();
    assert_eq!(wait.on_output(StreamKind::Stderr, "npm\n"), None);
    assert_eq!(
        wait.on_output(StreamKind::Stdout, "opencode server listening on ht"),
        None
    );
    assert_eq!(wait.on_output(StreamKind::Stdout, "tp://h:1"), None);
    assert_eq!(
        wait.on_output(StreamKind::Stdout, "\n"),
        Some("http://h:1".to_string())
    );
    assert_eq!(
        wait.exited(),
        ExecutorError::Io(
            "OpenCode server exited before printing listening URL.\nServer output tail:\n[stderr] npm\n[stdout] opencode server listening on ht[stdout] tp://h:1[stdout]"
                .to_string()
        )
    );
    assert_eq!(
        ServerUrlWait::new().timed_out(),
        ExecutorError::Io(
            "Timed out waiting for OpenCode server to print listening URL.\nServer output tail:\n"
                .to_string()
        )
    );
}

#[test]
fn not_more_output_is_kept_than_is_meant_to_be() {
    let mut wait = ServerUrlWait::new();
    let chunk = "é".repeat(40000);
    wait.on_output(StreamKind::Stdout, &chunk);
    assert_eq!(wait.search_buf.len(), SEARCH_BUF_MAX);
    assert_eq!(wait.output_tail.len(), OUTPUT_TAIL_MAX);
    wait.on_output(StreamKind::Stdout, "x");
    assert_eq!(wait.search_buf.len(), SEARCH_BUF_MAX - 1);
    assert!(wait.search_buf.ends_with('x'));
}

#[test]
fn output_is_read() {
    assert_eq!(output_text(Ok(b"a\xff".to_vec())), "a\u{fffd}");
    assert_eq!(output_text(Err("gone".to_string())), "[read error] gone");
}

fn agent(auto_approve: bool) -> Opencode<(), (), u32> {
    Opencode {
        append_prompt: (),
        model: Some("a/b".to_string()),
        mode: Some("build".to_string()),
        auto_approve,
        cmd: (),
        approvals: Some(7),
    }
}

#[test]
fn the_server_is_started() {
    let line = agent(true).build_command_builder();
    assert_eq!(line.base, "npx --yes opencode-ai@1.1.3");
    assert_eq!(
        line.params,
        vec!["serve", "--hostname", "127.0.0.1", "--port", "0"]
    );
    assert_eq!(server_env().len(), 3);
    assert_eq!(server_env()[2], ("NO_COLOR".to_string(), "1".to_string()));
}

#[test]
fn runs_are_configured() {
    let config = agent(false).run_config(
        "u".to_string(),
        "d".to_string(),
        "p".to_string(),
        Some("s"),
    );
    assert_eq!(config.approvals, Some(7));
    assert_eq!(config.resume_session_id, Some("s".to_string()));
    assert_eq!(config.agent, Some("build".to_string()));
    assert_eq!(config.model, Some("a/b".to_string()));
    assert!(!config.auto_approve);
    let config =
        agent(true).run_config("u".to_string(), "d".to_string(), "p".to_string(), None);
    assert_eq!(config.approvals, None);
    assert_eq!(config.resume_session_id, None);
    let mut other = agent(true);
    other.use_approvals(8);
    assert_eq!(other.approvals, Some(8));
    assert!(default_to_true());
}

#[test]
fn agents_are_available_where_anything_is_found() {
    let a = agent(true);
    assert_eq!(
        a.get_availability_info(true, false),
        AvailabilityInfo::InstallationFound
    );
    assert_eq!(
        a.get_availability_info(false, true),
        AvailabilityInfo::InstallationFound
    );
    assert_eq!(
        a.get_availability_info(false, false),
        AvailabilityInfo::NotFound
    );
}

#[test]
fn runs_end() {
    assert_eq!(exit_result(Ok(())), (ExecutorExitResult::Success, None));
    assert_eq!(
        exit_result(Err("x".to_string())),
        (
            ExecutorExitResult::Failure,
            Some("OpenCode executor error: x".to_string())
        )
    );
}

#[test]
fn the_server_is_told_to_ask() {
    let mut env = ExecutionEnv::new();
    env.insert("A", "1");
    env.insert("A", "2");
    let asked = setup_approvals_env(false, &env);
    assert_eq!(asked.get("A"), Some("2"));
    assert_eq!(
        asked.get("OPENCODE_PERMISSION"),
        Some("{\"edit\": \"ask\", \"bash\": \"ask\", \"webfetch\": \"ask\", \"doom_loop\": \"ask\", \"external_directory\": \"ask\"}")
    );
    assert_eq!(asked.variables().len(), 2);
    assert!(!setup_approvals_env(true, &env).contains_key("OPENCODE_PERMISSION"));
    env.insert("OPENCODE_PERMISSION", "mine");
    assert_eq!(
        setup_approvals_env(false, &env).get("OPENCODE_PERMISSION"),
        Some("mine")
    );
}

#[test]
fn a_session_is_opened_by_forking_or_creating() {
    let refused = || SessionAnswer::Refused("500".to_string());
    assert_eq!(
        opened_session(true, refused()),
        Err(ExecutorError::Io(
            "OpenCode session.fork failed: HTTP 500".to_string()
        ))
    );
    assert_eq!(
        opened_session(false, refused()),
        Err(ExecutorError::Io(
            "OpenCode session.create failed: HTTP 500".to_string()
        ))
    );
    assert_eq!(
        opened_session(true, SessionAnswer::Session("s".to_string())),
        Ok("s".to_string())
    );
}
