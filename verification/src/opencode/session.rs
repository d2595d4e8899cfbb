//! A session with an OpenCode server: the requests that are made and what the answers mean.
use vstd::prelude::*;
use vstd::string::*;

use crate::json;
use crate::json::{Json, JsonView};
use crate::model;
use crate::opencode::error::ExecutorError;
use crate::opencode::stream;
use crate::opencode::stream::ControlEvent;
use crate::text;

verus! {

// ---------------------------------------------------------------------------
// Requests
// ---------------------------------------------------------------------------

/// Where the server tells of its health.
pub fn health_url(base_url: &str) -> (res: String)
    ensures
        res@ == base_url@ + "/global/health"@,
{
    text::cat2(base_url, "/global/health")
}

/// Where a session is created.
pub fn session_url(base_url: &str) -> (res: String)
    ensures
        res@ == base_url@ + "/session"@,
{
    text::cat2(base_url, "/session")
}

/// Where a session is forked.
pub fn fork_url(base_url: &str, session_id: &str) -> (res: String)
    ensures
        res@ == base_url@ + "/session/"@ + session_id@ + "/fork"@,
{
    text::cat4(base_url, "/session/", session_id, "/fork")
}

/// Where a session is opened: an existing one is forked, and without one a new one is created.
pub fn open_session_url(base_url: &str, resume_session_id: Option<&str>) -> (res: String)
    ensures
        res@ == match resume_session_id.deep_view() {
            Some(id) => base_url@ + "/session/"@ + id + "/fork"@,
            None => base_url@ + "/session"@,
        },
{
    match resume_session_id {
        Some(id) => fork_url(base_url, id),
        None => session_url(base_url),
    }
}

/// Where a prompt is sent.
pub fn message_url(base_url: &str, session_id: &str) -> (res: String)
    ensures
        res@ == base_url@ + "/session/"@ + session_id@ + "/message"@,
{
    text::cat4(base_url, "/session/", session_id, "/message")
}

/// Where the events are streamed from.
pub fn event_url(base_url: &str) -> (res: String)
    ensures
        res@ == base_url@ + "/event"@,
{
    text::cat2(base_url, "/event")
}

/// Where a request for permission is answered.
pub fn permission_reply_url(base_url: &str, request_id: &str) -> (res: String)
    ensures
        res@ == base_url@ + "/permission/"@ + request_id@ + "/reply"@,
{
    text::cat4(base_url, "/permission/", request_id, "/reply")
}

/// Whether a character can stand in the value of a header: a tab, or anything from the space on
/// but the delete character.
pub open spec fn header_char(c: char) -> bool {
    c == '\t' || (c >= ' ' && c != '\u{7f}')
}

/// Asks `reqwest::header::HeaderValue::from_str` whether a text can be the value of a header. The
/// contract claims that it can exactly where every character is a tab, or is from the space on and
/// not the delete character: all bytes of the others are refused, and all bytes of a character
/// beyond ASCII are accepted.
#[verifier::external_body]
fn is_header_value(s: &str) -> (res: bool)
    ensures
        res == forall|i: int| 0 <= i < s@.len() ==> header_char(#[trigger] s@[i]),
{
    reqwest::header::HeaderValue::from_str(s).is_ok()
}

/// The headers of every request: the directory, where it can stand in a header.
pub fn build_default_headers(directory: &str) -> (res: Vec<(String, String)>)
    ensures
        res.deep_view() == if forall|i: int|
            0 <= i < directory@.len() ==> header_char(#[trigger] directory@[i]) {
            seq![("x-opencode-directory"@, directory@)]
        } else {
            seq![]
        },
{
    let mut headers: Vec<(String, String)> = Vec::new();
    if is_header_value(directory) {
        headers.push((text::owned("x-opencode-directory"), text::owned(directory)));
        assert(headers.deep_view() =~= seq![("x-opencode-directory"@, directory@)]);
    } else {
        assert(headers.deep_view() =~= seq![]);
    }
    headers
}

/// The headers of the request for the events: what is wanted, and where to go on from.
pub fn event_stream_headers(last_event_id: Option<&str>) -> (res: Vec<(String, String)>)
    ensures
        res.deep_view() == match last_event_id.deep_view() {
            Some(id) => seq![("Accept"@, "text/event-stream"@), ("Last-Event-ID"@, id)],
            None => seq![("Accept"@, "text/event-stream"@)],
        },
{
    let mut headers: Vec<(String, String)> = Vec::new();
    headers.push((text::owned("Accept"), text::owned("text/event-stream")));
    match last_event_id {
        Some(id) => {
            headers.push((text::owned("Last-Event-ID"), text::owned(id)));
            assert(headers.deep_view() =~= seq![
                ("Accept"@, "text/event-stream"@),
                ("Last-Event-ID"@, id@),
            ]);
        },
        None => {
            assert(headers.deep_view() =~= seq![("Accept"@, "text/event-stream"@)]);
        },
    }
    headers
}

/// A model of a provider.
#[derive(Debug, Clone, PartialEq)]
pub struct ModelSpec<S = String> {
    pub provider_id: S,
    pub model_id: S,
}

impl DeepView for ModelSpec {
    type V = ModelSpec<Seq<char>>;

    open spec fn deep_view(&self) -> ModelSpec<Seq<char>> {
        ModelSpec { provider_id: self.provider_id@, model_id: self.model_id@ }
    }
}

/// The model that a text names: the provider stands before the first slash, and the model after
/// it. Without a slash the text names the provider.
pub open spec fn model_of(model: Seq<char>) -> ModelSpec<Seq<char>> {
    let slash = text::char_from(model, '/', 0);
    if slash < model.len() {
        ModelSpec { provider_id: model.take(slash), model_id: model.skip(slash + 1) }
    } else {
        ModelSpec { provider_id: model, model_id: ""@ }
    }
}

/// Reads the name of a model.
pub fn parse_model(model: &str) -> (res: Option<ModelSpec>)
    ensures
        res.deep_view() == Some(model_of(model@)),
{
    let cs = text::chars_of(model);
    let n: usize = cs.len();
    let slash = text::char_position(&cs, '/', 0);
    if slash < n {
        let provider_id = text::owned(model.substring_char(0, slash));
        let model_id = text::owned(model.substring_char(slash + 1, n));
        assert(provider_id@ =~= model@.take(slash as int));
        assert(model_id@ =~= model@.skip(slash + 1));
        Some(ModelSpec { provider_id, model_id })
    } else {
        Some(ModelSpec { provider_id: text::owned(model), model_id: text::owned("") })
    }
}

/// A name of a model that has a slash is put together again from its provider and its model, and
/// the provider holds no slash.
pub proof fn lemma_model_of(model: Seq<char>)
    ensures
        forall|i: int| 0 <= i < model_of(model).provider_id.len() ==> model_of(model).provider_id[i]
            != '/',
        model.contains('/') ==> model == model_of(model).provider_id + seq!['/'] + model_of(
            model,
        ).model_id,
        !model.contains('/') ==> model_of(model).provider_id == model && model_of(
            model,
        ).model_id.len() == 0,
{
    let slash = text::char_from(model, '/', 0);
    text::lemma_char_from(model, '/', 0);
    reveal_strlit("");
    if slash < model.len() {
        assert(model =~= model.take(slash) + seq!['/'] + model.skip(slash + 1));
    }
}

/// A prompt, as it is sent.
#[derive(Debug, PartialEq)]
pub struct PromptRequest {
    pub model: Option<ModelSpec>,
    pub agent: Option<String>,
    pub parts: Vec<TextPartInput>,
}

/// A piece of text of a prompt.
#[derive(Debug, PartialEq)]
pub struct TextPartInput<S = String> {
    pub kind: S,
    pub text: S,
}

impl DeepView for TextPartInput {
    type V = TextPartInput<Seq<char>>;

    open spec fn deep_view(&self) -> TextPartInput<Seq<char>> {
        TextPartInput { kind: self.kind@, text: self.text@ }
    }
}

/// The request that sends a prompt: a single piece of text.
pub fn prompt_request(prompt: &str, model: Option<ModelSpec>, agent: Option<String>) -> (res:
    PromptRequest)
    ensures
        res.model == model,
        res.agent == agent,
        res.parts.deep_view() == seq![TextPartInput { kind: "text"@, text: prompt@ }],
{
    let mut parts: Vec<TextPartInput> = Vec::new();
    parts.push(TextPartInput { kind: text::owned("text"), text: text::owned(prompt) });
    assert(parts.deep_view() =~= seq![TextPartInput { kind: "text"@, text: prompt@ }]);
    PromptRequest { model, agent, parts }
}

// ---------------------------------------------------------------------------
// Answers
// ---------------------------------------------------------------------------

/// What came of a request for a session.
#[derive(Debug, PartialEq)]
pub enum SessionAnswer<S = String> {
    /// The request failed, for the reason given.
    Failed(S),
    /// The server answered with the status given.
    Refused(S),
    /// The answer could not be read, for the reason given.
    Unreadable(S),
    /// The session has the id given.
    Session(S),
}

impl DeepView for SessionAnswer {
    type V = SessionAnswer<Seq<char>>;

    open spec fn deep_view(&self) -> SessionAnswer<Seq<char>> {
        match *self {
            SessionAnswer::Failed(s) => SessionAnswer::Failed(s@),
            SessionAnswer::Refused(s) => SessionAnswer::Refused(s@),
            SessionAnswer::Unreadable(s) => SessionAnswer::Unreadable(s@),
            SessionAnswer::Session(s) => SessionAnswer::Session(s@),
        }
    }
}

/// The id of a session, or why there is none; `refused` tells what the server would not do.
pub open spec fn session_result(answer: SessionAnswer<Seq<char>>, refused: Seq<char>) -> Result<
    Seq<char>,
    ExecutorError<Seq<char>>,
> {
    match answer {
        SessionAnswer::Failed(e) => Err(ExecutorError::Io(e)),
        SessionAnswer::Refused(status) => Err(ExecutorError::Io(refused + status)),
        SessionAnswer::Unreadable(e) => Err(ExecutorError::Io(e)),
        SessionAnswer::Session(id) => Ok(id),
    }
}

fn session_from(answer: SessionAnswer, refused: &str) -> (res: Result<String, ExecutorError>)
    ensures
        model::result_view(res) == session_result(answer.deep_view(), refused@),
{
    match answer {
        SessionAnswer::Failed(e) => Err(ExecutorError::Io(e)),
        SessionAnswer::Refused(status) => Err(
            ExecutorError::Io(text::cat2(refused, status.as_str())),
        ),
        SessionAnswer::Unreadable(e) => Err(ExecutorError::Io(e)),
        SessionAnswer::Session(id) => Ok(id),
    }
}

/// The id of a session that was created, or why there is none.
pub fn create_session(answer: SessionAnswer) -> (res: Result<String, ExecutorError>)
    ensures
        model::result_view(res) == session_result(
            answer.deep_view(),
            "OpenCode session.create failed: HTTP "@,
        ),
{
    session_from(answer, "OpenCode session.create failed: HTTP ")
}

/// The id of a session that was forked, or why there is none.
pub fn fork_session(answer: SessionAnswer) -> (res: Result<String, ExecutorError>)
    ensures
        model::result_view(res) == session_result(
            answer.deep_view(),
            "OpenCode session.fork failed: HTTP "@,
        ),
{
    session_from(answer, "OpenCode session.fork failed: HTTP ")
}

/// The id of a session that was opened, or why there is none. `resumed` tells whether an existing
/// session was forked.
pub fn opened_session(resumed: bool, answer: SessionAnswer) -> (res: Result<String, ExecutorError>)
    ensures
        model::result_view(res) == session_result(
            answer.deep_view(),
            if resumed {
                "OpenCode session.fork failed: HTTP "@
            } else {
                "OpenCode session.create failed: HTTP "@
            },
        ),
{
    if resumed {
        fork_session(answer)
    } else {
        create_session(answer)
    }
}

/// Why there is no event stream, where the server answered with the status given. The body is
/// absent where it could not be read.
pub fn event_stream_refused(status: &str, body: Option<&str>) -> (res: ExecutorError)
    ensures
        res.deep_view() == ExecutorError::Io(
            "OpenCode event stream failed: HTTP "@ + status@ + " "@ + model::value_or(
                body.deep_view(),
                "<failed to read response body>"@,
            ),
        ),
{
    let said = match body {
        Some(b) => b,
        None => "<failed to read response body>",
    };
    ExecutorError::Io(text::cat4("OpenCode event stream failed: HTTP ", status, " ", said))
}

/// What the JSON value that a prompt is answered with means; `raw` is its text.
pub open spec fn prompt_value_result(value: JsonView, raw: Seq<char>) -> Result<
    (),
    ExecutorError<Seq<char>>,
> {
    if value.field("info"@) is Some && value.field("parts"@) is Some {
        Ok(())
    } else {
        match json::opt_text(value.field("name"@)) {
            Some(name) => Err(
                ExecutorError::Io(
                    "OpenCode session.prompt failed: "@ + name + ": "@ + model::value_or(
                        json::opt_text(stream::at2(value, "data"@, "message"@)),
                        raw,
                    ),
                ),
            ),
            None => Err(
                ExecutorError::Io(
                    "OpenCode session.prompt returned unexpected response: "@ + raw,
                ),
            ),
        }
    }
}

/// What the answer to a prompt means.
pub open spec fn prompt_result(success: bool, status: Seq<char>, body: Seq<char>) -> Result<
    (),
    ExecutorError<Seq<char>>,
> {
    let trimmed = text::trimmed(body);
    if !success {
        Err(
            ExecutorError::Io(
                "OpenCode session.prompt failed: HTTP "@ + status + " "@ + body,
            ),
        )
    } else if trimmed.len() == 0 {
        Err(ExecutorError::Io("OpenCode session.prompt returned empty response body"@))
    } else {
        match json::json_of_text(trimmed) {
            Err(e) => Err(ExecutorError::Io(e)),
            Ok(value) => prompt_value_result(value, trimmed),
        }
    }
}

/// What the JSON value that a prompt is answered with means; `raw` is its text.
pub fn prompt_value_outcome(value: &Json, raw: &str) -> (res: Result<(), ExecutorError>)
    ensures
        match prompt_value_result(value.deep_view(), raw@) {
            Ok(_) => res is Ok,
            Err(e) => res is Err && res->Err_0.deep_view() == e,
        },
{
    if value.get("info").is_some() && value.get("parts").is_some() {
        return Ok(());
    }
    if let Some(name) = json::str_opt(value.get("name")) {
        let message = match json::str_opt(json::get_opt(value.get("data"), "message")) {
            Some(m) => m,
            None => raw,
        };
        return Err(
            ExecutorError::Io(
                text::cat4("OpenCode session.prompt failed: ", name, ": ", message),
            ),
        );
    }
    Err(
        ExecutorError::Io(
            text::cat2("OpenCode session.prompt returned unexpected response: ", raw),
        ),
    )
}

/// What the answer to a prompt means. The server may set the status before it knows how the prompt
/// fares, so the body decides as well.
pub fn prompt(success: bool, status: &str, body: &str) -> (res: Result<(), ExecutorError>)
    ensures
        match prompt_result(success, status@, body@) {
            Ok(_) => res is Ok,
            Err(e) => res is Err && res->Err_0.deep_view() == e,
        },
{
    if !success {
        return Err(
            ExecutorError::Io(
                text::cat4("OpenCode session.prompt failed: HTTP ", status, " ", body),
            ),
        );
    }
    let trimmed = text::trim(body);
    if trimmed.is_empty() {
        return Err(
            ExecutorError::Io(
                text::owned("OpenCode session.prompt returned empty response body"),
            ),
        );
    }
    match Json::parse(trimmed) {
        Err(e) => Err(ExecutorError::Io(e)),
        Ok(value) => prompt_value_outcome(&value, trimmed),
    }
}

// ---------------------------------------------------------------------------
// Waiting for a healthy server
// ---------------------------------------------------------------------------

/// The seconds that the server has to become healthy.
pub const HEALTH_TIMEOUT_SECS: u64 = 20;

/// The milliseconds between two looks at the server's health.
pub const HEALTH_INTERVAL_MS: u64 = 150;

/// What came of a look at the server's health.
#[derive(Debug, PartialEq)]
pub enum HealthProbe<S = String> {
    /// The request failed, for the reason given.
    Failed(S),
    /// The server answered with the status given.
    Refused(S),
    /// The answer could not be read.
    Unreadable,
    /// The server answered.
    Answered { healthy: bool, version: S },
}

impl DeepView for HealthProbe {
    type V = HealthProbe<Seq<char>>;

    open spec fn deep_view(&self) -> HealthProbe<Seq<char>> {
        match *self {
            HealthProbe::Failed(s) => HealthProbe::Failed(s@),
            HealthProbe::Refused(s) => HealthProbe::Refused(s@),
            HealthProbe::Unreadable => HealthProbe::Unreadable,
            HealthProbe::Answered { healthy, version } => HealthProbe::Answered {
                healthy,
                version: version@,
            },
        }
    }
}

/// What is wrong with the server's health, if anything.
pub open spec fn health_complaint(probe: HealthProbe<Seq<char>>) -> Option<Seq<char>> {
    match probe {
        HealthProbe::Failed(e) => Some(e),
        HealthProbe::Refused(status) => Some("HTTP "@ + status),
        HealthProbe::Unreadable => Some("failed to parse health response"@),
        HealthProbe::Answered { healthy, version } => if healthy {
            None
        } else {
            Some("unhealthy server (version "@ + version + ")"@)
        },
    }
}

/// Waiting for a healthy server: what was last wrong with it.
#[derive(Debug, PartialEq)]
pub struct HealthWait {
    pub last_err: Option<String>,
}

impl HealthWait {
    /// Nothing known yet.
    pub fn new() -> (res: Self)
        ensures
            res.last_err is None,
    {
        HealthWait { last_err: None }
    }

    /// Takes a look at the server's health, and says whether it is healthy.
    pub fn on_probe(&mut self, probe: HealthProbe) -> (res: bool)
        ensures
            res == (health_complaint(probe.deep_view()) is None),
            final(self).last_err.deep_view() == model::either(
                health_complaint(probe.deep_view()),
                old(self).last_err.deep_view(),
            ),
    {
        match probe {
            HealthProbe::Failed(e) => {
                self.last_err = Some(e);
                false
            },
            HealthProbe::Refused(status) => {
                self.last_err = Some(text::cat2("HTTP ", status.as_str()));
                false
            },
            HealthProbe::Unreadable => {
                self.last_err = Some(text::owned("failed to parse health response"));
                false
            },
            HealthProbe::Answered { healthy, version } => {
                if healthy {
                    true
                } else {
                    self.last_err = Some(
                        text::cat3("unhealthy server (version ", version.as_str(), ")"),
                    );
                    false
                }
            },
        }
    }

    /// What is wrong where the time is over.
    pub fn timed_out(&self) -> (res: ExecutorError)
        ensures
            res.deep_view() == ExecutorError::Io(
                "Timed out waiting for OpenCode server health: "@ + model::value_or(
                    self.last_err.deep_view(),
                    "unknown error"@,
                ),
            ),
    {
        let reason = match &self.last_err {
            Some(e) => e.as_str(),
            None => "unknown error",
        };
        ExecutorError::Io(text::cat2("Timed out waiting for OpenCode server health: ", reason))
    }
}

// ---------------------------------------------------------------------------
// Running a prompt
// ---------------------------------------------------------------------------

/// What is known of a prompt that runs: whether it was answered, whether the session was idle, and
/// what went wrong in the session.
#[derive(Debug, PartialEq)]
pub struct PromptRun {
    pub answered: bool,
    pub idle_seen: bool,
    pub session_error: Option<String>,
}

/// What is known of a prompt that runs.
pub ghost struct PromptState {
    pub answered: bool,
    pub idle_seen: bool,
    pub session_error: Option<Seq<char>>,
}

impl View for PromptRun {
    type V = PromptState;

    open spec fn view(&self) -> PromptState {
        PromptState {
            answered: self.answered,
            idle_seen: self.idle_seen,
            session_error: self.session_error.deep_view(),
        }
    }
}

/// The end of a prompt.
pub type PromptEnd = Result<(), ExecutorError>;

/// Whether an end, where there is one, says what is expected of it.
pub open spec fn ends_as(
    end: Option<PromptEnd>,
    expected: Option<Result<(), ExecutorError<Seq<char>>>>,
) -> bool {
    match expected {
        None => end is None,
        Some(Ok(_)) => end is Some && end->0 is Ok,
        Some(Err(e)) => end is Some && end->0 is Err && end->0->Err_0.deep_view() == e,
    }
}

/// What went wrong in the session, one message to a line.
pub open spec fn with_error(errors: Option<Seq<char>>, message: Seq<char>) -> Seq<char> {
    match errors {
        Some(existing) => existing + "\n"@ + message,
        None => message,
    }
}

/// How a prompt ends when it was answered and the session is idle.
pub open spec fn finished(state: PromptState) -> Result<(), ExecutorError<Seq<char>>> {
    match state.session_error {
        Some(message) => Err(ExecutorError::Io(message)),
        None => Ok(()),
    }
}

/// What is known once the run is told something of the session.
pub open spec fn control_state(state: PromptState, event: ControlEvent<Seq<char>>) -> PromptState {
    match event {
        ControlEvent::Idle => PromptState { idle_seen: true, ..state },
        ControlEvent::SessionError { message } => PromptState {
            session_error: Some(with_error(state.session_error, message)),
            ..state
        },
        _ => state,
    }
}

/// Whether, and how, a prompt ends once the run is told something of the session.
pub open spec fn control_end(state: PromptState, event: ControlEvent<Seq<char>>) -> Option<
    Result<(), ExecutorError<Seq<char>>>,
> {
    match event {
        ControlEvent::Idle => if state.answered {
            Some(finished(state))
        } else {
            None
        },
        ControlEvent::AuthRequired { message } => Some(Err(ExecutorError::AuthRequired(message))),
        ControlEvent::SessionError { .. } => None,
        ControlEvent::Disconnected => Some(
            Err(
                ExecutorError::Io(
                    if state.answered {
                        "OpenCode event stream disconnected while waiting for session to go idle"@
                    } else {
                        "OpenCode event stream disconnected while prompt was running"@
                    },
                ),
            ),
        ),
    }
}

/// What is known once the prompt was answered.
pub open spec fn answer_state(state: PromptState) -> PromptState {
    PromptState { answered: true, ..state }
}

/// Whether, and how, a prompt ends once it was answered.
pub open spec fn answer_end(
    state: PromptState,
    answer: Result<(), ExecutorError<Seq<char>>>,
) -> Option<Result<(), ExecutorError<Seq<char>>>> {
    match answer {
        Err(e) => Some(Err(e)),
        Ok(_) => if state.idle_seen {
            Some(finished(state))
        } else {
            None
        },
    }
}

/// Whether, and how, a prompt ends once the run will be told nothing more.
pub open spec fn closed_end(state: PromptState) -> Option<Result<(), ExecutorError<Seq<char>>>> {
    if state.answered {
        Some(finished(state))
    } else {
        None
    }
}

/// A prompt that was just sent.
pub open spec fn just_sent() -> PromptState {
    PromptState { answered: false, idle_seen: false, session_error: None }
}

/// What an answer says.
pub open spec fn answer_view(answer: Result<(), ExecutorError>) -> Result<
    (),
    ExecutorError<Seq<char>>,
> {
    match answer {
        Ok(_) => Ok(()),
        Err(e) => Err(e.deep_view()),
    }
}

impl PromptRun {
    /// A prompt that was just sent.
    pub fn new() -> (res: Self)
        ensures
            res@ == just_sent(),
    {
        PromptRun { answered: false, idle_seen: false, session_error: None }
    }

    fn finish(&self) -> (res: PromptEnd)
        ensures
            ends_as(Some(res), Some(finished(self@))),
    {
        match &self.session_error {
            Some(message) => Err(ExecutorError::Io(message.clone())),
            None => Ok(()),
        }
    }

    /// Takes the answer to the prompt. Where it is good, the prompt ends once the session is idle:
    /// the last events tell what its tools did.
    pub fn on_answer(&mut self, answer: Result<(), ExecutorError>) -> (res: Option<PromptEnd>)
        ensures
            final(self)@ == answer_state(old(self)@),
            ends_as(res, answer_end(old(self)@, answer_view(answer))),
    {
        self.answered = true;
        match answer {
            Err(e) => Some(Err(e)),
            Ok(_) => {
                if self.idle_seen {
                    Some(self.finish())
                } else {
                    None
                }
            },
        }
    }

    /// Takes what the run is told of the session.
    pub fn on_control(&mut self, event: ControlEvent) -> (res: Option<PromptEnd>)
        ensures
            final(self)@ == control_state(old(self)@, event.deep_view()),
            ends_as(res, control_end(old(self)@, event.deep_view())),
    {
        match event {
            ControlEvent::Idle => {
                self.idle_seen = true;
                if self.answered {
                    Some(self.finish())
                } else {
                    None
                }
            },
            ControlEvent::AuthRequired { message } => Some(
                Err(ExecutorError::AuthRequired(message)),
            ),
            ControlEvent::SessionError { message } => {
                let all = match &self.session_error {
                    Some(existing) => text::cat3(existing.as_str(), "\n", message.as_str()),
                    None => message,
                };
                self.session_error = Some(all);
                None
            },
            ControlEvent::Disconnected => {
                let reason = if self.answered {
                    "OpenCode event stream disconnected while waiting for session to go idle"
                } else {
                    "OpenCode event stream disconnected while prompt was running"
                };
                Some(Err(ExecutorError::Io(text::owned(reason))))
            },
        }
    }

    /// Takes that the run will be told nothing more. It ends a prompt that was answered.
    pub fn on_control_closed(&self) -> (res: Option<PromptEnd>)
        ensures
            ends_as(res, closed_end(self@)),
    {
        if self.answered {
            Some(self.finish())
        } else {
            None
        }
    }
}

/// Messages, one to a line.
pub open spec fn messages(events: Seq<ControlEvent<Seq<char>>>) -> Option<Seq<char>>
    decreases events.len(),
{
    if events.len() == 0 {
        None
    } else {
        match events.last() {
            ControlEvent::SessionError { message } => Some(
                with_error(messages(events.drop_last()), message),
            ),
            _ => messages(events.drop_last()),
        }
    }
}

/// What is known of a prompt after a run of events.
pub open spec fn state_after(state: PromptState, events: Seq<ControlEvent<Seq<char>>>) -> PromptState
    decreases events.len(),
{
    if events.len() == 0 {
        state
    } else {
        control_state(state_after(state, events.drop_last()), events.last())
    }
}

/// No error of the session is lost: a prompt that was answered ends, when the session goes idle,
/// with all messages of the errors that were told of before, in order, and it succeeds exactly
/// where there was none.
pub proof fn lemma_session_errors_kept(events: Seq<ControlEvent<Seq<char>>>)
    ensures
        ({
            let start = PromptState { answered: true, idle_seen: false, session_error: None };
            let state = state_after(start, events);
            &&& state.answered
            &&& control_end(state, ControlEvent::Idle) == Some(
                match messages(events) {
                    Some(all) => Err::<(), ExecutorError<Seq<char>>>(ExecutorError::Io(all)),
                    None => Ok(()),
                },
            )
        }),
    decreases events.len(),
{
    let start = PromptState { answered: true, idle_seen: false, session_error: None };
    assert(state_after(start, events).answered && state_after(start, events).session_error
        == messages(events)) by {
        if events.len() > 0 {
            lemma_session_errors_kept(events.drop_last());
        }
    }
}

/// What happens to a prompt that runs: it is answered well, or the run is told something of the
/// session.
pub ghost enum RunEvent {
    Answered,
    Told(ControlEvent<Seq<char>>),
}

/// What is known of a prompt after events, from its sending on.
pub open spec fn run_state(events: Seq<RunEvent>) -> PromptState
    decreases events.len(),
{
    if events.len() == 0 {
        just_sent()
    } else {
        let before = run_state(events.drop_last());
        match events.last() {
            RunEvent::Answered => answer_state(before),
            RunEvent::Told(event) => control_state(before, event),
        }
    }
}

/// Whether, and how, the last of the events ends the prompt.
pub open spec fn run_end(events: Seq<RunEvent>) -> Option<Result<(), ExecutorError<Seq<char>>>> {
    let before = run_state(events.drop_last());
    match events.last() {
        RunEvent::Answered => answer_end(before, Ok(())),
        RunEvent::Told(event) => control_end(before, event),
    }
}

/// The messages of the errors of the session that events tell of, in order.
pub open spec fn errors_told(events: Seq<RunEvent>) -> Seq<Seq<char>>
    decreases events.len(),
{
    if events.len() == 0 {
        seq![]
    } else {
        match events.last() {
            RunEvent::Told(ControlEvent::SessionError { message }) => errors_told(
                events.drop_last(),
            ).push(message),
            _ => errors_told(events.drop_last()),
        }
    }
}

/// Whether an event is among events.
pub open spec fn happened(events: Seq<RunEvent>, event: RunEvent) -> bool {
    exists|i: int| 0 <= i < events.len() && #[trigger] events[i] == event
}

proof fn lemma_happened(events: Seq<RunEvent>, event: RunEvent)
    requires
        events.len() > 0,
    ensures
        happened(events, event) <==> events.last() == event || happened(events.drop_last(), event),
{
    let init = events.drop_last();
    if happened(events, event) && events.last() != event {
        let i = choose|i: int| 0 <= i < events.len() && #[trigger] events[i] == event;
        assert(init[i] == event);
    }
    if happened(init, event) {
        let i = choose|i: int| 0 <= i < init.len() && #[trigger] init[i] == event;
        assert(events[i] == event);
    }
    if events.last() == event {
        assert(events[events.len() - 1] == event);
    }
}

proof fn lemma_run_state(events: Seq<RunEvent>)
    ensures
        run_state(events).answered <==> happened(events, RunEvent::Answered),
        run_state(events).idle_seen <==> happened(events, RunEvent::Told(ControlEvent::Idle)),
        run_state(events).session_error == if errors_told(events).len() == 0 {
            None
        } else {
            Some(text::joined(errors_told(events), "\n"@))
        },
    decreases events.len(),
{
    if events.len() > 0 {
        let init = events.drop_last();
        lemma_run_state(init);
        lemma_happened(events, RunEvent::Answered);
        lemma_happened(events, RunEvent::Told(ControlEvent::Idle));
        match events.last() {
            RunEvent::Told(ControlEvent::SessionError { message }) => {
                let all = errors_told(events);
                assert(all.drop_last() =~= errors_told(init));
                assert(all.last() == message);
            },
            _ => {},
        }
    }
}

/// A prompt ends well only where nothing went wrong: in whatever order it is answered and the run is
/// told of the session, as long as the user need not authenticate and the stream is not lost, it
/// ends with the later of its answer and the session's going idle. It succeeds exactly where no
/// error of the session was told of before, and otherwise fails with the messages of all of them,
/// in order, one to a line.
pub proof fn lemma_prompt_ends(events: Seq<RunEvent>)
    requires
        events.len() > 0,
        forall|i: int|
            0 <= i < events.len() ==> !(#[trigger] events[i] matches RunEvent::Told(event) && (
            event is AuthRequired || event is Disconnected)),
    ensures
        ({
            let init = events.drop_last();
            let idle = RunEvent::Told(ControlEvent::Idle);
            let errors = errors_told(events);
            &&& run_end(events) is Some <==> (events.last() == RunEvent::Answered && happened(
                init,
                idle,
            )) || (events.last() == idle && happened(init, RunEvent::Answered))
            &&& run_end(events) is Some ==> run_end(events)->0 == if errors.len() == 0 {
                Ok::<(), ExecutorError<Seq<char>>>(())
            } else {
                Err(ExecutorError::Io(text::joined(errors, "\n"@)))
            }
        }),
{
    lemma_run_state(events.drop_last());
    assert(!(events[events.len() - 1] matches RunEvent::Told(event) && (event is AuthRequired
        || event is Disconnected)));
}

/// Nothing but an error of the session changes which errors are known, whether or not the prompt
/// was answered, and an error adds its message to them.
pub proof fn lemma_errors_remembered(state: PromptState, event: ControlEvent<Seq<char>>)
    ensures
        event !is SessionError ==> control_state(state, event).session_error == state.session_error,
        answer_state(state).session_error == state.session_error,
        event matches ControlEvent::SessionError { message } ==> control_state(
            state,
            event,
        ).session_error == Some(
            match state.session_error {
                Some(before) => before + "\n"@ + message,
                None => message,
            },
        ),
        control_state(state, event).answered == state.answered,
        answer_state(state).idle_seen == state.idle_seen,
{
}

/// A prompt ends at once, and fails, where its answer is an error, where the user must authenticate
/// and where the stream is lost, whatever was known; where nothing more will be told, one that was
/// answered ends as the errors of the session say, and one that was not goes on.
pub proof fn lemma_prompt_fails(
    state: PromptState,
    error: ExecutorError<Seq<char>>,
    message: Seq<char>,
)
    ensures
        answer_end(state, Err(error)) == Some(Err::<(), ExecutorError<Seq<char>>>(error)),
        control_end(state, ControlEvent::AuthRequired { message }) == Some(
            Err::<(), ExecutorError<Seq<char>>>(ExecutorError::AuthRequired(message)),
        ),
        control_end(state, ControlEvent::Disconnected) matches Some(Err(ExecutorError::Io(_))),
        control_end(state, ControlEvent::SessionError { message }) is None,
        closed_end(state) is Some <==> state.answered,
        state.answered && state.session_error is None ==> closed_end(state) == Some(
            Ok::<(), ExecutorError<Seq<char>>>(()),
        ),
        state.answered && state.session_error is Some ==> closed_end(state) == Some(
            Err::<(), ExecutorError<Seq<char>>>(ExecutorError::Io(state.session_error->0)),
        ),
{
}

/// What the answer to a prompt is taken for. It is good only with a good status and with a body that
/// is a JSON object with both `info` and `parts`; every other answer is an error, which holds the
/// status and the body where the status is bad, the name and the message where the body names an
/// error, and the body otherwise.
pub proof fn lemma_prompt_answers(success: bool, status: Seq<char>, body: Seq<char>)
    ensures
        ({
            let res = prompt_result(success, status, body);
            let read = json::json_of_text(text::trimmed(body));
            &&& res is Ok <==> success && !text::blank(body) && (read matches Ok(v) && v.field(
                "info"@,
            ) is Some && v.field("parts"@) is Some)
            &&& !success ==> res == Err::<(), ExecutorError<Seq<char>>>(
                ExecutorError::Io("OpenCode session.prompt failed: HTTP "@ + status + " "@ + body),
            )
            &&& success && !text::blank(body) && read is Err ==> res == Err::<
                (),
                ExecutorError<Seq<char>>,
            >(ExecutorError::Io(read->Err_0))
            &&& success && !text::blank(body) && read is Ok && res is Err ==> match read->Ok_0.field(
                "name"@,
            ) {
                Some(JsonView::Text(name)) => res->Err_0 matches ExecutorError::Io(said) && said
                    == "OpenCode session.prompt failed: "@ + name + ": "@ + match read->Ok_0.field(
                    "data"@,
                ) {
                    Some(data) => match data.field("message"@) {
                        Some(JsonView::Text(message)) => message,
                        _ => text::trimmed(body),
                    },
                    None => text::trimmed(body),
                },
                _ => res == Err::<(), ExecutorError<Seq<char>>>(
                    ExecutorError::Io(
                        "OpenCode session.prompt returned unexpected response: "@ + text::trimmed(
                            body,
                        ),
                    ),
                ),
            }
        }),
{
}

/// A session is there exactly where the server answered with one, and it has the id of the answer;
/// the reason for there being none is handed on.
pub proof fn lemma_session_answers(answer: SessionAnswer<Seq<char>>, refused: Seq<char>)
    ensures
        session_result(answer, refused) is Ok <==> answer is Session,
        answer matches SessionAnswer::Session(id) ==> session_result(answer, refused) == Ok::<
            Seq<char>,
            ExecutorError<Seq<char>>,
        >(id),
        answer matches SessionAnswer::Refused(status) ==> session_result(answer, refused) == Err::<
            Seq<char>,
            ExecutorError<Seq<char>>,
        >(ExecutorError::Io(refused + status)),
        answer matches SessionAnswer::Failed(e) ==> session_result(answer, refused) == Err::<
            Seq<char>,
            ExecutorError<Seq<char>>,
        >(ExecutorError::Io(e)),
        answer matches SessionAnswer::Unreadable(e) ==> session_result(answer, refused) == Err::<
            Seq<char>,
            ExecutorError<Seq<char>>,
        >(ExecutorError::Io(e)),
{
}

/// A server is healthy exactly where it answers that it is, whatever its version.
pub proof fn lemma_health(probe: HealthProbe<Seq<char>>)
    ensures
        health_complaint(probe) is None <==> (probe matches HealthProbe::Answered { healthy, .. }
            && healthy),
        probe matches HealthProbe::Failed(e) ==> health_complaint(probe) == Some(e),
        probe matches HealthProbe::Refused(status) ==> health_complaint(probe) == Some(
            "HTTP "@ + status,
        ),
        probe is Unreadable ==> health_complaint(probe) == Some(
            "failed to parse health response"@,
        ),
        probe matches HealthProbe::Answered { healthy, version } ==> (!healthy ==> health_complaint(
            probe,
        ) == Some("unhealthy server (version "@ + version + ")"@)),
{
}

/// Visible characters, spaces and tabs can stand in a header, and control characters cannot.
pub proof fn lemma_header_chars(c: char)
    ensures
        ' ' <= c <= '~' || c == '\t' || c >= '\u{80}' ==> header_char(c),
        c < ' ' && c != '\t' || c == '\u{7f}' ==> !header_char(c),
{
}

} // verus!
