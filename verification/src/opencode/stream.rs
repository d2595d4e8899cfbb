//! The stream of events of an OpenCode server: what each event asks for.
use vstd::hash_set::StringHashSet;
use vstd::prelude::*;
use vstd::string::*;

use crate::json;
use crate::json::{Json, JsonView};
use crate::model;
use crate::opencode::sse;
use crate::process;
use crate::text;

verus! {

/// What the run of a prompt is told of the session.
#[derive(Debug, PartialEq)]
pub enum ControlEvent<S = String> {
    /// The session has nothing left to do.
    Idle,
    /// The provider wants the user to authenticate.
    AuthRequired { message: S },
    /// Something went wrong in the session.
    SessionError { message: S },
    /// The event stream is lost for good.
    Disconnected,
}

impl DeepView for ControlEvent {
    type V = ControlEvent<Seq<char>>;

    open spec fn deep_view(&self) -> ControlEvent<Seq<char>> {
        match *self {
            ControlEvent::Idle => ControlEvent::Idle,
            ControlEvent::AuthRequired { message } => ControlEvent::AuthRequired {
                message: message@,
            },
            ControlEvent::SessionError { message } => ControlEvent::SessionError {
                message: message@,
            },
            ControlEvent::Disconnected => ControlEvent::Disconnected,
        }
    }
}

/// How the reading of an event stream ends.
#[derive(Debug, Clone, Copy, PartialEq, Eq, Structural)]
pub enum EventStreamOutcome {
    /// The session has nothing left to do.
    Idle,
    /// The session cannot go on.
    Terminal,
    /// The stream ended.
    Disconnected,
}

/// A request of the agent for permission to use a tool.
#[derive(Debug, PartialEq)]
pub struct PermissionRequest<S = String, J = Json> {
    pub request_id: S,
    pub tool_call_id: S,
    pub permission: S,
    pub tool_input: J,
}

impl DeepView for PermissionRequest {
    type V = PermissionRequest<Seq<char>, JsonView>;

    open spec fn deep_view(&self) -> PermissionRequest<Seq<char>, JsonView> {
        PermissionRequest {
            request_id: self.request_id@,
            tool_call_id: self.tool_call_id@,
            permission: self.permission@,
            tool_input: self.tool_input.deep_view(),
        }
    }
}

/// What is to be done about an event.
#[derive(Debug, PartialEq)]
pub enum StreamAction<S = String, J = Json> {
    /// Write the event to the log.
    LogEvent(J),
    /// Tell the run of the prompt.
    Control(ControlEvent<S>),
    /// Have a request for permission answered.
    AskPermission(PermissionRequest<S, J>),
}

impl DeepView for StreamAction {
    type V = StreamAction<Seq<char>, JsonView>;

    open spec fn deep_view(&self) -> StreamAction<Seq<char>, JsonView> {
        match *self {
            StreamAction::LogEvent(event) => StreamAction::LogEvent(event.deep_view()),
            StreamAction::Control(event) => StreamAction::Control(event.deep_view()),
            StreamAction::AskPermission(request) => StreamAction::AskPermission(
                request.deep_view(),
            ),
        }
    }
}

// ---------------------------------------------------------------------------
// What an event says
// ---------------------------------------------------------------------------

/// The value in an object in an object.
pub open spec fn at2(v: JsonView, a: Seq<char>, b: Seq<char>) -> Option<JsonView> {
    json::opt_field(v.field(a), b)
}

/// The value in an object in an object in an object.
pub open spec fn at3(v: JsonView, a: Seq<char>, b: Seq<char>, c: Seq<char>) -> Option<JsonView> {
    json::opt_field(at2(v, a, b), c)
}

/// The value three objects deep.
pub open spec fn at4(
    v: JsonView,
    a: Seq<char>,
    b: Seq<char>,
    c: Seq<char>,
    d: Seq<char>,
) -> Option<JsonView> {
    json::opt_field(at3(v, a, b, c), d)
}

fn get2<'a>(v: &'a Json, a: &str, b: &str) -> (res: Option<&'a Json>)
    ensures
        res.deep_view() == at2(v.deep_view(), a@, b@),
{
    json::get_opt(v.get(a), b)
}

fn get3<'a>(v: &'a Json, a: &str, b: &str, c: &str) -> (res: Option<&'a Json>)
    ensures
        res.deep_view() == at3(v.deep_view(), a@, b@, c@),
{
    json::get_opt(get2(v, a, b), c)
}

fn get4<'a>(v: &'a Json, a: &str, b: &str, c: &str, d: &str) -> (res: Option<&'a Json>)
    ensures
        res.deep_view() == at4(v.deep_view(), a@, b@, c@, d@),
{
    json::get_opt(get3(v, a, b, c), d)
}

fn either_json<'a>(a: Option<&'a Json>, b: Option<&'a Json>) -> (res: Option<&'a Json>)
    ensures
        res.deep_view() == model::either(a.deep_view(), b.deep_view()),
{
    match a {
        Some(_) => a,
        None => b,
    }
}

/// The session that an event tells of.
pub open spec fn session_of(event_type: Seq<char>, event: JsonView) -> Option<Seq<char>> {
    let own = json::opt_text(at2(event, "properties"@, "sessionID"@));
    let of_info = json::opt_text(at3(event, "properties"@, "info"@, "sessionID"@));
    let of_part = json::opt_text(at3(event, "properties"@, "part"@, "sessionID"@));
    if event_type == "message.updated"@ {
        of_info
    } else if event_type == "message.part.updated"@ {
        of_part
    } else if event_type == "permission.asked"@ || event_type == "permission.replied"@
        || event_type == "session.idle"@ || event_type == "session.error"@ {
        own
    } else {
        model::either(model::either(own, of_info), of_part)
    }
}

/// Whether an event tells of the given session.
pub fn event_matches_session(event_type: &str, event: &Json, session_id: &str) -> (res: bool)
    ensures
        res == (session_of(event_type@, event.deep_view()) == Some(session_id@)),
{
    let own = json::str_opt(get2(event, "properties", "sessionID"));
    let of_info = json::str_opt(get3(event, "properties", "info", "sessionID"));
    let of_part = json::str_opt(get3(event, "properties", "part", "sessionID"));
    let extracted = if text::str_eq(event_type, "message.updated") {
        of_info
    } else if text::str_eq(event_type, "message.part.updated") {
        of_part
    } else if text::str_eq(event_type, "permission.asked") || text::str_eq(
        event_type,
        "permission.replied",
    ) || text::str_eq(event_type, "session.idle") || text::str_eq(event_type, "session.error") {
        own
    } else {
        match own {
            Some(_) => own,
            None => match of_info {
                Some(_) => of_info,
                None => of_part,
            },
        }
    };
    text::opt_str_eq(extracted, session_id)
}

/// The kind of error that an event tells of.
pub open spec fn error_kind(event: JsonView) -> Seq<char> {
    model::value_or(
        json::opt_text(
            model::either(
                at3(event, "properties"@, "error"@, "name"@),
                at3(event, "properties"@, "error"@, "type"@),
            ),
        ),
        "unknown"@,
    )
}

/// What the error that an event tells of says.
pub open spec fn error_message(event: JsonView) -> Seq<char> {
    model::value_or(
        json::opt_text(
            model::either(
                at4(event, "properties"@, "error"@, "data"@, "message"@),
                at3(event, "properties"@, "error"@, "message"@),
            ),
        ),
        "OpenCode session error"@,
    )
}

/// The id of the request for permission that an event tells of; it is empty where there is none.
pub open spec fn request_id_of(event: JsonView) -> Seq<char> {
    model::value_or(json::opt_text(at2(event, "properties"@, "id"@)), ""@)
}

/// The request for permission that an event tells of.
pub open spec fn request_of(event: JsonView) -> PermissionRequest<Seq<char>, JsonView> {
    PermissionRequest {
        request_id: request_id_of(event),
        tool_call_id: model::value_or(
            json::opt_text(at3(event, "properties"@, "tool"@, "callID"@)),
            request_id_of(event),
        ),
        permission: model::value_or(
            json::opt_text(at2(event, "properties"@, "permission"@)),
            "tool"@,
        ),
        tool_input: model::value_or(event.field("properties"@), JsonView::Object(seq![])),
    }
}

fn read_request(event: &Json, request_id: String) -> (res: PermissionRequest)
    requires
        request_id@ == request_id_of(event.deep_view()),
    ensures
        res.deep_view() == request_of(event.deep_view()),
{
    let tool_call_id = json::string_or(
        get3(event, "properties", "tool", "callID"),
        request_id.as_str(),
    );
    let permission = json::string_or(get2(event, "properties", "permission"), "tool");
    let tool_input = match event.get("properties") {
        Some(p) => p.copy(),
        None => {
            let empty = Json::Object(Vec::new());
            assert(empty.deep_view()->Object_0 =~= seq![]);
            empty
        },
    };
    PermissionRequest { request_id, tool_call_id, permission, tool_input }
}

// ---------------------------------------------------------------------------
// What is done about an event
// ---------------------------------------------------------------------------

/// What is remembered of the stream from one connection to the next.
pub struct StreamState {
    /// The requests for permission that were seen.
    pub seen_permissions: StringHashSet,
    /// The id of the last event that had one.
    pub last_event_id: Option<String>,
    /// The milliseconds to wait before the first attempt to reconnect.
    pub base_retry_delay: u64,
}

/// What is remembered of the stream.
pub ghost struct StreamMemory {
    pub seen: Set<Seq<char>>,
    pub last_event_id: Option<Seq<char>>,
    pub base_retry_delay: u64,
}

impl View for StreamState {
    type V = StreamMemory;

    open spec fn view(&self) -> StreamMemory {
        StreamMemory {
            seen: self.seen_permissions@,
            last_event_id: self.last_event_id.deep_view(),
            base_retry_delay: self.base_retry_delay,
        }
    }
}

/// What comes of an event: what is remembered, what is to be done, and whether the reading of the
/// stream ends.
pub ghost struct Step {
    pub memory: StreamMemory,
    pub actions: Seq<StreamAction<Seq<char>, JsonView>>,
    pub outcome: Option<EventStreamOutcome>,
}

/// What comes of the data of an event.
pub open spec fn data_step(memory: StreamMemory, data: JsonView, session_id: Seq<char>) -> Step {
    let nothing = Step { memory, actions: seq![], outcome: None };
    match json::opt_text(data.field("type"@)) {
        None => nothing,
        Some(event_type) => {
            let log = StreamAction::LogEvent(data);
            if session_of(event_type, data) != Some(session_id) {
                nothing
            } else if event_type == "session.idle"@ {
                Step {
                    memory,
                    actions: seq![log, StreamAction::Control(ControlEvent::Idle)],
                    outcome: Some(EventStreamOutcome::Idle),
                }
            } else if event_type == "session.error"@ {
                let message = error_message(data);
                if error_kind(data) == "ProviderAuthError"@ {
                    Step {
                        memory,
                        actions: seq![
                            log,
                            StreamAction::Control(ControlEvent::AuthRequired { message }),
                        ],
                        outcome: Some(EventStreamOutcome::Terminal),
                    }
                } else {
                    Step {
                        memory,
                        actions: seq![
                            log,
                            StreamAction::Control(ControlEvent::SessionError { message }),
                        ],
                        outcome: None,
                    }
                }
            } else if event_type == "permission.asked"@ && request_id_of(data).len() > 0
                && !memory.seen.contains(request_id_of(data)) {
                Step {
                    memory: StreamMemory {
                        seen: memory.seen.insert(request_id_of(data)),
                        ..memory
                    },
                    actions: seq![log, StreamAction::AskPermission(request_of(data))],
                    outcome: None,
                }
            } else {
                Step { memory, actions: seq![log], outcome: None }
            }
        },
    }
}

/// What is remembered of an event, whatever its data.
pub open spec fn header_step(
    memory: StreamMemory,
    event: sse::ParsedSseEvent<Seq<char>, JsonView>,
) -> StreamMemory {
    StreamMemory {
        seen: memory.seen,
        last_event_id: model::either(event.id, memory.last_event_id),
        base_retry_delay: model::value_or(event.retry, memory.base_retry_delay),
    }
}

/// What comes of an event.
pub open spec fn event_step(
    memory: StreamMemory,
    event: sse::ParsedSseEvent<Seq<char>, JsonView>,
    session_id: Seq<char>,
) -> Step {
    let remembered = header_step(memory, event);
    match event.data {
        None => Step { memory: remembered, actions: seq![], outcome: None },
        Some(data) => data_step(remembered, data, session_id),
    }
}

/// What comes of the complete events in a buffer, and what is left in it.
pub ghost struct Drained {
    pub step: Step,
    pub buffer: Seq<char>,
}

/// What comes of the complete events in a buffer, one after the other, until one of them ends the
/// reading of the stream.
pub open spec fn drained(memory: StreamMemory, buffer: Seq<char>, session_id: Seq<char>) -> Drained
    decreases buffer.len(),
{
    match sse::first_event(buffer) {
        None => Drained { step: Step { memory, actions: seq![], outcome: None }, buffer },
        Some(taken) => {
            proof {
                let breaks = sse::lemma_event_consumes(buffer);
            }
            let first = event_step(memory, sse::event_of(taken.event), session_id);
            if first.outcome is Some {
                Drained { step: first, buffer: taken.rest }
            } else {
                let later = drained(first.memory, taken.rest, session_id);
                Drained {
                    step: Step { actions: first.actions + later.step.actions, ..later.step },
                    buffer: later.buffer,
                }
            }
        },
    }
}

/// What is to be done about a piece of the stream, and whether the reading of the stream ends.
#[derive(Debug, PartialEq)]
pub struct StreamReport {
    pub actions: Vec<StreamAction>,
    pub outcome: Option<EventStreamOutcome>,
}

impl StreamReport {
    /// Whether the report tells of a step.
    pub open spec fn tells_of(self, step: Step) -> bool {
        self.actions.deep_view() == step.actions && self.outcome == step.outcome
    }
}

fn report(actions: Vec<StreamAction>, outcome: Option<EventStreamOutcome>) -> (res: StreamReport)
    ensures
        res.actions == actions,
        res.outcome == outcome,
{
    StreamReport { actions, outcome }
}

impl StreamState {
    /// Nothing seen yet; the first attempt to reconnect comes after three seconds.
    pub fn new() -> (res: Self)
        ensures
            res@ == (StreamMemory {
                seen: Set::empty(),
                last_event_id: None,
                base_retry_delay: 3000,
            }),
    {
        StreamState {
            seen_permissions: StringHashSet::new(),
            last_event_id: None,
            base_retry_delay: 3000,
        }
    }

    /// Takes the data of an event.
    pub fn on_data(&mut self, data: Json, session_id: &str) -> (res: StreamReport)
        ensures
            final(self)@ == data_step(old(self)@, data.deep_view(), session_id@).memory,
            res.tells_of(data_step(old(self)@, data.deep_view(), session_id@)),
    {
        let ghost step = data_step(self@, data.deep_view(), session_id@);
        let mut actions: Vec<StreamAction> = Vec::new();
        assert(actions.deep_view() =~= seq![]);
        let event_type = match json::str_opt(data.get("type")) {
            Some(t) => text::owned(t),
            None => {
                return report(actions, None);
            },
        };
        if !event_matches_session(event_type.as_str(), &data, session_id) {
            return report(actions, None);
        }
        let mut outcome: Option<EventStreamOutcome> = None;
        let mut follow_up: Option<StreamAction> = None;
        if text::str_eq(event_type.as_str(), "session.idle") {
            follow_up = Some(StreamAction::Control(ControlEvent::Idle));
            outcome = Some(EventStreamOutcome::Idle);
        } else if text::str_eq(event_type.as_str(), "session.error") {
            let kind = json::string_or(
                either_json(
                    get3(&data, "properties", "error", "name"),
                    get3(&data, "properties", "error", "type"),
                ),
                "unknown",
            );
            let message = json::string_or(
                either_json(
                    get4(&data, "properties", "error", "data", "message"),
                    get3(&data, "properties", "error", "message"),
                ),
                "OpenCode session error",
            );
            if text::str_eq(kind.as_str(), "ProviderAuthError") {
                follow_up = Some(StreamAction::Control(ControlEvent::AuthRequired { message }));
                outcome = Some(EventStreamOutcome::Terminal);
            } else {
                follow_up = Some(StreamAction::Control(ControlEvent::SessionError { message }));
            }
        } else if text::str_eq(event_type.as_str(), "permission.asked") {
            let request_id = json::string_or(get2(&data, "properties", "id"), "");
            if !request_id.as_str().is_empty() && self.seen_permissions.insert(request_id.clone()) {
                follow_up = Some(StreamAction::AskPermission(read_request(&data, request_id)));
            }
            assert(self@.seen =~= step.memory.seen);
        }
        actions.push(StreamAction::LogEvent(data));
        if let Some(action) = follow_up {
            actions.push(action);
        }
        assert(actions.deep_view() =~= step.actions);
        report(actions, outcome)
    }

    /// Takes an event.
    pub fn on_event(&mut self, event: sse::ParsedSseEvent, session_id: &str) -> (res: StreamReport)
        ensures
            final(self)@ == event_step(old(self)@, event.deep_view(), session_id@).memory,
            res.tells_of(event_step(old(self)@, event.deep_view(), session_id@)),
    {
        if let Some(id) = event.id {
            self.last_event_id = Some(id);
        }
        if let Some(retry) = event.retry {
            self.base_retry_delay = retry;
        }
        assert(self@ == header_step(old(self)@, event.deep_view()));
        match event.data {
            Some(data) => self.on_data(data, session_id),
            None => {
                let actions: Vec<StreamAction> = Vec::new();
                assert(actions.deep_view() =~= seq![]);
                report(actions, None)
            },
        }
    }

    /// Takes the complete events out of a buffer, one after the other, until one of them ends the
    /// reading of the stream.
    pub fn drain(&mut self, buffer: &mut String, session_id: &str) -> (res: StreamReport)
        ensures
            final(self)@ == drained(old(self)@, old(buffer)@, session_id@).step.memory,
            final(buffer)@ == drained(old(self)@, old(buffer)@, session_id@).buffer,
            res.tells_of(drained(old(self)@, old(buffer)@, session_id@).step),
    {
        let ghost whole = drained(self@, buffer@, session_id@);
        let mut actions: Vec<StreamAction> = Vec::new();
        let mut ended: Option<EventStreamOutcome> = None;
        let mut more: bool = true;
        assert(actions.deep_view() =~= seq![]);
        assert(actions.deep_view() + whole.step.actions =~= whole.step.actions);
        while more
            invariant
                more ==> ended is None && whole == (Drained {
                    step: Step {
                        actions: actions.deep_view() + drained(
                            self@,
                            buffer@,
                            session_id@,
                        ).step.actions,
                        ..drained(self@, buffer@, session_id@).step
                    },
                    buffer: drained(self@, buffer@, session_id@).buffer,
                }),
                !more ==> whole == (Drained {
                    step: Step {
                        memory: self@,
                        actions: actions.deep_view(),
                        outcome: ended,
                    },
                    buffer: buffer@,
                }),
            decreases buffer@.len(), if more { 1int } else { 0int },
        {
            let ghost memory = self@;
            let ghost before = buffer@;
            let ghost done = actions.deep_view();
            match sse::next_sse_chunk(buffer) {
                None => {
                    more = false;
                    assert(done + seq![] =~= done);
                },
                Some(raw) => {
                    proof {
                        let breaks = sse::lemma_event_consumes(before);
                    }
                    let event = sse::parse_sse_event(raw.as_str());
                    let mut part = self.on_event(event, session_id);
                    let ghost first = part.actions.deep_view();
                    let ghost held = actions@;
                    let ghost added = part.actions@;
                    actions.append(&mut part.actions);
                    assert(actions@ == held + added);
                    assert(actions.deep_view() =~= done + first);
                    if part.outcome.is_some() {
                        ended = part.outcome;
                        more = false;
                    } else {
                        let ghost later = drained(self@, buffer@, session_id@);
                        assert(done + (first + later.step.actions) =~= (done + first)
                            + later.step.actions);
                    }
                },
            }
        }
        report(actions, ended)
    }

    /// Takes a piece of the stream. What is not yet a complete event stays in the buffer.
    pub fn on_chunk(&mut self, buffer: &mut String, chunk: &Vec<u8>, session_id: &str) -> (res:
        StreamReport)
        ensures
            ({
                let got = drained(
                    old(self)@,
                    old(buffer)@ + text::lossy_text(chunk@),
                    session_id@,
                );
                &&& final(self)@ == got.step.memory
                &&& final(buffer)@ == got.buffer
                &&& res.tells_of(got.step)
            }),
    {
        let piece = text::from_utf8_lossy(chunk);
        buffer.append(piece.as_str());
        self.drain(buffer, session_id)
    }

    /// The id of the last event, from which the server is asked to go on.
    pub fn last_id(&self) -> (res: Option<&str>)
        ensures
            res.deep_view() == self@.last_event_id,
    {
        process::borrow_opt(&self.last_event_id)
    }
}

// ---------------------------------------------------------------------------
// Laws
// ---------------------------------------------------------------------------

/// The requests for permission among actions, by their ids, in order.
pub open spec fn asked(actions: Seq<StreamAction<Seq<char>, JsonView>>) -> Seq<Seq<char>>
    decreases actions.len(),
{
    if actions.len() == 0 {
        seq![]
    } else {
        let before = asked(actions.drop_last());
        match actions.last() {
            StreamAction::AskPermission(request) => before.push(request.request_id),
            _ => before,
        }
    }
}

proof fn lemma_asked_concat(
    a: Seq<StreamAction<Seq<char>, JsonView>>,
    b: Seq<StreamAction<Seq<char>, JsonView>>,
)
    ensures
        asked(a + b) == asked(a) + asked(b),
    decreases b.len(),
{
    if b.len() == 0 {
        assert(a + b =~= a);
        assert(asked(a) + asked(b) =~= asked(a));
    } else {
        assert((a + b).drop_last() =~= a + b.drop_last());
        lemma_asked_concat(a, b.drop_last());
        match b.last() {
            StreamAction::AskPermission(request) => {
                assert(asked(a) + asked(b.drop_last()).push(request.request_id) =~= (asked(a)
                    + asked(b.drop_last())).push(request.request_id));
            },
            _ => {},
        }
    }
}

proof fn lemma_asked_data(memory: StreamMemory, data: JsonView, session_id: Seq<char>)
    ensures
        ({
            let step = data_step(memory, data, session_id);
            let ids = asked(step.actions);
            &&& ids.len() <= 1
            &&& ids.len() == 1 ==> ids[0].len() > 0 && !memory.seen.contains(ids[0])
                && step.memory.seen == memory.seen.insert(ids[0])
            &&& ids.len() == 0 ==> step.memory.seen == memory.seen
        }),
{
    let step = data_step(memory, data, session_id);
    reveal_with_fuel(asked, 3);
    if step.actions.len() == 2 {
        assert(step.actions.drop_last() =~= seq![step.actions[0]]);
        assert(step.actions.drop_last().drop_last() =~= seq![]);
    } else if step.actions.len() == 1 {
        assert(step.actions.drop_last() =~= seq![]);
    }
}

/// A request for permission is answered once: the requests that are to be answered, as the events
/// of a buffer come in, all have an id, differ from each other and from all that were seen before,
/// and are remembered. What was seen stays remembered.
pub proof fn lemma_permissions_asked_once(
    memory: StreamMemory,
    buffer: Seq<char>,
    session_id: Seq<char>,
)
    ensures
        ({
            let step = drained(memory, buffer, session_id).step;
            let ids = asked(step.actions);
            &&& ids.no_duplicates()
            &&& forall|i: int|
                0 <= i < ids.len() ==> (#[trigger] ids[i]).len() > 0 && !memory.seen.contains(ids[i])
            &&& forall|id: Seq<char>| #[trigger]
                step.memory.seen.contains(id) <==> memory.seen.contains(id) || ids.contains(id)
        }),
    decreases buffer.len(),
{
    match sse::first_event(buffer) {
        None => {},
        Some(taken) => {
            let breaks = sse::lemma_event_consumes(buffer);
            let event = sse::event_of(taken.event);
            let first = event_step(memory, event, session_id);
            let head = asked(first.actions);
            let remembered = header_step(memory, event);
            match event.data {
                Some(data) => {
                    lemma_asked_data(remembered, data, session_id);
                },
                None => {},
            }
            assert(head.len() == 1 ==> head.contains(head[0]));
            if first.outcome is None {
                let later = drained(first.memory, taken.rest, session_id).step;
                let tail = asked(later.actions);
                lemma_permissions_asked_once(first.memory, taken.rest, session_id);
                lemma_asked_concat(first.actions, later.actions);
                let ids = head + tail;
                assert(ids.no_duplicates()) by {
                    assert forall|i: int, j: int|
                        0 <= i < ids.len() && 0 <= j < ids.len() && i != j implies ids[i]
                        != ids[j] by {
                        if i < head.len() && j >= head.len() {
                            assert(tail[j - head.len()] == ids[j]);
                            assert(!first.memory.seen.contains(tail[j - head.len()]));
                        }
                        if j < head.len() && i >= head.len() {
                            assert(tail[i - head.len()] == ids[i]);
                            assert(!first.memory.seen.contains(tail[i - head.len()]));
                        }
                    }
                }
                assert forall|i: int| 0 <= i < ids.len() implies (#[trigger] ids[i]).len() > 0
                    && !memory.seen.contains(ids[i]) by {
                    if i >= head.len() {
                        assert(ids[i] == tail[i - head.len()]);
                        assert(!first.memory.seen.contains(tail[i - head.len()]));
                    }
                }
                assert forall|id: Seq<char>| #[trigger]
                    later.memory.seen.contains(id) <==> memory.seen.contains(id)
                        || ids.contains(id) by {
                    if head.contains(id) {
                        let k = choose|k: int| 0 <= k < head.len() && head[k] == id;
                        assert(ids[k] == id);
                    }
                    if tail.contains(id) {
                        let k = choose|k: int| 0 <= k < tail.len() && tail[k] == id;
                        assert(ids[k + head.len()] == id);
                    }
                    if ids.contains(id) {
                        let k = choose|k: int| 0 <= k < ids.len() && ids[k] == id;
                        if k < head.len() {
                            assert(head[k] == id);
                        } else {
                            assert(tail[k - head.len()] == id);
                        }
                    }
                }
            }
        },
    }
}

/// Whether an action ends the reading of the stream.
pub open spec fn ends_reading(action: StreamAction<Seq<char>, JsonView>) -> bool {
    action matches StreamAction::Control(event) && event !is SessionError
}

/// The reading of the stream ends exactly with the action that tells the run of the prompt that
/// the session is idle, or that the user must authenticate: that action is the last, and there is
/// no such action before it.
pub proof fn lemma_reading_ends(memory: StreamMemory, buffer: Seq<char>, session_id: Seq<char>)
    ensures
        ({
            let step = drained(memory, buffer, session_id).step;
            let n = step.actions.len();
            &&& step.outcome != Some(EventStreamOutcome::Disconnected)
            &&& step.outcome == Some(EventStreamOutcome::Idle) ==> n > 0 && step.actions[n - 1]
                == StreamAction::<Seq<char>, JsonView>::Control(ControlEvent::Idle)
            &&& step.outcome == Some(EventStreamOutcome::Terminal) ==> n > 0 && (
            step.actions[n - 1] matches StreamAction::Control(event) && event is AuthRequired)
            &&& forall|i: int|
                0 <= i < n && (step.outcome is None || i < n - 1) ==> !ends_reading(
                    #[trigger] step.actions[i],
                )
        }),
    decreases buffer.len(),
{
    match sse::first_event(buffer) {
        None => {},
        Some(taken) => {
            let breaks = sse::lemma_event_consumes(buffer);
            let first = event_step(memory, sse::event_of(taken.event), session_id);
            if first.outcome is None {
                lemma_reading_ends(first.memory, taken.rest, session_id);
            }
        },
    }
}

/// Only events of the session are written to the log.
pub proof fn lemma_logged_events(memory: StreamMemory, buffer: Seq<char>, session_id: Seq<char>)
    ensures
        ({
            let actions = drained(memory, buffer, session_id).step.actions;
            forall|i: int|
                0 <= i < actions.len() ==> match #[trigger] actions[i] {
                    StreamAction::LogEvent(event) => match json::opt_text(event.field("type"@)) {
                        Some(event_type) => session_of(event_type, event) == Some(session_id),
                        None => false,
                    },
                    _ => true,
                }
        }),
    decreases buffer.len(),
{
    match sse::first_event(buffer) {
        None => {},
        Some(taken) => {
            let breaks = sse::lemma_event_consumes(buffer);
            let first = event_step(memory, sse::event_of(taken.event), session_id);
            if first.outcome is None {
                lemma_logged_events(first.memory, taken.rest, session_id);
            }
        },
    }
}

/// Whether the properties of an event have a text under a name.
pub open spec fn property(data: JsonView, name: Seq<char>, said: Seq<char>) -> bool {
    data.field("properties"@) matches Some(p) && p.field(name) == Some(JsonView::Text(said))
}

/// The kinds of events that ask for something differ.
proof fn lemma_kinds_differ()
    ensures
        "session.idle"@ != "session.error"@,
        "session.idle"@ != "permission.asked"@,
        "session.error"@ != "permission.asked"@,
        "session.idle"@ != "message.updated"@,
        "session.idle"@ != "message.part.updated"@,
        "session.error"@ != "message.updated"@,
        "session.error"@ != "message.part.updated"@,
        "permission.asked"@ != "message.updated"@,
        "permission.asked"@ != "message.part.updated"@,
        "permission.replied"@ != "message.updated"@,
        "permission.replied"@ != "message.part.updated"@,
        "message.part.updated"@ != "message.updated"@,
{
    reveal_strlit("session.idle");
    reveal_strlit("session.error");
    reveal_strlit("permission.asked");
    reveal_strlit("permission.replied");
    reveal_strlit("message.updated");
    reveal_strlit("message.part.updated");
    assert("session.idle"@.len() == 12 && "session.error"@.len() == 13);
    assert("permission.asked"@.len() == 16 && "permission.replied"@.len() == 18);
    assert("message.updated"@.len() == 15 && "message.part.updated"@.len() == 20);
}

/// An event belongs to the session that its properties name; one of a message to the session of the
/// message, and one of a part of a message to the session of the part. What belongs to another
/// session is passed over; what belongs to the session is written to the log, before anything else
/// is done about it.
pub proof fn lemma_events_of_the_session(
    memory: StreamMemory,
    data: JsonView,
    kind: Seq<char>,
    told: Seq<char>,
    session_id: Seq<char>,
)
    requires
        data.field("type"@) == Some(JsonView::Text(kind)),
        ({
            ||| kind == "message.updated"@ && (data.field("properties"@) matches Some(p)
                && p.field("info"@) matches Some(i) && i.field("sessionID"@) == Some(
                JsonView::Text(told),
            ))
            ||| kind == "message.part.updated"@ && (data.field("properties"@) matches Some(p)
                && p.field("part"@) matches Some(i) && i.field("sessionID"@) == Some(
                JsonView::Text(told),
            ))
            ||| kind != "message.updated"@ && kind != "message.part.updated"@ && property(
                data,
                "sessionID"@,
                told,
            )
        }),
    ensures
        told != session_id ==> data_step(memory, data, session_id) == (Step {
            memory,
            actions: seq![],
            outcome: None,
        }),
        told == session_id ==> data_step(memory, data, session_id).actions.len() > 0
            && data_step(memory, data, session_id).actions[0] == StreamAction::<
            Seq<char>,
            JsonView,
        >::LogEvent(data),
{
    lemma_kinds_differ();
}

/// A session that is idle ends the reading of the stream, and the run of the prompt is told.
pub proof fn lemma_idle_is_told(memory: StreamMemory, data: JsonView, session_id: Seq<char>)
    requires
        data.field("type"@) == Some(JsonView::Text("session.idle"@)),
        property(data, "sessionID"@, session_id),
    ensures
        ({
            let step = data_step(memory, data, session_id);
            &&& step.memory == memory
            &&& step.outcome == Some(EventStreamOutcome::Idle)
            &&& step.actions.len() == 2
            &&& step.actions[1] == StreamAction::<Seq<char>, JsonView>::Control(ControlEvent::Idle)
        }),
{
    lemma_kinds_differ();
}

/// An error of the session is told with what it says: with the message in its data, or else with its
/// own. An error of the provider's authentication ends the reading, and no other does.
pub proof fn lemma_error_is_told(
    memory: StreamMemory,
    data: JsonView,
    session_id: Seq<char>,
    error: JsonView,
    name: Seq<char>,
    said: Seq<char>,
)
    requires
        data.field("type"@) == Some(JsonView::Text("session.error"@)),
        property(data, "sessionID"@, session_id),
        data.field("properties"@)->0.field("error"@) == Some(error),
        error.field("name"@) == Some(JsonView::Text(name)),
        ({
            ||| error.field("data"@) matches Some(d) && d.field("message"@) == Some(
                JsonView::Text(said),
            )
            ||| error.field("data"@) is None && error.field("message"@) == Some(
                JsonView::Text(said),
            )
        }),
    ensures
        ({
            let step = data_step(memory, data, session_id);
            let auth = name == "ProviderAuthError"@;
            &&& step.memory == memory
            &&& step.outcome == if auth {
                Some(EventStreamOutcome::Terminal)
            } else {
                None
            }
            &&& step.actions.len() == 2
            &&& step.actions[1] == StreamAction::<Seq<char>, JsonView>::Control(
                if auth {
                    ControlEvent::AuthRequired { message: said }
                } else {
                    ControlEvent::SessionError { message: said }
                },
            )
        }),
{
    lemma_kinds_differ();
}

/// A request for permission that was not seen before is to be answered: under its own id, for the
/// call that it names, or else under its own id too, for the permission that it names, with the
/// properties of the event. It is remembered, and one that was seen is only written to the log.
pub proof fn lemma_permission_is_asked(
    memory: StreamMemory,
    data: JsonView,
    session_id: Seq<char>,
    id: Seq<char>,
    said: Seq<char>,
)
    requires
        data.field("type"@) == Some(JsonView::Text("permission.asked"@)),
        property(data, "sessionID"@, session_id),
        property(data, "id"@, id),
        id.len() > 0,
    ensures
        ({
            let step = data_step(memory, data, session_id);
            let properties = data.field("properties"@)->0;
            &&& step.outcome is None
            &&& step.memory.seen == memory.seen.insert(id)
            &&& step.memory.last_event_id == memory.last_event_id
            &&& step.memory.base_retry_delay == memory.base_retry_delay
            &&& memory.seen.contains(id) ==> step.actions.len() == 1
            &&& !memory.seen.contains(id) ==> step.actions.len() == 2 && (
            step.actions[1] matches StreamAction::AskPermission(request) && {
                &&& request.request_id == id
                &&& request.tool_input == properties
                &&& property(data, "permission"@, said) ==> request.permission == said
                &&& properties.field("permission"@) is None ==> request.permission == "tool"@
                &&& (properties.field("tool"@) matches Some(t) && t.field("callID"@) == Some(
                    JsonView::Text(said),
                )) ==> request.tool_call_id == said
                &&& properties.field("tool"@) is None ==> request.tool_call_id == id
            })
        }),
{
    lemma_kinds_differ();
    assert(memory.seen.contains(id) ==> memory.seen.insert(id) =~= memory.seen);
}

/// The id and the delay that an event brings are remembered for the next connection, and without
/// one what was remembered stays.
pub proof fn lemma_headers_are_remembered(
    memory: StreamMemory,
    event: sse::ParsedSseEvent<Seq<char>, JsonView>,
    session_id: Seq<char>,
)
    ensures
        ({
            let after = event_step(memory, event, session_id).memory;
            &&& event.id is Some ==> after.last_event_id == event.id
            &&& event.id is None ==> after.last_event_id == memory.last_event_id
            &&& event.retry matches Some(ms) ==> after.base_retry_delay == ms
            &&& event.retry is None ==> after.base_retry_delay == memory.base_retry_delay
            &&& memory.seen.subset_of(after.seen)
        }),
{
}

/// Events are taken in the order in which they arrive: what is to be done about the first one comes
/// first, and what it brings is remembered for those after it.
pub proof fn lemma_events_in_order(memory: StreamMemory, buffer: Seq<char>, session_id: Seq<char>)
    requires
        sse::first_event(buffer) is Some,
    ensures
        ({
            let taken = sse::first_event(buffer)->0;
            let first = event_step(memory, sse::event_of(taken.event), session_id);
            let all = drained(memory, buffer, session_id);
            let later = drained(first.memory, taken.rest, session_id);
            let n = first.actions.len();
            &&& n <= all.step.actions.len()
            &&& all.step.actions.take(n as int) == first.actions
            &&& first.outcome is Some ==> all.step == first && all.buffer == taken.rest
            &&& first.outcome is None ==> all.step.actions.skip(n as int) == later.step.actions
                && all.step.memory == later.step.memory && all.step.outcome == later.step.outcome
                && all.buffer == later.buffer
        }),
{
    let taken = sse::first_event(buffer)->0;
    let first = event_step(memory, sse::event_of(taken.event), session_id);
    let all = drained(memory, buffer, session_id);
    let later = drained(first.memory, taken.rest, session_id);
    let n = first.actions.len() as int;
    assert(all.step.actions.take(n) =~= first.actions);
    if first.outcome is None {
        assert(all.step.actions.skip(n) =~= later.step.actions);
    }
}

/// An event of another kind belongs to the session that its properties name, or else that of its
/// message, or else that of its part; an event that names none belongs to none.
pub proof fn lemma_session_of_others(event_type: Seq<char>, event: JsonView, told: Seq<char>)
    requires
        event_type != "message.updated"@,
        event_type != "message.part.updated"@,
        event_type != "permission.asked"@,
        event_type != "permission.replied"@,
        event_type != "session.idle"@,
        event_type != "session.error"@,
        event.field("properties"@) is Some,
    ensures
        ({
            let p = event.field("properties"@)->0;
            &&& p.field("sessionID"@) == Some(JsonView::Text(told)) ==> session_of(event_type, event)
                == Some(told)
            &&& p.field("sessionID"@) is None && (p.field("info"@) matches Some(i) && i.field(
                "sessionID"@,
            ) == Some(JsonView::Text(told))) ==> session_of(event_type, event) == Some(told)
            &&& p.field("sessionID"@) is None && p.field("info"@) is None && (p.field(
                "part"@,
            ) matches Some(i) && i.field("sessionID"@) == Some(JsonView::Text(told)))
                ==> session_of(event_type, event) == Some(told)
            &&& p.field("sessionID"@) is None && p.field("info"@) is None && p.field("part"@)
                is None ==> session_of(event_type, event) is None
        }),
{
}

/// An event of a message, of a part of one, of a permission or of the session as a whole belongs to
/// no session where it does not name one in its own place.
pub proof fn lemma_session_unnamed(event_type: Seq<char>, event: JsonView)
    requires
        event.field("properties"@) is Some,
        ({
            let p = event.field("properties"@)->0;
            ||| event_type == "message.updated"@ && (p.field("info"@) matches Some(i) ==> i.field(
                "sessionID"@,
            ) is None)
            ||| event_type == "message.part.updated"@ && (p.field("part"@) matches Some(i)
                ==> i.field("sessionID"@) is None)
            ||| (event_type == "permission.asked"@ || event_type == "permission.replied"@
                || event_type == "session.idle"@ || event_type == "session.error"@) && p.field(
                "sessionID"@,
            ) is None
        }),
    ensures
        session_of(event_type, event) is None,
{
    lemma_kinds_differ();
}

} // verus!
