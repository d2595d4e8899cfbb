//! Listening to the events of an OpenCode server across lost connections.
use vstd::prelude::*;
use vstd::string::*;

use crate::opencode::stream::{EventStreamOutcome, StreamState};
use crate::text;

verus! {

/// The failures in a row after which no other attempt to connect is made.
pub const MAX_ATTEMPTS: u32 = 20;

/// The most milliseconds between two attempts to connect.
pub const MAX_BACKOFF_MS: u64 = 30000;

/// A number doubled the given number of times.
pub open spec fn doubled(n: int, times: int) -> int
    decreases times,
{
    if times <= 0 {
        n
    } else {
        2 * doubled(n, times - 1)
    }
}

/// How often the delay is doubled before the given attempt.
pub open spec fn doublings(attempt: u32) -> int {
    if attempt == 0 {
        0
    } else if attempt > 11 {
        10
    } else {
        attempt - 1
    }
}

/// The milliseconds to wait before an attempt to connect.
pub open spec fn backoff(base_ms: u64, attempt: u32) -> int {
    let delay = doubled(base_ms as int, doublings(attempt));
    if delay < MAX_BACKOFF_MS {
        delay
    } else {
        MAX_BACKOFF_MS as int
    }
}

proof fn lemma_doubled(n: int, times: int)
    requires
        n >= 0,
    ensures
        n <= doubled(n, times),
        times > 0 ==> doubled(n, times - 1) <= doubled(n, times),
    decreases times,
{
    if times > 0 {
        lemma_doubled(n, times - 1);
    }
}

proof fn lemma_doubled_grows(n: int, a: int, b: int)
    requires
        n >= 0,
        a <= b,
    ensures
        doubled(n, a) <= doubled(n, b),
    decreases b - a,
{
    if a < b {
        lemma_doubled(n, b);
        lemma_doubled_grows(n, a, b - 1);
    }
}

/// The delay before an attempt never exceeds the limit, and does not shrink as attempts fail; it
/// is at least the base delay where that is below the limit.
pub proof fn lemma_backoff(base_ms: u64, attempt: u32, later: u32)
    requires
        attempt <= later,
    ensures
        backoff(base_ms, attempt) <= backoff(base_ms, later) <= MAX_BACKOFF_MS,
        base_ms <= MAX_BACKOFF_MS ==> base_ms <= backoff(base_ms, attempt),
{
    lemma_doubled_grows(base_ms as int, doublings(attempt), doublings(later));
    lemma_doubled(base_ms as int, doublings(attempt));
}

/// The milliseconds to wait before an attempt to connect.
pub fn retry_backoff(base_ms: u64, attempt: u32) -> (res: u64)
    ensures
        res == backoff(base_ms, attempt),
        res <= MAX_BACKOFF_MS,
{
    let exp: u32 = if attempt == 0 {
        0
    } else if attempt > 11 {
        10
    } else {
        attempt - 1
    };
    let mut delay: u64 = base_ms;
    for i in 0..exp
        invariant
            exp == doublings(attempt),
            delay < MAX_BACKOFF_MS ==> delay == doubled(base_ms as int, i as int),
            delay >= MAX_BACKOFF_MS ==> doubled(base_ms as int, i as int) >= MAX_BACKOFF_MS,
    {
        if delay < MAX_BACKOFF_MS {
            delay = 2 * delay;
        }
    }
    if delay < MAX_BACKOFF_MS {
        delay
    } else {
        MAX_BACKOFF_MS
    }
}

/// What happened to the connection.
#[derive(Debug, PartialEq)]
pub enum ListenerEvent<S = String> {
    /// The server answered with a stream of events.
    Connected,
    /// It did not, for the reason given.
    ConnectFailed(S),
    /// The reading of the stream ended.
    Ended(EventStreamOutcome),
    /// The reading of the stream failed.
    Failed,
}

impl DeepView for ListenerEvent {
    type V = ListenerEvent<Seq<char>>;

    open spec fn deep_view(&self) -> ListenerEvent<Seq<char>> {
        match *self {
            ListenerEvent::Connected => ListenerEvent::Connected,
            ListenerEvent::ConnectFailed(e) => ListenerEvent::ConnectFailed(e@),
            ListenerEvent::Ended(outcome) => ListenerEvent::Ended(outcome),
            ListenerEvent::Failed => ListenerEvent::Failed,
        }
    }
}

/// What the listener does next. An error that is given is written to the log first.
#[derive(Debug, PartialEq)]
pub enum ListenerAction<S = String> {
    /// Read the stream.
    Read,
    /// Wait, and connect again.
    Reconnect { error: Option<S>, delay_ms: u64 },
    /// Tell the run of the prompt that the stream is lost, and stop.
    GiveUp { error: Option<S> },
    /// Stop.
    Stop,
}

impl DeepView for ListenerAction {
    type V = ListenerAction<Seq<char>>;

    open spec fn deep_view(&self) -> ListenerAction<Seq<char>> {
        match *self {
            ListenerAction::Read => ListenerAction::Read,
            ListenerAction::Reconnect { error, delay_ms } => ListenerAction::Reconnect {
                error: error.deep_view(),
                delay_ms,
            },
            ListenerAction::GiveUp { error } => ListenerAction::GiveUp { error: error.deep_view() },
            ListenerAction::Stop => ListenerAction::Stop,
        }
    }
}

/// What the listener does about a failure: it is the `attempt`-th in a row.
pub open spec fn after_failure(attempt: u32, base_ms: u64, error: Option<Seq<char>>) -> ListenerAction<
    Seq<char>,
> {
    if attempt >= MAX_ATTEMPTS {
        ListenerAction::GiveUp { error }
    } else {
        ListenerAction::Reconnect { error, delay_ms: backoff(base_ms, attempt) as u64 }
    }
}

/// The failures in a row once something has happened to the connection.
pub open spec fn next_attempt(attempt: u32, event: ListenerEvent<Seq<char>>) -> u32 {
    match event {
        ListenerEvent::Connected => 0,
        ListenerEvent::Ended(EventStreamOutcome::Idle) => attempt,
        ListenerEvent::Ended(EventStreamOutcome::Terminal) => attempt,
        _ => (attempt + 1) as u32,
    }
}

/// What the listener does once something has happened to the connection.
pub open spec fn next_action(attempt: u32, base_ms: u64, event: ListenerEvent<Seq<char>>) -> ListenerAction<
    Seq<char>,
> {
    match event {
        ListenerEvent::Connected => ListenerAction::Read,
        ListenerEvent::ConnectFailed(e) => after_failure(
            next_attempt(attempt, event),
            base_ms,
            Some("OpenCode event stream reconnect failed: "@ + e),
        ),
        ListenerEvent::Ended(EventStreamOutcome::Idle) => ListenerAction::Stop,
        ListenerEvent::Ended(EventStreamOutcome::Terminal) => ListenerAction::Stop,
        _ => after_failure(next_attempt(attempt, event), base_ms, None),
    }
}

/// A listener: what it remembers of the stream, and how many failures there were in a row.
pub struct EventListener {
    pub stream: StreamState,
    pub attempt: u32,
}

impl EventListener {
    /// Whether the listener has not given up.
    pub open spec fn active(self) -> bool {
        self.attempt < MAX_ATTEMPTS
    }

    /// A listener that has seen nothing yet.
    pub fn new() -> (res: Self)
        ensures
            res.attempt == 0,
            res.active(),
            res.stream@.seen == Set::<Seq<char>>::empty(),
            res.stream@.last_event_id is None,
            res.stream@.base_retry_delay == 3000,
    {
        EventListener { stream: StreamState::new(), attempt: 0 }
    }

    fn failed(&mut self, error: Option<String>) -> (res: ListenerAction)
        requires
            old(self).active(),
        ensures
            final(self).stream == old(self).stream,
            final(self).attempt == old(self).attempt + 1,
            res.deep_view() == after_failure(
                final(self).attempt,
                old(self).stream@.base_retry_delay,
                error.deep_view(),
            ),
    {
        self.attempt = self.attempt + 1;
        if self.attempt >= MAX_ATTEMPTS {
            ListenerAction::GiveUp { error }
        } else {
            let delay_ms = retry_backoff(self.stream.base_retry_delay, self.attempt);
            ListenerAction::Reconnect { error, delay_ms }
        }
    }

    /// Takes what happened to the connection, and says what to do next.
    pub fn on_event(&mut self, event: ListenerEvent) -> (res: ListenerAction)
        requires
            old(self).active(),
        ensures
            final(self).stream == old(self).stream,
            final(self).attempt == next_attempt(old(self).attempt, event.deep_view()),
            res.deep_view() == next_action(
                old(self).attempt,
                old(self).stream@.base_retry_delay,
                event.deep_view(),
            ),
            final(self).active() <==> res !is GiveUp,
    {
        match event {
            ListenerEvent::Connected => {
                self.attempt = 0;
                ListenerAction::Read
            },
            ListenerEvent::ConnectFailed(e) => self.failed(
                Some(text::cat2("OpenCode event stream reconnect failed: ", e.as_str())),
            ),
            ListenerEvent::Ended(EventStreamOutcome::Idle) => ListenerAction::Stop,
            ListenerEvent::Ended(EventStreamOutcome::Terminal) => ListenerAction::Stop,
            ListenerEvent::Ended(EventStreamOutcome::Disconnected) => self.failed(None),
            ListenerEvent::Failed => self.failed(None),
        }
    }
}

/// The failures in a row after a run of events, from a given number on.
pub open spec fn attempts_after(attempt: u32, events: Seq<ListenerEvent<Seq<char>>>) -> u32
    decreases events.len(),
{
    if events.len() == 0 {
        attempt
    } else {
        next_attempt(attempts_after(attempt, events.drop_last()), events.last())
    }
}

/// Failed attempts to connect are counted, and it is the last of `MAX_ATTEMPTS` in a row, and none
/// before it, at which the listener gives up.
pub proof fn lemma_gives_up_at_last(events: Seq<ListenerEvent<Seq<char>>>, base_ms: u64)
    requires
        0 < events.len() <= MAX_ATTEMPTS,
        forall|i: int| 0 <= i < events.len() ==> (#[trigger] events[i]) is ConnectFailed,
    ensures
        attempts_after(0, events) == events.len(),
        next_action(attempts_after(0, events.drop_last()), base_ms, events.last()) is GiveUp
            <==> events.len() == MAX_ATTEMPTS,
    decreases events.len(),
{
    assert(events[events.len() - 1] is ConnectFailed);
    if events.len() > 1 {
        assert forall|i: int| 0 <= i < events.drop_last().len() implies (
        #[trigger] events.drop_last()[i]) is ConnectFailed by {
            assert(events[i] is ConnectFailed);
        }
        lemma_gives_up_at_last(events.drop_last(), base_ms);
    } else {
        assert(events.drop_last().len() == 0);
    }
}

/// The delay before the first attempt is the base delay, and each further attempt up to the eleventh
/// waits twice as long as the one before it, as far as the limit allows; after that the delay stays.
pub proof fn lemma_backoff_doubles(base_ms: u64, attempt: u32)
    requires
        attempt < u32::MAX,
    ensures
        ({
            let limit = MAX_BACKOFF_MS as int;
            let now = backoff(base_ms, attempt);
            let next = backoff(base_ms, (attempt + 1) as u32);
            &&& attempt <= 1 ==> now == if base_ms < limit {
                base_ms as int
            } else {
                limit
            }
            &&& 1 <= attempt <= 10 ==> next == if 2 * now < limit {
                2 * now
            } else {
                limit
            }
            &&& attempt >= 11 ==> next == now
        }),
{
    if 1 <= attempt <= 10 {
        lemma_doubled(base_ms as int, attempt as int);
    }
}

/// The listener reads once it is connected, and a connection forgets the failures before it. It
/// stops where the session is idle or cannot go on. Everything else is a failure, after which it
/// connects again or gives up; only a failure to connect is told, with its reason.
pub proof fn lemma_listener(attempt: u32, base_ms: u64, event: ListenerEvent<Seq<char>>)
    requires
        attempt < MAX_ATTEMPTS,
    ensures
        ({
            let action = next_action(attempt, base_ms, event);
            let after = next_attempt(attempt, event);
            let error = match action {
                ListenerAction::Reconnect { error, .. } => error,
                ListenerAction::GiveUp { error } => error,
                _ => None,
            };
            let stops = event == ListenerEvent::<Seq<char>>::Ended(EventStreamOutcome::Idle)
                || event == ListenerEvent::<Seq<char>>::Ended(EventStreamOutcome::Terminal);
            &&& event is Connected <==> action is Read
            &&& event is Connected ==> after == 0
            &&& stops <==> action is Stop
            &&& !stops && event !is Connected ==> after == attempt + 1
            &&& action is GiveUp <==> !stops && event !is Connected && attempt + 1 == MAX_ATTEMPTS
            &&& action matches ListenerAction::Reconnect { delay_ms, .. } ==> delay_ms == backoff(
                base_ms,
                after,
            )
            &&& event matches ListenerEvent::ConnectFailed(e) ==> error == Some(
                "OpenCode event stream reconnect failed: "@ + e,
            )
            &&& event !is ConnectFailed ==> error is None
        }),
{
    lemma_doubled(base_ms as int, doublings(next_attempt(attempt, event)));
}

} // verus!
