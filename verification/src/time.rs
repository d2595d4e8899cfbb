//! Instants.
use vstd::prelude::*;

use crate::model;

verus! {

/// An instant: whole seconds since the start of 1970 in UTC, and nanoseconds on top of them. A
/// leap second is told by a billion nanoseconds or more.
#[derive(Clone, Copy, Debug, PartialEq, Eq, Structural)]
pub struct Timestamp {
    pub seconds: i64,
    pub nanos: u32,
}

impl DeepView for Timestamp {
    type V = Timestamp;

    open spec fn deep_view(&self) -> Timestamp {
        *self
    }
}

impl Timestamp {
    /// Whether this instant is earlier than another.
    pub open spec fn earlier(self, other: Timestamp) -> bool {
        self.seconds < other.seconds || (self.seconds == other.seconds && self.nanos < other.nanos)
    }

    /// Whether this instant is earlier than another.
    pub fn is_before(self, other: Timestamp) -> (res: bool)
        ensures
            res == self.earlier(other),
    {
        self.seconds < other.seconds || (self.seconds == other.seconds && self.nanos < other.nanos)
    }
}

/// Of two instants that tell of no leap second, the earlier one is the one with fewer nanoseconds
/// since the start of 1970.
pub proof fn lemma_earlier(a: Timestamp, b: Timestamp)
    requires
        a.nanos < 1_000_000_000,
        b.nanos < 1_000_000_000,
    ensures
        a.earlier(b) <==> a.seconds * 1_000_000_000 + a.nanos < b.seconds * 1_000_000_000 + b.nanos,
{
}

/// The instant that `chrono::DateTime::parse_from_rfc3339` reads from a text: seconds and
/// nanoseconds.
pub uninterp spec fn rfc3339_instant(s: Seq<char>) -> Option<(i64, u32)>;

/// The instant that a text in the notation of RFC 3339 denotes.
pub open spec fn instant_of(s: Seq<char>) -> Option<Timestamp> {
    match rfc3339_instant(s) {
        Some(p) => Some(Timestamp { seconds: p.0, nanos: p.1 }),
        None => None,
    }
}

/// The instant that an optional text in the notation of RFC 3339 denotes.
pub open spec fn opt_instant_of(s: Option<Seq<char>>) -> Option<Timestamp> {
    match s {
        Some(s) => instant_of(s),
        None => None,
    }
}

/// Reads an instant with `chrono::DateTime::parse_from_rfc3339`, and gives its `timestamp` and
/// `timestamp_subsec_nanos`, neither of which depends on the offset. The contract claims that the
/// instant, or that there is none, is a function of the text.
#[verifier::external_body]
fn parse_from_rfc3339(s: &str) -> (res: Option<(i64, u32)>)
    ensures
        res == rfc3339_instant(s@),
{
    chrono::DateTime::parse_from_rfc3339(s).ok().map(
        |t| (t.timestamp(), t.timestamp_subsec_nanos()),
    )
}

/// Reads the clock with `chrono::Utc::now`, and gives its `timestamp` and `timestamp_subsec_nanos`.
/// The contract claims that the nanoseconds stay below a billion: the instant is made from whole
/// seconds and a fraction of one, and never tells of a leap second. Of the seconds nothing is said,
/// as they are the clock's.
#[verifier::external_body]
fn now_parts() -> (res: (i64, u32))
    ensures
        res.1 < 1_000_000_000,
{
    let t = chrono::Utc::now();
    (t.timestamp(), t.timestamp_subsec_nanos())
}

/// The current instant, as the clock tells it. It never tells of a leap second.
pub fn now() -> (res: Timestamp)
    ensures
        res.nanos < 1_000_000_000,
{
    let p = now_parts();
    Timestamp { seconds: p.0, nanos: p.1 }
}

/// Whether instants are `n` readings of the clock, none of which tells of a leap second.
pub open spec fn clock_instants(instants: Seq<Timestamp>, n: nat) -> bool {
    &&& instants.len() == n
    &&& forall|i: int| 0 <= i < instants.len() ==> (#[trigger] instants[i]).nanos < 1_000_000_000
}

/// The current instant, as often as asked for.
pub fn instants(n: usize) -> (res: Vec<Timestamp>)
    ensures
        clock_instants(res@, n as nat),
{
    let mut out: Vec<Timestamp> = Vec::new();
    for i in 0..n
        invariant
            clock_instants(out@, i as nat),
    {
        out.push(now());
    }
    out
}

/// Reads an instant in the notation of RFC 3339.
pub fn parse_rfc3339(s: &str) -> (res: Option<Timestamp>)
    ensures
        res == instant_of(s@),
{
    match parse_from_rfc3339(s) {
        Some(p) => Some(Timestamp { seconds: p.0, nanos: p.1 }),
        None => None,
    }
}

/// Reads an optional instant in the notation of RFC 3339.
pub fn parse_rfc3339_opt(s: Option<&str>) -> (res: Option<Timestamp>)
    ensures
        res == opt_instant_of(s.deep_view()),
{
    match s {
        Some(s) => parse_rfc3339(s),
        None => None,
    }
}

/// Reads an optional instant in the notation of RFC 3339; a default stands for one that is
/// missing or cannot be read.
pub fn parse_rfc3339_or(s: Option<&str>, default: Timestamp) -> (res: Timestamp)
    ensures
        res == model::value_or(opt_instant_of(s.deep_view()), default),
{
    match parse_rfc3339_opt(s) {
        Some(t) => t,
        None => default,
    }
}

} // verus!
