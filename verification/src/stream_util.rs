//! Helpers shared by the streaming provider implementations.

use vstd::prelude::*;

use crate::duration::Duration;
use crate::text::{
    a_number_is_read_back, decimal, only_digits_are_read, parse_u64, parsed_u64,
};

verus! {

/// Inter-chunk idle window: how long a stream may go without a line before the
/// connection is considered dead.
pub const DEFAULT_CHUNK_TIMEOUT_SECS: u64 = 15;

/// Budget for the **first** line of a stream: request queueing plus prompt
/// processing (prefill) on the provider side.
///
/// Deliberately much larger than [`DEFAULT_CHUNK_TIMEOUT_SECS`]. An idle gap
/// mid-response measures the network, but time-to-first-line measures the
/// provider's prefill, which grows with context size: a few-hundred-thousand
/// token prompt can take a minute or more before the model emits anything, and
/// the request is perfectly healthy while that happens. It is still bounded, so
/// a wedged connection fails in two minutes rather than hanging until the
/// socket-level read timeout.
pub const DEFAULT_FIRST_LINE_TIMEOUT_SECS: u64 = 120;

/// Where the environment overrides the inter-chunk idle window.
pub const CHUNK_TIMEOUT_KEY: &'static str = "GOOSE_INFERENCE_CHUNK_TIMEOUT_SECS";

/// Where the environment overrides the time-to-first-line budget.
pub const FIRST_LINE_TIMEOUT_KEY: &'static str = "GOOSE_INFERENCE_FIRST_LINE_TIMEOUT_SECS";

/// Which window elapsed when a stream was given up on.
#[derive(Debug, Clone, Copy, PartialEq, Eq, Structural)]
pub enum TimeoutPhase {
    /// The provider had not sent a single line yet.
    FirstLine,
    /// The stream went idle after it had already produced output.
    Idle,
}

/// The number of seconds that `value` says, or `default` where it says none.
pub open spec fn secs_or(value: Option<&str>, default: u64) -> u64 {
    match value {
        Some(value) => match parsed_u64(value@) {
            Some(secs) => secs,
            None => default,
        },
        None => default,
    }
}

/// Inter-chunk idle window; the value of `GOOSE_INFERENCE_CHUNK_TIMEOUT_SECS`
/// overrides it.
pub fn chunk_timeout(value: Option<&str>) -> (r: Duration)
    ensures
        r@ == secs_or(value, DEFAULT_CHUNK_TIMEOUT_SECS) * 1_000_000_000,
{
    Duration::from_secs(env_secs(value, DEFAULT_CHUNK_TIMEOUT_SECS))
}

/// Time-to-first-line budget; the value of
/// `GOOSE_INFERENCE_FIRST_LINE_TIMEOUT_SECS` overrides it.
pub fn first_line_timeout(value: Option<&str>) -> (r: Duration)
    ensures
        r@ == secs_or(value, DEFAULT_FIRST_LINE_TIMEOUT_SECS) * 1_000_000_000,
{
    Duration::from_secs(env_secs(value, DEFAULT_FIRST_LINE_TIMEOUT_SECS))
}

/// The number of seconds that a variable of the environment says, or `default`
/// where it is not set or not a number.
pub fn env_secs(value: Option<&str>, default: u64) -> (r: u64)
    ensures
        r == secs_or(value, default),
{
    match value {
        Some(value) => match parse_u64(value) {
            Some(secs) => secs,
            None => default,
        },
        None => default,
    }
}

/// The two idle budgets applied to a provider's raw SSE line stream.
///
/// Providers expose these through the declarative `stream_chunk_timeout_secs` /
/// `stream_first_line_timeout_secs` config keys; [`StreamTimeouts::overridden`]
/// takes the `GOOSE_INFERENCE_*` overrides of the environment.
#[derive(Debug, Clone, Copy, PartialEq, Eq)]
pub struct StreamTimeouts {
    /// Maximum gap between lines once the stream has started.
    pub chunk: Duration,
    /// Budget for the first line. `None` exempts it, leaving time-to-first-line
    /// to the socket-level timeout (used by providers that load a model on
    /// demand, where the wait is expected and unbounded).
    pub first_line: Option<Duration>,
}

impl StreamTimeouts {
    /// The budgets, with what the environment says of each.
    pub fn overridden(chunk: Option<&str>, first_line: Option<&str>) -> (r: Self)
        ensures
            r.chunk@ == secs_or(chunk, DEFAULT_CHUNK_TIMEOUT_SECS) * 1_000_000_000,
            r.first_line is Some,
            r.first_line->0@ == secs_or(first_line, DEFAULT_FIRST_LINE_TIMEOUT_SECS)
                * 1_000_000_000,
    {
        StreamTimeouts {
            chunk: chunk_timeout(chunk),
            first_line: Some(first_line_timeout(first_line)),
        }
    }
}

/// What came of waiting for a line.
#[derive(Debug, Clone, Copy, PartialEq, Eq, Structural)]
pub enum LineEvent {
    /// A line arrived.
    Line,
    /// The stream failed.
    Failed,
    /// The stream came to its end.
    End,
    /// The window elapsed.
    Elapsed,
}

/// What to do about it.
#[derive(Debug, Clone, Copy, PartialEq, Eq, Structural)]
pub enum LineAction {
    /// Hand the line on and wait for the next one.
    Yield,
    /// Hand the failure on and stop.
    Fail,
    /// Stop.
    Stop,
    /// Report that the window elapsed, and stop.
    TimeOut(TimeoutPhase),
}

/// How far a stream has come.
#[derive(Debug, Clone, Copy, PartialEq, Eq, Structural)]
pub enum LineProgress {
    /// No line arrived yet.
    Waiting,
    /// A line arrived.
    Started,
    /// Nothing more is expected.
    Done,
}

/// Watches a raw Server-Sent-Events **line** stream for an idle ("no data
/// received") timeout.
///
/// The timeout must be measured against line arrival, not against the stream of
/// assembled provider messages. The OpenAI/Anthropic decoders buffer tool-call
/// arguments and emit nothing until the tool call is complete, so applying the
/// timeout downstream of the decoder turns a slow-but-healthy tool call into a
/// bogus `NetworkError` (the connection is fine — the model is just still
/// generating). Timing the raw lines restores the intended meaning: "the
/// provider sent no data for N seconds". It also means keepalive frames
/// (`event: ping`, SSE comments, blank lines) that the decoders discard still
/// count as liveness.
///
/// `first_line_budget` separates the two budgets: `Some(_)` bounds
/// time-to-first-line (queueing + prefill) on its own, more generous window,
/// while `None` defers it entirely to the request-level timeout.
#[derive(Debug, Clone, Copy, PartialEq, Eq)]
pub struct LineTimeout {
    pub idle: Duration,
    pub first_line_budget: Option<Duration>,
    pub progress: LineProgress,
}

/// What to do about an event, and how far the stream has come then.
pub open spec fn line_step(progress: LineProgress, event: LineEvent) -> (LineAction, LineProgress) {
    match (progress, event) {
        (LineProgress::Done, _) => (LineAction::Stop, LineProgress::Done),
        (_, LineEvent::Line) => (LineAction::Yield, LineProgress::Started),
        (_, LineEvent::Failed) => (LineAction::Fail, LineProgress::Done),
        (_, LineEvent::End) => (LineAction::Stop, LineProgress::Done),
        (LineProgress::Waiting, LineEvent::Elapsed) => (
            LineAction::TimeOut(TimeoutPhase::FirstLine),
            LineProgress::Done,
        ),
        (LineProgress::Started, LineEvent::Elapsed) => (
            LineAction::TimeOut(TimeoutPhase::Idle),
            LineProgress::Done,
        ),
    }
}

impl LineTimeout {
    pub fn new(idle: Duration, first_line_budget: Option<Duration>) -> (r: Self)
        ensures
            r == (LineTimeout { idle, first_line_budget, progress: LineProgress::Waiting }),
    {
        LineTimeout { idle, first_line_budget, progress: LineProgress::Waiting }
    }

    /// How long to wait for the next line, or `None` to wait as long as it takes.
    pub fn window(&self) -> (r: Option<Duration>)
        ensures
            r == match self.progress {
                LineProgress::Waiting => self.first_line_budget,
                _ => Some(self.idle),
            },
    {
        match self.progress {
            LineProgress::Waiting => self.first_line_budget,
            _ => Some(self.idle),
        }
    }

    /// What to do about an event.
    pub fn on_event(&mut self, event: LineEvent) -> (r: LineAction)
        ensures
            (r, final(self).progress) == line_step(old(self).progress, event),
            final(self).idle == old(self).idle,
            final(self).first_line_budget == old(self).first_line_budget,
    {
        match (self.progress, event) {
            (LineProgress::Done, _) => LineAction::Stop,
            (_, LineEvent::Line) => {
                self.progress = LineProgress::Started;
                LineAction::Yield
            },
            (_, LineEvent::Failed) => {
                self.progress = LineProgress::Done;
                LineAction::Fail
            },
            (_, LineEvent::End) => {
                self.progress = LineProgress::Done;
                LineAction::Stop
            },
            (LineProgress::Waiting, LineEvent::Elapsed) => {
                self.progress = LineProgress::Done;
                LineAction::TimeOut(TimeoutPhase::FirstLine)
            },
            (LineProgress::Started, LineEvent::Elapsed) => {
                self.progress = LineProgress::Done;
                LineAction::TimeOut(TimeoutPhase::Idle)
            },
        }
    }
}

/// The actions that a run of events leads to.
pub open spec fn line_actions(progress: LineProgress, events: Seq<LineEvent>) -> Seq<LineAction>
    decreases events.len(),
{
    if events.len() == 0 {
        Seq::empty()
    } else {
        let (action, after) = line_step(progress, events[0]);
        seq![action] + line_actions(after, events.drop_first())
    }
}

/// A line that arrives is handed on as long as nothing went wrong before it, and
/// nothing is handed on afterwards.
pub proof fn lines_are_handed_on_until_the_end(events: Seq<LineEvent>, i: int)
    requires
        0 <= i < events.len(),
    ensures
        line_actions(LineProgress::Waiting, events).len() == events.len(),
        (line_actions(LineProgress::Waiting, events)[i] is Yield) == (forall|j: int|
            0 <= j <= i ==> #[trigger] events[j] is Line),
{
    lemma_handed_on(LineProgress::Waiting, events, i);
}

proof fn lemma_handed_on(progress: LineProgress, events: Seq<LineEvent>, i: int)
    requires
        0 <= i < events.len(),
    ensures
        line_actions(progress, events).len() == events.len(),
        progress is Done ==> line_actions(progress, events)[i] == LineAction::Stop,
        !(progress is Done) ==> (line_actions(progress, events)[i] is Yield) == (forall|j: int|
            0 <= j <= i ==> #[trigger] events[j] is Line),
    decreases events.len(),
{
    let (action, after) = line_step(progress, events[0]);
    let rest = events.drop_first();
    assert(line_actions(progress, events) == seq![action] + line_actions(after, rest));
    if rest.len() > 0 {
        let k = if i > 0 {
            i - 1
        } else {
            0
        };
        lemma_handed_on(after, rest, k);
        if i > 0 && !(progress is Done) {
            if forall|j: int| 0 <= j <= i ==> #[trigger] events[j] is Line {
                assert(events[0] is Line);
                assert forall|j: int| 0 <= j <= i - 1 implies #[trigger] rest[j] is Line by {
                    assert(rest[j] == events[j + 1]);
                }
            }
            if line_actions(progress, events)[i] is Yield {
                assert forall|j: int| 0 <= j <= i implies #[trigger] events[j] is Line by {
                    if j > 0 {
                        assert(rest[j - 1] == events[j]);
                    }
                }
            }
        }
    }
}

/// A stream that is given up on before its first line says so, and one that is
/// given up on later says that it went idle.
pub proof fn the_phase_tells_whether_a_line_arrived(events: Seq<LineEvent>, i: int)
    requires
        0 <= i < events.len(),
        line_actions(LineProgress::Waiting, events)[i] is TimeOut,
    ensures
        line_actions(LineProgress::Waiting, events)[i] == LineAction::TimeOut(
            if i == 0 {
                TimeoutPhase::FirstLine
            } else {
                TimeoutPhase::Idle
            },
        ),
        forall|j: int| 0 <= j < i ==> #[trigger] events[j] is Line,
{
    lemma_phase(LineProgress::Waiting, events, i);
}

proof fn lemma_phase(progress: LineProgress, events: Seq<LineEvent>, i: int)
    requires
        0 <= i < events.len(),
        line_actions(progress, events)[i] is TimeOut,
    ensures
        line_actions(progress, events)[i] == LineAction::TimeOut(
            if i == 0 && progress is Waiting {
                TimeoutPhase::FirstLine
            } else {
                TimeoutPhase::Idle
            },
        ),
        forall|j: int| 0 <= j < i ==> #[trigger] events[j] is Line,
        !(progress is Done),
    decreases events.len(),
{
    let (action, after) = line_step(progress, events[0]);
    let rest = events.drop_first();
    assert(line_actions(progress, events) == seq![action] + line_actions(after, rest));
    lemma_handed_on(progress, events, i);
    if i > 0 {
        lemma_handed_on(after, rest, i - 1);
        assert(line_actions(after, rest)[i - 1] is TimeOut);
        lemma_phase(after, rest, i - 1);
        assert forall|j: int| 0 <= j < i implies #[trigger] events[j] is Line by {
            if j > 0 {
                assert(rest[j - 1] == events[j]);
            }
        }
    }
}

/// A failure is handed on and an elapsed window is reported exactly if nothing
/// but lines came before; once a stream is over, nothing more is said.
pub proof fn what_ends_a_stream_is_told_once(events: Seq<LineEvent>, i: int)
    requires
        0 <= i < events.len(),
    ensures
        (line_actions(LineProgress::Waiting, events)[i] is Fail) == (events[i] is Failed
            && forall|j: int| 0 <= j < i ==> #[trigger] events[j] is Line),
        (line_actions(LineProgress::Waiting, events)[i] is TimeOut) == (events[i] is Elapsed
            && forall|j: int| 0 <= j < i ==> #[trigger] events[j] is Line),
        (line_actions(LineProgress::Waiting, events)[i] is Stop) == (events[i] is End
            || exists|j: int| 0 <= j < i && !(#[trigger] events[j] is Line)),
{
    lemma_ends(LineProgress::Waiting, events, i);
}

proof fn lemma_ends(progress: LineProgress, events: Seq<LineEvent>, i: int)
    requires
        0 <= i < events.len(),
        !(progress is Done),
    ensures
        (line_actions(progress, events)[i] is Fail) == (events[i] is Failed && forall|j: int|
            0 <= j < i ==> #[trigger] events[j] is Line),
        (line_actions(progress, events)[i] is TimeOut) == (events[i] is Elapsed && forall|j: int|
            0 <= j < i ==> #[trigger] events[j] is Line),
        (line_actions(progress, events)[i] is Stop) == (events[i] is End || exists|j: int|
            0 <= j < i && !(#[trigger] events[j] is Line)),
    decreases events.len(),
{
    let (action, after) = line_step(progress, events[0]);
    let rest = events.drop_first();
    assert(line_actions(progress, events) == seq![action] + line_actions(after, rest));
    if i > 0 {
        lemma_handed_on(after, rest, i - 1);
        assert(line_actions(progress, events)[i] == line_actions(after, rest)[i - 1]);
        if events[0] is Line {
            lemma_ends(after, rest, i - 1);
            assert(rest[i - 1] == events[i]);
            assert((forall|j: int| 0 <= j < i ==> #[trigger] events[j] is Line) == (forall|j: int|
                0 <= j < i - 1 ==> #[trigger] rest[j] is Line)) by {
                if forall|j: int| 0 <= j < i ==> #[trigger] events[j] is Line {
                    assert forall|j: int| 0 <= j < i - 1 implies #[trigger] rest[j] is Line by {
                        assert(rest[j] == events[j + 1]);
                    }
                }
                if forall|j: int| 0 <= j < i - 1 ==> #[trigger] rest[j] is Line {
                    assert forall|j: int| 0 <= j < i implies #[trigger] events[j] is Line by {
                        if j > 0 {
                            assert(rest[j - 1] == events[j]);
                        }
                    }
                }
            }
        } else {
            assert(!(events[0] is Line));
        }
    }
}

/// A window is what the environment says where it says a number that fits, and
/// what it is by default otherwise.
pub proof fn a_number_overrides_the_window(value: &str, n: nat, default: u64)
    ensures
        value@ == decimal(n) && n <= u64::MAX ==> secs_or(Some(value), default) == n,
        value@ == decimal(n) && n > u64::MAX ==> secs_or(Some(value), default) == default,
        (exists|i: int| 0 < i < value@.len() && !('0' <= #[trigger] value@[i] <= '9'))
            ==> secs_or(Some(value), default) == default,
        value@.len() == 0 ==> secs_or(Some(value), default) == default,
        secs_or(None, default) == default,
{
    a_number_is_read_back(n);
    if exists|i: int| 0 < i < value@.len() && !('0' <= #[trigger] value@[i] <= '9') {
        let i = choose|i: int| 0 < i < value@.len() && !('0' <= #[trigger] value@[i] <= '9');
        if parsed_u64(value@) is Some {
            only_digits_are_read(value@, i);
        }
    }
}

} // verus!
