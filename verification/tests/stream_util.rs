use goose::duration::Duration;
use goose::stream_util::{
    chunk_timeout, env_secs, first_line_timeout, LineAction, LineEvent, LineTimeout,
    StreamTimeouts, TimeoutPhase, DEFAULT_CHUNK_TIMEOUT_SECS, DEFAULT_FIRST_LINE_TIMEOUT_SECS,
};

/// One item of a stream: how long it takes to arrive, and what it is.
type Item = (Duration, Result<&'static str, &'static str>);

/// What a reader of the stream sees.
#[derive(Debug, PartialEq)]
enum Seen {
    Line(&'static str),
    Failure(&'static str),
    TimedOut(TimeoutPhase),
}

fn now(line: &'static str) -> Item {
    (Duration::from_millis(0), Ok(line))
}

fn after(delay: Duration, line: &'static str) -> Item {
    (delay, Ok(line))
}

/// Runs a stream whose items arrive as scripted through the two windows.
fn with_line_timeout(
    stream: Vec<Item>,
    idle: Duration,
    first_line_budget: Option<Duration>,
) -> Vec<Seen> {
    let mut watch = LineTimeout::new(idle, first_line_budget);
    let mut items = stream.into_iter();
    let mut seen = Vec::new();
    loop {
        let next = items.next();
        let event = match (&next, watch.window()) {
            (Some((delay, _)), Some(window)) if *delay > window => LineEvent::Elapsed,
            (Some((_, Ok(_))), _) => LineEvent::Line,
            (Some((_, Err(_))), _) => LineEvent::Failed,
            (None, _) => LineEvent::End,
        };
        match (watch.on_event(event), next) {
            (LineAction::Yield, Some((_, Ok(line)))) => seen.push(Seen::Line(line)),
            (LineAction::Fail, Some((_, Err(error)))) => {
                seen.push(Seen::Failure(error));
                return seen;
            }
            (LineAction::TimeOut(phase), _) => {
                seen.push(Seen::TimedOut(phase));
                return seen;
            }
            (LineAction::Stop, _) => return seen,
            other => panic!("{other:?}"),
        }
    }
}

fn spaced(count: usize, gap: Duration) -> Vec<Item> {
    (0..count).map(|_| after(gap, "data: chunk")).collect()
}

#[test]
fn yields_lines_that_arrive_within_the_window() {
    let src = vec![now("data: a"), now("data: b"), now("[DONE]")];
    let out = with_line_timeout(src, Duration::from_secs(60), None);
    assert_eq!(
        out,
        vec![
            Seen::Line("data: a"),
            Seen::Line("data: b"),
            Seen::Line("[DONE]")
        ]
    );
}

#[test]
fn steady_lines_do_not_trip_the_idle_timeout() {
    // Lines arrive every 20ms for a total well beyond the 50ms window: this is
    // the slow-tool-call case, of which nothing is assembled for a long time.
    let src = spaced(10, Duration::from_millis(20));
    let out = with_line_timeout(src, Duration::from_millis(50), None);
    assert_eq!(out.len(), 10);
    assert!(out.into_iter().all(|seen| matches!(seen, Seen::Line(_))));
}

#[test]
fn silence_longer_than_the_window_yields_the_timeout_error() {
    let src = vec![
        now("data: first"),
        after(Duration::from_secs(3600), "never"),
    ];
    let out = with_line_timeout(src, Duration::from_millis(50), None);
    assert_eq!(out[0], Seen::Line("data: first"));
    assert!(matches!(out[1], Seen::TimedOut(_)));
    assert_eq!(out.len(), 2);
}

#[test]
fn exempt_first_line_defers_the_timeout() {
    // First line after 60ms (> 50ms window) still succeeds when exempt.
    let src = spaced(1, Duration::from_millis(60));
    let out = with_line_timeout(src, Duration::from_millis(50), None);
    assert_eq!(out.len(), 1);
    assert!(matches!(out[0], Seen::Line(_)));
}

#[test]
fn slow_first_line_is_allowed_by_its_own_budget() {
    // A 60ms first line blows the 20ms inter-chunk window but is within the
    // 5s first-line budget — the slow-prefill case.
    let src = spaced(1, Duration::from_millis(60));
    let out = with_line_timeout(
        src,
        Duration::from_millis(20),
        Some(Duration::from_secs(5)),
    );
    assert_eq!(out.len(), 1, "first line should not be reported as stalled");
    assert!(matches!(out[0], Seen::Line(_)));
}

#[test]
fn first_line_past_its_budget_reports_the_first_line_phase() {
    // One hour of silence: the first-line budget expires before any line, so
    // the reported phase must be FirstLine (not Idle), letting callers name
    // slow prefill instead of blaming the network.
    let src = spaced(1, Duration::from_secs(3600));
    let out = with_line_timeout(
        src,
        Duration::from_secs(3600),
        Some(Duration::from_millis(50)),
    );
    assert_eq!(out, vec![Seen::TimedOut(TimeoutPhase::FirstLine)]);
}

#[test]
fn idle_gap_after_output_reports_the_idle_phase() {
    let src = vec![
        now("data: first"),
        after(Duration::from_secs(3600), "never"),
    ];
    let out = with_line_timeout(
        src,
        Duration::from_millis(50),
        Some(Duration::from_millis(50)),
    );
    assert_eq!(out[0], Seen::Line("data: first"));
    assert_eq!(out[1..], [Seen::TimedOut(TimeoutPhase::Idle)]);
}

#[test]
fn default_timeouts_bound_the_first_line() {
    // Whatever the environment says, the windows are those of the accessors.
    for chunk in [None, Some("40"), Some("junk")] {
        for first_line in [None, Some("7"), Some("")] {
            let timeouts = StreamTimeouts::overridden(chunk, first_line);
            assert_eq!(timeouts.chunk, chunk_timeout(chunk));
            assert_eq!(timeouts.first_line, Some(first_line_timeout(first_line)));
        }
    }

    assert_eq!(DEFAULT_CHUNK_TIMEOUT_SECS, 15);
    assert_eq!(DEFAULT_FIRST_LINE_TIMEOUT_SECS, 120);
    // The first line gets its own, more generous budget: it covers prefill,
    // not a network gap.
    assert!(first_line_timeout(None) > chunk_timeout(None));
}

#[test]
fn the_environment_overrides_the_windows() {
    assert_eq!(chunk_timeout(Some("40")), Duration::from_secs(40));
    assert_eq!(first_line_timeout(Some("0")), Duration::from_secs(0));
    let timeouts = StreamTimeouts::overridden(Some("7"), Some("junk"));
    assert_eq!(timeouts.chunk, Duration::from_secs(7));
    assert_eq!(timeouts.first_line, Some(Duration::from_secs(120)));
}

#[test]
fn seconds_are_read_as_numbers_are() {
    for value in [
        "0", "15", "+15", "007", "18446744073709551615", "18446744073709551616", "-1", "", "+",
        " 5", "5 ", "5s", "++5", "١", "99999999999999999999999",
    ] {
        assert_eq!(
            env_secs(Some(value), 99),
            value.parse::<u64>().unwrap_or(99),
            "{value}"
        );
    }
    assert_eq!(env_secs(None, 99), 99);
}

#[test]
fn a_failure_is_handed_on_and_ends_the_stream() {
    let src = vec![
        now("data: first"),
        (Duration::from_millis(0), Err("reset")),
        now("data: late"),
    ];
    assert_eq!(
        with_line_timeout(src, Duration::from_secs(1), None),
        vec![Seen::Line("data: first"), Seen::Failure("reset")]
    );

    let mut watch = LineTimeout::new(Duration::from_secs(1), None);
    assert_eq!(watch.on_event(LineEvent::Failed), LineAction::Fail);
    assert_eq!(watch.on_event(LineEvent::Line), LineAction::Stop);
}

#[test]
fn the_window_changes_with_the_first_line() {
    let idle = Duration::from_secs(15);
    let budget = Duration::from_secs(120);
    let mut watch = LineTimeout::new(idle, Some(budget));
    assert_eq!(watch.window(), Some(budget));
    watch.on_event(LineEvent::Line);
    assert_eq!(watch.window(), Some(idle));
    assert_eq!(LineTimeout::new(idle, None).window(), None);
}
