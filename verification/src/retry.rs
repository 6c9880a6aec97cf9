//! When a failed request to a provider is sent again.

use vstd::prelude::*;
use vstd::string::*;

use crate::duration::Duration;
use crate::text::{contains, contains_lowered, lowered, occurs, occurs_in_a_part, same};

verus! {

pub const DEFAULT_MAX_RETRIES: usize = 3;

pub const DEFAULT_INITIAL_RETRY_INTERVAL_MS: u64 = 1000;

/// Two, as the bits of a double.
pub const DEFAULT_BACKOFF_MULTIPLIER_BITS: u64 = 0x4000_0000_0000_0000;

pub const DEFAULT_MAX_RETRY_INTERVAL_MS: u64 = 30_000;

/// Why a request to a provider failed.
#[derive(Debug, PartialEq, Eq)]
pub enum ProviderError {
    Authentication(String),
    /// The provider asks to be left alone, and may say for how long.
    RateLimitExceeded { details: String, retry_delay: Option<Duration> },
    ServerError(String),
    NetworkError(String),
    /// The provider rejected the request itself (4xx).
    RequestFailed(String),
    /// Anything else, none of which another attempt would change.
    Other(String),
}

#[derive(Debug, Clone, Copy, PartialEq, Eq)]
pub struct RetryConfig {
    /// Maximum number of retry attempts
    pub max_retries: usize,
    /// Initial interval between retries in milliseconds
    pub initial_interval_ms: u64,
    /// Multiplier for backoff (exponential), as the bits of a double
    pub backoff_multiplier_bits: u64,
    /// Maximum interval between retries in milliseconds
    pub max_interval_ms: u64,
    /// When true, only retry on transient errors (ServerError, NetworkError,
    /// RateLimitExceeded). RequestFailed (4xx client errors) will not be retried.
    pub transient_only: bool,
}

impl Default for RetryConfig {
    fn default() -> (r: Self)
        ensures
            r == (RetryConfig {
                max_retries: DEFAULT_MAX_RETRIES,
                initial_interval_ms: DEFAULT_INITIAL_RETRY_INTERVAL_MS,
                backoff_multiplier_bits: DEFAULT_BACKOFF_MULTIPLIER_BITS,
                max_interval_ms: DEFAULT_MAX_RETRY_INTERVAL_MS,
                transient_only: false,
            }),
    {
        RetryConfig {
            max_retries: DEFAULT_MAX_RETRIES,
            initial_interval_ms: DEFAULT_INITIAL_RETRY_INTERVAL_MS,
            backoff_multiplier_bits: DEFAULT_BACKOFF_MULTIPLIER_BITS,
            max_interval_ms: DEFAULT_MAX_RETRY_INTERVAL_MS,
            transient_only: false,
        }
    }
}

impl RetryConfig {
    pub fn new(
        max_retries: usize,
        initial_interval_ms: u64,
        backoff_multiplier_bits: u64,
        max_interval_ms: u64,
    ) -> (r: Self)
        ensures
            r == (RetryConfig {
                max_retries,
                initial_interval_ms,
                backoff_multiplier_bits,
                max_interval_ms,
                transient_only: false,
            }),
    {
        RetryConfig {
            max_retries,
            initial_interval_ms,
            backoff_multiplier_bits,
            max_interval_ms,
            transient_only: false,
        }
    }

    pub fn transient_only(self) -> (r: Self)
        ensures
            r == (RetryConfig { transient_only: true, ..self }),
    {
        RetryConfig { transient_only: true, ..self }
    }

    pub fn max_retries(&self) -> (r: usize)
        ensures
            r == self.max_retries,
    {
        self.max_retries
    }

    /// The power of the multiplier that the wait before an attempt grows by;
    /// before the first request there is no wait.
    pub fn backoff_exponent(&self, attempt: usize) -> (r: Option<i32>)
        ensures
            attempt == 0 ==> r is None,
            0 < attempt <= i32::MAX ==> r is Some && r->0 == attempt - 1,
            attempt > 0 ==> r == Some(((attempt - 1) as u32) as i32),
    {
        if attempt == 0 {
            None
        } else {
            Some(((attempt - 1) as u32) as i32)
        }
    }

    /// A wait, cut to the longest that there is.
    pub fn capped_delay_ms(&self, delay_ms: u64) -> (r: u64)
        ensures
            r == if delay_ms < self.max_interval_ms {
                delay_ms
            } else {
                self.max_interval_ms
            },
            r <= delay_ms,
            r <= self.max_interval_ms,
            r == delay_ms || r == self.max_interval_ms,
    {
        if delay_ms < self.max_interval_ms {
            delay_ms
        } else {
            self.max_interval_ms
        }
    }
}

/// Substrings marking a `RequestFailed` (4xx) as deterministically permanent:
/// the request is rejected because of what it contains, and the identical
/// payload is rebuilt on every retry — so retrying can never succeed.
///
/// Anthropic rejects signed `thinking`/`redacted_thinking` blocks as immutable
/// once a thinking model's config changes mid-conversation. DeepSeek-family
/// OpenAI-compatible providers reject a replayed assistant tool-call message
/// that omits `reasoning_content`. The remaining entries are request-shape
/// rejections (context size, token budget) that no retry can change.
///
/// This is deliberately a *known-permanent* list rather than a
/// *known-transient* one. Some gateways collapse their own routing failures
/// into an opaque 400 body (e.g. "Upstream provider returned an error."); the
/// same payload often succeeds on a later attempt, so an unrecognised 400 must
/// stay retryable. Classifying by known-permanent bodies is what keeps both
/// properties.
pub open spec fn permanent_markers() -> Seq<Seq<char>> {
    seq![
        "blocks in the latest assistant message cannot be modified"@,
        "must remain as they were in the original response"@,
        "Reasoning is mandatory for this endpoint"@,
        "thinking mode must be passed back"@,
        "cannot be greater than max_model_len"@,
        "exceeds the available context size"@,
    ]
}

/// Whether a message says that the model does not exist, in whatever case. To fold
/// A to Z is enough: no other character becomes part of either phrase in lower
/// case.
pub open spec fn model_not_found(message: Seq<char>) -> bool {
    occurs(lowered(message), "model"@) && occurs(lowered(message), "does not exist"@)
}

/// Whether a message says that the signature of a thinking block is not valid.
pub open spec fn thinking_signature_error(message: Seq<char>) -> bool {
    occurs(message, "Invalid `signature` in `thinking` block"@)
}

/// Whether a rejection is one that no retry can change.
pub open spec fn permanent_failure(message: Seq<char>) -> bool {
    ||| exists|i: int|
        0 <= i < permanent_markers().len() && occurs(message, #[trigger] permanent_markers()[i])
    ||| model_not_found(message)
    ||| thinking_signature_error(message)
}

fn has_permanent_marker(message: &str) -> (r: bool)
    ensures
        r == exists|i: int|
            0 <= i < permanent_markers().len() && occurs(
                message@,
                #[trigger] permanent_markers()[i],
            ),
{
    let r: bool = contains(message, "blocks in the latest assistant message cannot be modified")
        || contains(message, "must remain as they were in the original response") || contains(
        message,
        "Reasoning is mandatory for this endpoint",
    ) || contains(message, "thinking mode must be passed back") || contains(
        message,
        "cannot be greater than max_model_len",
    ) || contains(message, "exceeds the available context size");
    proof {
        let m = permanent_markers();
        if r {
            assert(occurs(message@, m[0]) || occurs(message@, m[1]) || occurs(message@, m[2])
                || occurs(message@, m[3]) || occurs(message@, m[4]) || occurs(message@, m[5]));
        }
    }
    r
}

/// Whether a rejection is one that no retry can change.
pub fn is_permanent_request_failure(message: &str) -> (r: bool)
    ensures
        r == permanent_failure(message@),
{
    has_permanent_marker(message) || is_model_not_found(message) || is_thinking_signature_error(
        message,
    )
}

/// `The model 'x' does not exist.` — a bad model name cannot start existing on
/// retry. Both halves are required so an unrelated "does not exist" in some
/// other error body stays retryable.
pub fn is_model_not_found(message: &str) -> (r: bool)
    ensures
        r == model_not_found(message@),
{
    contains_lowered(message, "model") && contains_lowered(message, "does not exist")
}

/// Whether a message says that the signature of a thinking block is not valid.
pub fn is_thinking_signature_error(message: &str) -> (r: bool)
    ensures
        r == thinking_signature_error(message@),
{
    contains(message, "Invalid `signature` in `thinking` block")
}

/// Whether another attempt may succeed where one failed with `error`.
pub open spec fn retryable(error: ProviderError, config: RetryConfig) -> bool {
    match error {
        ProviderError::RateLimitExceeded { .. } => true,
        ProviderError::ServerError(_) => true,
        ProviderError::NetworkError(_) => true,
        ProviderError::RequestFailed(message) => !permanent_failure(message@)
            && !config.transient_only,
        ProviderError::Authentication(_) => false,
        ProviderError::Other(_) => false,
    }
}

pub fn should_retry(error: &ProviderError, config: &RetryConfig) -> (r: bool)
    ensures
        r == retryable(*error, *config),
{
    match error {
        ProviderError::RateLimitExceeded { .. } => true,
        ProviderError::ServerError(_) => true,
        ProviderError::NetworkError(_) => true,
        ProviderError::RequestFailed(message) => !is_permanent_request_failure(message.as_str())
            && !config.transient_only,
        ProviderError::Authentication(_) => false,
        ProviderError::Other(_) => false,
    }
}

/// How long a provider asked to be left alone.
pub open spec fn provider_delay(error: ProviderError) -> Option<Duration> {
    match error {
        ProviderError::RateLimitExceeded { retry_delay, .. } => retry_delay,
        _ => None,
    }
}

/// What to do about a request that failed.
#[derive(Debug, Clone, Copy, PartialEq, Eq)]
pub enum RetryStep {
    /// Refresh the credentials and, if that succeeds, send the request again; if
    /// not, ask once more what to do.
    RefreshCredentials,
    /// Wait and send the request again. The wait is what the provider asked for,
    /// or else what the configuration says for this attempt.
    Retry { attempt: usize, provider_delay: Option<Duration> },
    /// Report the error.
    GiveUp,
}

/// How often a request was sent again.
#[derive(Debug, Clone, Copy, PartialEq, Eq)]
pub struct RetryState {
    pub attempts: usize,
    /// Whether the credentials may no longer be refreshed.
    pub auth_retried: bool,
}

/// What to do about a request that failed, and the state afterwards. The
/// credentials are refreshed at most once, whatever the number of retries.
pub open spec fn next_step(state: RetryState, error: ProviderError, config: RetryConfig) -> (
    RetryStep,
    RetryState,
) {
    if error is Authentication && !state.auth_retried {
        (RetryStep::RefreshCredentials, RetryState { auth_retried: true, ..state })
    } else if retryable(error, config) && state.attempts < config.max_retries {
        let attempt = (state.attempts + 1) as usize;
        (
            RetryStep::Retry { attempt, provider_delay: provider_delay(error) },
            RetryState { attempts: attempt, ..state },
        )
    } else {
        (RetryStep::GiveUp, state)
    }
}

impl RetryState {
    /// Nothing was sent again yet, and the credentials may be refreshed.
    pub fn new() -> (r: Self)
        ensures
            r == (RetryState { attempts: 0, auth_retried: false }),
    {
        RetryState { attempts: 0, auth_retried: false }
    }

    /// Nothing was sent again yet, and there are no credentials to refresh.
    pub fn without_refresh() -> (r: Self)
        ensures
            r == (RetryState { attempts: 0, auth_retried: true }),
    {
        RetryState { attempts: 0, auth_retried: true }
    }

    /// What to do about a request that failed with `error`.
    pub fn on_error(&mut self, error: &ProviderError, config: &RetryConfig) -> (r: RetryStep)
        ensures
            (r, *final(self)) == next_step(*old(self), *error, *config),
    {
        match error {
            ProviderError::Authentication(_) => {
                if !self.auth_retried {
                    self.auth_retried = true;
                    return RetryStep::RefreshCredentials;
                }
            },
            _ => {},
        }
        if should_retry(error, config) && self.attempts < config.max_retries {
            self.attempts = self.attempts + 1;
            let provider_delay: Option<Duration> = match error {
                ProviderError::RateLimitExceeded { retry_delay, .. } => *retry_delay,
                _ => None,
            };
            RetryStep::Retry { attempt: self.attempts, provider_delay }
        } else {
            RetryStep::GiveUp
        }
    }
}

/// Whether the waits are skipped, as `GOOSE_PROVIDER_SKIP_BACKOFF` says.
pub fn skips_backoff(value: Option<&str>) -> (r: bool)
    ensures
        r == (value is Some && value->0@ == "true"@),
{
    match value {
        Some(value) => same(value, "true"),
        None => false,
    }
}

/// The steps that a run of errors leads to, up to the one that gives up.
pub open spec fn steps(
    state: RetryState,
    errors: Seq<ProviderError>,
    config: RetryConfig,
) -> Seq<RetryStep>
    decreases errors.len(),
{
    if errors.len() == 0 {
        Seq::empty()
    } else {
        let (step, after) = next_step(state, errors[0], config);
        if step is GiveUp {
            seq![step]
        } else {
            seq![step] + steps(after, errors.drop_first(), config)
        }
    }
}

/// How many of the steps send the request again after a wait.
pub open spec fn retries(steps: Seq<RetryStep>) -> nat
    decreases steps.len(),
{
    if steps.len() == 0 {
        0
    } else {
        (if steps[0] is Retry {
            1nat
        } else {
            0nat
        }) + retries(steps.drop_first())
    }
}

/// How many of the steps refresh the credentials.
pub open spec fn refreshes(steps: Seq<RetryStep>) -> nat
    decreases steps.len(),
{
    if steps.len() == 0 {
        0
    } else {
        (if steps[0] is RefreshCredentials {
            1nat
        } else {
            0nat
        }) + refreshes(steps.drop_first())
    }
}

/// Whatever goes wrong, a request is sent again no more often than the
/// configuration allows, and the credentials are refreshed at most once.
pub proof fn retries_are_bounded(
    state: RetryState,
    errors: Seq<ProviderError>,
    config: RetryConfig,
)
    requires
        state.attempts <= config.max_retries,
    ensures
        state.attempts + retries(steps(state, errors, config)) <= config.max_retries,
        refreshes(steps(state, errors, config)) <= if state.auth_retried {
            0int
        } else {
            1int
        },
        steps(state, errors, config).len() <= config.max_retries - state.attempts + 1 + (
        if state.auth_retried {
            0int
        } else {
            1int
        }),
    decreases errors.len(),
{
    if errors.len() > 0 {
        let (step, after) = next_step(state, errors[0], config);
        let all = steps(state, errors, config);
        assert(all[0] == step);
        if step is GiveUp {
            assert(all.drop_first() =~= Seq::empty());
            assert(retries(all.drop_first()) == 0);
            assert(refreshes(all.drop_first()) == 0);
        } else {
            let rest = steps(after, errors.drop_first(), config);
            retries_are_bounded(after, errors.drop_first(), config);
            assert(all.drop_first() =~= rest);
        }
    }
}

/// Where the credentials are not what is wrong, it makes no difference whether
/// they may be refreshed.
pub proof fn refreshing_matters_to_authentication_alone(
    attempts: usize,
    errors: Seq<ProviderError>,
    config: RetryConfig,
)
    requires
        forall|i: int| 0 <= i < errors.len() ==> !(#[trigger] errors[i] is Authentication),
    ensures
        steps(RetryState { attempts, auth_retried: false }, errors, config) == steps(
            RetryState { attempts, auth_retried: true },
            errors,
            config,
        ),
    decreases errors.len(),
{
    if errors.len() > 0 {
        let may = RetryState { attempts, auth_retried: false };
        let may_not = RetryState { attempts, auth_retried: true };
        assert(!(errors[0] is Authentication));
        let (step, after) = next_step(may, errors[0], config);
        assert(next_step(may_not, errors[0], config) == (
            step,
            RetryState { auth_retried: true, ..after },
        ));
        let rest = errors.drop_first();
        assert forall|i: int| 0 <= i < rest.len() implies !(
        #[trigger] rest[i] is Authentication) by {
            assert(rest[i] == errors[i + 1]);
        }
        refreshing_matters_to_authentication_alone(after.attempts, rest, config);
    }
}

/// A rejection that no retry can change is reported at once, whatever the
/// configuration.
pub proof fn permanent_failures_are_not_retried(
    state: RetryState,
    message: String,
    config: RetryConfig,
)
    requires
        permanent_failure(message@),
    ensures
        next_step(state, ProviderError::RequestFailed(message), config) == (
            RetryStep::GiveUp,
            state,
        ),
{
}

/// Where only transient errors are retried, no rejected request is.
pub proof fn transient_only_skips_rejections(
    state: RetryState,
    message: String,
    config: RetryConfig,
)
    requires
        config.transient_only,
    ensures
        next_step(state, ProviderError::RequestFailed(message), config).0 is GiveUp,
{
}

/// The wait is the one that the provider asked for, and without one it is left to
/// the configuration. How often the request was sent before makes no difference.
pub proof fn the_provider_is_left_alone_as_long_as_it_asks(
    state: RetryState,
    error: ProviderError,
    config: RetryConfig,
)
    requires
        next_step(state, error, config).0 is Retry,
    ensures
        match error {
            ProviderError::RateLimitExceeded { retry_delay, .. } => next_step(
                state,
                error,
                config,
            ).0->provider_delay == retry_delay,
            _ => next_step(state, error, config).0->provider_delay is None,
        },
{
}

/// A request is sent again exactly while there are attempts left and the error
/// may pass: the provider is busy, fails or cannot be reached, or has rejected the
/// request for no reason that lasts where rejections are retried at all. The
/// attempts are counted one by one.
pub proof fn when_a_request_is_sent_again(
    state: RetryState,
    error: ProviderError,
    config: RetryConfig,
)
    ensures
        (next_step(state, error, config).0 is Retry) == (state.attempts < config.max_retries
            && match error {
            ProviderError::RateLimitExceeded { .. } => true,
            ProviderError::ServerError(_) => true,
            ProviderError::NetworkError(_) => true,
            ProviderError::RequestFailed(message) => !config.transient_only && !permanent_failure(
                message@,
            ),
            _ => false,
        }),
        next_step(state, error, config).0 is Retry ==> next_step(state, error, config).0->attempt
            == state.attempts + 1 && next_step(state, error, config).1.attempts == state.attempts
            + 1 && next_step(state, error, config).1.auth_retried == state.auth_retried,
        next_step(state, error, config).0 is GiveUp ==> next_step(state, error, config).1 == state,
{
}

/// The credentials are refreshed exactly where they are refused for the first
/// time. That takes no attempt; where they are refused once more, it is reported.
pub proof fn when_the_credentials_are_refreshed(
    state: RetryState,
    error: ProviderError,
    config: RetryConfig,
)
    ensures
        (next_step(state, error, config).0 is RefreshCredentials) == (error is Authentication
            && !state.auth_retried),
        next_step(state, error, config).0 is RefreshCredentials ==> next_step(
            state,
            error,
            config,
        ).1.attempts == state.attempts && next_step(state, error, config).1.auth_retried,
        error is Authentication && state.auth_retried ==> next_step(state, error, config).0
            is GiveUp,
{
}

/// A rejection lasts exactly if it says one of these things somewhere.
pub proof fn what_marks_a_lasting_rejection(message: Seq<char>)
    ensures
        permanent_failure(message) == ({
            ||| occurs(message, "blocks in the latest assistant message cannot be modified"@)
            ||| occurs(message, "must remain as they were in the original response"@)
            ||| occurs(message, "Reasoning is mandatory for this endpoint"@)
            ||| occurs(message, "thinking mode must be passed back"@)
            ||| occurs(message, "cannot be greater than max_model_len"@)
            ||| occurs(message, "exceeds the available context size"@)
            ||| occurs(message, "Invalid `signature` in `thinking` block"@)
            ||| occurs(lowered(message), "model"@) && occurs(lowered(message), "does not exist"@)
        }),
{
    let m = permanent_markers();
    assert(m.len() == 6);
    assert(m[0] == "blocks in the latest assistant message cannot be modified"@);
    assert(m[1] == "must remain as they were in the original response"@);
    assert(m[2] == "Reasoning is mandatory for this endpoint"@);
    assert(m[3] == "thinking mode must be passed back"@);
    assert(m[4] == "cannot be greater than max_model_len"@);
    assert(m[5] == "exceeds the available context size"@);
    assert forall|i: int| 0 <= i < m.len() && occurs(message, #[trigger] m[i]) implies occurs(
        message,
        m[0],
    ) || occurs(message, m[1]) || occurs(message, m[2]) || occurs(message, m[3]) || occurs(
        message,
        m[4],
    ) || occurs(message, m[5]) by {
        assert(i == 0 || i == 1 || i == 2 || i == 3 || i == 4 || i == 5);
    }
}

/// What a provider says around it makes no rejection pass.
pub proof fn a_lasting_rejection_stays_one(
    before: Seq<char>,
    message: Seq<char>,
    after: Seq<char>,
)
    requires
        permanent_failure(message),
    ensures
        permanent_failure(before + message + after),
{
    let whole = before + message + after;
    if model_not_found(message) {
        occurs_in_a_part(lowered(before), lowered(message), lowered(after), "model"@);
        occurs_in_a_part(lowered(before), lowered(message), lowered(after), "does not exist"@);
        assert(lowered(whole) =~= lowered(before) + lowered(message) + lowered(after));
    } else if thinking_signature_error(message) {
        occurs_in_a_part(before, message, after, "Invalid `signature` in `thinking` block"@);
    } else {
        let i = choose|i: int|
            0 <= i < permanent_markers().len() && occurs(
                message,
                #[trigger] permanent_markers()[i],
            );
        occurs_in_a_part(before, message, after, permanent_markers()[i]);
    }
}

} // verus!
