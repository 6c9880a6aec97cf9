use goose::duration::Duration;
use goose::retry::{
    is_model_not_found, is_permanent_request_failure, is_thinking_signature_error, should_retry,
    skips_backoff, ProviderError, RetryConfig, RetryState, RetryStep,
    DEFAULT_BACKOFF_MULTIPLIER_BITS, DEFAULT_INITIAL_RETRY_INTERVAL_MS, DEFAULT_MAX_RETRIES,
    DEFAULT_MAX_RETRY_INTERVAL_MS,
};

#[test]
fn default_config_retries_request_failed() {
    let config = RetryConfig::default();
    let error = ProviderError::RequestFailed("Bad request (400): model not found".into());
    assert!(should_retry(&error, &config));
}

#[test]
fn never_retries_permanent_thinking_block_400() {
    let config = RetryConfig::default();
    let error = ProviderError::RequestFailed(
        "Bad request (400): {\"message\":\"messages.3.content.1: `thinking` or \
         `redacted_thinking` blocks in the latest assistant message cannot be \
         modified. These blocks must remain as they were in the original \
         response.\"}"
            .into(),
    );
    assert!(!should_retry(&error, &config));
}

#[test]
fn permanent_request_failure_marker_detection() {
    assert!(is_permanent_request_failure(
        "messages.3.content.1: `thinking` blocks in the latest assistant message \
         cannot be modified"
    ));
    assert!(is_permanent_request_failure(
        "These blocks must remain as they were in the original response."
    ));
    assert!(is_permanent_request_failure(
        "messages.1.content.0: Invalid `signature` in `thinking` block."
    ));
    assert!(!is_permanent_request_failure(
        "Bad request (400): model not found"
    ));
}

#[test]
fn never_retries_missing_reasoning_content_400() {
    let config = RetryConfig::default();
    let error = ProviderError::RequestFailed(
        "Bad request (400): {\"error\":{\"message\":\"The `reasoning_content` in \
         the thinking mode must be passed back to the API.\",\"type\":\
         \"invalid_request_error\"}}"
            .into(),
    );
    assert!(!should_retry(&error, &config));
}

#[test]
fn never_retries_context_size_400() {
    let config = RetryConfig::default();
    let error = ProviderError::RequestFailed(
        "Bad request (400): request (16945 tokens) exceeds the available context \
         size (8192 tokens), try increasing it"
            .into(),
    );
    assert!(!should_retry(&error, &config));
}

#[test]
fn never_retries_max_completion_tokens_400() {
    let config = RetryConfig::default();
    let error = ProviderError::RequestFailed(
        "Bad request (400): max_completion_tokens=384000 cannot be greater than \
         max_model_len=max_total_tokens=32768"
            .into(),
    );
    assert!(!should_retry(&error, &config));
}

#[test]
fn never_retries_unknown_model_400() {
    let config = RetryConfig::default();
    let error = ProviderError::RequestFailed(
        "Bad request (400): The model 'deepseek-v4.1-pro' does not exist.".into(),
    );
    assert!(!should_retry(&error, &config));
}

/// The counterpart to the known-permanent markers: a gateway that collapses
/// its own routing failures into an opaque 400 body must stay retryable,
/// because the identical payload succeeds on a later attempt.
#[test]
fn retries_opaque_upstream_400() {
    let config = RetryConfig::default();
    let error = ProviderError::RequestFailed(
        "Bad request (400): Upstream provider returned an error.".into(),
    );
    assert!(should_retry(&error, &config));
}

#[test]
fn model_not_found_needs_both_halves() {
    assert!(is_model_not_found("The model 'x' does not exist."));
    assert!(!is_model_not_found("does not exist"));
    assert!(!is_model_not_found("Bad request (400): model not found"));
}

#[test]
fn transient_only_skips_request_failed() {
    let config = RetryConfig::default().transient_only();
    let error = ProviderError::RequestFailed("Bad request (400): model not found".into());
    assert!(!should_retry(&error, &config));
}

#[test]
fn transient_only_still_retries_server_error() {
    let config = RetryConfig::default().transient_only();
    assert!(should_retry(
        &ProviderError::ServerError("500 internal".into()),
        &config
    ));
}

#[test]
fn transient_only_still_retries_network_error() {
    let config = RetryConfig::default().transient_only();
    assert!(should_retry(
        &ProviderError::NetworkError("connection refused".into()),
        &config
    ));
}

#[test]
fn transient_only_still_retries_rate_limit() {
    let config = RetryConfig::default().transient_only();
    assert!(should_retry(
        &ProviderError::RateLimitExceeded {
            details: "too many requests".into(),
            retry_delay: None,
        },
        &config
    ));
}

#[test]
fn never_retries_auth_errors() {
    let config = RetryConfig::default();
    assert!(!should_retry(
        &ProviderError::Authentication("invalid key".into()),
        &config
    ));
}

#[test]
fn every_permanent_marker_counts_and_near_misses_do_not() {
    for marker in [
        "blocks in the latest assistant message cannot be modified",
        "must remain as they were in the original response",
        "Reasoning is mandatory for this endpoint",
        "thinking mode must be passed back",
        "cannot be greater than max_model_len",
        "exceeds the available context size",
    ] {
        assert!(is_permanent_request_failure(marker));
        assert!(is_permanent_request_failure(&format!("a {marker} b")));
        assert!(!is_permanent_request_failure(&marker[1..]));
        assert!(!is_permanent_request_failure(&marker.to_uppercase()));
    }
    assert!(is_permanent_request_failure("MODEL x DOES NOT EXIST"));
    assert!(is_thinking_signature_error(
        "Invalid `signature` in `thinking` block"
    ));
    assert!(!is_thinking_signature_error(
        "invalid `signature` in `thinking` block"
    ));
    assert!(!is_permanent_request_failure(""));
}

#[test]
fn a_missing_model_is_recognised_in_any_case_as_full_lower_casing_would() {
    let reference = |message: &str| {
        let lower = message.to_lowercase();
        lower.contains("model") && lower.contains("does not exist")
    };
    // Only these two characters outside ASCII have ASCII in their lower case.
    let odd: Vec<char> = ('\u{80}'..=char::MAX)
        .filter(|c| c.to_lowercase().any(|lower| lower.is_ascii()))
        .collect();
    assert_eq!(odd, vec!['\u{130}', '\u{212A}']);

    let template: Vec<char> = "The Model does not exist".chars().collect();
    for at in 0..template.len() {
        for c in ['\u{130}', '\u{212A}', 'é', 'X', 'M', '\u{307}'] {
            let mut changed = template.clone();
            changed[at] = c;
            let message: String = changed.into_iter().collect();
            assert_eq!(is_model_not_found(&message), reference(&message), "{message}");
        }
    }
}

#[test]
fn the_default_configuration_is_the_documented_one() {
    let config = RetryConfig::default();
    assert_eq!(config.max_retries(), 3);
    assert_eq!(config.initial_interval_ms, 1000);
    assert_eq!(f64::from_bits(config.backoff_multiplier_bits), 2.0);
    assert_eq!(config.max_interval_ms, 30_000);
    assert!(!config.transient_only);
    assert_eq!(
        config,
        RetryConfig::new(
            DEFAULT_MAX_RETRIES,
            DEFAULT_INITIAL_RETRY_INTERVAL_MS,
            DEFAULT_BACKOFF_MULTIPLIER_BITS,
            DEFAULT_MAX_RETRY_INTERVAL_MS,
        )
    );
}

#[test]
fn the_wait_grows_with_the_attempts_up_to_the_cap() {
    let config = RetryConfig::default();
    assert_eq!(config.backoff_exponent(0), None);
    assert_eq!(config.backoff_exponent(1), Some(0));
    assert_eq!(config.backoff_exponent(4), Some(3));
    assert_eq!(config.capped_delay_ms(8_000), 8_000);
    assert_eq!(config.capped_delay_ms(30_000), 30_000);
    assert_eq!(config.capped_delay_ms(u64::MAX), 30_000);
}

#[test]
fn a_request_is_retried_until_the_attempts_run_out() {
    let config = RetryConfig::new(2, 10, DEFAULT_BACKOFF_MULTIPLIER_BITS, 100);
    let error = ProviderError::ServerError("500".into());
    let mut state = RetryState::new();

    for attempt in [1, 2] {
        assert_eq!(
            state.on_error(&error, &config),
            RetryStep::Retry {
                attempt,
                provider_delay: None
            }
        );
    }
    assert_eq!(state.on_error(&error, &config), RetryStep::GiveUp);
    assert_eq!(state.on_error(&error, &config), RetryStep::GiveUp);
}

#[test]
fn credentials_are_refreshed_once_and_beside_the_retries() {
    let config = RetryConfig::new(1, 10, DEFAULT_BACKOFF_MULTIPLIER_BITS, 100);
    let denied = ProviderError::Authentication("expired".into());
    let broken = ProviderError::NetworkError("reset".into());
    let mut state = RetryState::new();

    assert!(matches!(
        state.on_error(&broken, &config),
        RetryStep::Retry { attempt: 1, .. }
    ));
    assert_eq!(
        state.on_error(&denied, &config),
        RetryStep::RefreshCredentials
    );
    assert_eq!(state.on_error(&denied, &config), RetryStep::GiveUp);
    assert_eq!(
        RetryState::without_refresh().on_error(&denied, &config),
        RetryStep::GiveUp
    );
}

#[test]
fn refreshing_makes_no_difference_to_other_errors() {
    let config = RetryConfig::new(2, 10, DEFAULT_BACKOFF_MULTIPLIER_BITS, 100);
    let (mut may, mut may_not) = (RetryState::new(), RetryState::without_refresh());
    for error in [
        ProviderError::NetworkError("reset".into()),
        ProviderError::RequestFailed("opaque".into()),
        ProviderError::ServerError("500".into()),
    ] {
        assert_eq!(
            may.on_error(&error, &config),
            may_not.on_error(&error, &config)
        );
    }
}

#[test]
fn a_provider_that_says_how_long_to_wait_is_heard() {
    let delay = Duration::from_secs(7);
    let limited = ProviderError::RateLimitExceeded {
        details: "slow down".into(),
        retry_delay: Some(delay),
    };
    assert_eq!(
        RetryState::new().on_error(&limited, &RetryConfig::default()),
        RetryStep::Retry {
            attempt: 1,
            provider_delay: Some(delay)
        }
    );
}

#[test]
fn what_is_permanent_or_unknown_is_reported_at_once() {
    let config = RetryConfig::default();
    for error in [
        ProviderError::RequestFailed("exceeds the available context size".into()),
        ProviderError::Other("odd".into()),
    ] {
        assert_eq!(RetryState::new().on_error(&error, &config), RetryStep::GiveUp);
    }
    assert_eq!(
        RetryState::new().on_error(
            &ProviderError::RequestFailed("opaque".into()),
            &config.transient_only()
        ),
        RetryStep::GiveUp
    );
}

#[test]
fn only_the_word_true_skips_the_backoff() {
    assert!(skips_backoff(Some("true")));
    for value in [Some("True"), Some("1"), Some(""), Some("false"), None] {
        assert!(!skips_backoff(value));
        let parsed = value
            .unwrap_or_default()
            .parse::<bool>()
            .unwrap_or(false);
        assert_eq!(skips_backoff(value), parsed);
    }
}

#[test]
fn durations_keep_their_length() {
    let long = Duration::from_millis(1_234_567);
    assert_eq!((long.as_secs(), long.subsec_nanos()), (1_234, 567_000_000));
    assert_eq!(Duration::from_parts(3, 5).subsec_nanos(), 5);
    assert_eq!(Duration::from_secs(u64::MAX).as_secs(), u64::MAX);
    assert!(Duration::from_secs(1) > Duration::from_millis(999));
    assert_eq!(Duration::from_secs(2), Duration::from_millis(2_000));
}
