use handy_core::statistics::{
    audio_duration_ms, canonical_word_count, complete_canonical, complete_post_processing, current_streak_days, finish_run, mark_terminal,
    new_attempt, new_run_state, parse_requested_flag, register_attempt, resolved_terminal_status, validate_run,
    NewStatisticsRun, NormalRunRegistry, RunState, StatisticsError, StatisticsRunOrigin, StatisticsRunStatus,
};

fn pending_run_state() -> RunState {
    RunState {
        started_at_ms: 0,
        origin: StatisticsRunOrigin::Normal,
        source_history_id: None,
        audio_duration_ms: None,
        sample_rate_hz: None,
        input_stopped_ms: None,
        post_processing_requested: false,
        terminal: false,
        attempt_count: 0,
        attempts: Vec::new(),
    }
}

fn successful_run(completed_at_ms: i64) -> NewStatisticsRun {
    NewStatisticsRun {
        started_at_ms: completed_at_ms - 500,
        completed_at_ms,
        status: StatisticsRunStatus::Success,
        origin: StatisticsRunOrigin::Normal,
        model_id: Some("whisper-small".into()),
        engine: Some("whisper".into()),
        backend: Some("cpu".into()),
        audio_duration_ms: Some(2_000),
        sample_rate_hz: Some(16_000),
        word_count: Some(10),
        transcription_latency_ms: Some(500),
        post_processing_latency_ms: None,
        post_processing_requested: false,
        measurement_version: 1,
        word_count_version: 1,
        source_history_id: None,
    }
}

#[test]
fn word_count_uses_canonical_whitespace_semantics() {
    assert_eq!(canonical_word_count("  one\ttwo\nthree  "), 3);
    assert_eq!(canonical_word_count("????"), 1);
    assert_eq!(canonical_word_count("   "), 0);
}

#[test]
fn audio_duration_uses_pre_padding_sample_count() {
    assert_eq!(audio_duration_ms(8_000, 16_000), Some(500));
    assert_eq!(audio_duration_ms(8_000, 0), None);
}

#[test]
fn terminal_transition_is_idempotent() {
    let mut run = pending_run_state();
    assert!(mark_terminal(&mut run));
    assert!(!mark_terminal(&mut run));
}

#[test]
fn normal_run_registry_is_strong_keyed_and_retry_independent() {
    let mut registry = NormalRunRegistry::new();
    let registered = registry.insert_or_get("primary", 1);
    assert_eq!(registry.get("primary"), Some(registered));

    registry.insert_or_get("secondary", 2);
    assert_ne!(registry.get("secondary"), Some(registered));
    let retry = new_run_state(StatisticsRunOrigin::HistoryRetry, Some(42), 0);
    assert_eq!(retry.origin, StatisticsRunOrigin::HistoryRetry);
    assert_eq!(retry.source_history_id, Some(42));
    assert_eq!(registry.get("primary"), Some(registered));
}

#[test]
fn registry_keeps_the_first_run_of_a_binding_and_forgets_removed_runs() {
    let mut registry = NormalRunRegistry::new();
    assert_eq!(registry.insert_or_get("primary", 7), 7);
    assert_eq!(registry.insert_or_get("primary", 9), 7);
    registry.remove_state(7);
    assert_eq!(registry.get("primary"), None);
    assert_eq!(registry.insert_or_get("primary", 9), 9);
}

#[test]
fn a_valid_successful_run_passes_validation() {
    assert_eq!(validate_run(&successful_run(1_000)), Ok(()));
}

#[test]
fn each_validation_rule_has_its_error() {
    let mut run = successful_run(1_000);
    run.completed_at_ms = 0;
    assert_eq!(validate_run(&run), Err(StatisticsError::InvalidTimestamps));

    let mut run = successful_run(1_000);
    run.measurement_version = 0;
    assert_eq!(validate_run(&run), Err(StatisticsError::NonPositiveVersion));

    let mut run = successful_run(1_000);
    run.sample_rate_hz = Some(0);
    assert_eq!(validate_run(&run), Err(StatisticsError::NonPositiveSampleRate));

    let mut run = successful_run(1_000);
    run.sample_rate_hz = None;
    assert_eq!(validate_run(&run), Err(StatisticsError::AudioAndSampleRateApart));

    let mut run = successful_run(1_000);
    run.source_history_id = Some(0);
    assert_eq!(validate_run(&run), Err(StatisticsError::NonPositiveSourceHistoryId));

    let mut run = successful_run(1_000);
    run.status = StatisticsRunStatus::Failed;
    assert_eq!(validate_run(&run), Err(StatisticsError::LatencyWithoutSuccess));

    let mut run = successful_run(1_000);
    run.post_processing_latency_ms = Some(600);
    assert_eq!(validate_run(&run), Err(StatisticsError::PostProcessingNotRequested));

    let mut run = successful_run(1_000);
    run.post_processing_requested = true;
    run.post_processing_latency_ms = Some(100);
    assert_eq!(validate_run(&run), Err(StatisticsError::PostProcessingBeforeTranscription));

    let mut run = successful_run(1_000);
    run.word_count = Some(0);
    assert_eq!(validate_run(&run), Err(StatisticsError::IncompleteSuccess));
}

#[test]
fn status_and_origin_names_round_trip() {
    for status in [
        StatisticsRunStatus::Success,
        StatisticsRunStatus::Empty,
        StatisticsRunStatus::Failed,
        StatisticsRunStatus::Cancelled,
    ] {
        assert_eq!(StatisticsRunStatus::parse(&status.as_str()), Ok(status));
    }
    for origin in [StatisticsRunOrigin::Normal, StatisticsRunOrigin::HistoryRetry, StatisticsRunOrigin::Headless] {
        assert_eq!(StatisticsRunOrigin::parse(&origin.as_str()), Ok(origin));
    }
    assert_eq!(StatisticsRunOrigin::HistoryRetry.as_str(), "history_retry");
    assert!(StatisticsRunStatus::parse("done").is_err());
}

#[test]
fn stored_flag_is_zero_or_one() {
    assert_eq!(parse_requested_flag(0), Some(false));
    assert_eq!(parse_requested_flag(1), Some(true));
    assert_eq!(parse_requested_flag(2), None);
}

#[test]
fn a_success_without_words_is_recorded_as_empty() {
    assert_eq!(resolved_terminal_status(StatisticsRunStatus::Success, Some(0)), StatisticsRunStatus::Empty);
    assert_eq!(resolved_terminal_status(StatisticsRunStatus::Success, Some(3)), StatisticsRunStatus::Success);
    assert_eq!(resolved_terminal_status(StatisticsRunStatus::Failed, Some(3)), StatisticsRunStatus::Failed);
}

#[test]
fn finishing_writes_each_open_attempt_once() {
    let mut run = pending_run_state();
    run.audio_duration_ms = Some(2_000);
    run.sample_rate_hz = Some(16_000);
    assert!(register_attempt(&mut run, new_attempt(Some("m".into()), Some("e".into()), None, 100)));
    let rows = finish_run(&mut run, StatisticsRunStatus::Cancelled, 900);
    assert_eq!(rows.len(), 1);
    assert_eq!(rows[0].status, StatisticsRunStatus::Cancelled);
    assert_eq!(rows[0].completed_at_ms, 900);
    // A second finish writes nothing.
    assert!(finish_run(&mut run, StatisticsRunStatus::Failed, 1_000).is_empty());
    // A finished run takes no more attempts.
    assert!(!register_attempt(&mut run, new_attempt(None, None, None, 0)));
}

#[test]
fn canonical_completion_counts_words() {
    let mut attempt = new_attempt(None, None, None, 0);
    complete_canonical(&mut attempt, "hello brave new world", Some(10), 40);
    assert_eq!(attempt.word_count, Some(4));
}

#[test]
fn streak_counts_consecutive_days_back_from_today() {
    let days = vec!["2024-05-03".to_string(), "2024-05-02".to_string(), "2024-05-01".to_string(), "2024-04-28".to_string()];
    assert_eq!(current_streak_days(&days, "2024-05-03", "2024-05-02"), 3);
    assert_eq!(current_streak_days(&days, "2024-05-04", "2024-05-03"), 3);
    assert_eq!(current_streak_days(&days, "2024-05-06", "2024-05-05"), 0);
}

#[test]
fn post_processing_latency_is_recorded_once_and_only_when_requested() {
    let mut attempt = new_attempt(None, None, None, 0);
    complete_post_processing(&mut attempt, Some(1_000), false, 1_400);
    assert_eq!(attempt.post_processing_latency_ms, None);
    complete_post_processing(&mut attempt, Some(1_000), true, 1_400);
    assert_eq!(attempt.post_processing_latency_ms, Some(400));
    complete_post_processing(&mut attempt, Some(1_000), true, 2_000);
    assert_eq!(attempt.post_processing_latency_ms, Some(400));
}

#[test]
fn a_run_records_its_audio_and_when_input_stopped() {
    let mut run = new_run_state(StatisticsRunOrigin::Headless, Some(4), 50);
    run.set_audio(48_000, 16_000);
    assert_eq!(run.audio_duration_ms, Some(3_000));
    assert_eq!(run.sample_rate_hz, Some(16_000));
    run.set_audio(48_000, 0);
    assert_eq!(run.audio_duration_ms, None);
    assert_eq!(run.sample_rate_hz, None);
    run.set_speech_audio_duration_ms(1_250, 16_000);
    assert_eq!(run.audio_duration_ms, Some(1_250));

    run.mark_input_stopped(900, true);
    run.mark_input_stopped(1_200, false);
    assert_eq!(run.input_stopped_ms, Some(900));
    assert!(run.post_processing_requested);
    run.set_post_processing_requested(false);
    assert!(!run.post_processing_requested);
    assert!(!run.is_terminal());
    assert!(mark_terminal(&mut run));
    assert!(run.is_terminal());
}

#[test]
fn each_error_has_its_message() {
    assert_eq!(StatisticsError::InvalidTimestamps.message(), "invalid statistics run timestamps");
    assert_eq!(
        StatisticsError::IncompleteSuccess.message(),
        "successful statistics runs require words, audio, and sample rate"
    );
    assert_eq!(
        StatisticsRunStatus::parse("maybe").unwrap_err(),
        "unknown statistics status: maybe"
    );
    assert_eq!(
        StatisticsRunOrigin::parse("cron").unwrap_err(),
        "unknown statistics origin: cron"
    );
}

#[test]
fn stored_names_parse_through_from_str() {
    assert_eq!("cancelled".parse::<StatisticsRunStatus>(), Ok(StatisticsRunStatus::Cancelled));
    assert_eq!("history_retry".parse::<StatisticsRunOrigin>(), Ok(StatisticsRunOrigin::HistoryRetry));
    assert_eq!("Success".parse::<StatisticsRunStatus>(), Err("unknown statistics status: Success".to_string()));
}
