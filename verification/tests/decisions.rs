use handy_core::arch_plugins::{plugin_infos, PluginFile};
use handy_core::continuous_voice::{brain_ask, brain_request, BrainAsk, resume_delay_ms, stt_outcome, waits_for_playback, SttOutcome};
use handy_core::history::{cleanup_plan, first_over_limit, retention_cutoff, CleanupPlan, RecordingRetentionPeriod};
use handy_core::multi_stt::{is_paused, needs_publish, pause_length_ms, should_push_writer_target, stream_drain_ms};

fn file(name: &str, canonical: &str) -> PluginFile {
    PluginFile {
        file_name: name.to_string(),
        canonical_path: canonical.to_string(),
        path: format!("/p/{name}"),
        file_size_bytes: Some(10),
    }
}

#[test]
fn installed_plugins_are_listed_once_and_by_name() {
    let files = vec![
        file("transcribe-arch-whisper.dll", "/a/w"),
        file("readme.txt", "/a/r"),
        file("transcribe-arch-granite.dll", "/a/g"),
        file("transcribe-arch-whisper.dll", "/a/w"),
        file("libtranscribe-arch-parakeet.so", "/b/p"),
    ];
    let infos = plugin_infos(&files, &vec!["granite".to_string()]);
    let names: Vec<&str> = infos.iter().map(|i| i.name.as_str()).collect();
    assert_eq!(names, vec!["granite", "parakeet", "whisper"]);
    let loaded: Vec<bool> = infos.iter().map(|i| i.is_loaded).collect();
    assert_eq!(loaded, vec![true, false, false]);
    assert_eq!(infos[1].path, "/p/libtranscribe-arch-parakeet.so");
}

#[test]
fn plugins_of_one_architecture_keep_their_scan_order() {
    let files = vec![
        file("transcribe-arch-whisper.so", "/b/w"),
        file("libtranscribe-arch-whisper.so", "/a/w"),
        file("transcribe-arch-granite.so", "/a/g"),
    ];
    let infos = plugin_infos(&files, &vec![]);
    let paths: Vec<&str> = infos.iter().map(|i| i.path.as_str()).collect();
    assert_eq!(paths, vec!["/p/transcribe-arch-granite.so", "/p/transcribe-arch-whisper.so", "/p/libtranscribe-arch-whisper.so"]);
}

#[test]
fn retention_periods_pick_their_cleanup() {
    assert_eq!(cleanup_plan(RecordingRetentionPeriod::Never), CleanupPlan::KeepAll);
    assert_eq!(cleanup_plan(RecordingRetentionPeriod::PreserveLimit), CleanupPlan::ByCount);
    assert_eq!(cleanup_plan(RecordingRetentionPeriod::Days3), CleanupPlan::OlderThanSecs(259_200));
    assert_eq!(cleanup_plan(RecordingRetentionPeriod::Weeks2), CleanupPlan::OlderThanSecs(1_209_600));
    assert_eq!(cleanup_plan(RecordingRetentionPeriod::Months3), CleanupPlan::OlderThanSecs(7_776_000));
    assert_eq!(retention_cutoff(1_000_000, 259_200), 740_800);
    assert_eq!(first_over_limit(5, 3), Some(3));
    assert_eq!(first_over_limit(3, 3), None);
}

#[test]
fn a_turn_asks_with_its_trimmed_transcription() {
    assert_eq!(stt_outcome(Ok("  hi there \n".to_string())), SttOutcome::Ask("hi there".to_string()));
    assert_eq!(stt_outcome(Ok("   ".to_string())), SttOutcome::Skip);
    assert_eq!(stt_outcome(Err("boom".to_string())), SttOutcome::Fail("Transcription failed: boom".to_string()));
    assert_eq!(brain_request("hi", false, false, "PROMPT"), ("hi".to_string(), false));
    assert_eq!(brain_request("hi", true, false, "PROMPT"), ("PROMPT".to_string(), true));
    assert!(waits_for_playback(true, true, &Some("reply".to_string()), true));
    assert!(!waits_for_playback(true, true, &Some("  ".to_string()), true));
    assert!(!waits_for_playback(true, true, &Some("reply".to_string()), false));
    assert!(!waits_for_playback(true, false, &Some("reply".to_string()), true));
    assert_eq!(resume_delay_ms(true), 0);
    assert_eq!(resume_delay_ms(false), 250);
}

#[test]
fn the_coordinator_reads_pauses_and_publishes_changes() {
    assert!(is_paused(1_200, 800, 1_000, 1_000));
    assert!(!is_paused(800, 800, 5_000, 1_000));
    assert!(!is_paused(0, -1, 5_000, 1_000));
    assert!(!is_paused(1_200, 800, 999, 1_000));
    assert_eq!(pause_length_ms(0), 1);
    assert_eq!(pause_length_ms(700), 700);
    assert_eq!(stream_drain_ms(1_000, 400), 600);
    assert_eq!(stream_drain_ms(400, 1_000), 0);
    assert!(!needs_publish(false, "a", "b", "a", "b"));
    assert!(needs_publish(true, "a", "b", "a", "b"));
    assert!(needs_publish(false, "a", "c", "a", "b"));
}

#[test]
fn the_writer_gets_extensions_at_once_and_rewrites_when_caught_up() {
    assert!(should_push_writer_target("hello world", "hello", false));
    assert!(!should_push_writer_target("hello", "hello", true));
    assert!(!should_push_writer_target("Hello", "hello", false));
    assert!(should_push_writer_target("Hello", "hello", true));
}

#[test]
fn a_multimodal_ask_carries_the_audio_in_base64() {
    assert_eq!(
        brain_ask("hi".to_string(), true, Some(Ok(b"hello".to_vec()))),
        BrainAsk::Multimodal { prompt: "hi".to_string(), audio_base64: "aGVsbG8=".to_string() }
    );
    assert_eq!(
        brain_ask("hi".to_string(), true, Some(Err("no wav".to_string()))),
        BrainAsk::Text { prompt: "hi".to_string() }
    );
    assert_eq!(brain_ask("hi".to_string(), true, None), BrainAsk::Text { prompt: "hi".to_string() });
    assert_eq!(
        brain_ask("hi".to_string(), false, Some(Ok(vec![1, 2, 3]))),
        BrainAsk::Text { prompt: "hi".to_string() }
    );
}
