use handy_core::arch_plugins::{extract_arch_from_filename, is_plugin_filename, is_plugin_for};
use handy_core::audio::{
    amixer_muted, clears_selection_after_fallback, desired_microphone, microphone_lookup, unavailable_selected_microphone, DesiredMicrophone, idle_timeout_secs, osascript_muted, pactl_muted, recording_belongs_to, restore_mute,
    set_vad_reporting, wpctl_muted, MicIdleTimeoutUnit, MuteState, RecordingStartOptions, RecordingState,
    VAD_REPORT_LIVE_FFT, VAD_REPORT_TEST,
};
use handy_core::llm_operation::LlmOperationTracker;
use handy_core::multi_streaming::{extra_result_index, stream_slot_of, streaming_slots};
use handy_core::settings::ModelSettingMap;

#[test]
fn plugin_files_name_their_architecture() {
    assert_eq!(extract_arch_from_filename("transcribe-arch-parakeet.dll"), "parakeet");
    assert_eq!(extract_arch_from_filename("libtranscribe-arch-whisper.so"), "whisper");
    assert_eq!(extract_arch_from_filename("libtranscribe-arch-qwen3_asr.so.1"), "qwen3_asr");
    assert_eq!(extract_arch_from_filename("granite"), "granite");
    assert!(is_plugin_filename("transcribe-arch-parakeet.dylib"));
    assert!(is_plugin_filename("libtranscribe-arch-whisper.so"));
    assert!(!is_plugin_filename("transcribe-arch-parakeet.txt"));
    assert!(!is_plugin_filename("libtranscribe.so"));
    assert!(is_plugin_for("transcribe-arch-parakeet.dll", "Parakeet"));
    assert!(!is_plugin_for("transcribe-arch-parakeet.dll", "granite"));
}

#[test]
fn reporting_flags_are_per_consumer() {
    let mut flags = 0u8;
    set_vad_reporting(&mut flags, VAD_REPORT_TEST, true);
    set_vad_reporting(&mut flags, VAD_REPORT_LIVE_FFT, true);
    assert_eq!(flags, 3);
    set_vad_reporting(&mut flags, VAD_REPORT_TEST, false);
    assert_eq!(flags, VAD_REPORT_LIVE_FFT);
}

#[test]
fn our_mute_restores_the_users_state() {
    assert!(!restore_mute(Some(true)));
    assert!(restore_mute(Some(false)));
    assert!(restore_mute(None));

    let mut state = MuteState::default();
    assert!(state.wants_mute(true, true));
    state.record_mute(Some(true));
    assert!(!state.wants_mute(true, true));
    assert!(!state.remove_mute());
    assert!(!state.remove_mute());

    let mut state = MuteState::default();
    assert!(!state.wants_mute(false, true));
    state.record_mute(None);
    assert!(state.remove_mute());
}

#[test]
fn platform_tools_report_the_mute_state() {
    assert!(wpctl_muted("Volume: 0.40 [MUTED]"));
    assert!(!wpctl_muted("Volume: 0.40"));
    assert_eq!(pactl_muted("Mute: YES"), Some(true));
    assert_eq!(pactl_muted("Mute: no"), Some(false));
    assert_eq!(pactl_muted("Stumm"), None);
    assert_eq!(amixer_muted("Front Left: Playback [off]"), Some(true));
    assert_eq!(amixer_muted("Front Left: Playback [on]"), Some(false));
    assert_eq!(amixer_muted(""), None);
    assert_eq!(osascript_muted(" true\n"), Some(true));
    assert_eq!(osascript_muted("false"), Some(false));
    assert_eq!(osascript_muted("missing value"), None);
}

#[test]
fn recordings_belong_to_their_binding() {
    let state = RecordingState::Recording { binding_id: "vad_test".to_string() };
    assert!(recording_belongs_to(&state, "vad_test"));
    assert!(!recording_belongs_to(&state, "transcribe"));
    assert!(!recording_belongs_to(&RecordingState::Idle, "vad_test"));
    let options = RecordingStartOptions { capture_raw_override: Some(false), discard_audio: true };
    assert!(!options.capture_raw(true));
    assert!(RecordingStartOptions::default().capture_raw(true));
}

#[test]
fn idle_timeouts_are_at_least_a_second() {
    assert_eq!(idle_timeout_secs(true, 5, MicIdleTimeoutUnit::Seconds), u64::MAX);
    assert_eq!(idle_timeout_secs(false, 0, MicIdleTimeoutUnit::Seconds), 1);
    assert_eq!(idle_timeout_secs(false, 3, MicIdleTimeoutUnit::Minutes), 180);
}

#[test]
fn a_cancel_covers_every_started_operation() {
    let mut tracker = LlmOperationTracker::new();
    let first = tracker.start_operation();
    let second = tracker.start_operation();
    assert_eq!((first, second), (1, 2));
    assert!(!tracker.is_cancelled(first));
    tracker.cancel();
    assert!(tracker.is_cancelled(first));
    assert!(tracker.is_cancelled(second));
    let third = tracker.start_operation();
    assert!(!tracker.is_cancelled(third));
}

#[test]
fn extra_models_stream_on_the_slots_after_the_primary() {
    assert_eq!(stream_slot_of(0), 1);
    assert_eq!(stream_slot_of(7), 8);
    assert_eq!(stream_slot_of(255), 0);
    let ids = vec![Some("a".to_string()), None, Some("c".to_string()), Some("d".to_string())];
    let streams = vec![Some(true), Some(true), Some(false), Some(true)];
    assert_eq!(streaming_slots(&ids, &streams), vec![(1, "a".to_string()), (4, "d".to_string())]);
    assert_eq!(extra_result_index(0), None);
    assert_eq!(extra_result_index(1), Some(0));
    assert_eq!(extra_result_index(8), Some(7));
    assert_eq!(extra_result_index(9), None);
}

#[test]
fn a_setting_reads_back_what_was_written() {
    let mut map: ModelSettingMap<u32> = ModelSettingMap::new();
    map.insert("a", 1);
    map.insert("b", 2);
    map.insert("a", 3);
    assert_eq!(map.get("a"), Some(3));
    assert_eq!(map.get("b"), Some(2));
    assert_eq!(map.get("c"), None);
    assert_eq!(map.len(), 2);
    assert_eq!(map.inherited_value("a"), Some(3));
    map.clear();
    assert_eq!(map.len(), 0);
}

#[test]
fn the_clamshell_microphone_wins_only_with_the_lid_closed() {
    let clamshell = Some("Dock Mic".to_string());
    let selected = Some("USB Mic".to_string());
    assert_eq!(desired_microphone(&clamshell, &selected, true), DesiredMicrophone::Clamshell("Dock Mic".to_string()));
    assert_eq!(desired_microphone(&clamshell, &selected, false), DesiredMicrophone::Selected("USB Mic".to_string()));
    assert_eq!(desired_microphone(&None, &selected, true), DesiredMicrophone::Selected("USB Mic".to_string()));
    assert_eq!(desired_microphone(&None, &None, true), DesiredMicrophone::Default);
}

#[test]
fn only_a_missing_selected_microphone_is_reported_and_cleared() {
    assert_eq!(microphone_lookup(DesiredMicrophone::Default), None);
    assert_eq!(
        microphone_lookup(DesiredMicrophone::Selected("USB Mic".to_string())),
        Some(("USB Mic".to_string(), Some("USB Mic".to_string())))
    );
    assert_eq!(microphone_lookup(DesiredMicrophone::Clamshell("Dock".to_string())), Some(("Dock".to_string(), None)));

    let selected = Some("USB Mic".to_string());
    assert_eq!(unavailable_selected_microphone(true, false, selected.clone()), selected);
    assert_eq!(unavailable_selected_microphone(false, false, selected.clone()), None);
    assert_eq!(unavailable_selected_microphone(true, true, selected.clone()), None);

    assert!(clears_selection_after_fallback(&selected, "USB Mic"));
    assert!(!clears_selection_after_fallback(&Some("Other".to_string()), "USB Mic"));
    assert!(!clears_selection_after_fallback(&None, "USB Mic"));
}
