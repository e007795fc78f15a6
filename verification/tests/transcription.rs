use handy_core::settings::{AppSettings, ModelBackendSetting, MultiSttExtraModel, TranscribeAcceleratorSetting};
use handy_core::streaming_latency::{ExtensionKind, LatencyPoint, NativeStreamingLatencyKind, NativeStreamingLatencyPreset, StreamExtension};
use handy_core::streaming_latency::NativeStreamingLatencyPreset as P;
use handy_core::transcription::{
    apply_extra_model_settings, available_model_backends, available_transcribe_accelerators, benchmark_timed_runs,
    canonical_language_code, cpp_translation_task, describe_compute_devices, describe_latency,
    effective_transcribe_accelerator, find_vulkan_device, get_available_accelerators, get_effective_latency_preset,
    get_effective_model_backend, get_effective_r2t2_chunk_ms, gpu_device_options, multi_stt_extra_model,
    normalize_cjk_language, resolve_device_index, resolve_gpu_device, resolve_model_backend,
    resolve_output_language_evidence, select_transcribe_backend, stream_text_event, latency_setting_point, resolved_stream_extension, announce_slot_event, composed_stream_text_event, working_phase_event, is_false, StreamPhase, StreamWorkKind, transcribe_cpp_run_plan,
    transcribe_device_allowed, transcribe_device_key, with_model_detected_language, Backend, BackendAvailability,
    ComputeDevice, DeviceType, OutputLanguageEvidence, StreamTiming, StreamPerf, Task, VulkanTargetDevice, PRIMARY_STREAM_SLOT,
};

fn languages(codes: &[&str]) -> Vec<String> {
    codes.iter().map(|code| (*code).to_string()).collect()
}

fn device(index: usize, kind: &str, name: &str, description: &str, device_type: DeviceType) -> ComputeDevice {
    ComputeDevice {
        index: Some(index),
        kind: kind.to_string(),
        name: name.to_string(),
        description: description.to_string(),
        memory_total: 8 * 1024 * 1024 * 1024,
        device_type,
        device_id: None,
    }
}

fn availability() -> BackendAvailability {
    BackendAvailability { gpu_disabled: false, macos: false, cuda: false, vulkan: true, metal: false, rocm: false }
}

#[test]
fn stream_timing_accumulates_and_converts_a_delta_to_seconds() {
    let mut timing = StreamTiming::default();
    assert_eq!(timing.totals(), (0, 0));

    timing.record_feed(6_000);
    timing.record_compute(100_000);
    timing.record_feed(10_000);
    timing.record_compute(150_000);
    assert_eq!(timing.totals(), (16_000, 250_000));

    let delta = (timing.totals().0 - 16_000, timing.totals().1 - 250_000);
    assert_eq!(delta, (0, 0));
}

#[test]
fn benchmark_runs_are_clamped_into_range() {
    assert_eq!(benchmark_timed_runs(None), 5);
    assert_eq!(benchmark_timed_runs(Some(1)), 2);
    assert_eq!(benchmark_timed_runs(Some(7)), 7);
    assert_eq!(benchmark_timed_runs(Some(50)), 10);
}

#[test]
fn normal_hosts_preserve_every_transcribe_accelerator_setting() {
    for setting in [TranscribeAcceleratorSetting::Auto, TranscribeAcceleratorSetting::Cpu, TranscribeAcceleratorSetting::Gpu] {
        assert_eq!(effective_transcribe_accelerator(setting, false), setting);
    }
    assert_eq!(available_transcribe_accelerators(false), ["auto", "cpu", "gpu"]);
    for kind in ["cpu", "accel", "metal", "cuda", "vulkan", "gpu"] {
        assert!(transcribe_device_allowed(kind, false));
    }
}

#[test]
fn emulated_x64_on_arm64_forces_every_transcribe_setting_to_cpu() {
    for setting in [TranscribeAcceleratorSetting::Auto, TranscribeAcceleratorSetting::Cpu, TranscribeAcceleratorSetting::Gpu] {
        assert_eq!(effective_transcribe_accelerator(setting, true), TranscribeAcceleratorSetting::Cpu);
    }
    assert_eq!(available_transcribe_accelerators(true), ["cpu"]);
    assert!(transcribe_device_allowed("cpu", true));
    assert!(transcribe_device_allowed("accel", true));
    for kind in ["metal", "cuda", "vulkan", "gpu", "unknown"] {
        assert!(!transcribe_device_allowed(kind, true));
    }
}

#[test]
fn norwegian_alias_is_recorded_as_user_selected_evidence() {
    let settings = AppSettings { selected_language: "no".to_string(), ..Default::default() };
    let evidence = resolve_output_language_evidence(&settings, Some("nb"), &languages(&["nb"]), false);
    assert_eq!(evidence, OutputLanguageEvidence::UserSelected("nb".to_string()));
}

#[test]
fn model_detected_language_upgrades_unknown_evidence_only() {
    assert_eq!(
        with_model_detected_language(OutputLanguageEvidence::Unknown, Some("en".to_string())),
        OutputLanguageEvidence::ModelDetected("en".to_string())
    );
    assert_eq!(
        with_model_detected_language(OutputLanguageEvidence::Unknown, Some("auto".to_string())),
        OutputLanguageEvidence::Unknown
    );
    assert_eq!(with_model_detected_language(OutputLanguageEvidence::Unknown, None), OutputLanguageEvidence::Unknown);
    assert_eq!(
        with_model_detected_language(OutputLanguageEvidence::UserSelected("pt".to_string()), Some("en".to_string())),
        OutputLanguageEvidence::UserSelected("pt".to_string())
    );
}

#[test]
fn auto_language_uses_single_language_model_as_evidence() {
    let settings = AppSettings { selected_language: "auto".to_string(), ..Default::default() };
    let evidence = resolve_output_language_evidence(&settings, None, &languages(&["en"]), false);
    assert_eq!(evidence, OutputLanguageEvidence::ModelConstrained("en".to_string()));
}

#[test]
fn unsupported_explicit_language_uses_model_fallback_as_evidence() {
    let settings = AppSettings { selected_language: "pt".to_string(), ..Default::default() };
    let evidence = resolve_output_language_evidence(&settings, Some("en"), &languages(&["en", "de"]), false);
    assert_eq!(evidence, OutputLanguageEvidence::ModelConstrained("en".to_string()));
}

#[test]
fn unapplied_transcribe_cpp_language_is_not_output_evidence() {
    let settings = AppSettings { selected_language: "en".to_string(), ..Default::default() };
    let supported = languages(&[]);
    let plan = transcribe_cpp_run_plan(false, "en", &supported, false);

    assert_eq!(plan.language, None);
    assert_eq!(
        resolve_output_language_evidence(&settings, plan.language.as_deref(), &supported, false),
        OutputLanguageEvidence::Unknown
    );
}

#[test]
fn translated_output_is_treated_as_english() {
    let settings = AppSettings { selected_language: "pt".to_string(), ..Default::default() };
    let evidence = resolve_output_language_evidence(&settings, Some("pt"), &languages(&["en", "pt"]), true);
    assert_eq!(evidence, OutputLanguageEvidence::TranslatedToEnglish);
}

#[test]
fn regional_selection_matches_its_primary_language_hint() {
    let settings = AppSettings { selected_language: "pt-BR".to_string(), ..Default::default() };
    let evidence = resolve_output_language_evidence(&settings, Some("pt"), &languages(&["en", "pt"]), false);
    assert_eq!(evidence, OutputLanguageEvidence::UserSelected("pt".to_string()));
    let settings = AppSettings { selected_language: "en".to_string(), ..Default::default() };
    let evidence = resolve_output_language_evidence(&settings, None, &languages(&["en", "de", "pt"]), false);
    assert_eq!(evidence, OutputLanguageEvidence::Unknown);
    assert_eq!(canonical_language_code("PT_br"), "pt");
    assert_eq!(canonical_language_code("nb-NO"), "no");
}

#[test]
fn transcribe_cpp_run_plan_maps_chinese_variants() {
    let plan = transcribe_cpp_run_plan(false, "zh-Hant", &languages(&["zh"]), true);
    assert!(matches!(plan.task, Task::Transcribe));
    assert_eq!(plan.language.as_deref(), Some("zh"));
    assert_eq!(plan.target_language, None);
}

#[test]
fn transcribe_cpp_run_plan_skips_english_translation() {
    let plan = transcribe_cpp_run_plan(true, "en", &languages(&["en", "es"]), true);
    assert!(matches!(plan.task, Task::Transcribe));
    assert_eq!(plan.language.as_deref(), Some("en"));
    assert_eq!(plan.target_language, None);
}

#[test]
fn transcribe_cpp_run_plan_translates_supported_non_english() {
    let plan = transcribe_cpp_run_plan(true, "es", &languages(&["en", "es"]), true);
    assert!(matches!(plan.task, Task::Translate));
    assert_eq!(plan.language.as_deref(), Some("es"));
    assert_eq!(plan.target_language.as_deref(), Some("en"));
}

#[test]
fn transcribe_cpp_run_plan_requires_model_translation_support() {
    let plan = transcribe_cpp_run_plan(true, "es", &languages(&["en", "es"]), false);
    assert!(matches!(plan.task, Task::Transcribe));
    assert_eq!(plan.language.as_deref(), Some("es"));
    assert_eq!(plan.target_language, None);
}

#[test]
fn an_auto_detected_run_translates_without_a_source() {
    assert_eq!(cpp_translation_task(true, true, None), (Task::Translate, Some("en".to_string())));
    assert_eq!(normalize_cjk_language("zh-Hans"), "zh");
    assert_eq!(normalize_cjk_language("ja"), "ja");
}

#[test]
fn multi_stt_slots_and_models_resolve_to_each_other() {
    let slot = |id: &str| MultiSttExtraModel { model_id: Some(id.into()), ..Default::default() };
    let mut settings = AppSettings {
        multi_stt_extra_models: vec![slot("model-two"), slot("model-three"), slot("model-four")],
        ..Default::default()
    };

    assert_eq!(multi_stt_extra_model(&settings, PRIMARY_STREAM_SLOT), None);
    assert_eq!(multi_stt_extra_model(&settings, 1).as_deref(), Some("model-two"));
    assert_eq!(multi_stt_extra_model(&settings, 2).as_deref(), Some("model-three"));
    assert_eq!(multi_stt_extra_model(&settings, 3).as_deref(), Some("model-four"));
    assert_eq!(multi_stt_extra_model(&settings, 4), None);

    settings.multi_stt_extra_models[1].language = Some("de".into());
    settings.selected_language = "en".into();
    let mut resolved = settings.clone();
    apply_extra_model_settings(&mut resolved, "model-three");
    assert_eq!(resolved.selected_language, "de");
    let mut untouched = settings.clone();
    apply_extra_model_settings(&mut untouched, "some-other-model");
    assert_eq!(untouched.selected_language, "en");
}

#[test]
fn extra_slot_latency_overrides_the_shared_model_setting() {
    let repo = "handy-computer/nemotron-3.5-asr-streaming-0.6b-gguf";
    let primary = format!("{repo}/nemotron-3.5-asr-streaming-0.6b-Q8_0.gguf");
    let extra = format!("{repo}/nemotron-3.5-asr-streaming-0.6b-Q4_K_M.gguf");
    let r2t2 = "davidxifeng/Confucius4-R2T2-gguf/r2t2-q8_0.gguf";
    let mut settings = AppSettings {
        multi_stt_extra_models: vec![
            MultiSttExtraModel { model_id: Some(extra.clone()), latency_preset: Some(P::Fastest), ..Default::default() },
            MultiSttExtraModel { model_id: Some(r2t2.into()), chunk_ms: Some(160), ..Default::default() },
        ],
        ..Default::default()
    };
    settings.native_streaming_latency_presets.insert(&primary, P::Balanced);
    settings.native_streaming_chunk_ms.insert(r2t2, 960);

    assert_eq!(get_effective_latency_preset(&settings, &extra), P::Balanced);

    let mut resolved = settings.clone();
    apply_extra_model_settings(&mut resolved, &extra);
    assert_eq!(get_effective_latency_preset(&resolved, &extra), P::Fastest);
    assert_eq!(get_effective_latency_preset(&resolved, &primary), P::Balanced);

    let mut resolved = settings.clone();
    apply_extra_model_settings(&mut resolved, r2t2);
    assert_eq!(get_effective_r2t2_chunk_ms(&resolved, r2t2), 160);

    settings.multi_stt_extra_models[1].chunk_ms = None;
    let mut resolved = settings.clone();
    apply_extra_model_settings(&mut resolved, r2t2);
    assert_eq!(get_effective_r2t2_chunk_ms(&resolved, r2t2), 960);
}

#[test]
fn effective_model_backend_inherits_across_quant_variants() {
    let mut settings = AppSettings::default();
    let base = "davidxifeng/Confucius4-R2T2-gguf";
    let q8 = "davidxifeng/Confucius4-R2T2-gguf/r2t2-q8_0.gguf";
    let q4 = "davidxifeng/Confucius4-R2T2-gguf/r2t2-q4_k_m.gguf";

    assert_eq!(get_effective_model_backend(&settings, q8), ModelBackendSetting::Auto);
    assert_eq!(get_effective_model_backend(&settings, q4), ModelBackendSetting::Auto);

    settings.per_model_backends.insert(base, ModelBackendSetting::VulkanIntel);
    assert_eq!(get_effective_model_backend(&settings, q8), ModelBackendSetting::VulkanIntel);
    assert_eq!(get_effective_model_backend(&settings, q4), ModelBackendSetting::VulkanIntel);

    settings.per_model_backends.clear();
    settings.per_model_backends.insert(q8, ModelBackendSetting::VulkanNvidia);
    assert_eq!(get_effective_model_backend(&settings, q4), ModelBackendSetting::VulkanNvidia);
    assert_eq!(get_effective_model_backend(&settings, base), ModelBackendSetting::VulkanNvidia);

    settings.per_model_backends.insert(q4, ModelBackendSetting::Cpu);
    assert_eq!(get_effective_model_backend(&settings, q4), ModelBackendSetting::Cpu);
    assert_eq!(get_effective_model_backend(&settings, q8), ModelBackendSetting::VulkanNvidia);
}

#[test]
fn effective_r2t2_chunk_ms_inherits_across_quant_variants() {
    let mut settings = AppSettings::default();
    let base = "davidxifeng/Confucius4-R2T2-gguf";
    let q8 = "davidxifeng/Confucius4-R2T2-gguf/r2t2-q8_0.gguf";
    let q4 = "davidxifeng/Confucius4-R2T2-gguf/r2t2-q4_k_m.gguf";

    assert_eq!(get_effective_r2t2_chunk_ms(&settings, q4), 320);

    settings.native_streaming_chunk_ms.insert(q8, 160);
    assert_eq!(get_effective_r2t2_chunk_ms(&settings, q4), 160);
    assert_eq!(get_effective_r2t2_chunk_ms(&settings, base), 160);

    settings.native_streaming_chunk_ms.insert(q4, 80);
    assert_eq!(get_effective_r2t2_chunk_ms(&settings, q4), 80);
    assert_eq!(get_effective_r2t2_chunk_ms(&settings, q8), 160);
}

#[test]
fn a_model_in_another_repo_inherits_nothing() {
    let mut settings = AppSettings::default();
    settings.per_model_backends.insert("a/x.gguf", ModelBackendSetting::Cuda);
    assert_eq!(get_effective_model_backend(&settings, "b/x.gguf"), ModelBackendSetting::Auto);
    assert_eq!(get_effective_model_backend(&settings, "x.gguf"), ModelBackendSetting::Auto);
    assert_eq!(get_effective_latency_preset(&settings, "a/y.gguf"), NativeStreamingLatencyPreset::Accurate);
}

#[test]
fn available_model_backends_contains_defaults() {
    let backends = available_model_backends(&availability(), &[]);
    assert!(backends.contains(&"auto".to_string()));
    assert!(backends.contains(&"cpu".to_string()));
}

#[test]
fn vendor_backends_appear_only_with_their_device() {
    let devices = vec![
        device(0, "Vulkan", "GPU0", "NVIDIA GeForce RTX 4070", DeviceType::Gpu),
        device(1, "vulkan", "GPU1", "Intel(R) UHD Graphics", DeviceType::Igpu),
    ];
    let mut a = availability();
    a.cuda = true;
    assert_eq!(
        available_model_backends(&a, &devices),
        ["auto", "cpu", "cuda", "vulkan", "vulkan_nvidia", "vulkan_intel"]
    );
    assert_eq!(available_model_backends(&a, &devices[1..]), ["auto", "cpu", "cuda", "vulkan", "vulkan_intel"]);
    a.gpu_disabled = true;
    assert_eq!(available_model_backends(&a, &devices), ["auto", "cpu"]);
}

#[test]
fn vulkan_devices_are_found_by_vendor_then_by_class() {
    let devices = vec![
        device(0, "cpu", "CPU", "", DeviceType::Cpu),
        device(1, "vulkan", "GPU0", "Some Discrete Card", DeviceType::Gpu),
        device(2, "VULKAN", "GPU1", "Intel Iris Xe", DeviceType::Igpu),
    ];
    assert_eq!(find_vulkan_device(VulkanTargetDevice::Any, &devices), Some(1));
    assert_eq!(find_vulkan_device(VulkanTargetDevice::Intel, &devices), Some(2));
    // No description names NVIDIA, so the discrete GPU is taken.
    assert_eq!(find_vulkan_device(VulkanTargetDevice::Nvidia, &devices), Some(1));
    assert_eq!(find_vulkan_device(VulkanTargetDevice::Nvidia, &devices[..1]), None);
}

#[test]
fn list_devices_lines_name_index_kind_and_memory() {
    let mut cpu = device(0, "cpu", "CPU", "", DeviceType::Cpu);
    cpu.memory_total = 3 * 1024 * 1024 + 5;
    let mut unindexed = device(1, "cuda", "cuda0", "RTX", DeviceType::Gpu);
    unindexed.index = None;
    let lines = describe_compute_devices(&[cpu, unindexed]);
    assert_eq!(lines, ["index=0 kind=cpu name=CPU vram=3MB", "index=- kind=cuda name=RTX vram=8192MB"]);
}

#[test]
fn gpu_options_carry_a_persistent_json_identity() {
    let mut gpu = device(3, "vulkan", "GPU0", "", DeviceType::Gpu);
    gpu.device_id = Some("abc".to_string());
    let cpu = device(0, "cpu", "CPU", "cpu", DeviceType::Cpu);
    assert_eq!(transcribe_device_key(&gpu), "[\"vulkan\",\"id\",\"abc\"]");
    let options = gpu_device_options(&[cpu, gpu.clone()]);
    assert_eq!(options.len(), 1);
    assert_eq!(options[0].id, "[\"vulkan\",\"id\",\"abc\"]");
    assert_eq!(options[0].name, "GPU0");
    assert_eq!(options[0].total_vram_mb, 8192);

    let accelerators = get_available_accelerators(&availability(), &[gpu]);
    assert_eq!(accelerators.transcribe, ["auto", "cpu", "gpu"]);
    assert_eq!(accelerators.gpu_devices.len(), 1);
}

#[test]
fn a_stored_gpu_is_honoured_only_under_the_gpu_setting() {
    let mut gpu = device(3, "vulkan", "GPU0", "", DeviceType::Gpu);
    gpu.device_id = Some("abc".to_string());
    let devices = vec![device(0, "cpu", "CPU", "", DeviceType::Cpu), gpu];
    let key = "[\"vulkan\",\"id\",\"abc\"]";
    assert_eq!(resolve_gpu_device(TranscribeAcceleratorSetting::Gpu, Some(key), &devices, false), Some(1));
    assert_eq!(resolve_gpu_device(TranscribeAcceleratorSetting::Auto, Some(key), &devices, false), None);
    assert_eq!(resolve_gpu_device(TranscribeAcceleratorSetting::Gpu, Some(key), &devices, true), None);
    assert_eq!(resolve_gpu_device(TranscribeAcceleratorSetting::Gpu, Some("other"), &devices, false), None);

    let mut settings = AppSettings::default();
    settings.transcribe_accelerator = TranscribeAcceleratorSetting::Gpu;
    settings.transcribe_gpu_device = Some(key.to_string());
    assert_eq!(resolve_model_backend(&settings, "m", &devices, &availability()), (Backend::Auto, Some(1)));
    settings.per_model_backends.insert("m", ModelBackendSetting::Cuda);
    // CUDA is not loadable here, so the global policy applies.
    assert_eq!(resolve_model_backend(&settings, "m", &devices, &availability()), (Backend::Auto, Some(1)));
    settings.per_model_backends.insert("m", ModelBackendSetting::Vulkan);
    assert_eq!(resolve_model_backend(&settings, "m", &devices, &availability()), (Backend::Vulkan, None));
}

#[test]
fn the_gpu_setting_picks_the_first_platform_backend() {
    let mut a = availability();
    assert_eq!(select_transcribe_backend(TranscribeAcceleratorSetting::Gpu, &a), Backend::Vulkan);
    a.rocm = true;
    assert_eq!(select_transcribe_backend(TranscribeAcceleratorSetting::Gpu, &a), Backend::Rocm);
    a.vulkan = false;
    a.rocm = false;
    assert_eq!(select_transcribe_backend(TranscribeAcceleratorSetting::Gpu, &a), Backend::Auto);
    assert_eq!(select_transcribe_backend(TranscribeAcceleratorSetting::Cpu, &a), Backend::Cpu);
    a.gpu_disabled = true;
    assert_eq!(select_transcribe_backend(TranscribeAcceleratorSetting::Auto, &a), Backend::Cpu);
}

#[test]
fn a_device_index_must_name_a_device_that_hosts_models() {
    let devices = vec![device(0, "cpu", "CPU", "", DeviceType::Cpu), device(4, "blas", "BLAS", "", DeviceType::Accel)];
    assert_eq!(resolve_device_index(0, &devices), Ok((Backend::Auto, Some(0))));
    assert_eq!(resolve_device_index(4, &devices), Err("Device index 4 (blas) cannot host a model".to_string()));
    assert_eq!(resolve_device_index(9, &devices), Err("No compute device with index 9 (see --list-devices)".to_string()));
}

#[test]
fn latency_is_logged_with_its_lookahead() {
    assert_eq!(describe_latency(None), "model default");
    assert_eq!(describe_latency(Some(LatencyPoint { latency_ms: 320, lookahead_ms: 0 })), "320 ms");
    assert_eq!(
        describe_latency(Some(LatencyPoint { latency_ms: 560, lookahead_ms: 480 })),
        "560 ms (480 ms lookahead)"
    );
}

#[test]
fn stream_text_is_labelled_by_slot_unless_a_sink_owns_it() {
    let ev = stream_text_event(0, "a", "b", false).unwrap();
    assert_eq!(ev.slot, None);
    assert_eq!(ev.committed, "a");
    assert_eq!(stream_text_event(2, "a", "b", false).unwrap().slot, Some(2));
    assert!(stream_text_event(2, "a", "b", true).is_none());
}

#[test]
fn stream_perf_counts_frames_compute_and_updates() {
    let mut perf = StreamPerf::new(StreamTiming::new());
    perf.record_feed(1_600);
    perf.record_feed(400);
    perf.record_compute(2_500);
    perf.record_compute(1_000);
    perf.record_update(3, 1_200, 900, 300);
    perf.record_emit();
    assert_eq!(perf.feed_count, 2);
    assert_eq!(perf.streamed_samples, 2_000);
    assert_eq!(perf.stream_compute_micros, 3_500);
    assert_eq!(perf.call_max_micros, 2_500);
    assert_eq!(perf.emit_count, 1);
    assert_eq!(perf.latest_revision, 3);
    assert_eq!(perf.latest_buffered_ms, 300);
    assert_eq!(perf.timing.totals(), (2_000, 3_500));
}

#[test]
fn overlay_events_for_phases_slots_and_whole_sessions() {
    let working = working_phase_event(StreamWorkKind::Polishing);
    assert_eq!(working.phase, StreamPhase::Working);
    assert_eq!(working.kind, Some(StreamWorkKind::Polishing));

    assert!(announce_slot_event(PRIMARY_STREAM_SLOT, false).is_none());
    assert!(announce_slot_event(2, true).is_none());
    let announced = announce_slot_event(2, false).unwrap();
    assert_eq!(announced.slot, Some(2));
    assert!(announced.committed.is_empty() && announced.tentative.is_empty());
    assert!(!announced.whole_session);

    assert!(stream_text_event(1, "a", "b", true).is_none());

    let composed = composed_stream_text_event("done", "next", Some(1), None);
    assert_eq!(composed.committed, "done");
    assert_eq!(composed.tentative, "next");
    assert_eq!(composed.failed_chunks, Some(1));
    assert!(composed.whole_session);

    assert!(is_false(&false));
    assert!(!is_false(&true));
}

#[test]
fn a_models_latency_setting_follows_its_effective_chunk_size() {
    let mut settings = AppSettings::default();
    let model = "davidxifeng/Confucius4-R2T2-gguf/r2t2-q8_0.gguf";
    assert_eq!(latency_setting_point(&settings, model, None), None);
    assert_eq!(
        latency_setting_point(&settings, model, Some(NativeStreamingLatencyKind::R2T2ChunkMs)),
        Some(LatencyPoint { latency_ms: 320, lookahead_ms: 0 })
    );
    assert_eq!(resolved_stream_extension(&settings, model, None), None);
    settings.native_streaming_chunk_ms.insert(model, 160);
    assert_eq!(
        resolved_stream_extension(&settings, model, Some(NativeStreamingLatencyKind::R2T2ChunkMs)),
        Some((ExtensionKind::R2T2Stream, StreamExtension::R2T2 { chunk_size_ms: Some(160) }))
    );
    assert_eq!(
        latency_setting_point(&settings, model, Some(NativeStreamingLatencyKind::R2T2ChunkMs)),
        Some(LatencyPoint { latency_ms: 160, lookahead_ms: 0 })
    );
}
