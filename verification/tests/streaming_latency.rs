use handy_core::streaming_latency::NativeStreamingLatencyKind as K;
use handy_core::streaming_latency::NativeStreamingLatencyPreset as P;
use handy_core::streaming_latency::{
    extension_for_kind, latency_point, r2t2_chunk_ms_is_valid, stream_extension_for, ExtensionKind,
    NativeStreamingLatencyKind, NativeStreamingLatencyPreset, StreamExtension, R2T2_CHUNK_MS_DEFAULT,
    R2T2_CHUNK_MS_MAX, R2T2_CHUNK_MS_MIN,
};

#[test]
fn accurate_uses_the_runtime_default() {
    assert!(extension_for_kind(
        NativeStreamingLatencyKind::ParakeetBuffered,
        NativeStreamingLatencyPreset::Accurate,
    )
    .is_none());
}

#[test]
fn fast_tier_is_model_specific_for_nemotron() {
    let (_, nemotron_35) = extension_for_kind(
        NativeStreamingLatencyKind::Nemotron35CacheAware,
        NativeStreamingLatencyPreset::Fast,
    )
    .unwrap();
    let (_, nemotron_speech) = extension_for_kind(
        NativeStreamingLatencyKind::NemotronSpeechCacheAware,
        NativeStreamingLatencyPreset::Fast,
    )
    .unwrap();
    assert_eq!(nemotron_35, StreamExtension::ParakeetStream { att_context_right: Some(3) });
    assert_eq!(nemotron_speech, StreamExtension::ParakeetStream { att_context_right: Some(1) });
}

#[test]
fn latency_points_match_the_trained_menus() {
    let presets = [P::Fastest, P::Fast, P::Balanced, P::Accurate];
    let ms = |kind| presets.map(|p| latency_point(kind, p, 0).latency_ms);
    let ahead = |kind| presets.map(|p| latency_point(kind, p, 0).lookahead_ms);

    assert_eq!(ms(K::Nemotron35CacheAware), [80, 320, 560, 1120]);
    assert_eq!(ahead(K::Nemotron35CacheAware), [0, 240, 480, 1040]);
    assert_eq!(ms(K::NemotronSpeechCacheAware), [80, 160, 560, 1120]);
    assert_eq!(ahead(K::NemotronSpeechCacheAware), [0, 80, 480, 1040]);
    assert_eq!(ms(K::ParakeetBuffered), [320, 480, 1120, 2080]);

    for kind in [K::Nemotron35CacheAware, K::NemotronSpeechCacheAware] {
        for preset in [P::Fastest, P::Fast, P::Balanced] {
            let (_, ext) = extension_for_kind(kind, preset).unwrap();
            let right = match ext {
                StreamExtension::ParakeetStream { att_context_right } => att_context_right.unwrap() as u32,
                _ => panic!("Nemotron must use the cache-aware extension"),
            };
            assert_eq!(latency_point(kind, preset, 0).lookahead_ms, right * 80);
        }
    }
}

#[test]
fn r2t2_latency_point_is_the_chunk_or_the_native_default() {
    let point = |ms| latency_point(NativeStreamingLatencyKind::R2T2ChunkMs, NativeStreamingLatencyPreset::Fastest, ms);
    assert_eq!(point(160).latency_ms, 160);
    assert_eq!(point(160).lookahead_ms, 0);
    assert_eq!(point(5000).latency_ms, R2T2_CHUNK_MS_DEFAULT);
}

#[test]
fn r2t2_chunk_bounds_admit_the_lowest_latency_and_reject_outside() {
    assert_eq!(R2T2_CHUNK_MS_MIN, 80);
    assert_eq!(R2T2_CHUNK_MS_MAX, 2000);
    assert_eq!(R2T2_CHUNK_MS_DEFAULT, 320);

    assert!(r2t2_chunk_ms_is_valid(R2T2_CHUNK_MS_MIN), "80 ms must work");
    assert!(r2t2_chunk_ms_is_valid(R2T2_CHUNK_MS_MAX), "2000 ms must work");
    assert!(r2t2_chunk_ms_is_valid(R2T2_CHUNK_MS_DEFAULT), "the fallback default must itself be in range");
    assert!(
        (R2T2_CHUNK_MS_MIN..=R2T2_CHUNK_MS_MAX).contains(&R2T2_CHUNK_MS_DEFAULT),
        "the default must lie inside the range"
    );

    assert!(!r2t2_chunk_ms_is_valid(R2T2_CHUNK_MS_MIN - 1));
    assert!(!r2t2_chunk_ms_is_valid(R2T2_CHUNK_MS_MAX + 1));
    assert!(!r2t2_chunk_ms_is_valid(0));
}

#[test]
fn r2t2_extension_carries_the_chunk_only_in_range() {
    let ext = stream_extension_for(Some(NativeStreamingLatencyKind::R2T2ChunkMs), NativeStreamingLatencyPreset::Fast, 160);
    assert_eq!(ext, Some((ExtensionKind::R2T2Stream, StreamExtension::R2T2 { chunk_size_ms: Some(160) })));
    assert_eq!(stream_extension_for(Some(NativeStreamingLatencyKind::R2T2ChunkMs), NativeStreamingLatencyPreset::Fast, 79), None);
    assert_eq!(stream_extension_for(None, NativeStreamingLatencyPreset::Fastest, 160), None);
    let buffered = stream_extension_for(Some(NativeStreamingLatencyKind::ParakeetBuffered), NativeStreamingLatencyPreset::Fastest, 0);
    assert_eq!(
        buffered,
        Some((
            ExtensionKind::ParakeetBufferedStream,
            StreamExtension::ParakeetBuffered { left_ms: Some(5600), chunk_ms: Some(160), right_ms: Some(160) }
        ))
    );
}
