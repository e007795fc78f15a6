use handy_core::model_hub::{
    content_range_start, hub_notification, is_quant_variant_id, notification_clears_entry, parse_u64,
    split_runtime_id, take_response, BodyProgress, HubNotificationKind, HubRegistry, ModelCollection, ResponsePlan,
    TransportError,
};
use handy_core::hashing::{hex_lower, sha256_hex, Sha256Hasher};
use handy_core::model_hub::check_sha256;

#[test]
fn collections_have_stable_keys() {
    assert_eq!(ModelCollection::Stt.key(), "stt");
    assert_eq!(ModelCollection::Brain.key(), "brain");
    assert_eq!(ModelCollection::Tts.key(), "tts");
    assert_eq!(ModelCollection::Runtime.key(), "runtime");
}

#[test]
fn only_failures_stay_in_the_registry() {
    assert!(notification_clears_entry(HubNotificationKind::Completed));
    assert!(notification_clears_entry(HubNotificationKind::Cancelled));
    assert!(notification_clears_entry(HubNotificationKind::Deleted));
    assert!(!notification_clears_entry(HubNotificationKind::Failed));
    let n = hub_notification(ModelCollection::Runtime, "cuda-b1", "llama.cpp cuda b1", HubNotificationKind::Failed, Some("x".into()));
    assert_eq!(n.id, "cuda-b1");
    assert_eq!(n.error.as_deref(), Some("x"));
}

#[test]
fn the_registry_keeps_one_entry_per_download() {
    let mut registry: HubRegistry<u32> = HubRegistry::new();
    registry.update(ModelCollection::Stt, "a", 1);
    registry.update(ModelCollection::Brain, "a", 2);
    registry.update(ModelCollection::Stt, "a", 3);
    assert_eq!(registry.len(), 2);
    assert_eq!(registry.snapshot(), vec![3, 2]);
    registry.remove(ModelCollection::Stt, "a");
    assert_eq!(registry.snapshot(), vec![2]);
    registry.remove(ModelCollection::Stt, "missing");
    assert_eq!(registry.len(), 1);
}

#[test]
fn runtime_ids_split_at_the_last_hyphen() {
    assert_eq!(split_runtime_id("cuda-13.3-b9741"), Ok(("cuda-13.3".to_string(), "b9741".to_string())));
    assert_eq!(split_runtime_id("cpu-b1"), Ok(("cpu".to_string(), "b1".to_string())));
    assert_eq!(split_runtime_id("nohyphen"), Err("Invalid runtime id 'nohyphen'".to_string()));
    assert!(is_quant_variant_id("repo/file.Q4_K_M.gguf"));
    assert!(!is_quant_variant_id("whisper-tiny"));
}

#[test]
fn content_range_start_reads_the_first_offset() {
    assert_eq!(content_range_start("bytes 100-199/200"), Some(100));
    assert_eq!(content_range_start("  bytes   7 -9/10 "), Some(7));
    assert_eq!(content_range_start("bytes +5-9/10"), Some(5));
    assert_eq!(content_range_start("items 0-9/10"), None);
    assert_eq!(content_range_start("bytes x-9/10"), None);
    assert_eq!(content_range_start("bytes -9/10"), None);
    assert_eq!(content_range_start("bytes 18446744073709551616-1/2"), None);
}

#[test]
fn decimal_parsing_matches_the_standard_library() {
    for s in ["0", "42", "+7", "", "+", "-1", "18446744073709551615", "18446744073709551616", "1 2", "007"] {
        assert_eq!(parse_u64(s), s.parse::<u64>().ok(), "{s}");
    }
}

#[test]
fn a_response_to_a_range_request_is_checked() {
    assert_eq!(take_response(0, 200, None), Ok(ResponsePlan { resume_from: 0, restart: false }));
    assert_eq!(take_response(100, 200, None), Ok(ResponsePlan { resume_from: 0, restart: true }));
    assert_eq!(take_response(100, 206, Some("bytes 100-199/200")), Ok(ResponsePlan { resume_from: 100, restart: false }));
    assert_eq!(
        take_response(100, 206, Some("bytes 50-199/200")),
        Err(TransportError::MisalignedRange { starts_at: Some(50), expected: 100 })
    );
    assert_eq!(
        take_response(100, 206, None),
        Err(TransportError::MisalignedRange { starts_at: None, expected: 100 })
    );
    assert_eq!(take_response(0, 404, None), Err(TransportError::HttpStatus(404)));
}

#[test]
fn a_body_never_grows_past_its_announced_total() {
    let mut body = BodyProgress::start(100, Some(50));
    assert_eq!(body.total_size(), 150);
    assert_eq!(body.accept_chunk(30), Ok(()));
    assert_eq!(body.downloaded(), 130);
    assert_eq!(body.accept_chunk(21), Err(TransportError::Oversized { cap: 150 }));
    assert_eq!(body.downloaded(), 130);
    assert_eq!(body.check_complete(130), Err(TransportError::Incomplete { expected: 150, actual: 130 }));
    assert_eq!(body.accept_chunk(20), Ok(()));
    assert_eq!(body.check_complete(150), Ok(()));

    let mut open = BodyProgress::start(0, None);
    assert_eq!(open.total_size(), 0);
    assert_eq!(open.accept_chunk(1_000), Ok(()));
    assert_eq!(open.check_complete(7), Ok(()));
}

#[test]
fn the_pinned_hash_must_match() {
    assert_eq!(check_sha256("m", "ab", "ab"), Ok(()));
    assert_eq!(
        check_sha256("m", "ab", "cd"),
        Err(TransportError::Sha256Mismatch { label: "m".into(), expected: "ab".into(), actual: "cd".into() })
    );
}

#[test]
fn sha256_is_fed_in_chunks_and_printed_in_lowercase_hex() {
    assert_eq!(hex_lower(&[0x00, 0x0f, 0xa5, 0xff]), "000fa5ff");
    let mut h = Sha256Hasher::new();
    h.update(b"ab");
    h.update(b"c");
    assert_eq!(sha256_hex(h), "ba7816bf8f01cfea414140de5dae2223b00361a396177a9cb410ff61f20015ad");
    assert_eq!(sha256_hex(Sha256Hasher::new()), "e3b0c44298fc1c149afbf4c8996fb92427ae41e4649b934ca495991b7852b855");
}
