use handy_core::moonshine::{
    configure_stream_options, is_moonshine_streaming_hint, CommitPolicy, CommittedTextSink, StreamOptions,
    MOONSHINE_STREAMING_ARCHITECTURE,
};

#[test]
fn moonshine_defers_commits_for_irreversible_output() {
    let options = configure_stream_options(
        MOONSHINE_STREAMING_ARCHITECTURE,
        CommittedTextSink::IrreversibleAppendOnly,
        StreamOptions::default(),
    );
    assert_eq!(options.commit_policy, CommitPolicy::OnFinalize);
}

#[test]
fn moonshine_keeps_auto_policy_for_replaceable_preview() {
    let options = configure_stream_options(
        MOONSHINE_STREAMING_ARCHITECTURE,
        CommittedTextSink::ReplaceablePreview,
        StreamOptions::default(),
    );
    assert_eq!(options.commit_policy, CommitPolicy::Auto);
}

#[test]
fn other_architectures_keep_their_existing_policy() {
    let options = configure_stream_options(
        "voxtral_realtime",
        CommittedTextSink::IrreversibleAppendOnly,
        StreamOptions {
            commit_policy: CommitPolicy::StablePrefix,
            stable_prefix_agreement_n: 32,
            ..Default::default()
        },
    );
    assert_eq!(options.commit_policy, CommitPolicy::StablePrefix);
    assert_eq!(options.stable_prefix_agreement_n, 32);
}

#[test]
fn recognizes_catalog_and_custom_moonshine_streaming_ids() {
    assert!(is_moonshine_streaming_hint("handy-computer/moonshine-streaming-tiny-gguf"));
    assert!(is_moonshine_streaming_hint("Moonshine_Streaming_Custom.gguf"));
    assert!(!is_moonshine_streaming_hint("moonshine-tiny-gguf"));
}

#[test]
fn moonshine_policy_keeps_the_agreement_count() {
    let options = configure_stream_options(
        MOONSHINE_STREAMING_ARCHITECTURE,
        CommittedTextSink::IrreversibleAppendOnly,
        StreamOptions { commit_policy: CommitPolicy::StablePrefix, stable_prefix_agreement_n: 7 },
    );
    assert_eq!(options.commit_policy, CommitPolicy::OnFinalize);
    assert_eq!(options.stable_prefix_agreement_n, 7);
    assert!(!is_moonshine_streaming_hint("streaming"));
    assert!(is_moonshine_streaming_hint("STREAMING-MOONSHINE"));
}
