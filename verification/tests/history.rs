use handy_core::history::{counted_word_count, repaired_word_count};

#[test]
fn multi_stt_word_count_uses_the_merged_text() {
    let dump = "=== Multi-STT Results ===\nModel 1: a\nhello world\nModel 2: b\nhello world\n=== Merged ===\nhello world";
    assert_eq!(counted_word_count(dump, Some("hello world"), Some("multi_stt")), Some(2));
    // Other modes keep counting the raw transcription.
    assert_eq!(counted_word_count("one two three", Some("one, two, three!"), Some("single")), Some(3));
    assert_eq!(counted_word_count("one two", Some("x"), None), Some(2));
    assert_eq!(counted_word_count("   ", None, Some("multi_stt")), None);
}

#[test]
fn multi_stt_without_merged_text_counts_the_transcription() {
    assert_eq!(counted_word_count("a b c d", None, Some("multi_stt")), Some(4));
    assert_eq!(counted_word_count("a b", Some("   "), Some("multi_stt")), None);
}

#[test]
fn an_inflated_multi_stt_count_is_repaired_from_the_merged_text() {
    let dump = "one two\nthree four\nfinal merged words";
    assert_eq!(repaired_word_count(dump, Some("final merged words"), Some(7)), Some(3));
    assert_eq!(repaired_word_count(dump, Some("final merged words"), Some(3)), None);
    assert_eq!(repaired_word_count(dump, Some("   "), Some(7)), None);
    assert_eq!(repaired_word_count(dump, None, None), Some(7));
}
