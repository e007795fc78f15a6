use handy_core::crop::{crop_decode, find_run, strip_context_prefix, tokens};
use handy_core::multi_stt::{
    append_join, break_outcome, extra_output, merge_result, chunk_failed_event, closes, concatenate, context_depth, window_context, Break, Chunk,
    JobResult, MergeQueue, MergeSession, MAX_CHUNK_SECONDS, MAX_CONTEXT_CHUNKS, SAMPLES_PER_MS,
    STREAM_DRAIN_TOLERANCE_MS, TEXT_CATCHUP_GRACE_MS,
};

/// A closed chunk with `live` text and `ms` of audio.
fn closed_chunk(id: u64, live: &str, ms: u64) -> Chunk {
    let mut chunk = Chunk::new(id);
    chunk.live = live.to_string();
    chunk.audio_samples = (ms * SAMPLES_PER_MS) as usize;
    chunk
}

fn job_result(generation: u64, chunk_id: u64) -> JobResult<()> {
    JobResult {
        generation,
        chunk_id,
        live_len: 0,
        record_outputs: false,
        merged: None,
        outputs: Default::default(),
        failed: false,
        extra: (),
    }
}

fn session_text(chunks: &[Chunk]) -> String {
    let mut out = String::new();
    for chunk in chunks {
        append_join(&mut out, &chunk.display_text());
    }
    out
}

#[test]
fn a_break_closes_the_chunk_and_nothing_else_does() {
    assert!(closes(true, true, 200));
    assert!(closes(true, true, 30_000));
    assert!(!closes(false, true, 200));
    assert!(!closes(false, true, MAX_CHUNK_SECONDS * 1000 - 1));
    assert!(closes(false, true, MAX_CHUNK_SECONDS * 1000));
}

#[test]
fn a_break_with_no_audio_closes_nothing() {
    assert!(!closes(true, false, 0));
    assert!(!closes(true, false, MAX_CHUNK_SECONDS * 1000));
}

#[test]
fn a_break_waits_for_the_chunks_own_text_then_retires_the_session() {
    let pause = 1000;
    let broken = pause + 200;
    let overdue = pause + TEXT_CATCHUP_GRACE_MS;

    assert_eq!(break_outcome(false, true, 0, overdue, pause), Break::Wait);
    assert_eq!(break_outcome(false, true, 4000, overdue, pause), Break::Wait);
    assert_eq!(break_outcome(false, false, 4000, overdue, pause), Break::Wait);

    assert_eq!(break_outcome(true, true, 0, broken, pause), Break::Close);
    assert_eq!(break_outcome(true, true, STREAM_DRAIN_TOLERANCE_MS, broken, pause), Break::Close);

    assert_eq!(break_outcome(true, true, STREAM_DRAIN_TOLERANCE_MS + 1, broken, pause), Break::Wait);
    assert_eq!(break_outcome(true, true, 1200, broken, pause), Break::Wait);
    assert_eq!(break_outcome(true, true, 1200, overdue, pause), Break::Retire);

    assert_eq!(break_outcome(true, false, 0, broken, pause), Break::Wait);
    assert_eq!(break_outcome(true, false, STREAM_DRAIN_TOLERANCE_MS, broken, pause), Break::Wait);
    assert_eq!(break_outcome(true, false, 0, overdue, pause), Break::Retire);

    assert_eq!(break_outcome(true, true, STREAM_DRAIN_TOLERANCE_MS, overdue, pause), Break::Close);
}

#[test]
fn the_context_depth_is_capped() {
    assert_eq!(context_depth(0), 0);
    assert_eq!(context_depth(1), 1);
    assert_eq!(context_depth(MAX_CONTEXT_CHUNKS as u32), MAX_CONTEXT_CHUNKS);
    assert_eq!(context_depth(99), MAX_CONTEXT_CHUNKS);
}

#[test]
fn append_join_inserts_one_space_only_when_needed() {
    let mut out = String::from("said.");
    append_join(&mut out, "Hello");
    assert_eq!(out, "said. Hello");

    let mut out = String::from("said. ");
    append_join(&mut out, "Hello");
    assert_eq!(out, "said. Hello");

    let mut out = String::from("said.");
    append_join(&mut out, " Hello");
    assert_eq!(out, "said. Hello");

    let mut out = String::new();
    append_join(&mut out, "你好。");
    append_join(&mut out, " 我很好！");
    assert_eq!(out, "你好。 我很好！");

    let mut out = String::new();
    append_join(&mut out, "日本原子能机构表示，核电站检测出了放射性");
    append_join(&mut out, "物质碘和碘。");
    assert_eq!(out, "日本原子能机构表示，核电站检测出了放射性物质碘和碘。");

    let mut out = String::from("很好");
    append_join(&mut out, "Hello");
    assert_eq!(out, "很好 Hello");
}

#[test]
fn words_are_folded_and_punctuation_is_dropped() {
    let words: Vec<String> = tokens("Hello, World. 3.14!").into_iter().map(|t| t.1).collect();
    assert_eq!(words, vec!["hello", "world", "3", "14"]);

    let cjk: Vec<String> = tokens("你好世界").into_iter().map(|t| t.1).collect();
    assert_eq!(cjk, vec!["你", "好", "世", "界"]);

    let offsets: Vec<usize> = tokens("你好").into_iter().map(|t| t.0).collect();
    assert_eq!(offsets, vec![0, 3]);
}

#[test]
fn a_decode_is_cropped_back_to_the_chunks_own_words() {
    let context = "First one. Second one.";
    let decoded = "First one. Second one. And then this is new.";
    assert_eq!(strip_context_prefix(decoded, context).as_deref(), Some("And then this is new."));
}

#[test]
fn the_crop_follows_the_longest_shared_run() {
    let context = "the quick brown fox jumps over the lazy dog";
    let decoded = "The quick brown fox jumps over the lazy log and then he sleeps";
    assert_eq!(strip_context_prefix(decoded, context).as_deref(), Some("and then he sleeps"));
}

#[test]
fn a_misheard_word_at_the_seam_does_not_defeat_the_crop() {
    let context = "one two three four five";
    let decoded = "One two three four hive and the rest is new";
    assert_eq!(strip_context_prefix(decoded, context).as_deref(), Some("and the rest is new"));
}

#[test]
fn a_decode_that_disagrees_with_the_context_is_refused() {
    assert!(strip_context_prefix("unrelated words entirely", "One. Two. Three.").is_none());
    assert!(strip_context_prefix("two", "One. Two. Three. Four.").is_none());
}

#[test]
fn no_context_means_no_crop() {
    assert_eq!(strip_context_prefix("  the chunk's own words ", "").as_deref(), Some("the chunk's own words"));
    assert_eq!(strip_context_prefix("the chunk's own words", "!!! ... ?").as_deref(), Some("the chunk's own words"));
    assert!(strip_context_prefix("the chunk's own words", "hello there friend").is_none());
}

#[test]
fn a_crop_that_ends_at_the_decodes_end_leaves_nothing() {
    assert_eq!(strip_context_prefix("One. Two. Three.", "One. Two. Three.").as_deref(), Some(""));
}

#[test]
fn a_refused_crop_drops_the_models_output() {
    assert_eq!(crop_decode("m", "unrelated words entirely", "One. Two. Three."), "");
    assert_eq!(crop_decode("m", "One. Two. Three. Four", "One. Two. Three."), "Four");
}

#[test]
fn the_window_carries_the_chunks_before_it() {
    let closed = vec![closed_chunk(1, "one", 2_000), closed_chunk(2, "two", 3_000), closed_chunk(3, "three", 4_000)];
    let (positions, text) = window_context(&closed, 2, 0);
    assert!(positions.is_empty());
    assert_eq!(text, "");

    let (positions, text) = window_context(&closed, 2, 1);
    assert_eq!(positions, vec![1]);
    assert_eq!(text, "two");

    let (positions, text) = window_context(&closed, 2, 2);
    assert_eq!(positions, vec![0, 1]);
    assert_eq!(text, "one two");
}

#[test]
fn a_windows_text_uses_what_the_chunk_is_already_showing() {
    let mut merged = closed_chunk(1, "hello world", 2_000);
    merged.apply_merge("Hello, world.".to_string(), false);
    let closed = vec![merged, closed_chunk(2, "next", 1_000)];
    let (_, text) = window_context(&closed, 1, 1);
    assert_eq!(text, "Hello, world.");
}

#[test]
fn the_walk_stops_where_the_audio_was_freed() {
    let mut freed = closed_chunk(1, "one", 2_000);
    freed.audio_samples = 0;
    let closed = vec![freed, closed_chunk(2, "two", 3_000), closed_chunk(3, "three", 4_000)];
    let (positions, text) = window_context(&closed, 2, 2);
    assert_eq!(positions, vec![1]);
    assert_eq!(text, "two");
}

#[test]
fn a_result_from_an_abandoned_merge_does_not_release_the_session() {
    let mut merge: MergeQueue<()> = MergeQueue::new();
    let abandoned = merge.next_generation();
    merge.abandon();
    let current = merge.next_generation();

    merge.push(job_result(abandoned, 1));
    let (taken, releases) = merge.take().expect("the abandoned result is applied");
    assert_eq!(taken.chunk_id, 1);
    assert!(!releases, "an abandoned result must not retire the session");
    assert!(merge.is_running(), "the current job is still in flight");

    merge.push(job_result(current, 2));
    let (taken, releases) = merge.take().expect("the current result is applied");
    assert_eq!(taken.chunk_id, 2);
    assert!(releases, "the awaited result retires the session");
    assert!(!merge.is_running());

    assert!(merge.take().is_none(), "the queue is empty");
}

#[test]
fn a_second_result_never_overwrites_the_first() {
    let mut merge: MergeQueue<()> = MergeQueue::new();
    let first = merge.next_generation();
    merge.abandon();
    let second = merge.next_generation();

    merge.push(job_result(first, 1));
    merge.push(job_result(second, 2));

    let ids: Vec<u64> = std::iter::from_fn(|| merge.take().map(|(r, _)| r.chunk_id)).collect();
    assert_eq!(ids, vec![1, 2], "both results come back, oldest first");
}

#[test]
fn a_chunk_without_a_merge_shows_its_live_text() {
    let mut chunk = Chunk::new(1);
    chunk.live = "hello world and more".to_string();
    assert_eq!(chunk.display_text(), "hello world and more");
}

#[test]
fn a_merge_replaces_the_chunks_whole_text() {
    let mut chunk = Chunk::new(1);
    chunk.live = "hello world. and the next".to_string();
    chunk.apply_merge("Hello, world. And the next.".to_string(), false);
    assert_eq!(chunk.display_text(), "Hello, world. And the next.");
}

#[test]
fn a_merge_leaves_the_chunks_before_it_untouched() {
    let mut chunks = vec![
        closed_chunk(1, "the cat sat on the mat.", 3_000),
        closed_chunk(2, "the dog barked at the door.", 3_000),
        closed_chunk(3, "and then it ran off", 2_000),
    ];
    let before = session_text(&chunks);

    chunks[1].apply_merge("the dog barked loudly at the door.".to_string(), false);
    let after = session_text(&chunks);

    let kept = "the cat sat on the mat. the dog barked ";
    assert!(before.starts_with(kept));
    assert!(after.starts_with(kept));
    assert_eq!(&before[kept.len()..], "at the door. and then it ran off");
    assert_eq!(&after[kept.len()..], "loudly at the door. and then it ran off");
}

#[test]
fn a_merge_that_shortens_a_chunk_deletes_the_block_it_replaces() {
    let mut chunks = vec![closed_chunk(1, "and then and then", 2_000), closed_chunk(2, "we went home", 2_000)];
    let before = session_text(&chunks);

    chunks[0].apply_merge("and then".to_string(), false);
    let after = session_text(&chunks);

    let kept = "and then ";
    assert!(before.starts_with(kept));
    assert!(after.starts_with(kept));
    assert_eq!(&before[kept.len()..], "and then we went home");
    assert_eq!(&after[kept.len()..], "we went home");
}

#[test]
fn the_fallback_puts_every_model_on_its_own_line() {
    let mut outputs: [String; 4] = Default::default();
    outputs[1] = "second".to_string();
    outputs[2] = String::new();
    outputs[3] = "fourth".to_string();
    assert_eq!(concatenate("first", &outputs), "first\nsecond\nfourth");
    assert_eq!(concatenate("", &Default::default()), "");
}

#[test]
fn a_chunk_duration_is_its_samples_at_sixteen_per_millisecond() {
    assert_eq!(closed_chunk(1, "", 2_500).duration_ms(), 2_500);
}

#[test]
fn a_failed_merge_event_numbers_chunks_from_one() {
    let e = chunk_failed_event(0, 3);
    assert_eq!(e.chunk, 1);
    assert_eq!(e.failed_chunks, 3);
}

#[test]
fn a_session_composes_its_closed_chunks() {
    let mut session: MergeSession<()> = MergeSession::new(1);
    session.add_audio(16_000);
    session.absorb_committed("hello world");
    let input = session.close_open_chunk();
    assert_eq!(input.live, "hello world");
    assert_eq!(session.compose_committed(), "hello world");
}

fn closed_session(text: &str) -> MergeSession<()> {
    let mut session: MergeSession<()> = MergeSession::new(1);
    session.add_audio(16_000);
    session.absorb_committed(text);
    let _ = session.close_open_chunk();
    session
}

#[test]
fn a_merge_result_lands_on_its_closed_chunk_and_accumulates_outputs() {
    let mut session = closed_session("hello world");
    let mut result = job_result(0, 0);
    result.live_len = 11;
    result.record_outputs = true;
    result.merged = Some("Hello, world.".to_string());
    result.outputs[1] = "hi world".to_string();
    assert_eq!(session.apply_job_result(result), (true, false));
    assert_eq!(session.compose_committed(), "Hello, world.");
    assert_eq!(session.retry, None);
    let outputs = session.take_model_outputs("primary".to_string());
    assert_eq!(outputs, vec!["primary".to_string(), "hi world".to_string(), String::new(), String::new()]);
    assert!(session.outputs.iter().all(|o| o.is_empty()));
}

#[test]
fn a_failed_merge_shows_the_fallback_and_is_offered_again() {
    let mut session = closed_session("hello world");
    let mut result = job_result(0, 0);
    result.live_len = 5;
    result.failed = true;
    result.outputs[2] = "hallo welt".to_string();
    assert_eq!(session.apply_job_result(result), (true, true));
    assert_eq!(session.compose_committed(), "hello\nhallo welt");
    assert_eq!(session.failed_chunks, 1);
    assert_eq!(session.retry, Some(0));

    let retry = session.retry_failed_chunk().expect("the failed chunk still has its audio");
    assert_eq!(retry.chunk_id, 0);
    assert_eq!(retry.index, 0);
    assert_eq!(retry.live, "hello world");
    assert!(!retry.record_outputs);
    assert_eq!(session.retry, None);
    assert!(session.retry_failed_chunk().is_none());
}

#[test]
fn a_result_for_a_chunk_that_is_gone_changes_nothing() {
    let mut session = closed_session("hello world");
    assert_eq!(session.apply_job_result(job_result(0, 7)), (false, false));
    let mut too_long = job_result(0, 0);
    too_long.live_len = 40;
    too_long.merged = Some("other".to_string());
    assert_eq!(session.apply_job_result(too_long), (false, false));
    assert_eq!(session.compose_committed(), "hello world");
}

#[test]
fn the_last_chunk_is_merged_only_when_it_holds_something() {
    let mut empty: MergeSession<()> = MergeSession::new(1);
    empty.absorb_committed("   ");
    assert!(empty.close_last_chunk().is_none());
    assert_eq!(empty.closed.len(), 1);

    let mut spoken: MergeSession<()> = MergeSession::new(1);
    spoken.absorb_committed("goodbye");
    let input = spoken.close_last_chunk().expect("text makes the last chunk count");
    assert_eq!(input.live, "goodbye");
    assert!(input.record_outputs);
    assert_eq!(spoken.next_chunk_id, 2);
}

#[test]
fn a_run_of_words_is_found_by_folded_text() {
    let hay = tokens("The cat sat on the mat");
    assert_eq!(find_run(&hay, &tokens("SAT, on")), Some(2));
    assert_eq!(find_run(&hay, &tokens("the mat")), Some(4));
    assert_eq!(find_run(&hay, &tokens("on a mat")), None);
    assert_eq!(find_run(&hay, &tokens("")), None);
}

#[test]
fn a_landed_result_is_collected_and_releases_the_wait() {
    let mut session = closed_session("hello world");
    assert!(!session.collect_merge_result());
    let generation = session.merge.next_generation();
    assert!(session.merge.is_running());
    let mut result = job_result(generation, 0);
    result.live_len = 11;
    result.merged = Some("Hello world.".to_string());
    session.merge.push(result);
    assert!(session.collect_merge_result());
    assert!(!session.merge.is_running());
    assert_eq!(session.compose_committed(), "Hello world.");
    assert!(!session.collect_merge_result());
}

#[test]
fn an_extra_contributes_only_a_loaded_successful_decode() {
    let context = "we went to the store and bought milk";
    let decoded = "to the store and bought milk then we drove home".to_string();
    assert_eq!(extra_output("m", false, Ok(decoded.clone()), context), "");
    assert_eq!(extra_output("m", true, Err("boom".to_string()), context), "");
    assert_eq!(extra_output("m", true, Ok(decoded.clone()), context), crop_decode("m", &decoded, context));
    assert_eq!(extra_output("m", true, Ok(decoded), context), "then we drove home");
}

#[test]
fn a_blank_or_missing_merge_is_a_failure_only_when_a_prompt_is_set() {
    assert_eq!(merge_result(false, Some("text".to_string())), (None, false));
    assert_eq!(merge_result(true, None), (None, true));
    assert_eq!(merge_result(true, Some("  ".to_string())), (None, true));
    assert_eq!(merge_result(true, Some("Merged.".to_string())), (Some("Merged.".to_string()), false));
}
