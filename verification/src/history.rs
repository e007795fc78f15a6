//! History entries: the word count an entry records, and which entries a
//! retention policy cleans up.

use vstd::prelude::*;
use crate::text::{chars_of, count_words, word_count, is_blank, is_blank_chars, str_eq};

verus! {

/// The text whose words an entry counts: the merged result of a Multi-STT
/// entry (its transcription is every model's output and the merge, several
/// times the spoken words), else the transcription.
pub open spec fn counted_text(transcription: Seq<char>, post_processed: Option<Seq<char>>, mode: Option<Seq<char>>) -> Seq<char> {
    if mode == Some("multi_stt"@) && post_processed is Some {
        post_processed->0
    } else {
        transcription
    }
}

/// The word count an entry records: none for a blank text, else its
/// whitespace-separated words (as a 32-bit count).
pub fn counted_word_count(
    transcription_text: &str,
    post_processed_text: Option<&str>,
    mode: Option<&str>,
) -> (n: Option<i32>)
    ensures
        ({
            let t = counted_text(
                transcription_text@,
                crate::transcription::opt_str(post_processed_text),
                crate::transcription::opt_str(mode),
            );
            n == if is_blank(t) { None } else { Some(word_count(t) as i32) }
        }),
{
    let multi = match mode {
        Some(m) => str_eq(m, "multi_stt"),
        None => false,
    };
    let text = match post_processed_text {
        Some(merged) => if multi { merged } else { transcription_text },
        None => transcription_text,
    };
    let v = chars_of(text);
    if is_blank_chars(&v) {
        return None;
    }
    let n = count_words(&v);
    Some(n as i32)
}


/// The word count a stored Multi-STT entry is corrected to, when the stored
/// figure (`stored`) is not the count of its merged text: `None` when it
/// already matches or the merged text counts nothing.
pub fn repaired_word_count(
    transcription_text: &str,
    post_processed_text: Option<&str>,
    stored: Option<i32>,
) -> (r: Option<i32>)
    ensures
        ({
            let t = counted_text(
                transcription_text@,
                crate::transcription::opt_str(post_processed_text),
                Some("multi_stt"@),
            );
            let expected = if is_blank(t) { None } else { Some(word_count(t) as i32) };
            r == if expected is Some && expected != stored { expected } else { None }
        }),
{
    let expected = counted_word_count(transcription_text, post_processed_text, Some("multi_stt"));
    match expected {
        Some(n) => if stored == Some(n) { None } else { Some(n) },
        None => None,
    }
}

/// How long unsaved recordings are kept.
#[derive(Clone, Copy, Debug, PartialEq, Eq, Structural)]
pub enum RecordingRetentionPeriod {
    Never,
    PreserveLimit,
    Days3,
    Weeks2,
    Months3,
}

/// How a cleanup pass selects what to delete.
#[derive(Clone, Copy, Debug, PartialEq, Eq, Structural)]
pub enum CleanupPlan {
    /// Delete nothing.
    KeepAll,
    /// Keep the newest unsaved entries up to the history limit.
    ByCount,
    /// Delete unsaved entries older than this many seconds.
    OlderThanSecs(i64),
}

/// Seconds in a day.
pub const SECS_PER_DAY: i64 = 86_400;

/// The cleanup a retention period asks for; three months count as 90 days.
pub fn cleanup_plan(period: RecordingRetentionPeriod) -> (p: CleanupPlan)
    ensures
        p == match period {
            RecordingRetentionPeriod::Never => CleanupPlan::KeepAll,
            RecordingRetentionPeriod::PreserveLimit => CleanupPlan::ByCount,
            RecordingRetentionPeriod::Days3 => CleanupPlan::OlderThanSecs(259_200),
            RecordingRetentionPeriod::Weeks2 => CleanupPlan::OlderThanSecs(1_209_600),
            RecordingRetentionPeriod::Months3 => CleanupPlan::OlderThanSecs(7_776_000),
        },
{
    match period {
        RecordingRetentionPeriod::Never => CleanupPlan::KeepAll,
        RecordingRetentionPeriod::PreserveLimit => CleanupPlan::ByCount,
        RecordingRetentionPeriod::Days3 => CleanupPlan::OlderThanSecs(3 * SECS_PER_DAY),
        RecordingRetentionPeriod::Weeks2 => CleanupPlan::OlderThanSecs(14 * SECS_PER_DAY),
        RecordingRetentionPeriod::Months3 => CleanupPlan::OlderThanSecs(90 * SECS_PER_DAY),
    }
}

/// The timestamp (seconds) before which unsaved entries are deleted.
pub fn retention_cutoff(now_secs: i64, age_secs: i64) -> (c: i64)
    requires
        0 <= age_secs,
        i64::MIN + age_secs <= now_secs,
    ensures
        c == now_secs - age_secs,
{
    now_secs - age_secs
}

/// Of `count` unsaved entries ordered newest first, the position from which
/// entries exceed the history limit and are deleted; none within the limit.
pub fn first_over_limit(count: usize, limit: u32) -> (r: Option<usize>)
    ensures
        r == if count > limit { Some(limit as usize) } else { None::<usize> },
{
    if count > limit as usize { Some(limit as usize) } else { None }
}

} // verus!
