//! The multi-model streaming merge session: when a chunk closes, how the
//! extras' decodes are cropped back to it, how chunks are joined into the
//! session's text, and the bookkeeping of merge jobs and their results.
//!
//! Text offsets into the stream's committed text are byte offsets, like the
//! stream's own; everything else is stated over characters.

use vstd::prelude::*;
use vstd::utf8::*;
use vstd::string::*;
use std::collections::VecDeque;
use crate::crop::{crop_decode, strip_spec};
use crate::text::{is_ws, is_white_space, chars_of, string_from_chars, extend_chars, str_byte_len, is_blank, is_blank_chars, str_eq, has_prefix, starts_with_chars};

verus! {

broadcast use vstd::utf8::group_utf8_lib;

/// Samples per millisecond of the 16 kHz audio the tap and the stream share.
pub const SAMPLES_PER_MS: u64 = 16;

/// A chunk that has grown this long without a break is closed anyway.
pub const MAX_CHUNK_SECONDS: i64 = 60;

/// The most already-closed chunks a merge window may carry.
pub const MAX_CONTEXT_CHUNKS: usize = 3;

/// Un-drained audio still counted as having reached the end of a chunk.
pub const STREAM_DRAIN_TOLERANCE_MS: i64 = 500;

/// How long a break waits for the chunk's own text, in milliseconds.
pub const TEXT_CATCHUP_GRACE_MS: u64 = 2500;

/// The UTF-8 length in bytes of `s`.
pub open spec fn byte_len(s: &str) -> int {
    s.spec_bytes().len() as int
}

/// The largest char boundary of `bytes` at or before `at`.
pub open spec fn floor_boundary(bytes: Seq<u8>, at: int) -> int
    decreases at,
{
    if at <= 0 {
        0
    } else if is_char_boundary(bytes, at) {
        at
    } else {
        floor_boundary(bytes, at - 1)
    }
}

/// The largest index `<= at` that is a char boundary of `text`, or the text's
/// byte length when `at` is past its end.
pub fn clamp_boundary(text: &str, at: usize) -> (r: usize)
    ensures
        at >= byte_len(text) ==> r == byte_len(text),
        at < byte_len(text) ==> {
            &&& r <= at
            &&& is_char_boundary(text.spec_bytes(), r as int)
            &&& forall|k: int| r < k <= at ==> !is_char_boundary(text.spec_bytes(), k)
            &&& r == floor_boundary(text.spec_bytes(), at as int)
        },
{
    let len = str_byte_len(text);
    if at >= len {
        return len;
    }
    let mut at = at;
    let ghost start = at;
    proof {
        assert(valid_utf8(text.spec_bytes()));
        assert(is_char_boundary(text.spec_bytes(), 0));
    }
    while at > 0 && !text.is_char_boundary(at)
        invariant
            at <= start < byte_len(text),
            valid_utf8(text.spec_bytes()),
            forall|k: int| at < k <= start ==> !is_char_boundary(text.spec_bytes(), k),
            floor_boundary(text.spec_bytes(), start as int) == floor_boundary(
                text.spec_bytes(),
                at as int,
            ),
        decreases at,
    {
        at = at - 1;
    }
    at
}

/// Whether `c` belongs to a script that puts no spaces between words: CJK
/// punctuation, kana, CJK ideographs and the fullwidth forms.
pub open spec fn unspaced(c: char) -> bool {
    let u = c as u32;
    ||| 0x3000 <= u <= 0x303F
    ||| 0x3040 <= u <= 0x30FF
    ||| 0x3400 <= u <= 0x4DBF
    ||| 0x4E00 <= u <= 0x9FFF
    ||| 0xF900 <= u <= 0xFAFF
    ||| 0xFF00 <= u <= 0xFFEF
}

/// Executable form of [`unspaced`].
pub fn is_unspaced_script(c: char) -> (b: bool)
    ensures
        b == unspaced(c),
{
    let u = c as u32;
    (0x3000 <= u && u <= 0x303F) || (0x3040 <= u && u <= 0x30FF) || (0x3400 <= u && u <= 0x4DBF)
        || (0x4E00 <= u && u <= 0x9FFF) || (0xF900 <= u && u <= 0xFAFF) || (0xFF00 <= u && u
        <= 0xFFEF)
}

/// Whether joining `piece` onto `out` inserts a space: neither side supplies
/// white space at the seam, and the seam is not inside an unspaced script.
pub open spec fn join_needs_space(out: Seq<char>, piece: Seq<char>) -> bool {
    &&& out.len() > 0
    &&& piece.len() > 0
    &&& !is_ws(out.last())
    &&& !is_ws(piece[0])
    &&& !(unspaced(out.last()) && unspaced(piece[0]))
}

/// `out` with `piece` appended, one space inserted where neither side
/// supplies one.
pub open spec fn joined(out: Seq<char>, piece: Seq<char>) -> Seq<char> {
    if piece.len() == 0 {
        out
    } else if join_needs_space(out, piece) {
        out.push(' ') + piece
    } else {
        out + piece
    }
}

/// [`joined`] on character vectors, in place.
pub fn join_chars(out: &mut Vec<char>, piece: &Vec<char>)
    ensures
        final(out)@ == joined(old(out)@, piece@),
{
    if piece.len() == 0 {
        return;
    }
    if out.len() > 0 {
        let last = out[out.len() - 1];
        let first = piece[0];
        if !is_white_space(last) && !is_white_space(first) && !(is_unspaced_script(last)
            && is_unspaced_script(first)) {
            out.push(' ');
        }
    }
    extend_chars(out, piece);
}

/// Append `piece` to `out`, inserting one space if neither side supplies one
/// and the seam is not between two characters of an unspaced script.
pub fn append_join(out: &mut String, piece: &str)
    ensures
        final(out)@ == joined(old(out)@, piece@),
{
    let mut v = chars_of(out.as_str());
    let p = chars_of(piece);
    join_chars(&mut v, &p);
    *out = string_from_chars(&v);
}

/// How many already-closed chunks a merge window carries, from the setting.
pub fn context_depth(raw: u32) -> (d: usize)
    ensures
        d == if raw < MAX_CONTEXT_CHUNKS { raw as usize } else { MAX_CONTEXT_CHUNKS },
{
    if (raw as usize) < MAX_CONTEXT_CHUNKS {
        raw as usize
    } else {
        MAX_CONTEXT_CHUNKS
    }
}

/// Whether the open chunk closes: a break or the valve, and audio behind it.
pub fn closes(paused: bool, has_audio: bool, chunk_ms: i64) -> (b: bool)
    ensures
        b == (has_audio && (paused || chunk_ms >= MAX_CHUNK_SECONDS * 1000)),
{
    has_audio && (paused || chunk_ms >= MAX_CHUNK_SECONDS * 1000)
}

/// What a break in the audio does with the chunk that was open.
#[derive(Debug, PartialEq, Eq, Structural, Clone, Copy)]
pub enum Break {
    /// Nothing yet: no break, or the chunk's own text is still owed.
    Wait,
    /// Close the chunk and merge it.
    Close,
    /// Close nothing; the session retires itself.
    Retire,
}

/// Decide what a break does, from what the chunk holds and how long (in
/// milliseconds) the pause has lasted against the configured pause.
pub fn break_outcome(closes: bool, has_text: bool, stream_drain_ms: i64, paused_for_ms: u64, pause_ms: u64)
    -> (b: Break)
    ensures
        b == if !closes {
            Break::Wait
        } else if has_text && stream_drain_ms <= STREAM_DRAIN_TOLERANCE_MS {
            Break::Close
        } else if paused_for_ms >= pause_ms + TEXT_CATCHUP_GRACE_MS {
            Break::Retire
        } else {
            Break::Wait
        },
{
    if !closes {
        return Break::Wait;
    }
    if has_text && stream_drain_ms <= STREAM_DRAIN_TOLERANCE_MS {
        return Break::Close;
    }
    if paused_for_ms >= pause_ms && paused_for_ms - pause_ms >= TEXT_CATCHUP_GRACE_MS {
        return Break::Retire;
    }
    Break::Wait
}


/// Texts joined one per line, empty ones skipped.
pub open spec fn lines_join(items: Seq<Seq<char>>) -> Seq<char>
    decreases items.len(),
{
    if items.len() == 0 {
        Seq::empty()
    } else {
        let prev = lines_join(items.drop_last());
        let t = items.last();
        if t.len() == 0 {
            prev
        } else if prev.len() == 0 {
            t
        } else {
            prev.push('\n') + t
        }
    }
}

/// What one extra model contributes to a chunk's merge: nothing when it is
/// not loaded or its decode of the window failed, else that decode cropped
/// back to the chunk (see [`crop_decode`]).
pub fn extra_output(model_id: &str, loaded: bool, decoded: Result<String, String>, context: &str) -> (t: String)
    ensures
        !loaded ==> t@.len() == 0,
        loaded ==> match decoded {
            Err(_) => t@.len() == 0,
            Ok(d) => if is_blank(d@) {
                t@.len() == 0
            } else {
                t@ == match strip_spec(d@, context@) {
                    Some(c) => c,
                    None => Seq::empty(),
                }
            },
        },
{
    if !loaded {
        return String::new();
    }
    match decoded {
        Ok(text) => crop_decode(model_id, text.as_str(), context),
        Err(_) => String::new(),
    }
}

/// A chunk's merge result from the merge step: `None` when no merge prompt
/// is configured (not a failure); with one, the cleaned text when there is
/// some, and a failure when the merge gave nothing or only blank text (an
/// empty merge would delete text already on screen). Returns the merged text
/// and whether the merge failed.
pub fn merge_result(has_merge_prompt: bool, cleaned: Option<String>) -> (r: (Option<String>, bool))
    ensures
        !has_merge_prompt ==> r == (None::<String>, false),
        has_merge_prompt ==> match cleaned {
            None => r == (None::<String>, true),
            Some(t) => if is_blank(t@) {
                r == (None::<String>, true)
            } else {
                r == (Some(t), false)
            },
        },
{
    if !has_merge_prompt {
        return (None, false);
    }
    match cleaned {
        None => (None, true),
        Some(text) => {
            let v = chars_of(text.as_str());
            if is_blank_chars(&v) {
                (None, true)
            } else {
                (Some(text), false)
            }
        },
    }
}

/// The fallback shape of a chunk whose merge failed: the primary's text and
/// the extras' outputs (slots 1 to 3), each on its own line, empty ones
/// skipped.
pub fn concatenate(primary: &str, outputs: &[String; 4]) -> (r: String)
    ensures
        r@ == lines_join(seq![primary@, outputs@[1]@, outputs@[2]@, outputs@[3]@]),
{
    let ghost items = seq![primary@, outputs@[1]@, outputs@[2]@, outputs@[3]@];
    let mut combined: Vec<char> = Vec::new();
    let mut i: usize = 0;
    while i < 4
        invariant
            i <= 4,
            items == seq![primary@, outputs@[1]@, outputs@[2]@, outputs@[3]@],
            combined@ == lines_join(items.take(i as int)),
        decreases 4 - i,
    {
        let text = if i == 0 {
            chars_of(primary)
        } else {
            chars_of(outputs[i].as_str())
        };
        proof {
            assert(items.take(i as int + 1).drop_last() =~= items.take(i as int));
            assert(text@ == items[i as int]);
        }
        if text.len() > 0 {
            if combined.len() > 0 {
                combined.push('\n');
            }
            extend_chars(&mut combined, &text);
        }
        i = i + 1;
    }
    assert(items.take(4) =~= items);
    string_from_chars(&combined)
}


/// One chunk of the session: an append-only live text, the merged text once a
/// merge has landed, and how many audio samples stand behind it (the samples
/// themselves are kept by the caller, indexed by chunk).
pub struct Chunk {
    pub id: u64,
    pub live: String,
    pub merged_text: Option<String>,
    pub audio_samples: usize,
    pub failed: bool,
}

/// What a chunk contributes to the session's text: its merged text once a
/// merge has landed, its live text until then.
pub open spec fn display_of(c: Chunk) -> Seq<char> {
    match c.merged_text {
        Some(t) => t@,
        None => c.live@,
    }
}

impl Chunk {
    pub fn new(id: u64) -> (c: Chunk)
        ensures
            c.id == id,
            c.live@.len() == 0,
            c.merged_text is None,
            c.audio_samples == 0,
            !c.failed,
    {
        Chunk { id, live: String::new(), merged_text: None, audio_samples: 0, failed: false }
    }

    /// The merged text once a merge has landed, the live text until then.
    pub fn display_text(&self) -> (t: String)
        ensures
            t@ == display_of(*self),
    {
        match &self.merged_text {
            Some(t) => t.clone(),
            None => self.live.clone(),
        }
    }

    /// Length of the chunk's audio in milliseconds.
    pub fn duration_ms(&self) -> (ms: i64)
        requires
            self.audio_samples <= i64::MAX,
        ensures
            ms == (self.audio_samples as int) / (SAMPLES_PER_MS as int),
    {
        (self.audio_samples as i64) / (SAMPLES_PER_MS as i64)
    }

    /// Record a merge result: the merged text replaces the chunk's whole text.
    pub fn apply_merge(&mut self, text: String, failed: bool)
        ensures
            final(self).merged_text == Some(text),
            final(self).failed == failed,
            final(self).id == old(self).id,
            final(self).live == old(self).live,
            final(self).audio_samples == old(self).audio_samples,
    {
        self.merged_text = Some(text);
        self.failed = failed;
    }
}

/// The display texts of `chunks`, joined in order.
pub open spec fn join_displays(chunks: Seq<Chunk>) -> Seq<char>
    decreases chunks.len(),
{
    if chunks.len() == 0 {
        Seq::empty()
    } else {
        joined(join_displays(chunks.drop_last()), display_of(chunks.last()))
    }
}

/// How many chunks before `index` a window of depth `depth` carries: walking
/// back from `index`, up to `depth` chunks, stopping at the first whose audio
/// has been freed.
pub open spec fn context_len(closed: Seq<Chunk>, index: int, depth: int) -> int
    decreases depth,
{
    if depth <= 0 || index <= 0 || closed[index - 1].audio_samples == 0 {
        0
    } else {
        1 + context_len(closed, index - 1, depth - 1)
    }
}

proof fn lemma_context_len_bounds(closed: Seq<Chunk>, index: int, depth: int)
    requires
        0 <= index <= closed.len(),
    ensures
        0 <= context_len(closed, index, depth) <= index,
        depth >= 0 ==> context_len(closed, index, depth) <= depth,
        forall|k: int|
            index - context_len(closed, index, depth) <= k < index ==> #[trigger] closed[k].audio_samples
                > 0,
    decreases depth,
{
    if depth > 0 && index > 0 && closed[index - 1].audio_samples != 0 {
        lemma_context_len_bounds(closed, index - 1, depth - 1);
    }
}

/// The context a merge window carries in front of `closed[index]`: the
/// positions of the chunks before it (oldest first; their audio is the
/// window's lead-in) and the text they already show, joined.
pub fn window_context(closed: &Vec<Chunk>, index: usize, depth: usize) -> (r: (Vec<usize>, String))
    requires
        index <= closed@.len(),
    ensures
        ({
            let n = context_len(closed@, index as int, depth as int);
            &&& r.0@ == Seq::new(n as nat, |k: int| (index - n + k) as usize)
            &&& r.1@ == join_displays(closed@.subrange(index - n, index as int))
        }),
{
    let ghost n = context_len(closed@, index as int, depth as int);
    proof {
        lemma_context_len_bounds(closed@, index as int, depth as int);
    }
    let mut taken: usize = 0;
    while taken < depth && taken < index && closed[index - 1 - taken].audio_samples != 0
        invariant
            index <= closed@.len(),
            taken <= index,
            taken <= depth,
            context_len(closed@, index as int, depth as int) == taken + context_len(
                closed@,
                index - taken,
                depth - taken,
            ),
        decreases index - taken,
    {
        taken = taken + 1;
    }
    assert(taken == n);
    let first = index - taken;
    let mut positions: Vec<usize> = Vec::new();
    let mut text: Vec<char> = Vec::new();
    let mut i = first;
    while i < index
        invariant
            first == index - n,
            first <= i <= index <= closed@.len(),
            positions@ == Seq::new((i - first) as nat, |k: int| (first + k) as usize),
            text@ == join_displays(closed@.subrange(first as int, i as int)),
        decreases index - i,
    {
        positions.push(i);
        let shown = closed[i].display_text();
        let piece = chars_of(shown.as_str());
        join_chars(&mut text, &piece);
        proof {
            assert(closed@.subrange(first as int, i + 1).drop_last() =~= closed@.subrange(
                first as int,
                i as int,
            ));
        }
        i = i + 1;
        assert(positions@ =~= Seq::new((i - first) as nat, |k: int| (first + k) as usize));
    }
    (positions, string_from_chars(&text))
}

/// A finished merge job's result, as the session bookkeeping sees it;
/// `extra` carries whatever the caller attaches (timings, provider data).
pub struct JobResult<X> {
    /// The dispatch generation this job was created under.
    pub generation: u64,
    pub chunk_id: u64,
    /// The byte length of the chunk's live text when the job was dispatched.
    pub live_len: usize,
    pub record_outputs: bool,
    /// `None` when no merge text was produced.
    pub merged: Option<String>,
    pub outputs: [String; 4],
    /// A merge was configured and asked for but did not produce text.
    pub failed: bool,
    pub extra: X,
}

/// The merge jobs a session has handed out and the results that have come
/// back for them, oldest first.
pub struct MergeQueue<X> {
    results: VecDeque<JobResult<X>>,
    generation: u64,
    running: bool,
}

impl<X> MergeQueue<X> {
    /// The results waiting to be taken, oldest first.
    pub closed spec fn pending(self) -> Seq<JobResult<X>> {
        self.results@
    }

    /// The newest job's generation, which is the one being waited for.
    pub closed spec fn current(self) -> u64 {
        self.generation
    }

    /// Whether the session is waiting for a job.
    pub closed spec fn busy(self) -> bool {
        self.running
    }

    pub fn new() -> (q: Self)
        ensures
            q.pending().len() == 0,
            q.current() == 0,
            !q.busy(),
    {
        MergeQueue { results: VecDeque::new(), generation: 0, running: false }
    }

    /// The generation a job dispatched now runs under, marking the session
    /// busy.
    pub fn next_generation(&mut self) -> (g: u64)
        requires
            !old(self).busy(),
            old(self).current() < u64::MAX,
        ensures
            g == old(self).current() + 1,
            final(self).current() == g,
            final(self).busy(),
            final(self).pending() == old(self).pending(),
    {
        self.generation = self.generation + 1;
        self.running = true;
        self.generation
    }

    /// Queue a job's result behind every result already waiting.
    pub fn push(&mut self, result: JobResult<X>)
        ensures
            final(self).pending() == old(self).pending().push(result),
            final(self).current() == old(self).current(),
            final(self).busy() == old(self).busy(),
    {
        self.results.push_back(result);
    }

    /// Take the oldest result, and whether it releases the session: only the
    /// result of the generation being waited for does.
    pub fn take(&mut self) -> (r: Option<(JobResult<X>, bool)>)
        ensures
            old(self).pending().len() == 0 ==> {
                &&& r is None
                &&& final(self).pending().len() == 0
                &&& final(self).current() == old(self).current()
                &&& final(self).busy() == old(self).busy()
            },
            old(self).pending().len() > 0 ==> {
                let first = old(self).pending()[0];
                let releases = first.generation == old(self).current();
                &&& r == Some((first, releases))
                &&& final(self).pending() == old(self).pending().drop_first()
                &&& final(self).current() == old(self).current()
                &&& final(self).busy() == (old(self).busy() && !releases)
            },
    {
        match self.results.pop_front() {
            None => None,
            Some(result) => {
                let releases = result.generation == self.generation;
                if releases {
                    self.running = false;
                }
                Some((result, releases))
            },
        }
    }

    /// Stop waiting for the in-flight job without cancelling it.
    pub fn abandon(&mut self)
        ensures
            !final(self).busy(),
            final(self).pending() == old(self).pending(),
            final(self).current() == old(self).current(),
    {
        self.running = false;
    }

    /// Drop every waiting result.
    pub fn clear(&mut self)
        ensures
            final(self).pending().len() == 0,
            final(self).busy() == old(self).busy(),
            final(self).current() == old(self).current(),
    {
        self.results.clear();
    }

    /// Whether the session is waiting for a job.
    pub fn is_running(&self) -> (b: bool)
        ensures
            b == self.busy(),
    {
        self.running
    }

    /// The generation being waited for.
    pub fn generation(&self) -> (g: u64)
        ensures
            g == self.current(),
    {
        self.generation
    }
}


/// The characters of `text` from byte `at` on.
pub fn suffix_from(text: &str, at: usize) -> (t: String)
    requires
        is_char_boundary(text.spec_bytes(), at as int),
    ensures
        t@ == decode_utf8(text.spec_bytes().subrange(at as int, byte_len(text))),
{
    let (_, tail) = text.split_at(at);
    proof {
        assert(decode_utf8(encode_utf8(tail@)) == tail@);
    }
    tail.to_owned()
}

/// The characters of `text` before byte `at`.
pub fn prefix_to(text: &str, at: usize) -> (t: String)
    requires
        is_char_boundary(text.spec_bytes(), at as int),
    ensures
        t@ == decode_utf8(text.spec_bytes().subrange(0, at as int)),
{
    let (head, _) = text.split_at(at);
    proof {
        assert(decode_utf8(encode_utf8(head@)) == head@);
    }
    head.to_owned()
}

/// One chunk's merge input, snapshotted when the job is dispatched: the
/// window's context chunks (positions into the closed list, oldest first,
/// whose audio precedes the chunk's own), their displayed text, and the
/// chunk's own text.
pub struct JobInput {
    pub chunk_id: u64,
    /// Position of the chunk in the closed list.
    pub index: usize,
    pub live: String,
    pub context_positions: Vec<usize>,
    pub context_text: String,
    pub record_outputs: bool,
}

/// The bookkeeping of one multi-model streaming session: the open chunk, the
/// closed ones, how far the stream's committed text has been read, the
/// failed chunk waiting for a retry, and the extras' accumulated outputs.
pub struct MergeSession<X> {
    pub next_chunk_id: u64,
    pub open: Chunk,
    pub closed: Vec<Chunk>,
    /// Byte offset in the stream's committed text up to which the open
    /// chunk's live text has been copied.
    pub live_copied: usize,
    pub retry: Option<u64>,
    pub failed_chunks: u32,
    /// Per-slot extras' outputs; slot 0 is unused.
    pub outputs: Vec<String>,
    pub merge: MergeQueue<X>,
    /// The context-window setting, as stored.
    pub context_chunks: u32,
}

/// The position in `closed` from which chunks are kept with their audio.
pub open spec fn keep_from(closed_len: int, depth: int) -> int {
    if closed_len >= depth {
        closed_len - depth
    } else {
        0
    }
}

/// Effective context depth of a stored setting.
pub open spec fn depth_of(raw: u32) -> int {
    if raw < MAX_CONTEXT_CHUNKS {
        raw as int
    } else {
        MAX_CONTEXT_CHUNKS as int
    }
}

/// Chunk `c` at position `i` after the audio that fell out of every window
/// has been freed.
pub open spec fn retained(c: Chunk, i: int, keep: int, retry: Option<u64>) -> Chunk {
    if i < keep && retry != Some(c.id) {
        Chunk { audio_samples: 0, ..c }
    } else {
        c
    }
}

impl<X> MergeSession<X> {
    /// A session with an empty open chunk 0.
    pub fn new(context_chunks: u32) -> (s: Self)
        ensures
            s.next_chunk_id == 1,
            s.open.id == 0,
            s.open.live@.len() == 0,
            s.open.merged_text is None,
            s.open.audio_samples == 0,
            !s.open.failed,
            s.closed@.len() == 0,
            s.live_copied == 0,
            s.retry is None,
            s.failed_chunks == 0,
            s.outputs@.len() == 4,
            forall|i: int| 0 <= i < 4 ==> (#[trigger] s.outputs@[i])@.len() == 0,
            s.merge.pending().len() == 0,
            !s.merge.busy(),
            s.context_chunks == context_chunks,
    {
        let mut outputs: Vec<String> = Vec::new();
        outputs.push(String::new());
        outputs.push(String::new());
        outputs.push(String::new());
        outputs.push(String::new());
        MergeSession {
            next_chunk_id: 1,
            open: Chunk::new(0),
            closed: Vec::new(),
            live_copied: 0,
            retry: None,
            failed_chunks: 0,
            outputs,
            merge: MergeQueue::new(),
            context_chunks,
        }
    }

    /// Record `samples` more audio samples behind the open chunk.
    pub fn add_audio(&mut self, samples: usize)
        requires
            old(self).open.audio_samples + samples <= usize::MAX,
        ensures
            final(self).open == (Chunk {
                audio_samples: (old(self).open.audio_samples + samples) as usize,
                ..old(self).open
            }),
            final(self).closed == old(self).closed,
            final(self).live_copied == old(self).live_copied,
            final(self).next_chunk_id == old(self).next_chunk_id,
    {
        self.open.audio_samples = self.open.audio_samples + samples;
    }

    /// Read the stream's latest committed text into the open chunk. The
    /// committed text only grows; if it shrank anyway, the open chunk is
    /// re-anchored: its live text is dropped and reading resumes at the new
    /// end.
    pub fn absorb_committed(&mut self, committed: &str)
        ensures
            ({
                let len = byte_len(committed);
                let anchored_live = if len < old(self).live_copied {
                    Seq::<char>::empty()
                } else {
                    old(self).open.live@
                };
                let anchored_copied = if len < old(self).live_copied {
                    len
                } else {
                    old(self).live_copied as int
                };
                &&& final(self).live_copied == len
                &&& final(self).open.live@ == if len > anchored_copied {
                    anchored_live + decode_utf8(
                        committed.spec_bytes().subrange(
                            floor_boundary(committed.spec_bytes(), anchored_copied),
                            len,
                        ),
                    )
                } else {
                    anchored_live
                }
            }),
            final(self).open.id == old(self).open.id,
            final(self).open.merged_text == old(self).open.merged_text,
            final(self).open.audio_samples == old(self).open.audio_samples,
            final(self).open.failed == old(self).open.failed,
            final(self).closed == old(self).closed,
            final(self).next_chunk_id == old(self).next_chunk_id,
            final(self).retry == old(self).retry,
            final(self).failed_chunks == old(self).failed_chunks,
            final(self).outputs == old(self).outputs,
    {
        let len = str_byte_len(committed);
        if len < self.live_copied {
            self.open.live = String::new();
            self.live_copied = len;
        }
        if len > self.live_copied {
            let at = clamp_boundary(committed, self.live_copied);
            let tail = suffix_from(committed, at);
            self.open.live.append(tail.as_str());
            self.live_copied = len;
        }
    }

    /// Free the audio of the closed chunks that have fallen out of every
    /// merge window, keeping that of a chunk waiting for a retry.
    pub fn retain_context_audio(&mut self)
        ensures
            final(self).closed@.len() == old(self).closed@.len(),
            forall|i: int|
                0 <= i < old(self).closed@.len() ==> #[trigger] final(self).closed@[i] == retained(
                    old(self).closed@[i],
                    i,
                    keep_from(old(self).closed@.len() as int, depth_of(old(self).context_chunks)),
                    old(self).retry,
                ),
            final(self).open == old(self).open,
            final(self).live_copied == old(self).live_copied,
            final(self).next_chunk_id == old(self).next_chunk_id,
            final(self).retry == old(self).retry,
            final(self).failed_chunks == old(self).failed_chunks,
            final(self).outputs == old(self).outputs,
            final(self).context_chunks == old(self).context_chunks,
            final(self).merge == old(self).merge,
    {
        let depth = context_depth(self.context_chunks);
        let n = self.closed.len();
        let keep = if n >= depth { n - depth } else { 0 };
        let ghost orig = self.closed@;
        let mut i: usize = 0;
        while i < n
            invariant
                n == orig.len(),
                keep == keep_from(n as int, depth_of(self.context_chunks)),
                i <= n,
                self.closed@.len() == n,
                forall|k: int|
                    0 <= k < i ==> #[trigger] self.closed@[k] == retained(orig[k], k, keep as int, self.retry),
                forall|k: int| i <= k < n ==> #[trigger] self.closed@[k] == orig[k],
                self.merge == old(self).merge,
                self.open == old(self).open,
                self.live_copied == old(self).live_copied,
                self.next_chunk_id == old(self).next_chunk_id,
                self.retry == old(self).retry,
                self.failed_chunks == old(self).failed_chunks,
                self.outputs == old(self).outputs,
                self.context_chunks == old(self).context_chunks,
                orig == old(self).closed@,
            decreases n - i,
        {
            let id = self.closed[i].id;
            let keep_for_retry = match self.retry {
                Some(r) => r == id,
                None => false,
            };
            if i < keep && !keep_for_retry && self.closed[i].audio_samples != 0 {
                let mut c = self.closed.remove(i);
                c.audio_samples = 0;
                self.closed.insert(i, c);
            }
            i = i + 1;
        }
    }

    /// The merge input for the closed chunk at `index`: the context chunks
    /// the setting asks for, then the chunk itself.
    pub fn window_for(&self, index: usize, record_outputs: bool) -> (input: JobInput)
        requires
            index < self.closed@.len(),
        ensures
            ({
                let n = context_len(self.closed@, index as int, depth_of(self.context_chunks));
                &&& input.chunk_id == self.closed@[index as int].id
                &&& input.index == index
                &&& input.live@ == self.closed@[index as int].live@
                &&& input.context_positions@ == Seq::new(n as nat, |k: int| (index - n + k) as usize)
                &&& input.context_text@ == join_displays(self.closed@.subrange(index - n, index as int))
                &&& input.record_outputs == record_outputs
            }),
    {
        let depth = context_depth(self.context_chunks);
        let (positions, context_text) = window_context(&self.closed, index, depth);
        JobInput {
            chunk_id: self.closed[index].id,
            index,
            live: self.closed[index].live.clone(),
            context_positions: positions,
            context_text,
            record_outputs,
        }
    }
}


/// Number of chunks in `chunks` showing a failed merge.
pub open spec fn failed_count(chunks: Seq<Chunk>) -> nat
    decreases chunks.len(),
{
    if chunks.len() == 0 {
        0
    } else {
        failed_count(chunks.drop_last()) + if chunks.last().failed {
            1nat
        } else {
            0nat
        }
    }
}

/// The first position of the chunk with id `id` in `chunks`, from `from` on.
pub open spec fn find_pos(chunks: Seq<Chunk>, id: u64, from: int) -> Option<int>
    decreases chunks.len() - from,
{
    if from < 0 || from >= chunks.len() {
        None
    } else if chunks[from].id == id {
        Some(from)
    } else {
        find_pos(chunks, id, from + 1)
    }
}

proof fn lemma_find_pos(chunks: Seq<Chunk>, id: u64, from: int)
    requires
        0 <= from,
    ensures
        find_pos(chunks, id, from) matches Some(p) ==> from <= p < chunks.len() && chunks[p].id == id,
    decreases chunks.len() - from,
{
    if from < chunks.len() && chunks[from].id != id {
        lemma_find_pos(chunks, id, from + 1);
    }
}

/// The primary's text a failed merge falls back to: the chunk's live text
/// up to the byte length it had when the job was dispatched.
pub open spec fn live_prefix(live: Seq<char>, live_len: int) -> Seq<char> {
    let b = encode_utf8(live);
    let cut = if live_len >= b.len() {
        b.len() as int
    } else {
        floor_boundary(b, live_len)
    };
    decode_utf8(b.subrange(0, cut))
}

/// The text a chunk shows after a failed merge: the primary's text and the
/// extras' outputs, one per line.
pub open spec fn fallback_text(live: Seq<char>, live_len: int, outputs: Seq<String>) -> Seq<char> {
    lines_join(seq![live_prefix(live, live_len), outputs[1]@, outputs[2]@, outputs[3]@])
}

/// `after` is `c` with a job's result recorded on it.
pub open spec fn result_applied(
    c: Chunk,
    after: Chunk,
    live_len: int,
    merged: Option<String>,
    outputs: Seq<String>,
    failed: bool,
) -> bool {
    &&& after.id == c.id
    &&& after.live == c.live
    &&& after.audio_samples == c.audio_samples
    &&& if failed {
        let fb = fallback_text(c.live@, live_len, outputs);
        &&& after.failed
        &&& if fb.len() == 0 {
            after.merged_text is None
        } else {
            after.merged_text matches Some(t) && t@ == fb
        }
    } else if merged is Some {
        after.merged_text == merged && !after.failed
    } else {
        after == c
    }
}

/// Whether a job's result applies to chunk `c`: its live text has not been
/// re-anchored below the length the job was dispatched with.
pub open spec fn result_fits(c: Chunk, live_len: int) -> bool {
    encode_utf8(c.live@).len() >= live_len
}

/// A slot's accumulated output after one more chunk's output.
pub open spec fn accumulated(old: Seq<char>, more: Seq<char>) -> Seq<char> {
    lines_join(seq![old, more])
}

/// Record a job's result on chunk `c`; returns whether it applied.
fn apply_to_chunk(
    c: &mut Chunk,
    live_len: usize,
    merged: Option<String>,
    outputs: &[String; 4],
    failed: bool,
) -> (applied: bool)
    ensures
        applied == result_fits(*old(c), live_len as int),
        applied ==> result_applied(*old(c), *final(c), live_len as int, merged, outputs@, failed),
        !applied ==> *final(c) == *old(c),
{
    let live_str = c.live.as_str();
    let live_bytes = str_byte_len(live_str);
    proof {
        assert(live_str.spec_bytes() == encode_utf8(c.live@));
    }
    if live_bytes < live_len {
        return false;
    }
    if failed {
        let cut = clamp_boundary(live_str, live_len);
        let primary = prefix_to(live_str, cut);
        let fallback = concatenate(primary.as_str(), outputs);
        if str_byte_len(fallback.as_str()) == 0 {
            proof {
                assert(fallback@.len() == 0);
            }
            c.merged_text = None;
            c.failed = true;
        } else {
            c.apply_merge(fallback, true);
        }
    } else {
        match merged {
            Some(text) => c.apply_merge(text, false),
            None => {},
        }
    }
    true
}

impl<X> MergeSession<X> {
    /// Recompute how many chunks show a failed merge.
    pub fn recount_failed(&mut self)
        requires
            old(self).closed@.len() < u32::MAX,
        ensures
            final(self).failed_chunks == failed_count(old(self).closed@) + if old(self).open.failed {
                1int
            } else {
                0int
            },
            final(self).closed == old(self).closed,
            final(self).open == old(self).open,
            final(self).live_copied == old(self).live_copied,
            final(self).next_chunk_id == old(self).next_chunk_id,
            final(self).retry == old(self).retry,
            final(self).outputs == old(self).outputs,
            final(self).context_chunks == old(self).context_chunks,
            final(self).merge == old(self).merge,
    {
        let mut count: u32 = 0;
        let mut i: usize = 0;
        while i < self.closed.len()
            invariant
                i <= self.closed@.len() < u32::MAX,
                count == failed_count(self.closed@.take(i as int)),
                count <= i,
            decreases self.closed.len() - i,
        {
            proof {
                assert(self.closed@.take(i as int + 1).drop_last() =~= self.closed@.take(i as int));
            }
            if self.closed[i].failed {
                count = count + 1;
            }
            i = i + 1;
        }
        proof {
            assert(self.closed@.take(i as int) =~= self.closed@);
        }
        if self.open.failed {
            count = count + 1;
        }
        self.failed_chunks = count;
    }
}


/// The chunk a freshly closed open chunk becomes: its failure flag is cleared.
pub open spec fn as_closed(c: Chunk) -> Chunk {
    Chunk { failed: false, ..c }
}

/// The session's closed chunks after the open one closes, before any audio
/// is freed.
pub open spec fn closed_after_close(closed: Seq<Chunk>, open: Chunk) -> Seq<Chunk> {
    closed.push(as_closed(open))
}

/// Where a job's result for chunk `id` lands: `Some(-1)` for the open chunk,
/// the closed position otherwise, `None` when the chunk is gone.
pub open spec fn result_target(open: Chunk, closed: Seq<Chunk>, id: u64) -> Option<int> {
    if open.id == id {
        Some(-1)
    } else {
        find_pos(closed, id, 0)
    }
}

impl<X> MergeSession<X> {
    /// Close the open chunk, free the audio that fell out of every window,
    /// and return the merge input for the chunk just closed.
    pub fn close_open_chunk(&mut self) -> (input: JobInput)
        requires
            old(self).next_chunk_id < u64::MAX,
            old(self).closed@.len() + 1 < u32::MAX,
        ensures
            ({
                let pushed = closed_after_close(old(self).closed@, old(self).open);
                let keep = keep_from(pushed.len() as int, depth_of(old(self).context_chunks));
                let index = old(self).closed@.len() as int;
                let n = context_len(final(self).closed@, index, depth_of(old(self).context_chunks));
                &&& final(self).closed@.len() == pushed.len()
                &&& forall|i: int|
                    0 <= i < pushed.len() ==> #[trigger] final(self).closed@[i] == retained(
                        pushed[i],
                        i,
                        keep,
                        old(self).retry,
                    )
                &&& final(self).open.id == old(self).next_chunk_id
                &&& final(self).open.live@.len() == 0
                &&& final(self).open.merged_text is None
                &&& final(self).open.audio_samples == 0
                &&& !final(self).open.failed
                &&& final(self).next_chunk_id == old(self).next_chunk_id + 1
                &&& final(self).failed_chunks == failed_count(final(self).closed@)
                &&& input.chunk_id == old(self).open.id
                &&& input.index == index
                &&& input.live@ == old(self).open.live@
                &&& input.context_positions@ == Seq::new(n as nat, |k: int| (index - n + k) as usize)
                &&& input.context_text@ == join_displays(final(self).closed@.subrange(index - n, index))
                &&& input.record_outputs
            }),
            final(self).live_copied == old(self).live_copied,
            final(self).retry == old(self).retry,
            final(self).outputs == old(self).outputs,
            final(self).context_chunks == old(self).context_chunks,
    {
        let mut fresh = Chunk::new(self.next_chunk_id);
        std::mem::swap(&mut self.open, &mut fresh);
        let mut closing = fresh;
        self.next_chunk_id = self.next_chunk_id + 1;
        closing.failed = false;
        self.closed.push(closing);
        self.retain_context_audio();
        let index = self.closed.len() - 1;
        let input = self.window_for(index, true);
        self.recount_failed();
        input
    }
}


/// The position of the chunk with id `id` among `chunks`.
fn position_of(chunks: &Vec<Chunk>, id: u64) -> (r: Option<usize>)
    ensures
        r matches Some(p) ==> find_pos(chunks@, id, 0) == Some(p as int),
        r is None ==> find_pos(chunks@, id, 0) is None,
{
    let mut i: usize = 0;
    while i < chunks.len()
        invariant
            i <= chunks@.len(),
            find_pos(chunks@, id, 0) == find_pos(chunks@, id, i as int),
        decreases chunks.len() - i,
    {
        if chunks[i].id == id {
            return Some(i);
        }
        i = i + 1;
    }
    None
}

/// The session fields other than the merge queue are unchanged.
pub open spec fn same_session<X>(before: MergeSession<X>, after: MergeSession<X>) -> bool {
    &&& after.next_chunk_id == before.next_chunk_id
    &&& after.open == before.open
    &&& after.closed == before.closed
    &&& after.live_copied == before.live_copied
    &&& after.retry == before.retry
    &&& after.failed_chunks == before.failed_chunks
    &&& after.outputs == before.outputs
    &&& after.context_chunks == before.context_chunks
}

/// `after` is `before` with a finished job's `result` recorded, `r` telling
/// whether it applied and whether it raised the count of failed chunks (the
/// merge queue aside).
pub open spec fn job_result_applied<X>(
    before: MergeSession<X>,
    result: JobResult<X>,
    after: MergeSession<X>,
    r: (bool, bool),
) -> bool {
    let target = result_target(before.open, before.closed@, result.chunk_id);
    let fits = match target {
        None => false,
        Some(p) => if p == -1 {
            result_fits(before.open, result.live_len as int)
        } else {
            result_fits(before.closed@[p], result.live_len as int)
        },
    };
    &&& r.0 == fits
    &&& !fits ==> same_session(before, after)
    &&& fits ==> {
        let p = target->0;
        &&& after.closed@.len() == before.closed@.len()
        &&& (p == -1 ==> result_applied(
            before.open,
            after.open,
            result.live_len as int,
            result.merged,
            result.outputs@,
            result.failed,
        ) && after.closed == before.closed)
        &&& (p != -1 ==> result_applied(
            before.closed@[p],
            after.closed@[p],
            result.live_len as int,
            result.merged,
            result.outputs@,
            result.failed,
        ) && after.open == before.open
            && forall|i: int|
            0 <= i < before.closed@.len() && i != p ==> #[trigger] after.closed@[i]
                == before.closed@[i])
        &&& after.outputs@.len() == 4
        &&& after.outputs@[0] == before.outputs@[0]
        &&& forall|k: int|
            1 <= k < 4 ==> (#[trigger] after.outputs@[k])@ == if result.record_outputs {
                accumulated(before.outputs@[k]@, result.outputs@[k]@)
            } else {
                before.outputs@[k]@
            }
        &&& after.retry == if result.failed {
            Some(result.chunk_id)
        } else {
            before.retry
        }
        &&& after.failed_chunks == failed_count(after.closed@) + (
        if after.open.failed {
            1int
        } else {
            0int
        })
        &&& r.1 == (result.failed && after.failed_chunks > before.failed_chunks)
        &&& after.next_chunk_id == before.next_chunk_id
        &&& after.live_copied == before.live_copied
        &&& after.context_chunks == before.context_chunks
    }
}

impl<X> MergeSession<X> {
    /// Record a finished job's result on the chunk it belongs to (the open
    /// one or a closed one) and on the session. Returns whether it applied,
    /// and whether it raised the number of chunks showing a failed merge.
    /// A result for a chunk that is gone, or whose live text was re-anchored
    /// below the length the job saw, changes nothing.
    pub fn apply_job_result(&mut self, result: JobResult<X>) -> (r: (bool, bool))
        requires
            old(self).closed@.len() < u32::MAX,
            old(self).outputs@.len() == 4,
        ensures
            job_result_applied(*old(self), result, *final(self), r),
            final(self).merge == old(self).merge,
    {
        let JobResult { generation: _, chunk_id, live_len, record_outputs, merged, outputs, failed, extra: _ } = result;
        if self.open.id == chunk_id {
            if str_byte_len(self.open.live.as_str()) < live_len {
                return (false, false);
            }
            let _ = apply_to_chunk(&mut self.open, live_len, merged, &outputs, failed);
        } else {
            match position_of(&self.closed, chunk_id) {
                Some(p) => {
                    proof {
                        lemma_find_pos(self.closed@, chunk_id, 0);
                    }
                    if str_byte_len(self.closed[p].live.as_str()) < live_len {
                        return (false, false);
                    }
                    let mut c = self.closed.remove(p);
                    let _ = apply_to_chunk(&mut c, live_len, merged, &outputs, failed);
                    self.closed.insert(p, c);
                },
                None => {
                    return (false, false);
                },
            }
        }
        let ghost open_after = self.open;
        let ghost closed_after = self.closed;
        if record_outputs {
            let mut k: usize = 1;
            while k < 4
                invariant
                    1 <= k <= 4,
                    self.outputs@.len() == 4,
                    old(self).outputs@.len() == 4,
                    self.closed@.len() == old(self).closed@.len(),
                    old(self).closed@.len() < u32::MAX,
                    self.open == open_after,
                    self.closed == closed_after,
                    self.retry == old(self).retry,
                    self.next_chunk_id == old(self).next_chunk_id,
                    self.live_copied == old(self).live_copied,
                    self.context_chunks == old(self).context_chunks,
                    self.failed_chunks == old(self).failed_chunks,
                    self.merge == old(self).merge,
                    self.outputs@[0] == old(self).outputs@[0],
                    forall|j: int|
                        1 <= j < k ==> (#[trigger] self.outputs@[j])@ == accumulated(
                            old(self).outputs@[j]@,
                            outputs@[j]@,
                        ),
                    forall|j: int| k <= j < 4 ==> #[trigger] self.outputs@[j] == old(self).outputs@[j],
                decreases 4 - k,
            {
                let text = chars_of(outputs[k].as_str());
                if text.len() > 0 {
                    let mut acc = chars_of(self.outputs[k].as_str());
                    if acc.len() > 0 {
                        acc.push('\n');
                    }
                    extend_chars(&mut acc, &text);
                    let joined_text = string_from_chars(&acc);
                    self.outputs.set(k, joined_text);
                }
                proof {
                    let j = k as int;
                    let items = seq![old(self).outputs@[j]@, outputs@[j]@];
                    assert(items.drop_last() =~= seq![old(self).outputs@[j]@]);
                    assert(items.drop_last().drop_last() =~= Seq::<Seq<char>>::empty());
                    reveal_with_fuel(lines_join, 3);
                    assert(lines_join(seq![old(self).outputs@[j]@]) == old(self).outputs@[j]@);
                }
                k = k + 1;
            }
        }
        if failed {
            self.retry = Some(chunk_id);
        }
        let previous = self.failed_chunks;
        self.recount_failed();
        (true, failed && self.failed_chunks > previous)
    }
}


impl<X> MergeSession<X> {
    /// Apply the oldest finished job's result, if one has landed; returns
    /// whether one was taken. Only the result of the job being waited for
    /// ends the wait; an abandoned job's result is applied all the same.
    pub fn collect_merge_result(&mut self) -> (taken: bool)
        requires
            old(self).closed@.len() < u32::MAX,
            old(self).outputs@.len() == 4,
        ensures
            taken == (old(self).merge.pending().len() > 0),
            !taken ==> same_session(*old(self), *final(self)) && final(self).merge.pending().len() == 0
                && final(self).merge.current() == old(self).merge.current() && final(self).merge.busy()
                == old(self).merge.busy(),
            taken ==> {
                let first = old(self).merge.pending()[0];
                &&& exists|r: (bool, bool)| job_result_applied(*old(self), first, *final(self), r)
                &&& final(self).merge.pending() == old(self).merge.pending().drop_first()
                &&& final(self).merge.current() == old(self).merge.current()
                &&& final(self).merge.busy() == (old(self).merge.busy() && first.generation
                    != old(self).merge.current())
            },
    {
        match self.merge.take() {
            None => false,
            Some((result, _releases)) => {
                let r = self.apply_job_result(result);
                assert(job_result_applied(*old(self), result, *self, r));
                true
            },
        }
    }
}

impl<X> MergeSession<X> {
    /// Offer the last failed chunk's merge again: the retry mark is consumed,
    /// and a window is returned when the chunk is still closed and still has
    /// its audio. A retry records no outputs.
    pub fn retry_failed_chunk(&mut self) -> (input: Option<JobInput>)
        ensures
            final(self).retry is None,
            final(self).closed == old(self).closed,
            final(self).open == old(self).open,
            final(self).outputs == old(self).outputs,
            final(self).failed_chunks == old(self).failed_chunks,
            final(self).next_chunk_id == old(self).next_chunk_id,
            final(self).live_copied == old(self).live_copied,
            final(self).context_chunks == old(self).context_chunks,
            ({
                let p = match old(self).retry {
                    None => None,
                    Some(id) => find_pos(old(self).closed@, id, 0),
                };
                match p {
                    None => input is None,
                    Some(i) => if old(self).closed@[i].audio_samples == 0 {
                        input is None
                    } else {
                        (input matches Some(w) && {
                            let n = context_len(old(self).closed@, i, depth_of(old(self).context_chunks));
                            &&& w.chunk_id == old(self).closed@[i].id
                            &&& w.index == i
                            &&& w.live@ == old(self).closed@[i].live@
                            &&& w.context_positions@ == Seq::new(n as nat, |k: int| (i - n + k) as usize)
                            &&& w.context_text@ == join_displays(old(self).closed@.subrange(i - n, i))
                            &&& !w.record_outputs
                        })
                    },
                }
            }),
    {
        let retry = self.retry;
        self.retry = None;
        let chunk_id = match retry {
            None => return None,
            Some(id) => id,
        };
        let index = match position_of(&self.closed, chunk_id) {
            None => return None,
            Some(i) => i,
        };
        proof {
            lemma_find_pos(self.closed@, chunk_id, 0);
        }
        if self.closed[index].audio_samples == 0 {
            return None;
        }
        Some(self.window_for(index, false))
    }

    /// The session's text: every closed chunk's display text, joined.
    pub fn compose_committed(&self) -> (text: String)
        ensures
            text@ == join_displays(self.closed@),
    {
        let mut out: Vec<char> = Vec::new();
        let mut i: usize = 0;
        while i < self.closed.len()
            invariant
                i <= self.closed@.len(),
                out@ == join_displays(self.closed@.take(i as int)),
            decreases self.closed.len() - i,
        {
            let shown = self.closed[i].display_text();
            let piece = chars_of(shown.as_str());
            join_chars(&mut out, &piece);
            proof {
                assert(self.closed@.take(i as int + 1).drop_last() =~= self.closed@.take(i as int));
            }
            i = i + 1;
        }
        proof {
            assert(self.closed@.take(i as int) =~= self.closed@);
        }
        string_from_chars(&out)
    }

    /// Close the session's last chunk when the recording ends: it is closed
    /// like any other, and returns its merge window when it has anything in
    /// it (text that is not blank, or audio).
    pub fn close_last_chunk(&mut self) -> (input: Option<JobInput>)
        requires
            old(self).next_chunk_id < u64::MAX,
            old(self).closed@.len() + 1 < u32::MAX,
        ensures
            ({
                let pushed = closed_after_close(old(self).closed@, old(self).open);
                let keep = keep_from(pushed.len() as int, depth_of(old(self).context_chunks));
                let index = old(self).closed@.len() as int;
                let has_content = !is_blank(old(self).open.live@) || old(self).open.audio_samples > 0;
                let n = context_len(final(self).closed@, index, depth_of(old(self).context_chunks));
                &&& final(self).closed@.len() == pushed.len()
                &&& forall|i: int|
                    0 <= i < pushed.len() ==> #[trigger] final(self).closed@[i] == retained(
                        pushed[i],
                        i,
                        keep,
                        old(self).retry,
                    )
                &&& final(self).next_chunk_id == old(self).next_chunk_id + 1
                &&& final(self).open.id == old(self).next_chunk_id
                &&& (has_content ==> (input matches Some(w) && {
                    &&& w.chunk_id == old(self).open.id
                    &&& w.index == index
                    &&& w.live@ == old(self).open.live@
                    &&& w.context_positions@ == Seq::new(n as nat, |k: int| (index - n + k) as usize)
                    &&& w.context_text@ == join_displays(final(self).closed@.subrange(index - n, index))
                    &&& w.record_outputs
                }))
                &&& (!has_content ==> input is None)
            }),
            final(self).retry == old(self).retry,
            final(self).outputs == old(self).outputs,
            final(self).live_copied == old(self).live_copied,
            final(self).context_chunks == old(self).context_chunks,
    {
        let live = chars_of(self.open.live.as_str());
        let has_content = !is_blank_chars(&live) || self.open.audio_samples > 0;
        let input = self.close_open_chunk();
        if has_content {
            Some(input)
        } else {
            None
        }
    }

    /// The extras' accumulated outputs, taken out of the session, with the
    /// primary model's own text in slot 0.
    pub fn take_model_outputs(&mut self, primary_text: String) -> (outputs: Vec<String>)
        requires
            old(self).outputs@.len() == 4,
        ensures
            outputs@.len() == 4,
            outputs@[0] == primary_text,
            forall|k: int| 1 <= k < 4 ==> #[trigger] outputs@[k] == old(self).outputs@[k],
            final(self).outputs@.len() == 4,
            forall|k: int| 0 <= k < 4 ==> (#[trigger] final(self).outputs@[k])@.len() == 0,
            final(self).closed == old(self).closed,
            final(self).open == old(self).open,
    {
        let mut outputs: Vec<String> = Vec::new();
        let mut emptied: Vec<String> = Vec::new();
        emptied.push(String::new());
        emptied.push(String::new());
        emptied.push(String::new());
        emptied.push(String::new());
        std::mem::swap(&mut self.outputs, &mut emptied);
        outputs.push(primary_text);
        outputs.push(emptied[1].clone());
        outputs.push(emptied[2].clone());
        outputs.push(emptied[3].clone());
        outputs
    }
}

/// Joining never puts a space between two characters of a script written
/// without spaces: when the text ends, and the piece starts, with kana
/// (U+3040..U+30FF), a CJK ideograph (U+3400..U+4DBF, U+4E00..U+9FFF,
/// U+F900..U+FAFF), CJK punctuation (U+3000..U+303F) or a fullwidth form
/// (U+FF00..U+FFEF), the result is the two texts back to back.
pub proof fn law_no_space_inside_unspaced_scripts(out: Seq<char>, piece: Seq<char>)
    requires
        out.len() > 0,
        piece.len() > 0,
        ({
            let u = out.last() as u32;
            ||| 0x3000 <= u <= 0x30FF
            ||| 0x3400 <= u <= 0x4DBF
            ||| 0x4E00 <= u <= 0x9FFF
            ||| 0xF900 <= u <= 0xFAFF
            ||| 0xFF00 <= u <= 0xFFEF
        }),
        ({
            let u = piece[0] as u32;
            ||| 0x3000 <= u <= 0x30FF
            ||| 0x3400 <= u <= 0x4DBF
            ||| 0x4E00 <= u <= 0x9FFF
            ||| 0xF900 <= u <= 0xFAFF
            ||| 0xFF00 <= u <= 0xFFEF
        }),
    ensures
        joined(out, piece) == out + piece,
{
}

/// Two words of a spaced script get exactly one space between them: when
/// the text ends, and the piece starts, with an ASCII letter or digit, the
/// result is the text, a space, then the piece.
pub proof fn law_one_space_between_ascii_words(out: Seq<char>, piece: Seq<char>)
    requires
        out.len() > 0,
        piece.len() > 0,
        ({
            let c = out.last();
            ('a' <= c <= 'z') || ('A' <= c <= 'Z') || ('0' <= c <= '9')
        }),
        ({
            let c = piece[0];
            ('a' <= c <= 'z') || ('A' <= c <= 'Z') || ('0' <= c <= '9')
        }),
    ensures
        joined(out, piece) == out + seq![' '] + piece,
{
    assert(out.push(' ') =~= out + seq![' ']);
}

/// A recorded merge result appends each extra's output for the chunk to what
/// that slot has gathered over the session, on a line of its own: the slot's
/// earlier text stays in front, the new output follows after a newline
/// (without one when either side is empty), and a result not recorded
/// leaves the slot as it was.
pub proof fn law_outputs_accumulate_per_session<X>(
    before: MergeSession<X>,
    result: JobResult<X>,
    after: MergeSession<X>,
    r: (bool, bool),
    k: int,
)
    requires
        job_result_applied(before, result, after, r),
        r.0,
        1 <= k < 4,
        before.outputs@.len() == 4,
        result.outputs@.len() == 4,
    ensures
        ({
            let prev = before.outputs@[k]@;
            let more = result.outputs@[k]@;
            after.outputs@[k]@ == if !result.record_outputs || more.len() == 0 {
                prev
            } else if prev.len() == 0 {
                more
            } else {
                prev + seq!['\n'] + more
            }
        }),
{
    let prev = before.outputs@[k]@;
    let more = result.outputs@[k]@;
    let items = seq![prev, more];
    assert(items.drop_last() =~= seq![prev]);
    assert(items.drop_last().drop_last() =~= Seq::<Seq<char>>::empty());
    reveal_with_fuel(lines_join, 3);
    assert(lines_join(seq![prev]) == prev);
    assert(prev.push('\n') + more =~= prev + seq!['\n'] + more);
}

/// Joining a piece onto a text keeps the text as a prefix.
pub proof fn lemma_joined_extends(out: Seq<char>, piece: Seq<char>)
    ensures
        out.is_prefix_of(joined(out, piece)),
{
    assert(joined(out, piece).subrange(0, out.len() as int) =~= out);
}

/// The session text of the first `i` chunks is a prefix of the session text
/// of all of them.
pub proof fn lemma_join_displays_prefix(chunks: Seq<Chunk>, i: int)
    requires
        0 <= i <= chunks.len(),
    ensures
        join_displays(chunks.take(i)).is_prefix_of(join_displays(chunks)),
    decreases chunks.len() - i,
{
    if i == chunks.len() {
        assert(chunks.take(i) =~= chunks);
    } else {
        lemma_join_displays_prefix(chunks, i + 1);
        assert(chunks.take(i + 1).drop_last() =~= chunks.take(i));
        lemma_joined_extends(join_displays(chunks.take(i)), display_of(chunks.take(i + 1).last()));
    }
}

/// A merge leaves the chunks before it untouched: when one chunk's text is
/// replaced, the session text of every chunk before it is a prefix of both
/// the old and the new session text.
pub proof fn lemma_merge_keeps_earlier_text(chunks: Seq<Chunk>, i: int, merged: Chunk)
    requires
        0 <= i < chunks.len(),
        merged.id == chunks[i].id,
    ensures
        join_displays(chunks.take(i)).is_prefix_of(join_displays(chunks)),
        join_displays(chunks.take(i)).is_prefix_of(join_displays(chunks.update(i, merged))),
{
    lemma_join_displays_prefix(chunks, i);
    lemma_join_displays_prefix(chunks.update(i, merged), i);
    assert(chunks.update(i, merged).take(i) =~= chunks.take(i));
}


/// Emitted when a chunk's merge fails, so the main window can raise a toast;
/// only when the number of chunks showing a failed merge goes up.
#[derive(Clone, Copy, Debug)]
pub struct MultiSttStreamChunkFailedEvent {
    /// 1-based number of the chunk that failed.
    pub chunk: u32,
    /// How many chunks of the session show a failed merge now.
    pub failed_chunks: u32,
}

/// The event for a failed merge of chunk `chunk_id` (numbered from 0; the
/// event numbers from 1, modulo 32 bits).
pub fn chunk_failed_event(chunk_id: u64, failed_chunks: u32) -> (e: MultiSttStreamChunkFailedEvent)
    requires
        chunk_id < u64::MAX,
    ensures
        e.chunk as int == (chunk_id + 1) % 0x1_0000_0000,
        e.failed_chunks == failed_chunks,
{
    MultiSttStreamChunkFailedEvent {
        chunk: ((chunk_id % 0x1_0000_0000 + 1) % 0x1_0000_0000) as u32,
        failed_chunks,
    }
}


/// Whether the speaker has paused: speech was measured, more of it than at
/// the last close, and the measure has not changed for the pause length.
pub fn is_paused(speech_ms: i64, last_close_speech_ms: i64, since_change_ms: u64, pause_ms: u64) -> (b: bool)
    ensures
        b == (speech_ms > 0 && speech_ms > last_close_speech_ms && since_change_ms >= pause_ms),
{
    speech_ms > 0 && speech_ms > last_close_speech_ms && since_change_ms >= pause_ms
}

/// The pause length a setting asks for: at least one millisecond.
pub fn pause_length_ms(setting_ms: u32) -> (ms: u64)
    ensures
        ms == if setting_ms < 1 { 1 } else { setting_ms as int },
{
    if setting_ms < 1 { 1 } else { setting_ms as u64 }
}

/// How much audio the stream has been fed but not yet decoded, in
/// milliseconds; never negative.
pub fn stream_drain_ms(input_ms: i64, drained_ms: i64) -> (d: i64)
    requires
        i64::MIN <= input_ms - drained_ms <= i64::MAX,
    ensures
        d == if input_ms - drained_ms > 0 { input_ms - drained_ms } else { 0 },
{
    let d = input_ms - drained_ms;
    if d > 0 { d } else { 0 }
}

/// Whether the overlay needs the composed text again: when forced, or when
/// either half changed since it was last sent.
pub fn needs_publish(force: bool, committed: &str, tentative: &str, sent_committed: &str, sent_tentative: &str) -> (b: bool)
    ensures
        b == (force || committed@ != sent_committed@ || tentative@ != sent_tentative@),
{
    force || !str_eq(committed, sent_committed) || !str_eq(tentative, sent_tentative)
}

/// Whether the writer is handed `target` now: never an unchanged target; a
/// target that extends what it already has goes out at once, a rewrite only
/// once the writer has caught up.
pub fn should_push_writer_target(target: &str, pushed: &str, caught_up: bool) -> (b: bool)
    ensures
        b == (target@ != pushed@ && (has_prefix(target@, pushed@) || caught_up)),
{
    if str_eq(target, pushed) {
        return false;
    }
    let t = chars_of(target);
    let p = chars_of(pushed);
    starts_with_chars(&t, &p) || caught_up
}

} // verus!
