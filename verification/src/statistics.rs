//! Per-inference statistics: the run and attempt lifecycle that decides which
//! rows are written, the validation every row passes, the word count and the
//! audio duration they record, and the day streak of a summary.
//!
//! Times are UTC Unix milliseconds. Audio duration means captured audio before
//! short-input padding. Word counting follows Unicode `split_whitespace`.

use vstd::prelude::*;
use crate::text::{chars_of, count_words, word_count, is_blank, is_blank_chars, string_from_chars, chars_equal, extend_chars};

verus! {

/// How a statistics run ended.
#[derive(Clone, Copy, Debug, PartialEq, Eq, Structural)]
pub enum StatisticsRunStatus {
    Success,
    Empty,
    Failed,
    Cancelled,
}

/// What started a statistics run.
#[derive(Clone, Copy, Debug, PartialEq, Eq, Structural)]
pub enum StatisticsRunOrigin {
    Normal,
    HistoryRetry,
    Headless,
}

/// The stored name of a status.
pub open spec fn status_name(s: StatisticsRunStatus) -> Seq<char> {
    match s {
        StatisticsRunStatus::Success => seq!['s', 'u', 'c', 'c', 'e', 's', 's'],
        StatisticsRunStatus::Empty => seq!['e', 'm', 'p', 't', 'y'],
        StatisticsRunStatus::Failed => seq!['f', 'a', 'i', 'l', 'e', 'd'],
        StatisticsRunStatus::Cancelled => seq!['c', 'a', 'n', 'c', 'e', 'l', 'l', 'e', 'd'],
    }
}

/// The stored name of an origin.
pub open spec fn origin_name(o: StatisticsRunOrigin) -> Seq<char> {
    match o {
        StatisticsRunOrigin::Normal => seq!['n', 'o', 'r', 'm', 'a', 'l'],
        StatisticsRunOrigin::HistoryRetry => seq![
            'h', 'i', 's', 't', 'o', 'r', 'y', '_', 'r', 'e', 't', 'r', 'y'
        ],
        StatisticsRunOrigin::Headless => seq!['h', 'e', 'a', 'd', 'l', 'e', 's', 's'],
    }
}

impl StatisticsRunStatus {
    /// The name this status is stored under.
    pub fn as_str(self) -> (name: String)
        ensures
            name@ == status_name(self),
    {
        let mut v: Vec<char> = Vec::new();
        match self {
            StatisticsRunStatus::Success => {
                v.push('s'); v.push('u'); v.push('c'); v.push('c'); v.push('e'); v.push('s'); v.push('s');
            },
            StatisticsRunStatus::Empty => {
                v.push('e'); v.push('m'); v.push('p'); v.push('t'); v.push('y');
            },
            StatisticsRunStatus::Failed => {
                v.push('f'); v.push('a'); v.push('i'); v.push('l'); v.push('e'); v.push('d');
            },
            StatisticsRunStatus::Cancelled => {
                v.push('c'); v.push('a'); v.push('n'); v.push('c'); v.push('e'); v.push('l'); v.push('l'); v.push('e'); v.push('d');
            },
        }
        proof {
            assert(v@ =~= status_name(self));
        }
        string_from_chars(&v)
    }

    /// The status stored under `value`; an error naming the value otherwise.
    pub fn parse(value: &str) -> (r: Result<Self, String>)
        ensures
            r matches Ok(s) ==> status_name(s) == value@,
            r is Err <==> (forall|s: StatisticsRunStatus| status_name(s) != value@),
            r matches Err(m) ==> m@ == "unknown statistics status: "@ + value@,
    {
        let v = chars_of(value);
        let candidates = [
            StatisticsRunStatus::Success,
            StatisticsRunStatus::Empty,
            StatisticsRunStatus::Failed,
            StatisticsRunStatus::Cancelled,
        ];
        let mut i: usize = 0;
        while i < 4
            invariant
                i <= 4,
                v@ == value@,
                candidates@ == seq![
                    StatisticsRunStatus::Success,
                    StatisticsRunStatus::Empty,
                    StatisticsRunStatus::Failed,
                    StatisticsRunStatus::Cancelled,
                ],
                forall|k: int| 0 <= k < i ==> status_name(#[trigger] candidates@[k]) != value@,
            decreases 4 - i,
        {
            let c = candidates[i];
            let name = c.as_str();
            let n = chars_of(name.as_str());
            if chars_equal(&n, &v) {
                return Ok(c);
            }
            i = i + 1;
        }
        proof {
            assert forall|s: StatisticsRunStatus| status_name(s) != value@ by {
                match s {
                    StatisticsRunStatus::Success => assert(candidates@[0] == s),
                    StatisticsRunStatus::Empty => assert(candidates@[1] == s),
                    StatisticsRunStatus::Failed => assert(candidates@[2] == s),
                    StatisticsRunStatus::Cancelled => assert(candidates@[3] == s),
                }
            }
        }
        Err(unknown_value_message(false, value))
    }
}

impl StatisticsRunOrigin {
    /// The name this origin is stored under.
    pub fn as_str(self) -> (name: String)
        ensures
            name@ == origin_name(self),
    {
        let mut v: Vec<char> = Vec::new();
        match self {
            StatisticsRunOrigin::Normal => {
                v.push('n'); v.push('o'); v.push('r'); v.push('m'); v.push('a'); v.push('l');
            },
            StatisticsRunOrigin::HistoryRetry => {
                v.push('h'); v.push('i'); v.push('s'); v.push('t'); v.push('o'); v.push('r'); v.push('y');
                v.push('_'); v.push('r'); v.push('e'); v.push('t'); v.push('r'); v.push('y');
            },
            StatisticsRunOrigin::Headless => {
                v.push('h'); v.push('e'); v.push('a'); v.push('d'); v.push('l'); v.push('e'); v.push('s'); v.push('s');
            },
        }
        proof {
            assert(v@ =~= origin_name(self));
        }
        string_from_chars(&v)
    }

    /// The origin stored under `value`; an error naming the value otherwise.
    pub fn parse(value: &str) -> (r: Result<Self, String>)
        ensures
            r matches Ok(o) ==> origin_name(o) == value@,
            r is Err <==> (forall|o: StatisticsRunOrigin| origin_name(o) != value@),
            r matches Err(m) ==> m@ == "unknown statistics origin: "@ + value@,
    {
        let v = chars_of(value);
        let candidates = [
            StatisticsRunOrigin::Normal,
            StatisticsRunOrigin::HistoryRetry,
            StatisticsRunOrigin::Headless,
        ];
        let mut i: usize = 0;
        while i < 3
            invariant
                i <= 3,
                v@ == value@,
                candidates@ == seq![
                    StatisticsRunOrigin::Normal,
                    StatisticsRunOrigin::HistoryRetry,
                    StatisticsRunOrigin::Headless,
                ],
                forall|k: int| 0 <= k < i ==> origin_name(#[trigger] candidates@[k]) != value@,
            decreases 3 - i,
        {
            let c = candidates[i];
            let name = c.as_str();
            let n = chars_of(name.as_str());
            if chars_equal(&n, &v) {
                return Ok(c);
            }
            i = i + 1;
        }
        proof {
            assert forall|o: StatisticsRunOrigin| origin_name(o) != value@ by {
                match o {
                    StatisticsRunOrigin::Normal => assert(candidates@[0] == o),
                    StatisticsRunOrigin::HistoryRetry => assert(candidates@[1] == o),
                    StatisticsRunOrigin::Headless => assert(candidates@[2] == o),
                }
            }
        }
        Err(unknown_value_message(true, value))
    }
}

impl std::str::FromStr for StatisticsRunStatus {
    type Err = String;

    /// [`StatisticsRunStatus::parse`].
    fn from_str(value: &str) -> (r: Result<Self, String>)
        ensures
            r matches Ok(s) ==> status_name(s) == value@,
            r is Err <==> (forall|s: StatisticsRunStatus| status_name(s) != value@),
            r matches Err(m) ==> m@ == "unknown statistics status: "@ + value@,
    {
        StatisticsRunStatus::parse(value)
    }
}

impl std::str::FromStr for StatisticsRunOrigin {
    type Err = String;

    /// [`StatisticsRunOrigin::parse`].
    fn from_str(value: &str) -> (r: Result<Self, String>)
        ensures
            r matches Ok(o) ==> origin_name(o) == value@,
            r is Err <==> (forall|o: StatisticsRunOrigin| origin_name(o) != value@),
            r matches Err(m) ==> m@ == "unknown statistics origin: "@ + value@,
    {
        StatisticsRunOrigin::parse(value)
    }
}

/// `unknown statistics status: <value>` or `unknown statistics origin: <value>`.
fn unknown_value_message(origin: bool, value: &str) -> (m: String)
    ensures
        origin ==> m@ == "unknown statistics origin: "@ + value@,
        !origin ==> m@ == "unknown statistics status: "@ + value@,
{
    let lead = if origin { "unknown statistics origin: " } else { "unknown statistics status: " };
    let mut v = chars_of(lead);
    let w = chars_of(value);
    extend_chars(&mut v, &w);
    string_from_chars(&v)
}


/// One statistics row to be written.
#[derive(Clone, Debug, PartialEq, Eq)]
pub struct NewStatisticsRun {
    pub started_at_ms: i64,
    pub completed_at_ms: i64,
    pub status: StatisticsRunStatus,
    pub origin: StatisticsRunOrigin,
    pub model_id: Option<String>,
    pub engine: Option<String>,
    pub backend: Option<String>,
    pub audio_duration_ms: Option<i64>,
    pub sample_rate_hz: Option<i64>,
    pub word_count: Option<i64>,
    pub transcription_latency_ms: Option<i64>,
    pub post_processing_latency_ms: Option<i64>,
    pub post_processing_requested: bool,
    pub measurement_version: i64,
    pub word_count_version: i64,
    pub source_history_id: Option<i64>,
}

/// One statistics row as stored, with its row id.
#[derive(Clone, Debug, PartialEq, Eq)]
pub struct StoredStatisticsRun {
    pub id: i64,
    pub started_at_ms: i64,
    pub completed_at_ms: i64,
    pub status: StatisticsRunStatus,
    pub origin: StatisticsRunOrigin,
    pub model_id: Option<String>,
    pub engine: Option<String>,
    pub backend: Option<String>,
    pub audio_duration_ms: Option<i64>,
    pub sample_rate_hz: Option<i64>,
    pub word_count: Option<i64>,
    pub transcription_latency_ms: Option<i64>,
    pub post_processing_latency_ms: Option<i64>,
    pub post_processing_requested: bool,
    pub measurement_version: i64,
    pub word_count_version: i64,
    pub source_history_id: Option<i64>,
}

/// Emitted whenever the statistics store changed.
#[derive(Clone, Copy, Debug, PartialEq, Eq)]
pub struct StatisticsUpdatedEvent;

/// Which optional text field a row names.
#[derive(Clone, Copy, Debug, PartialEq, Eq, Structural)]
pub enum TextField {
    ModelId,
    Engine,
    Backend,
}

/// Which optional measurement a row holds.
#[derive(Clone, Copy, Debug, PartialEq, Eq, Structural)]
pub enum Measurement {
    AudioDuration,
    WordCount,
    TranscriptionLatency,
    PostProcessingLatency,
}

/// Why a statistics row is refused.
#[derive(Clone, Copy, Debug, PartialEq, Eq, Structural)]
pub enum StatisticsError {
    InvalidTimestamps,
    NonPositiveVersion,
    EmptyText(TextField),
    Negative(Measurement),
    NonPositiveSampleRate,
    AudioAndSampleRateApart,
    NonPositiveSourceHistoryId,
    LatencyWithoutSuccess,
    PostProcessingNotRequested,
    PostProcessingBeforeTranscription,
    IncompleteSuccess,
}

/// An optional text that is present but empty.
pub open spec fn empty_text(t: Option<String>) -> bool {
    t matches Some(s) && s@.len() == 0
}

/// An optional measurement that is present and negative.
pub open spec fn negative(v: Option<i64>) -> bool {
    v matches Some(x) && x < 0
}

/// The first rule a row breaks, checked in this order; `None` for a valid row.
pub open spec fn validation_error(run: NewStatisticsRun) -> Option<StatisticsError> {
    if run.started_at_ms < 0 || run.completed_at_ms < run.started_at_ms {
        Some(StatisticsError::InvalidTimestamps)
    } else if run.measurement_version <= 0 || run.word_count_version <= 0 {
        Some(StatisticsError::NonPositiveVersion)
    } else if empty_text(run.model_id) {
        Some(StatisticsError::EmptyText(TextField::ModelId))
    } else if empty_text(run.engine) {
        Some(StatisticsError::EmptyText(TextField::Engine))
    } else if empty_text(run.backend) {
        Some(StatisticsError::EmptyText(TextField::Backend))
    } else if negative(run.audio_duration_ms) {
        Some(StatisticsError::Negative(Measurement::AudioDuration))
    } else if negative(run.word_count) {
        Some(StatisticsError::Negative(Measurement::WordCount))
    } else if negative(run.transcription_latency_ms) {
        Some(StatisticsError::Negative(Measurement::TranscriptionLatency))
    } else if negative(run.post_processing_latency_ms) {
        Some(StatisticsError::Negative(Measurement::PostProcessingLatency))
    } else if run.sample_rate_hz matches Some(r) && r <= 0 {
        Some(StatisticsError::NonPositiveSampleRate)
    } else if (run.audio_duration_ms is Some) != (run.sample_rate_hz is Some) {
        Some(StatisticsError::AudioAndSampleRateApart)
    } else if run.source_history_id matches Some(h) && h <= 0 {
        Some(StatisticsError::NonPositiveSourceHistoryId)
    } else if run.status != StatisticsRunStatus::Success && (run.transcription_latency_ms is Some
        || run.post_processing_latency_ms is Some) {
        Some(StatisticsError::LatencyWithoutSuccess)
    } else if run.post_processing_latency_ms is Some && !run.post_processing_requested {
        Some(StatisticsError::PostProcessingNotRequested)
    } else if run.post_processing_latency_ms is Some && (run.transcription_latency_ms is None
        || run.post_processing_latency_ms->0 < run.transcription_latency_ms->0) {
        Some(StatisticsError::PostProcessingBeforeTranscription)
    } else if run.status == StatisticsRunStatus::Success && (!(run.word_count matches Some(w)
        && w > 0) || run.audio_duration_ms is None || run.sample_rate_hz is None) {
        Some(StatisticsError::IncompleteSuccess)
    } else {
        None
    }
}

fn is_empty_text(t: &Option<String>) -> (b: bool)
    ensures
        b == empty_text(*t),
{
    match t {
        Some(s) => chars_of(s.as_str()).len() == 0,
        None => false,
    }
}

fn is_negative(v: Option<i64>) -> (b: bool)
    ensures
        b == negative(v),
{
    match v {
        Some(x) => x < 0,
        None => false,
    }
}

/// Check a row against every rule of the statistics store.
pub fn validate_run(run: &NewStatisticsRun) -> (r: Result<(), StatisticsError>)
    ensures
        r matches Err(e) ==> validation_error(*run) == Some(e),
        r is Ok ==> validation_error(*run) is None,
{
    if run.started_at_ms < 0 || run.completed_at_ms < run.started_at_ms {
        return Err(StatisticsError::InvalidTimestamps);
    }
    if run.measurement_version <= 0 || run.word_count_version <= 0 {
        return Err(StatisticsError::NonPositiveVersion);
    }
    if is_empty_text(&run.model_id) {
        return Err(StatisticsError::EmptyText(TextField::ModelId));
    }
    if is_empty_text(&run.engine) {
        return Err(StatisticsError::EmptyText(TextField::Engine));
    }
    if is_empty_text(&run.backend) {
        return Err(StatisticsError::EmptyText(TextField::Backend));
    }
    if is_negative(run.audio_duration_ms) {
        return Err(StatisticsError::Negative(Measurement::AudioDuration));
    }
    if is_negative(run.word_count) {
        return Err(StatisticsError::Negative(Measurement::WordCount));
    }
    if is_negative(run.transcription_latency_ms) {
        return Err(StatisticsError::Negative(Measurement::TranscriptionLatency));
    }
    if is_negative(run.post_processing_latency_ms) {
        return Err(StatisticsError::Negative(Measurement::PostProcessingLatency));
    }
    if let Some(rate) = run.sample_rate_hz {
        if rate <= 0 {
            return Err(StatisticsError::NonPositiveSampleRate);
        }
    }
    if run.audio_duration_ms.is_some() != run.sample_rate_hz.is_some() {
        return Err(StatisticsError::AudioAndSampleRateApart);
    }
    if let Some(h) = run.source_history_id {
        if h <= 0 {
            return Err(StatisticsError::NonPositiveSourceHistoryId);
        }
    }
    let success = match run.status {
        StatisticsRunStatus::Success => true,
        _ => false,
    };
    if !success && (run.transcription_latency_ms.is_some() || run.post_processing_latency_ms.is_some()) {
        return Err(StatisticsError::LatencyWithoutSuccess);
    }
    if run.post_processing_latency_ms.is_some() && !run.post_processing_requested {
        return Err(StatisticsError::PostProcessingNotRequested);
    }
    if let Some(post) = run.post_processing_latency_ms {
        match run.transcription_latency_ms {
            None => return Err(StatisticsError::PostProcessingBeforeTranscription),
            Some(t) => {
                if post < t {
                    return Err(StatisticsError::PostProcessingBeforeTranscription);
                }
            },
        }
    }
    if success {
        let words_ok = match run.word_count {
            Some(w) => w > 0,
            None => false,
        };
        if !words_ok || run.audio_duration_ms.is_none() || run.sample_rate_hz.is_none() {
            return Err(StatisticsError::IncompleteSuccess);
        }
    }
    Ok(())
}

/// The message reported for each refusal.
pub open spec fn error_message(e: StatisticsError) -> Seq<char> {
    match e {
        StatisticsError::InvalidTimestamps => "invalid statistics run timestamps"@,
        StatisticsError::NonPositiveVersion => "statistics versions must be positive"@,
        StatisticsError::EmptyText(TextField::ModelId) => "model_id must not be empty when provided"@,
        StatisticsError::EmptyText(TextField::Engine) => "engine must not be empty when provided"@,
        StatisticsError::EmptyText(TextField::Backend) => "backend must not be empty when provided"@,
        StatisticsError::Negative(Measurement::AudioDuration) => "statistics audio duration must be non-negative"@,
        StatisticsError::Negative(Measurement::WordCount) => "statistics word count must be non-negative"@,
        StatisticsError::Negative(Measurement::TranscriptionLatency) => "statistics transcription latency must be non-negative"@,
        StatisticsError::Negative(Measurement::PostProcessingLatency) => "statistics post-processing latency must be non-negative"@,
        StatisticsError::NonPositiveSampleRate => "statistics sample rate must be positive"@,
        StatisticsError::AudioAndSampleRateApart => "statistics audio duration and sample rate must be provided together"@,
        StatisticsError::NonPositiveSourceHistoryId => "statistics source history ID must be positive"@,
        StatisticsError::LatencyWithoutSuccess => "latency samples require a successful statistics run"@,
        StatisticsError::PostProcessingNotRequested => "post-processing latency requires post-processing to be requested"@,
        StatisticsError::PostProcessingBeforeTranscription => "post-processing latency cannot precede transcription latency"@,
        StatisticsError::IncompleteSuccess => "successful statistics runs require words, audio, and sample rate"@,
    }
}

impl StatisticsError {
    /// The message reported for this refusal.
    pub fn message(&self) -> (m: String)
        ensures
            m@ == error_message(*self),
    {
        let text = match self {
            StatisticsError::InvalidTimestamps => "invalid statistics run timestamps",
            StatisticsError::NonPositiveVersion => "statistics versions must be positive",
            StatisticsError::EmptyText(TextField::ModelId) => "model_id must not be empty when provided",
            StatisticsError::EmptyText(TextField::Engine) => "engine must not be empty when provided",
            StatisticsError::EmptyText(TextField::Backend) => "backend must not be empty when provided",
            StatisticsError::Negative(Measurement::AudioDuration) => "statistics audio duration must be non-negative",
            StatisticsError::Negative(Measurement::WordCount) => "statistics word count must be non-negative",
            StatisticsError::Negative(Measurement::TranscriptionLatency) => "statistics transcription latency must be non-negative",
            StatisticsError::Negative(Measurement::PostProcessingLatency) => "statistics post-processing latency must be non-negative",
            StatisticsError::NonPositiveSampleRate => "statistics sample rate must be positive",
            StatisticsError::AudioAndSampleRateApart => "statistics audio duration and sample rate must be provided together",
            StatisticsError::NonPositiveSourceHistoryId => "statistics source history ID must be positive",
            StatisticsError::LatencyWithoutSuccess => "latency samples require a successful statistics run",
            StatisticsError::PostProcessingNotRequested => "post-processing latency requires post-processing to be requested",
            StatisticsError::PostProcessingBeforeTranscription => "post-processing latency cannot precede transcription latency",
            StatisticsError::IncompleteSuccess => "successful statistics runs require words, audio, and sample rate",
        };
        let v = chars_of(text);
        string_from_chars(&v)
    }
}

/// Captured audio duration in milliseconds, `None` for a zero sample rate.
pub fn audio_duration_ms(sample_count: usize, sample_rate_hz: u32) -> (r: Option<i64>)
    requires
        sample_count * 1000 <= i64::MAX,
    ensures
        sample_rate_hz == 0 ==> r is None,
        sample_rate_hz > 0 ==> r == Some(((sample_count * 1000) / (sample_rate_hz as int)) as i64),
{
    if sample_rate_hz > 0 {
        Some((sample_count as i64 * 1000) / sample_rate_hz as i64)
    } else {
        None
    }
}

/// Word count, version 1: Unicode `split_whitespace`.
pub fn canonical_word_count(text: &str) -> (n: i64)
    requires
        text@.len() <= i64::MAX,
    ensures
        n == word_count(text@),
{
    let v = chars_of(text);
    let n = count_words(&v);
    n as i64
}

/// The flag a stored row records for whether post-processing was requested:
/// 0 or 1, anything else is refused.
pub fn parse_requested_flag(value: i64) -> (r: Option<bool>)
    ensures
        value == 0 ==> r == Some(false),
        value == 1 ==> r == Some(true),
        value != 0 && value != 1 ==> r is None,
{
    if value == 0 {
        Some(false)
    } else if value == 1 {
        Some(true)
    } else {
        None
    }
}

/// The row a stored run was written from, for re-validation on read.
pub fn stored_as_new(stored: &StoredStatisticsRun) -> (run: NewStatisticsRun)
    ensures
        run.started_at_ms == stored.started_at_ms,
        run.completed_at_ms == stored.completed_at_ms,
        run.status == stored.status,
        run.origin == stored.origin,
        run.model_id == stored.model_id,
        run.engine == stored.engine,
        run.backend == stored.backend,
        run.audio_duration_ms == stored.audio_duration_ms,
        run.sample_rate_hz == stored.sample_rate_hz,
        run.word_count == stored.word_count,
        run.transcription_latency_ms == stored.transcription_latency_ms,
        run.post_processing_latency_ms == stored.post_processing_latency_ms,
        run.post_processing_requested == stored.post_processing_requested,
        run.measurement_version == stored.measurement_version,
        run.word_count_version == stored.word_count_version,
        run.source_history_id == stored.source_history_id,
{
    NewStatisticsRun {
        started_at_ms: stored.started_at_ms,
        completed_at_ms: stored.completed_at_ms,
        status: stored.status,
        origin: stored.origin,
        model_id: clone_opt(&stored.model_id),
        engine: clone_opt(&stored.engine),
        backend: clone_opt(&stored.backend),
        audio_duration_ms: stored.audio_duration_ms,
        sample_rate_hz: stored.sample_rate_hz,
        word_count: stored.word_count,
        transcription_latency_ms: stored.transcription_latency_ms,
        post_processing_latency_ms: stored.post_processing_latency_ms,
        post_processing_requested: stored.post_processing_requested,
        measurement_version: stored.measurement_version,
        word_count_version: stored.word_count_version,
        source_history_id: stored.source_history_id,
    }
}

/// A copy of an optional string.
pub fn clone_opt(t: &Option<String>) -> (r: Option<String>)
    ensures
        r == *t,
{
    match t {
        Some(s) => Some(s.clone()),
        None => None,
    }
}


/// One inference attempt within a run.
#[derive(Clone, Debug)]
pub struct AttemptState {
    pub finalized: bool,
    pub model_id: Option<String>,
    pub engine: Option<String>,
    pub backend: Option<String>,
    pub inference_started_at_ms: i64,
    pub transcription_latency_ms: Option<i64>,
    pub post_processing_latency_ms: Option<i64>,
    pub word_count: Option<i64>,
}

/// One run: what was captured, when input stopped (a monotonic millisecond
/// reading), whether it has ended, and its attempts.
#[derive(Debug)]
pub struct RunState {
    pub started_at_ms: i64,
    pub origin: StatisticsRunOrigin,
    pub source_history_id: Option<i64>,
    pub audio_duration_ms: Option<i64>,
    pub sample_rate_hz: Option<i64>,
    pub input_stopped_ms: Option<u64>,
    pub post_processing_requested: bool,
    pub terminal: bool,
    pub attempt_count: usize,
    pub attempts: Vec<AttemptState>,
}

/// Milliseconds from `since` to `now` on a monotonic clock, zero when `now`
/// is earlier, capped at `i64::MAX`.
pub open spec fn elapsed_ms(since: u64, now: u64) -> i64 {
    if now <= since {
        0
    } else if now - since > i64::MAX {
        i64::MAX
    } else {
        (now - since) as i64
    }
}

fn elapsed(since: u64, now: u64) -> (ms: i64)
    ensures
        ms == elapsed_ms(since, now),
{
    if now <= since {
        0
    } else if now - since > i64::MAX as u64 {
        i64::MAX
    } else {
        (now - since) as i64
    }
}

/// A fresh attempt.
pub fn new_attempt(
    model_id: Option<String>,
    engine: Option<String>,
    backend: Option<String>,
    inference_started_at_ms: i64,
) -> (a: AttemptState)
    ensures
        !a.finalized,
        a.model_id == model_id,
        a.engine == engine,
        a.backend == backend,
        a.inference_started_at_ms == inference_started_at_ms,
        a.transcription_latency_ms is None,
        a.post_processing_latency_ms is None,
        a.word_count is None,
{
    AttemptState {
        finalized: false,
        model_id,
        engine,
        backend,
        inference_started_at_ms,
        transcription_latency_ms: None,
        post_processing_latency_ms: None,
        word_count: None,
    }
}

/// A fresh run started at `now_ms` (wall clock).
pub fn new_run_state(origin: StatisticsRunOrigin, source_history_id: Option<i64>, now_ms: i64) -> (r: RunState)
    ensures
        r.started_at_ms == now_ms,
        r.origin == origin,
        r.source_history_id == source_history_id,
        r.audio_duration_ms is None,
        r.sample_rate_hz is None,
        r.input_stopped_ms is None,
        !r.post_processing_requested,
        !r.terminal,
        r.attempt_count == 0,
        r.attempts@.len() == 0,
{
    RunState {
        started_at_ms: now_ms,
        origin,
        source_history_id,
        audio_duration_ms: None,
        sample_rate_hz: None,
        input_stopped_ms: None,
        post_processing_requested: false,
        terminal: false,
        attempt_count: 0,
        attempts: Vec::new(),
    }
}

/// Add an attempt to a run that has not ended; a run that has ended takes no
/// further attempts.
pub fn register_attempt(run: &mut RunState, attempt: AttemptState) -> (added: bool)
    requires
        old(run).attempt_count < usize::MAX,
    ensures
        added == !old(run).terminal,
        added ==> final(run).attempt_count == old(run).attempt_count + 1 && final(run).attempts@
            == old(run).attempts@.push(attempt),
        !added ==> final(run).attempt_count == old(run).attempt_count && final(run).attempts@
            == old(run).attempts@,
        final(run).terminal == old(run).terminal,
        final(run).input_stopped_ms == old(run).input_stopped_ms,
        final(run).post_processing_requested == old(run).post_processing_requested,
{
    if run.terminal {
        return false;
    }
    run.attempt_count = run.attempt_count + 1;
    run.attempts.push(attempt);
    true
}

/// Record the canonical raw output of an attempt, once: its word count, and,
/// for text that is not blank, the latency since input stopped.
pub fn complete_canonical(attempt: &mut AttemptState, text: &str, input_stopped_ms: Option<u64>, now_ms: u64)
    requires
        text@.len() <= i64::MAX,
    ensures
        old(attempt).finalized || old(attempt).word_count is Some ==> *final(attempt) == *old(attempt),
        !(old(attempt).finalized || old(attempt).word_count is Some) ==> {
            &&& final(attempt).word_count == Some(word_count(text@) as i64)
            &&& final(attempt).transcription_latency_ms == if is_blank(text@) {
                old(attempt).transcription_latency_ms
            } else {
                match input_stopped_ms {
                    Some(s) => Some(elapsed_ms(s, now_ms)),
                    None => None,
                }
            }
            &&& final(attempt).finalized == old(attempt).finalized
            &&& final(attempt).post_processing_latency_ms == old(attempt).post_processing_latency_ms
            &&& final(attempt).model_id == old(attempt).model_id
            &&& final(attempt).engine == old(attempt).engine
            &&& final(attempt).backend == old(attempt).backend
            &&& final(attempt).inference_started_at_ms == old(attempt).inference_started_at_ms
        },
{
    if attempt.finalized || attempt.word_count.is_some() {
        return;
    }
    attempt.word_count = Some(canonical_word_count(text));
    let v = chars_of(text);
    if !is_blank_chars(&v) {
        attempt.transcription_latency_ms = match input_stopped_ms {
            Some(s) => Some(elapsed(s, now_ms)),
            None => None,
        };
    }
}

/// Record when final text was ready, once, for a run that asked for
/// post-processing.
pub fn complete_post_processing(
    attempt: &mut AttemptState,
    input_stopped_ms: Option<u64>,
    requested: bool,
    now_ms: u64,
)
    ensures
        !old(attempt).finalized && requested && old(attempt).post_processing_latency_ms is None ==> {
            &&& final(attempt).post_processing_latency_ms == match input_stopped_ms {
                Some(s) => Some(elapsed_ms(s, now_ms)),
                None => None,
            }
            &&& final(attempt).finalized == old(attempt).finalized
            &&& final(attempt).word_count == old(attempt).word_count
            &&& final(attempt).transcription_latency_ms == old(attempt).transcription_latency_ms
            &&& final(attempt).model_id == old(attempt).model_id
            &&& final(attempt).engine == old(attempt).engine
            &&& final(attempt).backend == old(attempt).backend
            &&& final(attempt).inference_started_at_ms == old(attempt).inference_started_at_ms
        },
        !(!old(attempt).finalized && requested && old(attempt).post_processing_latency_ms is None)
            ==> *final(attempt) == *old(attempt),
{
    if !attempt.finalized && requested && attempt.post_processing_latency_ms.is_none() {
        attempt.post_processing_latency_ms = match input_stopped_ms {
            Some(s) => Some(elapsed(s, now_ms)),
            None => None,
        };
    }
}

/// The status an attempt is recorded with: a success without words is
/// recorded as empty.
pub open spec fn terminal_status(requested: StatisticsRunStatus, word_count: Option<i64>) -> StatisticsRunStatus {
    if requested == StatisticsRunStatus::Success && (word_count is None || word_count->0 == 0) {
        StatisticsRunStatus::Empty
    } else {
        requested
    }
}

/// Executable form of [`terminal_status`].
pub fn resolved_terminal_status(requested: StatisticsRunStatus, word_count: Option<i64>) -> (s: StatisticsRunStatus)
    ensures
        s == terminal_status(requested, word_count),
{
    let no_words = match word_count {
        None => true,
        Some(w) => w == 0,
    };
    match requested {
        StatisticsRunStatus::Success => if no_words {
            StatisticsRunStatus::Empty
        } else {
            requested
        },
        _ => requested,
    }
}

/// End a run, once: true the first time, false for every later call.
pub fn mark_terminal(run: &mut RunState) -> (first: bool)
    ensures
        first == !old(run).terminal,
        final(run).terminal,
        final(run).attempts == old(run).attempts,
        final(run).attempt_count == old(run).attempt_count,
        final(run).input_stopped_ms == old(run).input_stopped_ms,
        final(run).started_at_ms == old(run).started_at_ms,
        final(run).origin == old(run).origin,
        final(run).source_history_id == old(run).source_history_id,
        final(run).audio_duration_ms == old(run).audio_duration_ms,
        final(run).sample_rate_hz == old(run).sample_rate_hz,
        final(run).post_processing_requested == old(run).post_processing_requested,
{
    if run.terminal {
        false
    } else {
        run.terminal = true;
        true
    }
}

/// The row an attempt is recorded with when it ends with `status` at
/// `completed_at_ms`: latencies are kept only for a success.
pub open spec fn attempt_row_matches(row: NewStatisticsRun, run: RunState, attempt: AttemptState, status: StatisticsRunStatus, completed_at_ms: i64) -> bool {
    let s = terminal_status(status, attempt.word_count);
    let success = s == StatisticsRunStatus::Success;
    &&& row.started_at_ms == attempt.inference_started_at_ms
    &&& row.completed_at_ms == completed_at_ms
    &&& row.status == s
    &&& row.origin == run.origin
    &&& row.model_id == attempt.model_id
    &&& row.engine == attempt.engine
    &&& row.backend == attempt.backend
    &&& row.audio_duration_ms == run.audio_duration_ms
    &&& row.sample_rate_hz == run.sample_rate_hz
    &&& row.word_count == attempt.word_count
    &&& row.transcription_latency_ms == if success { attempt.transcription_latency_ms } else { None }
    &&& row.post_processing_latency_ms == if success { attempt.post_processing_latency_ms } else { None }
    &&& row.post_processing_requested == run.post_processing_requested
    &&& row.measurement_version == 1
    &&& row.word_count_version == 1
    &&& row.source_history_id == run.source_history_id
}

/// The row a run without attempts is recorded with.
pub open spec fn operational_row_matches(row: NewStatisticsRun, run: RunState, status: StatisticsRunStatus, completed_at_ms: i64) -> bool {
    &&& row.started_at_ms == run.started_at_ms
    &&& row.completed_at_ms == completed_at_ms
    &&& row.status == status
    &&& row.origin == run.origin
    &&& row.model_id is None
    &&& row.engine is None
    &&& row.backend is None
    &&& row.audio_duration_ms == run.audio_duration_ms
    &&& row.sample_rate_hz == run.sample_rate_hz
    &&& row.word_count is None
    &&& row.transcription_latency_ms is None
    &&& row.post_processing_latency_ms is None
    &&& row.post_processing_requested == run.post_processing_requested
    &&& row.measurement_version == 1
    &&& row.word_count_version == 1
    &&& row.source_history_id == run.source_history_id
}

/// End one attempt, once: the row to record the first time, `None` after.
pub fn finish_attempt(run: &RunState, attempt: &mut AttemptState, status: StatisticsRunStatus, completed_at_ms: i64)
    -> (row: Option<NewStatisticsRun>)
    ensures
        old(attempt).finalized ==> row is None && *final(attempt) == *old(attempt),
        !old(attempt).finalized ==> {
            &&& row matches Some(r) && attempt_row_matches(r, *run, *old(attempt), status, completed_at_ms)
            &&& *final(attempt) == (AttemptState { finalized: true, ..*old(attempt) })
        },
{
    if attempt.finalized {
        return None;
    }
    attempt.finalized = true;
    let status = resolved_terminal_status(status, attempt.word_count);
    let success = match status {
        StatisticsRunStatus::Success => true,
        _ => false,
    };
    let (transcription_latency_ms, post_processing_latency_ms) = if success {
        (attempt.transcription_latency_ms, attempt.post_processing_latency_ms)
    } else {
        (None, None)
    };
    Some(NewStatisticsRun {
        started_at_ms: attempt.inference_started_at_ms,
        completed_at_ms,
        status,
        origin: run.origin,
        model_id: clone_opt(&attempt.model_id),
        engine: clone_opt(&attempt.engine),
        backend: clone_opt(&attempt.backend),
        audio_duration_ms: run.audio_duration_ms,
        sample_rate_hz: run.sample_rate_hz,
        word_count: attempt.word_count,
        transcription_latency_ms,
        post_processing_latency_ms,
        post_processing_requested: run.post_processing_requested,
        measurement_version: 1,
        word_count_version: 1,
        source_history_id: run.source_history_id,
    })
}

/// End a run, once: every attempt that has not ended yet is recorded with
/// `status`, and a run that never made an attempt is recorded on its own.
/// Returns the rows to write, in that order; nothing when the run had already
/// ended.
pub fn finish_run(run: &mut RunState, status: StatisticsRunStatus, completed_at_ms: i64) -> (rows: Vec<NewStatisticsRun>)
    ensures
        old(run).terminal ==> rows@.len() == 0 && final(run).attempts@ == old(run).attempts@,
        final(run).terminal,
        final(run).attempts@.len() == old(run).attempts@.len(),
        !old(run).terminal ==> {
            let unfinished = old(run).attempts@.filter(|a: AttemptState| !a.finalized);
            &&& forall|i: int| 0 <= i < old(run).attempts@.len() ==> (#[trigger] final(run).attempts@[i]).finalized
            &&& forall|i: int| 0 <= i < old(run).attempts@.len() ==> (#[trigger] final(run).attempts@[i]) == (AttemptState { finalized: true, ..old(run).attempts@[i] })
            &&& rows@.len() == unfinished.len() + if old(run).attempt_count == 0 { 1int } else { 0int }
            &&& forall|k: int| 0 <= k < unfinished.len() ==> attempt_row_matches(#[trigger] rows@[k], *old(run), unfinished[k], status, completed_at_ms)
            &&& old(run).attempt_count == 0 ==> operational_row_matches(rows@.last(), *old(run), status, completed_at_ms)
        },
{
    let mut rows: Vec<NewStatisticsRun> = Vec::new();
    if !mark_terminal(run) {
        return rows;
    }
    let ghost orig = run.attempts@;
    let ghost snapshot = *run;
    let n = run.attempts.len();
    let mut i: usize = 0;
    while i < n
        invariant
            n == orig.len(),
            i <= n,
            run.attempts@.len() == n,
            run.origin == snapshot.origin,
            run.audio_duration_ms == snapshot.audio_duration_ms,
            run.sample_rate_hz == snapshot.sample_rate_hz,
            run.post_processing_requested == snapshot.post_processing_requested,
            run.source_history_id == snapshot.source_history_id,
            run.started_at_ms == snapshot.started_at_ms,
            run.attempt_count == snapshot.attempt_count,
            run.terminal,
            forall|k: int| 0 <= k < i ==> #[trigger] run.attempts@[k] == (AttemptState { finalized: true, ..orig[k] }),
            forall|k: int| i <= k < n ==> #[trigger] run.attempts@[k] == orig[k],
            rows@.len() == orig.take(i as int).filter(|a: AttemptState| !a.finalized).len(),
            forall|k: int| 0 <= k < rows@.len() ==> attempt_row_matches(#[trigger] rows@[k], snapshot, orig.take(i as int).filter(|a: AttemptState| !a.finalized)[k], status, completed_at_ms),
        decreases n - i,
    {
        let mut a = run.attempts.remove(i);
        let row = finish_attempt(run, &mut a, status, completed_at_ms);
        run.attempts.insert(i, a);
        proof {
            let f = |a: AttemptState| !a.finalized;
            assert(orig.take(i as int + 1).drop_last() =~= orig.take(i as int));
            reveal(Seq::filter);
        }
        match row {
            Some(r) => rows.push(r),
            None => {},
        }
        i = i + 1;
    }
    proof {
        assert(orig.take(n as int) =~= orig);
    }
    if run.attempt_count == 0 {
        rows.push(NewStatisticsRun {
            started_at_ms: run.started_at_ms,
            completed_at_ms,
            status,
            origin: run.origin,
            model_id: None,
            engine: None,
            backend: None,
            audio_duration_ms: run.audio_duration_ms,
            sample_rate_hz: run.sample_rate_hz,
            word_count: None,
            transcription_latency_ms: None,
            post_processing_latency_ms: None,
            post_processing_requested: run.post_processing_requested,
            measurement_version: 1,
            word_count_version: 1,
            source_history_id: run.source_history_id,
        });
    }
    rows
}


impl RunState {
    /// Record the captured audio: its duration before padding, and the rate.
    pub fn set_audio(&mut self, captured_sample_count: usize, sample_rate_hz: u32)
        requires
            captured_sample_count * 1000 <= i64::MAX,
        ensures
            final(self).audio_duration_ms == if sample_rate_hz > 0 {
                Some(((captured_sample_count * 1000) / (sample_rate_hz as int)) as i64)
            } else {
                None::<i64>
            },
            final(self).sample_rate_hz == if sample_rate_hz > 0 {
                Some(sample_rate_hz as i64)
            } else {
                None::<i64>
            },
            final(self).attempts == old(self).attempts,
            final(self).terminal == old(self).terminal,
            final(self).input_stopped_ms == old(self).input_stopped_ms,
    {
        self.audio_duration_ms = audio_duration_ms(captured_sample_count, sample_rate_hz);
        self.sample_rate_hz = if sample_rate_hz > 0 {
            Some(sample_rate_hz as i64)
        } else {
            None
        };
    }

    /// Record the duration of the speech alone, and the rate.
    pub fn set_speech_audio_duration_ms(&mut self, speech_duration_ms: i64, sample_rate_hz: u32)
        ensures
            final(self).audio_duration_ms == Some(speech_duration_ms),
            final(self).sample_rate_hz == if sample_rate_hz > 0 {
                Some(sample_rate_hz as i64)
            } else {
                None::<i64>
            },
            final(self).attempts == old(self).attempts,
            final(self).terminal == old(self).terminal,
            final(self).input_stopped_ms == old(self).input_stopped_ms,
    {
        self.audio_duration_ms = Some(speech_duration_ms);
        self.sample_rate_hz = if sample_rate_hz > 0 {
            Some(sample_rate_hz as i64)
        } else {
            None
        };
    }

    /// Record, once, when the user stopped input and whether post-processing
    /// was asked for.
    pub fn mark_input_stopped(&mut self, stopped_ms: u64, post_processing_requested: bool)
        ensures
            old(self).input_stopped_ms is None ==> final(self).input_stopped_ms == Some(stopped_ms)
                && final(self).post_processing_requested == post_processing_requested,
            old(self).input_stopped_ms is Some ==> final(self).input_stopped_ms == old(self).input_stopped_ms
                && final(self).post_processing_requested == old(self).post_processing_requested,
            final(self).attempts == old(self).attempts,
            final(self).terminal == old(self).terminal,
    {
        if self.input_stopped_ms.is_none() {
            self.input_stopped_ms = Some(stopped_ms);
            self.post_processing_requested = post_processing_requested;
        }
    }

    /// Overwrite whether post-processing was asked for.
    pub fn set_post_processing_requested(&mut self, requested: bool)
        ensures
            final(self).post_processing_requested == requested,
            final(self).input_stopped_ms == old(self).input_stopped_ms,
            final(self).attempts == old(self).attempts,
            final(self).terminal == old(self).terminal,
    {
        self.post_processing_requested = requested;
    }

    /// Whether the run has ended.
    pub fn is_terminal(&self) -> (b: bool)
        ensures
            b == self.terminal,
    {
        self.terminal
    }
}

/// The run registered for a binding: the first entry with that key.
pub open spec fn registry_lookup(entries: Seq<(String, u64)>, key: Seq<char>) -> Option<u64>
    decreases entries.len(),
{
    if entries.len() == 0 {
        None
    } else if entries[0].0@ == key {
        Some(entries[0].1)
    } else {
        registry_lookup(entries.drop_first(), key)
    }
}

/// The active normal runs, one per shortcut binding, each named by the
/// caller's run handle.
pub struct NormalRunRegistry {
    runs: Vec<(String, u64)>,
}

impl NormalRunRegistry {
    /// The (binding, run) entries, in the order they were registered.
    pub closed spec fn entries(self) -> Seq<(String, u64)> {
        self.runs@
    }

    /// The run registered for `binding`, if any.
    pub open spec fn lookup(self, binding: Seq<char>) -> Option<u64> {
        registry_lookup(self.entries(), binding)
    }

    pub fn new() -> (r: Self)
        ensures
            r.entries().len() == 0,
    {
        NormalRunRegistry { runs: Vec::new() }
    }

    /// The run registered for `binding_id`.
    pub fn get(&self, binding_id: &str) -> (r: Option<u64>)
        ensures
            r == self.lookup(binding_id@),
    {
        let key = chars_of(binding_id);
        let mut i: usize = 0;
        assert(self.runs@.skip(0) =~= self.runs@);
        while i < self.runs.len()
            invariant
                key@ == binding_id@,
                i <= self.runs@.len(),
                registry_lookup(self.runs@, key@) == registry_lookup(self.runs@.skip(i as int), key@),
            decreases self.runs.len() - i,
        {
            let k = chars_of(self.runs[i].0.as_str());
            proof {
                assert(self.runs@.skip(i as int).drop_first() =~= self.runs@.skip(i as int + 1));
            }
            if chars_equal(&k, &key) {
                return Some(self.runs[i].1);
            }
            i = i + 1;
        }
        None
    }

    /// The run registered for `binding_id`, registering `candidate` for it
    /// first when there is none.
    pub fn insert_or_get(&mut self, binding_id: &str, candidate: u64) -> (r: u64)
        ensures
            old(self).lookup(binding_id@) matches Some(h) ==> r == h && final(self).entries() == old(self).entries(),
            old(self).lookup(binding_id@) is None ==> r == candidate
                && final(self).entries() == old(self).entries().push((final(self).entries().last().0, candidate))
                && final(self).entries().last().0@ == binding_id@,
            final(self).lookup(binding_id@) == Some(r),
    {
        match self.get(binding_id) {
            Some(h) => h,
            None => {
                let key = string_from_chars(&chars_of(binding_id));
                let ghost before = self.runs@;
                self.runs.push((key, candidate));
                proof {
                    lemma_lookup_push(before, binding_id@, (key, candidate));
                }
                candidate
            },
        }
    }

    /// Drop every binding registered for run `handle`.
    pub fn remove_state(&mut self, handle: u64)
        ensures
            final(self).entries() == old(self).entries().filter(|e: (String, u64)| e.1 != handle),
    {
        let mut kept: Vec<(String, u64)> = Vec::new();
        let ghost orig = self.runs@;
        let mut i: usize = 0;
        while i < self.runs.len()
            invariant
                orig == self.runs@,
                i <= orig.len(),
                kept@ == orig.take(i as int).filter(|e: (String, u64)| e.1 != handle),
            decreases self.runs.len() - i,
        {
            proof {
                assert(orig.take(i as int + 1).drop_last() =~= orig.take(i as int));
                reveal(Seq::filter);
            }
            if self.runs[i].1 != handle {
                let entry = (self.runs[i].0.clone(), self.runs[i].1);
                kept.push(entry);
            }
            i = i + 1;
        }
        proof {
            assert(orig.take(orig.len() as int) =~= orig);
        }
        self.runs = kept;
    }
}

/// Registering an entry for a key without one makes it that key's entry,
/// and leaves every other key's lookup as it was.
pub proof fn lemma_lookup_push(entries: Seq<(String, u64)>, key: Seq<char>, e: (String, u64))
    requires
        registry_lookup(entries, key) is None,
        e.0@ == key,
    ensures
        registry_lookup(entries.push(e), key) == Some(e.1),
    decreases entries.len(),
{
    if entries.len() > 0 {
        assert(entries.push(e).drop_first() =~= entries.drop_first().push(e));
        lemma_lookup_push(entries.drop_first(), key, e);
    } else {
        assert(entries.push(e)[0] == e);
    }
}

/// Registering one binding never changes which run another binding holds.
pub proof fn lemma_lookup_push_other(entries: Seq<(String, u64)>, key: Seq<char>, e: (String, u64))
    requires
        e.0@ != key,
    ensures
        registry_lookup(entries.push(e), key) == registry_lookup(entries, key),
    decreases entries.len(),
{
    if entries.len() > 0 {
        assert(entries.push(e).drop_first() =~= entries.drop_first().push(e));
        lemma_lookup_push_other(entries.drop_first(), key, e);
    } else {
        assert(entries.push(e).drop_first() =~= Seq::<(String, u64)>::empty());
        reveal_with_fuel(registry_lookup, 2);
    }
}


/// The day number (days from the Common Era, as chrono counts them) of a
/// `YYYY-MM-DD` date; `None` when chrono does not parse it as such.
pub uninterp spec fn ymd_day_number(s: Seq<char>) -> Option<int>;

/// Parse a `YYYY-MM-DD` date to its day number.
///
/// Trusted: calls chrono's `NaiveDate::parse_from_str` with the format
/// `%Y-%m-%d` and converts a parsed date with `Datelike::num_days_from_ce`.
/// Claims only that the result is the named [`ymd_day_number`] of the text.
#[verifier::external_body]
fn parse_ymd_day(s: &str) -> (r: Option<i32>)
    ensures
        r matches Some(d) ==> ymd_day_number(s@) == Some(d as int),
        r is None ==> ymd_day_number(s@) is None,
{
    chrono::NaiveDate::parse_from_str(s, "%Y-%m-%d").ok().map(|d| chrono::Datelike::num_days_from_ce(&d))
}

/// How many more days the streak runs from position `i` of the newest-first
/// list of days: each pair of dates one day apart extends it, the first pair
/// of dates further apart ends it, and a day that does not parse is skipped
/// over without ending it.
pub open spec fn streak_steps(days: Seq<Seq<char>>, i: int) -> nat
    decreases days.len() - i,
{
    if i <= 0 || i >= days.len() {
        0
    } else {
        match (ymd_day_number(days[i - 1]), ymd_day_number(days[i])) {
            (Some(a), Some(b)) => if a - b == 1 {
                1 + streak_steps(days, i + 1)
            } else {
                0
            },
            _ => streak_steps(days, i + 1),
        }
    }
}

/// The current streak of days with a successful run, from the distinct days
/// (newest first) and the local dates of today and yesterday: zero when the
/// newest day is neither.
pub open spec fn streak_spec(days: Seq<Seq<char>>, today: Seq<char>, yesterday: Seq<char>) -> int {
    if days.len() == 0 || (days[0] != today && days[0] != yesterday) {
        0
    } else {
        (1 + streak_steps(days, 1)) as int
    }
}

proof fn lemma_streak_steps_bound(days: Seq<Seq<char>>, i: int)
    requires
        1 <= i,
    ensures
        streak_steps(days, i) <= if days.len() > i { days.len() - i } else { 0 },
    decreases days.len() - i,
{
    if i < days.len() {
        lemma_streak_steps_bound(days, i + 1);
    }
}

/// Entries `j - 1` and `j` of a newest-first list are dates exactly one day
/// apart.
pub open spec fn one_day_apart(days: Seq<Seq<char>>, j: int) -> bool {
    &&& ymd_day_number(days[j - 1]) is Some
    &&& ymd_day_number(days[j]) is Some
    &&& ymd_day_number(days[j - 1])->0 - ymd_day_number(days[j])->0 == 1
}

proof fn lemma_steps_over_run(days: Seq<Seq<char>>, i: int, n: int)
    requires
        1 <= i <= n <= days.len(),
        forall|j: int| i <= j < n ==> #[trigger] one_day_apart(days, j),
    ensures
        streak_steps(days, i) == (n - i) + streak_steps(days, n),
    decreases n - i,
{
    if i < n {
        assert(one_day_apart(days, i));
        lemma_steps_over_run(days, i + 1, n);
    }
}

/// The streak counts only days exactly one day apart: when the newest day is
/// today or yesterday and the first `n` days are consecutive dates, the
/// streak is `n` if the list ends there or the next parsed pair of dates is
/// anything other than one day apart (a gap of two days or more ends it).
pub proof fn law_streak_stops_at_a_gap(days: Seq<Seq<char>>, today: Seq<char>, yesterday: Seq<char>, n: int)
    requires
        1 <= n <= days.len(),
        days[0] == today || days[0] == yesterday,
        forall|j: int| 1 <= j < n ==> #[trigger] one_day_apart(days, j),
        n == days.len() || (ymd_day_number(days[n - 1]) is Some && ymd_day_number(days[n]) is Some
            && !one_day_apart(days, n)),
    ensures
        streak_spec(days, today, yesterday) == n,
{
    lemma_steps_over_run(days, 1, n);
}

/// A newest day that is neither today nor yesterday means no streak.
pub proof fn law_streak_needs_a_recent_day(days: Seq<Seq<char>>, today: Seq<char>, yesterday: Seq<char>)
    requires
        days.len() == 0 || (days[0] != today && days[0] != yesterday),
    ensures
        streak_spec(days, today, yesterday) == 0,
{
}

/// The current streak of days with a successful run.
pub fn current_streak_days(days: &Vec<String>, today: &str, yesterday: &str) -> (streak: i32)
    requires
        days@.len() < i32::MAX,
    ensures
        streak == streak_spec(Seq::new(days@.len(), |k: int| days@[k]@), today@, yesterday@),
{
    let ghost d = Seq::new(days@.len(), |k: int| days@[k]@);
    if days.len() == 0 {
        return 0;
    }
    let first = chars_of(days[0].as_str());
    let t = chars_of(today);
    let y = chars_of(yesterday);
    if !chars_equal(&first, &t) && !chars_equal(&first, &y) {
        return 0;
    }
    proof {
        lemma_streak_steps_bound(d, 1);
    }
    let mut streak: i32 = 1;
    let mut i: usize = 1;
    while i < days.len()
        invariant_except_break
            1 <= i <= days@.len(),
            1 + streak_steps(d, 1) == streak + streak_steps(d, i as int),
        invariant
            d == Seq::new(days@.len(), |k: int| days@[k]@),
            days@.len() < i32::MAX,
            1 <= streak <= i,
        ensures
            streak == 1 + streak_steps(d, 1),
        decreases days.len() - i,
    {
        let prev = parse_ymd_day(days[i - 1].as_str());
        let curr = parse_ymd_day(days[i].as_str());
        match (prev, curr) {
            (Some(a), Some(b)) => {
                if (a as i64) - (b as i64) == 1 {
                    streak = streak + 1;
                } else {
                    break;
                }
            },
            _ => {},
        }
        i = i + 1;
    }
    streak
}

/// A finished attempt's row carries latencies only when it is a success, and
/// a success always carries a non-zero word count.
pub proof fn lemma_attempt_rows_keep_latency_rules(
    row: NewStatisticsRun,
    run: RunState,
    attempt: AttemptState,
    status: StatisticsRunStatus,
    completed_at_ms: i64,
)
    requires
        attempt_row_matches(row, run, attempt, status, completed_at_ms),
    ensures
        row.status != StatisticsRunStatus::Success ==> row.transcription_latency_ms is None
            && row.post_processing_latency_ms is None,
        row.status == StatisticsRunStatus::Success ==> (row.word_count matches Some(w) && w != 0),
{
}

} // verus!
