//! Transcription decisions that do not need a loaded engine: which
//! per-model preference a model id inherits, how a Multi-STT slot folds its
//! own preferences in, which accelerators this host offers, the language
//! evidence of a run's output and the language/task plan of a run.

use vstd::prelude::*;
use vstd::string::StringExecFns;
use crate::settings::{
    AppSettings, ModelBackendSetting, TranscribeAcceleratorSetting, MultiSttExtraModel,
    inherited, slot_holding, lemma_slot_holding, panel_len, inserted, auto_language,
};
use crate::streaming_latency::{
    NativeStreamingLatencyKind, NativeStreamingLatencyPreset, R2T2_CHUNK_MS_DEFAULT, LatencyPoint, ExtensionKind,
    StreamExtension, latency_point, latency_point_spec, stream_extension_for, extension_spec, R2T2_CHUNK_MS_MIN,
    R2T2_CHUNK_MS_MAX,
};
use crate::text::{chars_of, chars_equal, str_eq, decimal, decimal_string, ascii_lower_seq, ascii_lowercase_chars, has_infix, contains_chars};
use crate::search::{first_where, lemma_first_where};

verus! {

/// Number of timed runs averaged per variant when the caller picks none.
pub const BENCHMARK_DEFAULT_RUNS: usize = 5;

/// Inclusive lower bound of the selectable timed-run count.
pub const BENCHMARK_MIN_RUNS: usize = 2;

/// Inclusive upper bound of the selectable timed-run count.
pub const BENCHMARK_MAX_RUNS: usize = 10;

/// Stream slot of the app's own (primary) model.
pub const PRIMARY_STREAM_SLOT: u8 = 0;

/// The number of timed benchmark runs: the request, or the default, clamped
/// into `[BENCHMARK_MIN_RUNS, BENCHMARK_MAX_RUNS]`. The warmup run is extra.
pub fn benchmark_timed_runs(requested: Option<usize>) -> (n: usize)
    ensures
        n == ({
            let r = match requested {
                Some(r) => r,
                None => BENCHMARK_DEFAULT_RUNS,
            };
            if r < BENCHMARK_MIN_RUNS {
                BENCHMARK_MIN_RUNS
            } else if r > BENCHMARK_MAX_RUNS {
                BENCHMARK_MAX_RUNS
            } else {
                r
            }
        }),
{
    let r = match requested {
        Some(r) => r,
        None => BENCHMARK_DEFAULT_RUNS,
    };
    if r < BENCHMARK_MIN_RUNS {
        BENCHMARK_MIN_RUNS
    } else if r > BENCHMARK_MAX_RUNS {
        BENCHMARK_MAX_RUNS
    } else {
        r
    }
}

// ---------------------------------------------------------------------------
// Per-model preferences
// ---------------------------------------------------------------------------

/// The backend a model asks for: what it inherits from the per-model table
/// (see [`inherited`]), else `Auto`.
pub fn get_effective_model_backend(settings: &AppSettings, model_id: &str) -> (b: ModelBackendSetting)
    ensures
        b == match inherited(settings.per_model_backends.view(), model_id@) {
            Some(v) => v,
            None => ModelBackendSetting::Auto,
        },
{
    match settings.per_model_backends.inherited_value(model_id) {
        Some(v) => v,
        None => ModelBackendSetting::Auto,
    }
}

/// The streaming latency preset of a model: what it inherits from the
/// per-model table, else `Accurate`.
pub fn get_effective_latency_preset(settings: &AppSettings, model_id: &str) -> (p: NativeStreamingLatencyPreset)
    ensures
        p == match inherited(settings.native_streaming_latency_presets.view(), model_id@) {
            Some(v) => v,
            None => NativeStreamingLatencyPreset::Accurate,
        },
{
    match settings.native_streaming_latency_presets.inherited_value(model_id) {
        Some(v) => v,
        None => NativeStreamingLatencyPreset::Accurate,
    }
}

/// The R2T2 streaming chunk size of a model: what it inherits from the
/// per-model table, else the R2T2 default.
pub fn get_effective_r2t2_chunk_ms(settings: &AppSettings, model_id: &str) -> (c: u32)
    ensures
        c == match inherited(settings.native_streaming_chunk_ms.view(), model_id@) {
            Some(v) => v,
            None => R2T2_CHUNK_MS_DEFAULT,
        },
{
    match settings.native_streaming_chunk_ms.inherited_value(model_id) {
        Some(v) => v,
        None => R2T2_CHUNK_MS_DEFAULT,
    }
}

/// The latency a model streams at under the settings, for the log: `None`
/// for a model without a latency control (`kind`).
pub fn latency_setting_point(
    settings: &AppSettings,
    model_id: &str,
    kind: Option<NativeStreamingLatencyKind>,
) -> (p: Option<LatencyPoint>)
    ensures
        p == match kind {
            None => None,
            Some(k) => Some(latency_point_spec(
                k,
                match inherited(settings.native_streaming_latency_presets.view(), model_id@) {
                    Some(v) => v,
                    None => NativeStreamingLatencyPreset::Accurate,
                },
                match inherited(settings.native_streaming_chunk_ms.view(), model_id@) {
                    Some(v) => v,
                    None => R2T2_CHUNK_MS_DEFAULT,
                },
            )),
        },
{
    match kind {
        None => None,
        Some(k) => {
            let preset = get_effective_latency_preset(settings, model_id);
            let chunk_ms = get_effective_r2t2_chunk_ms(settings, model_id);
            Some(latency_point(k, preset, chunk_ms))
        },
    }
}

/// The stream extension a model is asked to accept under the settings (see
/// [`stream_extension_for`]), from its effective preset and chunk size; the
/// caller attaches it only when the model accepts its kind.
pub fn resolved_stream_extension(
    settings: &AppSettings,
    model_id: &str,
    kind: Option<NativeStreamingLatencyKind>,
) -> (r: Option<(ExtensionKind, StreamExtension)>)
    ensures
        ({
            let preset = match inherited(settings.native_streaming_latency_presets.view(), model_id@) {
                Some(v) => v,
                None => NativeStreamingLatencyPreset::Accurate,
            };
            let chunk_ms = match inherited(settings.native_streaming_chunk_ms.view(), model_id@) {
                Some(v) => v,
                None => R2T2_CHUNK_MS_DEFAULT,
            };
            r == match kind {
                None => None,
                Some(NativeStreamingLatencyKind::R2T2ChunkMs) => if R2T2_CHUNK_MS_MIN <= chunk_ms
                    <= R2T2_CHUNK_MS_MAX {
                    Some((ExtensionKind::R2T2Stream, StreamExtension::R2T2 { chunk_size_ms: Some(chunk_ms) }))
                } else {
                    None
                },
                Some(k) => extension_spec(k, preset),
            }
        }),
{
    let preset = get_effective_latency_preset(settings, model_id);
    let chunk_ms = get_effective_r2t2_chunk_ms(settings, model_id);
    stream_extension_for(kind, preset, chunk_ms)
}

// ---------------------------------------------------------------------------
// Multi-STT slots
// ---------------------------------------------------------------------------

/// The model id the panel holds for a stream slot: slot `n` is the panel's
/// position `n - 1`. `None` for the primary's slot, past the panel's models
/// and for a slot without a model.
pub open spec fn slot_model(models: Seq<MultiSttExtraModel>, slot: u8) -> Option<String> {
    if 1 <= slot && slot - 1 < panel_len(models) {
        models[slot - 1].model_id
    } else {
        None
    }
}

/// The panel's model for stream slot `slot` (see [`slot_model`]).
pub fn multi_stt_extra_model(settings: &AppSettings, slot: u8) -> (m: Option<String>)
    ensures
        m == slot_model(settings.multi_stt_extra_models@, slot),
{
    if slot == 0 {
        return None;
    }
    let index = (slot - 1) as usize;
    let mut ids = settings.multi_stt_extra_model_ids();
    if index < ids.len() {
        ids.swap_remove(index)
    } else {
        None
    }
}

/// Whether `after` is `before` with a Multi-STT slot's preferences folded in
/// for `model_id`: the slot's pinned language and translate flag, and its own
/// latency and chunk size written under the exact model id.
pub open spec fn folded(before: AppSettings, after: AppSettings, model_id: Seq<char>) -> bool {
    match slot_holding(before.multi_stt_extra_models@, model_id, 0) {
        None => after == before,
        Some(p) => {
            let m = before.multi_stt_extra_models@[p];
            &&& after.selected_language@ == match m.language {
                Some(l) => l@,
                None => before.selected_language@,
            }
            &&& after.translate_to_english == m.translate
            &&& after.native_streaming_latency_presets.view() == match m.latency_preset {
                Some(v) => inserted(before.native_streaming_latency_presets.view(), model_id, v),
                None => before.native_streaming_latency_presets.view(),
            }
            &&& after.native_streaming_chunk_ms.view() == match m.chunk_ms {
                Some(v) => inserted(before.native_streaming_chunk_ms.view(), model_id, v),
                None => before.native_streaming_chunk_ms.view(),
            }
            &&& after.transcribe_accelerator == before.transcribe_accelerator
            &&& after.transcribe_gpu_device == before.transcribe_gpu_device
            &&& after.per_model_backends == before.per_model_backends
            &&& after.multi_stt_extra_models == before.multi_stt_extra_models
        },
    }
}

/// Folds the preferences of the panel slot holding `model_id` into
/// `settings`; a model that is in no slot keeps the global settings.
pub fn apply_extra_model_settings(settings: &mut AppSettings, model_id: &str)
    ensures
        folded(*old(settings), *final(settings), model_id@),
{
    let (language, translate, latency_preset, chunk_ms) = match settings.multi_stt_extra_slot_for(model_id) {
        Some(slot) => {
            let language = match &slot.language {
                Some(l) => Some(l.clone()),
                None => None,
            };
            (language, slot.translate, slot.latency_preset, slot.chunk_ms)
        },
        None => {
            return;
        },
    };
    if let Some(l) = language {
        settings.selected_language = l;
    }
    settings.translate_to_english = translate;
    if let Some(preset) = latency_preset {
        settings.native_streaming_latency_presets.insert(model_id, preset);
    }
    if let Some(chunk) = chunk_ms {
        settings.native_streaming_chunk_ms.insert(model_id, chunk);
    }
}

/// The two directions of slot numbering agree: when stream slot `slot` holds
/// `model_id` and no earlier slot holds it, folding `model_id`'s preferences
/// in uses exactly that slot's preferences.
pub proof fn lemma_slot_and_model_agree(settings: AppSettings, slot: u8, model_id: Seq<char>)
    requires
        1 <= slot,
        slot_model(settings.multi_stt_extra_models@, slot) matches Some(m) && m@ == model_id,
        forall|q: int| 0 <= q < slot - 1 ==> crate::settings::opt_chars(
            #[trigger] settings.multi_stt_extra_models@[q].model_id) != Some(model_id),
    ensures
        slot_holding(settings.multi_stt_extra_models@, model_id, 0) == Some(slot - 1),
{
    let models = settings.multi_stt_extra_models@;
    lemma_slot_holding(models, model_id, 0);
    match slot_holding(models, model_id, 0) {
        Some(p) => {
            if p < slot - 1 {
                assert(crate::settings::opt_chars(models[p].model_id) != Some(model_id));
            } else if p > slot - 1 {
                assert(crate::settings::opt_chars(models[slot - 1].model_id) != Some(model_id));
            }
        },
        None => {
            assert(crate::settings::opt_chars(models[slot - 1].model_id) != Some(model_id));
        },
    }
}


// ---------------------------------------------------------------------------
// Languages
// ---------------------------------------------------------------------------

/// The characters of `zh`.
pub open spec fn zh() -> Seq<char> {
    seq!['z', 'h']
}

/// The characters of `en`.
pub open spec fn en() -> Seq<char> {
    seq!['e', 'n']
}

/// The Chinese script variants the engines know as plain `zh`.
pub open spec fn is_zh_variant(s: Seq<char>) -> bool {
    s == seq!['z', 'h', '-', 'H', 'a', 'n', 's'] || s == seq!['z', 'h', '-', 'H', 'a', 'n', 't']
}

/// `zh-Hans` and `zh-Hant` become `zh`; anything else is unchanged.
pub open spec fn normalized_cjk(s: Seq<char>) -> Seq<char> {
    if is_zh_variant(s) {
        zh()
    } else {
        s
    }
}

/// Maps the Chinese script variants to the engines' `zh`.
pub fn normalize_cjk_language(language: &str) -> (r: &str)
    ensures
        r@ == normalized_cjk(language@),
{
    proof {
        reveal_strlit("zh-Hans");
        reveal_strlit("zh-Hant");
        reveal_strlit("zh");
        assert("zh-Hans"@ =~= seq!['z', 'h', '-', 'H', 'a', 'n', 's']);
        assert("zh-Hant"@ =~= seq!['z', 'h', '-', 'H', 'a', 'n', 't']);
        assert("zh"@ =~= zh());
    }
    if str_eq(language, "zh-Hans") || str_eq(language, "zh-Hant") {
        "zh"
    } else {
        language
    }
}

/// Index of the first `-` or `_` of `s`, or its length.
pub open spec fn subtag_end(s: Seq<char>, i: int) -> int
    decreases s.len() - i,
{
    if i < 0 || i >= s.len() {
        s.len() as int
    } else if s[i] == '-' || s[i] == '_' {
        i
    } else {
        subtag_end(s, i + 1)
    }
}

/// The canonical form of a language code: its primary subtag in ASCII
/// lowercase, with Norwegian Bokmål `nb` folded into the macrolanguage `no`.
pub open spec fn canonical_code(s: Seq<char>) -> Seq<char> {
    let p = ascii_lower_seq(s.subrange(0, subtag_end(s, 0)));
    if p == seq!['n', 'b'] {
        seq!['n', 'o']
    } else {
        p
    }
}

proof fn lemma_subtag_end(s: Seq<char>, i: int)
    requires
        0 <= i <= s.len(),
    ensures
        i <= subtag_end(s, i) <= s.len(),
        forall|j: int| i <= j < subtag_end(s, i) ==> #[trigger] s[j] != '-' && s[j] != '_',
        subtag_end(s, i) < s.len() ==> s[subtag_end(s, i)] == '-' || s[subtag_end(s, i)] == '_',
    decreases s.len() - i,
{
    if i < s.len() && s[i] != '-' && s[i] != '_' {
        lemma_subtag_end(s, i + 1);
    }
}

/// The canonical form of a language code (see [`canonical_code`]).
pub fn canonical_language_code(code: &str) -> (c: String)
    ensures
        c@ == canonical_code(code@),
{
    let v = chars_of(code);
    let mut end: usize = 0;
    while end < v.len() && v[end] != '-' && v[end] != '_'
        invariant
            end <= v@.len(),
            v@ == code@,
            subtag_end(code@, 0) == subtag_end(code@, end as int),
        decreases v.len() - end,
    {
        end = end + 1;
    }
    let mut primary: Vec<char> = Vec::new();
    let mut i: usize = 0;
    while i < end
        invariant
            i <= end <= v@.len(),
            primary@ == v@.subrange(0, i as int),
        decreases end - i,
    {
        primary.push(v[i]);
        i = i + 1;
    }
    let lower = ascii_lowercase_chars(&primary);
    if lower.len() == 2 && lower[0] == 'n' && lower[1] == 'b' {
        assert(lower@ =~= seq!['n', 'b']);
        let mut no: Vec<char> = Vec::new();
        no.push('n');
        no.push('o');
        assert(no@ =~= seq!['n', 'o']);
        crate::text::string_from_chars(&no)
    } else {
        assert(lower@ != seq!['n', 'b']);
        crate::text::string_from_chars(&lower)
    }
}

/// How the language of a run's output is known.
#[derive(Clone, Debug, PartialEq, Eq)]
pub enum OutputLanguageEvidence {
    /// The user picked this language and the run received it.
    UserSelected(String),
    /// The engine or the model fixed this language.
    ModelConstrained(String),
    /// The model detected this language from the audio.
    ModelDetected(String),
    /// Detection on the transcribed text found this language.
    TextDetected(String),
    /// The run translated to English.
    TranslatedToEnglish,
    Unknown,
}

/// The variant of an [`OutputLanguageEvidence`], without its language.
#[derive(Clone, Copy, Debug, PartialEq, Eq, Structural)]
pub enum EvidenceKind {
    UserSelected,
    ModelConstrained,
    ModelDetected,
    TextDetected,
    TranslatedToEnglish,
    Unknown,
}

/// An evidence as its variant and its language (empty when it has none).
pub open spec fn evidence_parts(e: OutputLanguageEvidence) -> (EvidenceKind, Seq<char>) {
    match e {
        OutputLanguageEvidence::UserSelected(l) => (EvidenceKind::UserSelected, l@),
        OutputLanguageEvidence::ModelConstrained(l) => (EvidenceKind::ModelConstrained, l@),
        OutputLanguageEvidence::ModelDetected(l) => (EvidenceKind::ModelDetected, l@),
        OutputLanguageEvidence::TextDetected(l) => (EvidenceKind::TextDetected, l@),
        OutputLanguageEvidence::TranslatedToEnglish => (EvidenceKind::TranslatedToEnglish, Seq::empty()),
        OutputLanguageEvidence::Unknown => (EvidenceKind::Unknown, Seq::empty()),
    }
}

/// A language hint that a run actually received: present, non-empty and not
/// `auto`.
pub open spec fn hint_applied(hint: Option<Seq<char>>) -> bool {
    hint matches Some(h) && h.len() > 0 && h != auto_language()
}

/// The evidence of a run's output language: translation means English; an
/// applied hint is the user's choice when it matches the selected language
/// (by canonical code) and otherwise a constraint of the engine; a model with
/// a single language constrains the output to it; otherwise nothing is known.
pub open spec fn resolved_evidence(
    selected: Seq<char>,
    hint: Option<Seq<char>>,
    supported: Seq<Seq<char>>,
    translated: bool,
) -> (EvidenceKind, Seq<char>) {
    if translated {
        (EvidenceKind::TranslatedToEnglish, Seq::empty())
    } else if hint_applied(hint) {
        let h = hint->0;
        if selected != auto_language() && canonical_code(selected) == canonical_code(h) {
            (EvidenceKind::UserSelected, h)
        } else {
            (EvidenceKind::ModelConstrained, h)
        }
    } else if supported.len() == 1 {
        (EvidenceKind::ModelConstrained, supported[0])
    } else {
        (EvidenceKind::Unknown, Seq::empty())
    }
}

/// An optional borrowed string as optional characters.
pub open spec fn opt_str(o: Option<&str>) -> Option<Seq<char>> {
    match o {
        Some(s) => Some(s@),
        None => None,
    }
}

/// The strings of a list as characters.
pub open spec fn strings_view(v: Seq<String>) -> Seq<Seq<char>> {
    v.map_values(|s: String| s@)
}

/// How confidently the language of a run's output is known (see
/// [`resolved_evidence`]). The UI language plays no part.
pub fn resolve_output_language_evidence(
    settings: &AppSettings,
    applied_language_hint: Option<&str>,
    supported_languages: &[String],
    translated_to_english: bool,
) -> (e: OutputLanguageEvidence)
    ensures
        evidence_parts(e) == resolved_evidence(
            settings.selected_language@,
            opt_str(applied_language_hint),
            strings_view(supported_languages@),
            translated_to_english,
        ),
{
    proof {
        reveal_strlit("auto");
        assert("auto"@ =~= auto_language());
    }
    if translated_to_english {
        return OutputLanguageEvidence::TranslatedToEnglish;
    }
    if let Some(language) = applied_language_hint {
        if !language.is_empty() && !str_eq(language, "auto") {
            if !str_eq(settings.selected_language.as_str(), "auto") {
                let a = canonical_language_code(settings.selected_language.as_str());
                let b = canonical_language_code(language);
                if str_eq(a.as_str(), b.as_str()) {
                    return OutputLanguageEvidence::UserSelected(String::from_str(language));
                }
            }
            return OutputLanguageEvidence::ModelConstrained(String::from_str(language));
        }
    }
    if supported_languages.len() == 1 {
        return OutputLanguageEvidence::ModelConstrained(supported_languages[0].clone());
    }
    OutputLanguageEvidence::Unknown
}

/// Upgrades `Unknown` evidence with the language the model detected from the
/// audio; stronger evidence, and a missing, empty or `auto` detection, leave
/// the evidence as it is.
pub fn with_model_detected_language(
    evidence: OutputLanguageEvidence,
    detected: Option<String>,
) -> (e: OutputLanguageEvidence)
    ensures
        e == match (evidence, detected) {
            (OutputLanguageEvidence::Unknown, Some(l)) => if l@.len() > 0 && l@ != auto_language() {
                OutputLanguageEvidence::ModelDetected(l)
            } else {
                OutputLanguageEvidence::Unknown
            },
            (other, _) => other,
        },
{
    proof {
        reveal_strlit("auto");
        assert("auto"@ =~= auto_language());
    }
    match (evidence, detected) {
        (OutputLanguageEvidence::Unknown, Some(language)) => {
            if !language.as_str().is_empty() && !str_eq(language.as_str(), "auto") {
                OutputLanguageEvidence::ModelDetected(language)
            } else {
                OutputLanguageEvidence::Unknown
            }
        },
        (other, _) => other,
    }
}

// ---------------------------------------------------------------------------
// The language and task of a run
// ---------------------------------------------------------------------------

/// What a run asks the engine to do.
#[derive(Clone, Copy, Debug, PartialEq, Eq, Structural)]
pub enum Task {
    Transcribe,
    Translate,
}

/// The task of a run and its translation target: translation to English only
/// where the user asked for it, the model can translate and the source is
/// not already English.
pub open spec fn translation_task(translate: bool, supports: bool, source: Option<Seq<char>>) -> (Task, Option<Seq<char>>) {
    if translate && supports && source != Some(en()) {
        (Task::Translate, Some(en()))
    } else {
        (Task::Transcribe, None)
    }
}

/// An optional string as optional characters.
pub open spec fn opt_string(o: Option<String>) -> Option<Seq<char>> {
    match o {
        Some(s) => Some(s@),
        None => None,
    }
}

/// The task and translation target of a run (see [`translation_task`]).
pub fn cpp_translation_task(
    translate_to_english: bool,
    model_supports_translate: bool,
    source_language: Option<&str>,
) -> (r: (Task, Option<String>))
    ensures
        (r.0, opt_string(r.1)) == translation_task(translate_to_english, model_supports_translate, opt_str(source_language)),
{
    proof {
        reveal_strlit("en");
        assert("en"@ =~= en());
    }
    let is_en = match source_language {
        Some(l) => str_eq(l, "en"),
        None => false,
    };
    if translate_to_english && model_supports_translate && !is_en {
        (Task::Translate, Some(String::from_str("en")))
    } else {
        (Task::Transcribe, None)
    }
}

/// The language and task options of one run.
#[derive(Clone, Debug)]
pub struct TranscribeCppRunPlan {
    pub task: Task,
    /// The language hint the run passes; `None` lets the model detect.
    pub language: Option<String>,
    pub target_language: Option<String>,
}

/// The language a run passes: the effective language (Chinese variants
/// normalized) when it is not `auto` and the model advertises it.
pub open spec fn planned_language(effective: Seq<char>, model_languages: Seq<Seq<char>>) -> Option<Seq<char>> {
    if effective != auto_language() && model_languages.contains(normalized_cjk(effective)) {
        Some(normalized_cjk(effective))
    } else {
        None
    }
}

/// The language/task options shared by batch and streaming runs.
pub fn transcribe_cpp_run_plan(
    translate_to_english: bool,
    effective_language: &str,
    model_languages: &[String],
    model_supports_translate: bool,
) -> (plan: TranscribeCppRunPlan)
    ensures
        opt_string(plan.language) == planned_language(effective_language@, strings_view(model_languages@)),
        (plan.task, opt_string(plan.target_language)) == translation_task(
            translate_to_english,
            model_supports_translate,
            planned_language(effective_language@, strings_view(model_languages@)),
        ),
{
    proof {
        reveal_strlit("auto");
        assert("auto"@ =~= auto_language());
    }
    let ghost langs = strings_view(model_languages@);
    let language: Option<String> = if str_eq(effective_language, "auto") {
        None
    } else {
        let wanted = normalize_cjk_language(effective_language);
        let mut found = false;
        let mut i: usize = 0;
        while i < model_languages.len()
            invariant
                i <= model_languages@.len(),
                langs == strings_view(model_languages@),
                found <==> exists|j: int| 0 <= j < i && langs[j] == wanted@,
            decreases model_languages.len() - i,
        {
            if str_eq(model_languages[i].as_str(), wanted) {
                assert(langs[i as int] == wanted@);
                found = true;
            }
            i = i + 1;
        }
        proof {
            if found {
                let j = choose|j: int| 0 <= j < model_languages@.len() && langs[j] == wanted@;
                assert(langs.contains(wanted@));
            } else {
                assert(!langs.contains(wanted@));
            }
        }
        if found {
            Some(String::from_str(wanted))
        } else {
            None
        }
    };
    let (task, target_language) = match &language {
        Some(l) => cpp_translation_task(translate_to_english, model_supports_translate, Some(l.as_str())),
        None => cpp_translation_task(translate_to_english, model_supports_translate, None),
    };
    TranscribeCppRunPlan { task, language, target_language }
}


// ---------------------------------------------------------------------------
// Accelerators, devices and backends
// ---------------------------------------------------------------------------

/// The accelerator setting a run uses: CPU when this host cannot use a GPU.
pub fn effective_transcribe_accelerator(
    setting: TranscribeAcceleratorSetting,
    gpu_disabled: bool,
) -> (r: TranscribeAcceleratorSetting)
    ensures
        r == if gpu_disabled { TranscribeAcceleratorSetting::Cpu } else { setting },
{
    if gpu_disabled {
        TranscribeAcceleratorSetting::Cpu
    } else {
        setting
    }
}

/// Whether a compute device of kind `kind` may be used: any device, or only
/// `cpu` and `accel` devices on a host that cannot use a GPU.
pub open spec fn device_kind_allowed(kind: Seq<char>, gpu_disabled: bool) -> bool {
    !gpu_disabled || kind == "cpu"@ || kind == "accel"@
}

/// Whether a compute device of kind `kind` may be used (see
/// [`device_kind_allowed`]).
pub fn transcribe_device_allowed(kind: &str, gpu_disabled: bool) -> (b: bool)
    ensures
        b == device_kind_allowed(kind@, gpu_disabled),
{
    !gpu_disabled || str_eq(kind, "cpu") || str_eq(kind, "accel")
}

/// The accelerator choices this host offers.
pub open spec fn accelerator_names(gpu_disabled: bool) -> Seq<Seq<char>> {
    if gpu_disabled {
        seq!["cpu"@]
    } else {
        seq!["auto"@, "cpu"@, "gpu"@]
    }
}

/// The accelerator choices this host offers (see [`accelerator_names`]).
pub fn available_transcribe_accelerators(gpu_disabled: bool) -> (v: Vec<String>)
    ensures
        strings_view(v@) == accelerator_names(gpu_disabled),
{
    let mut v: Vec<String> = Vec::new();
    if gpu_disabled {
        v.push(String::from_str("cpu"));
    } else {
        v.push(String::from_str("auto"));
        v.push(String::from_str("cpu"));
        v.push(String::from_str("gpu"));
    }
    assert(strings_view(v@) =~= accelerator_names(gpu_disabled));
    v
}

/// The class of a compute device.
#[derive(Clone, Copy, Debug, PartialEq, Eq, Structural)]
pub enum DeviceType {
    Cpu,
    Gpu,
    Igpu,
    Accel,
    Unknown,
}

/// A compute device the engine registered.
#[derive(Clone, Debug)]
pub struct ComputeDevice {
    /// Registry index, the value `--device-index` takes.
    pub index: Option<usize>,
    /// Backend kind, such as `cpu`, `cuda` or `vulkan`.
    pub kind: String,
    pub name: String,
    pub description: String,
    /// Total memory in bytes; 0 when the backend does not report it.
    pub memory_total: u64,
    pub device_type: DeviceType,
    /// Stable identity reported by the backend, if any.
    pub device_id: Option<String>,
}

impl ComputeDevice {
    /// A copy of this device record.
    pub fn duplicate(&self) -> (d: Self)
        ensures
            d == *self,
    {
        ComputeDevice {
            index: self.index,
            kind: self.kind.clone(),
            name: self.name.clone(),
            description: self.description.clone(),
            memory_total: self.memory_total,
            device_type: self.device_type,
            device_id: match &self.device_id {
                Some(i) => Some(i.clone()),
                None => None,
            },
        }
    }
}

/// The devices of a registry that a host may use, in registry order.
pub open spec fn allowed_devices(devs: Seq<ComputeDevice>, gpu_disabled: bool) -> Seq<ComputeDevice>
    decreases devs.len(),
{
    if devs.len() == 0 {
        Seq::empty()
    } else {
        let rest = allowed_devices(devs.drop_last(), gpu_disabled);
        if device_kind_allowed(devs.last().kind@, gpu_disabled) {
            rest.push(devs.last())
        } else {
            rest
        }
    }
}

/// The devices of `registered` this host may use (see [`allowed_devices`]).
pub fn transcribe_compute_devices(registered: &[ComputeDevice], gpu_disabled: bool) -> (v: Vec<ComputeDevice>)
    ensures
        v@ == allowed_devices(registered@, gpu_disabled),
{
    let mut v: Vec<ComputeDevice> = Vec::new();
    let mut i: usize = 0;
    while i < registered.len()
        invariant
            i <= registered@.len(),
            v@ == allowed_devices(registered@.take(i as int), gpu_disabled),
        decreases registered.len() - i,
    {
        let ghost before = registered@.take(i as int);
        assert(registered@.take(i + 1).drop_last() =~= before);
        if transcribe_device_allowed(registered[i].kind.as_str(), gpu_disabled) {
            v.push(registered[i].duplicate());
        }
        i = i + 1;
    }
    assert(registered@.take(registered@.len() as int) =~= registered@);
    v
}

/// The name a device is shown under: its description, else its name.
pub open spec fn device_label(d: ComputeDevice) -> Seq<char> {
    if d.description@.len() == 0 {
        d.name@
    } else {
        d.description@
    }
}

/// Whole mebibytes of a byte count.
pub open spec fn mebibytes(bytes: u64) -> nat {
    (bytes / 1048576) as nat
}

/// One `--list-devices` line.
pub open spec fn device_line(d: ComputeDevice) -> Seq<char> {
    "index="@ + match d.index {
        Some(i) => decimal(i as nat),
        None => "-"@,
    } + " kind="@ + d.kind@ + " name="@ + device_label(d) + " vram="@ + decimal(mebibytes(d.memory_total)) + "MB"@
}

/// The name a device is shown under (see [`device_label`]).
pub fn transcribe_device_label(d: &ComputeDevice) -> (s: String)
    ensures
        s@ == device_label(*d),
{
    if d.description.as_str().is_empty() {
        d.name.clone()
    } else {
        d.description.clone()
    }
}

/// The `--list-devices` line of one device (see [`device_line`]).
pub fn describe_compute_device(d: &ComputeDevice) -> (s: String)
    ensures
        s@ == device_line(*d),
{
    let mut s = String::from_str("index=");
    match d.index {
        Some(i) => {
            let n = decimal_string(i as u64);
            s.append(n.as_str());
        },
        None => {
            s.append("-");
        },
    }
    s.append(" kind=");
    s.append(d.kind.as_str());
    s.append(" name=");
    let label = transcribe_device_label(d);
    s.append(label.as_str());
    s.append(" vram=");
    let mb = decimal_string(d.memory_total / 1048576);
    s.append(mb.as_str());
    s.append("MB");
    s
}

/// One `--list-devices` line per device, in order; the reported index is
/// what `--device-index` takes.
pub fn describe_compute_devices(devices: &[ComputeDevice]) -> (lines: Vec<String>)
    ensures
        lines@.len() == devices@.len(),
        forall|i: int| 0 <= i < lines@.len() ==> #[trigger] lines@[i]@ == device_line(devices@[i]),
{
    let mut lines: Vec<String> = Vec::new();
    let mut i: usize = 0;
    while i < devices.len()
        invariant
            i <= devices@.len(),
            lines@.len() == i,
            forall|j: int| 0 <= j < i ==> #[trigger] lines@[j]@ == device_line(devices@[j]),
        decreases devices.len() - i,
    {
        lines.push(describe_compute_device(&devices[i]));
        i = i + 1;
    }
    lines
}

/// What serde_json writes for a JSON array of three strings.
pub uninterp spec fn json_string_triple(a: Seq<char>, b: Seq<char>, c: Seq<char>) -> Seq<char>;

/// The JSON array `[a, b, c]` of three strings.
///
/// Trusted: calls `serde_json::to_string` on a tuple of three `&str`, which
/// serde serializes as a JSON array of three strings. Claims the text is
/// the named [`json_string_triple`] of the three arguments. Serializing
/// strings cannot fail, so the error arm is never taken.
#[verifier::external_body]
fn json_triple(a: &str, b: &str, c: &str) -> (s: String)
    ensures
        s@ == json_string_triple(a@, b@, c@),
{
    match serde_json::to_string(&(a, b, c)) {
        Ok(s) => s,
        Err(_) => String::new(),
    }
}

/// The persistent identity of a device: kind, then its backend id, else its
/// name.
pub open spec fn device_key(d: ComputeDevice) -> Seq<char> {
    match d.device_id {
        Some(id) => json_string_triple(d.kind@, "id"@, id@),
        None => json_string_triple(d.kind@, "name"@, d.name@),
    }
}

/// The persistent identity of a device (see [`device_key`]).
pub fn transcribe_device_key(d: &ComputeDevice) -> (s: String)
    ensures
        s@ == device_key(*d),
{
    match &d.device_id {
        Some(id) => json_triple(d.kind.as_str(), "id", id.as_str()),
        None => json_triple(d.kind.as_str(), "name", d.name.as_str()),
    }
}

/// A GPU the user can pick for transcription.
#[derive(Clone, Debug)]
pub struct GpuDeviceOption {
    /// Persistent identity, never the process-local registry index.
    pub id: String,
    pub name: String,
    /// Total memory in MiB; 0 when the backend does not report it.
    pub total_vram_mb: u32,
}

/// Whether a device is a discrete or integrated GPU.
pub open spec fn is_gpu(d: ComputeDevice) -> bool {
    d.device_type == DeviceType::Gpu || d.device_type == DeviceType::Igpu
}

/// The GPU options of a device list, as (id, name, MiB truncated to 32
/// bits), in order.
pub open spec fn gpu_options(devs: Seq<ComputeDevice>) -> Seq<(Seq<char>, Seq<char>, u32)>
    decreases devs.len(),
{
    if devs.len() == 0 {
        Seq::empty()
    } else {
        let rest = gpu_options(devs.drop_last());
        let d = devs.last();
        if is_gpu(d) {
            rest.push((device_key(d), device_label(d), (mebibytes(d.memory_total) % 0x1_0000_0000) as u32))
        } else {
            rest
        }
    }
}

/// A GPU option as characters.
pub open spec fn option_view(o: GpuDeviceOption) -> (Seq<char>, Seq<char>, u32) {
    (o.id@, o.name@, o.total_vram_mb)
}

/// The GPU options of `devices` (see [`gpu_options`]).
pub fn gpu_device_options(devices: &[ComputeDevice]) -> (v: Vec<GpuDeviceOption>)
    ensures
        v@.map_values(|o: GpuDeviceOption| option_view(o)) == gpu_options(devices@),
{
    let mut v: Vec<GpuDeviceOption> = Vec::new();
    let mut i: usize = 0;
    while i < devices.len()
        invariant
            i <= devices@.len(),
            v@.map_values(|o: GpuDeviceOption| option_view(o)) == gpu_options(devices@.take(i as int)),
        decreases devices.len() - i,
    {
        let ghost before = devices@.take(i as int);
        assert(devices@.take(i + 1).drop_last() =~= before);
        let d = &devices[i];
        if d.device_type == DeviceType::Gpu || d.device_type == DeviceType::Igpu {
            let mb = d.memory_total / 1048576;
            let o = GpuDeviceOption {
                id: transcribe_device_key(d),
                name: transcribe_device_label(d),
                total_vram_mb: (mb % 0x1_0000_0000) as u32,
            };
            let ghost old_v = v@;
            v.push(o);
            assert(v@.map_values(|o: GpuDeviceOption| option_view(o))
                =~= old_v.map_values(|o: GpuDeviceOption| option_view(o)).push(option_view(o)));
        }
        i = i + 1;
    }
    assert(devices@.take(devices@.len() as int) =~= devices@);
    v
}


/// An engine backend a model can load on; `Auto` lets the engine pick.
#[derive(Clone, Copy, Debug, PartialEq, Eq, Structural)]
pub enum Backend {
    Auto,
    Cpu,
    Cuda,
    Vulkan,
    Metal,
    Rocm,
}

/// Which engine backends this process can load on, as the engine reports
/// them, and what the host rules out.
#[derive(Clone, Copy, Debug)]
pub struct BackendAvailability {
    /// An emulated x64 process on Windows ARM64: no GPU backend at all.
    pub gpu_disabled: bool,
    /// The platform's GPU backend is Metal (macOS) rather than CUDA, ROCm and
    /// Vulkan.
    pub macos: bool,
    pub cuda: bool,
    pub vulkan: bool,
    pub metal: bool,
    pub rocm: bool,
}

/// The backend the global accelerator setting asks for: CPU or automatic as
/// set; for GPU, the first platform GPU backend this process has (Metal on
/// macOS; CUDA, ROCm, then Vulkan elsewhere), else automatic.
pub open spec fn selected_backend(setting: TranscribeAcceleratorSetting, a: BackendAvailability) -> Backend {
    let effective = if a.gpu_disabled { TranscribeAcceleratorSetting::Cpu } else { setting };
    match effective {
        TranscribeAcceleratorSetting::Cpu => Backend::Cpu,
        TranscribeAcceleratorSetting::Auto => Backend::Auto,
        TranscribeAcceleratorSetting::Gpu => if a.macos {
            if a.metal { Backend::Metal } else { Backend::Auto }
        } else if a.cuda {
            Backend::Cuda
        } else if a.rocm {
            Backend::Rocm
        } else if a.vulkan {
            Backend::Vulkan
        } else {
            Backend::Auto
        },
    }
}

/// The backend the global accelerator setting asks for (see
/// [`selected_backend`]).
pub fn select_transcribe_backend(setting: TranscribeAcceleratorSetting, a: &BackendAvailability) -> (b: Backend)
    ensures
        b == selected_backend(setting, *a),
{
    match effective_transcribe_accelerator(setting, a.gpu_disabled) {
        TranscribeAcceleratorSetting::Cpu => Backend::Cpu,
        TranscribeAcceleratorSetting::Auto => Backend::Auto,
        TranscribeAcceleratorSetting::Gpu => {
            if a.macos {
                if a.metal { Backend::Metal } else { Backend::Auto }
            } else if a.cuda {
                Backend::Cuda
            } else if a.rocm {
                Backend::Rocm
            } else if a.vulkan {
                Backend::Vulkan
            } else {
                Backend::Auto
            }
        },
    }
}

/// Whether `b` is a GPU backend the host can load on.
pub open spec fn backend_available(b: Backend, a: BackendAvailability) -> bool {
    match b {
        Backend::Cuda => a.cuda,
        Backend::Rocm => a.rocm,
        Backend::Vulkan => a.vulkan,
        Backend::Metal => a.metal,
        _ => false,
    }
}

/// Under the GPU setting on a host that can use a GPU and is not macOS, the
/// backend chosen is the first available of CUDA, ROCm and Vulkan, in that
/// order, and automatic only when none is: an available earlier candidate
/// always wins over a later one. On macOS it is Metal when available. The
/// CPU setting, or a host without GPU, always gives the CPU.
pub proof fn law_gpu_backend_is_first_available(setting: TranscribeAcceleratorSetting, a: BackendAvailability)
    ensures
        (a.gpu_disabled || setting == TranscribeAcceleratorSetting::Cpu) ==> selected_backend(setting, a)
            == Backend::Cpu,
        (!a.gpu_disabled && setting == TranscribeAcceleratorSetting::Gpu && !a.macos) ==> {
            let b = selected_backend(setting, a);
            &&& a.cuda ==> b == Backend::Cuda
            &&& (!a.cuda && a.rocm) ==> b == Backend::Rocm
            &&& (!a.cuda && !a.rocm && a.vulkan) ==> b == Backend::Vulkan
            &&& (!a.cuda && !a.rocm && !a.vulkan) ==> b == Backend::Auto
            &&& b != Backend::Auto ==> backend_available(b, a) && b != Backend::Metal
        },
        (!a.gpu_disabled && setting == TranscribeAcceleratorSetting::Gpu && a.macos) ==> selected_backend(
            setting,
            a,
        ) == if a.metal {
            Backend::Metal
        } else {
            Backend::Auto
        },
{
}

/// Which Vulkan device a per-model preference targets.
#[derive(Clone, Copy, Debug, PartialEq, Eq, Structural)]
pub enum VulkanTargetDevice {
    Any,
    Nvidia,
    Intel,
}

/// A Vulkan device: its kind is `vulkan`, ignoring ASCII case.
pub open spec fn is_vulkan(d: ComputeDevice) -> bool {
    ascii_lower_seq(d.kind@) == "vulkan"@
}

/// A device whose description or name names NVIDIA (ASCII case ignored).
pub open spec fn names_nvidia(d: ComputeDevice) -> bool {
    let desc = ascii_lower_seq(d.description@);
    let name = ascii_lower_seq(d.name@);
    has_infix(desc, "nvidia"@) || has_infix(name, "nvidia"@) || has_infix(desc, "geforce"@)
        || has_infix(desc, "quadro"@)
}

/// A device whose description or name names Intel (ASCII case ignored).
pub open spec fn names_intel(d: ComputeDevice) -> bool {
    let desc = ascii_lower_seq(d.description@);
    let name = ascii_lower_seq(d.name@);
    has_infix(desc, "intel"@) || has_infix(name, "intel"@) || has_infix(desc, "iris"@)
        || has_infix(desc, "arc"@)
}

/// The device tests the Vulkan search uses.
#[derive(Clone, Copy, Debug, PartialEq, Eq, Structural)]
pub enum DeviceTest {
    Vulkan,
    VulkanNamingNvidia,
    VulkanNamingIntel,
    VulkanOfType(DeviceType),
}

/// Whether `d` passes test `t`.
pub open spec fn passes(t: DeviceTest, d: ComputeDevice) -> bool {
    match t {
        DeviceTest::Vulkan => is_vulkan(d),
        DeviceTest::VulkanNamingNvidia => is_vulkan(d) && names_nvidia(d),
        DeviceTest::VulkanNamingIntel => is_vulkan(d) && names_intel(d),
        DeviceTest::VulkanOfType(ty) => is_vulkan(d) && d.device_type == ty,
    }
}

/// Test `t` as a predicate.
pub open spec fn test_fn(t: DeviceTest) -> spec_fn(ComputeDevice) -> bool {
    |d: ComputeDevice| passes(t, d)
}

fn lowered(s: &String) -> (v: Vec<char>)
    ensures
        v@ == ascii_lower_seq(s@),
{
    let c = chars_of(s.as_str());
    ascii_lowercase_chars(&c)
}

fn contains_lit(h: &Vec<char>, lit: &str) -> (b: bool)
    ensures
        b == has_infix(h@, lit@),
{
    let n = chars_of(lit);
    contains_chars(h, &n)
}

/// Whether `d` passes test `t`.
fn device_passes(t: DeviceTest, d: &ComputeDevice) -> (b: bool)
    ensures
        b == passes(t, *d),
{
    let kind = lowered(&d.kind);
    let v = chars_of("vulkan");
    if !chars_equal(&kind, &v) {
        return false;
    }
    match t {
        DeviceTest::Vulkan => true,
        DeviceTest::VulkanNamingNvidia => {
            let desc = lowered(&d.description);
            let name = lowered(&d.name);
            contains_lit(&desc, "nvidia") || contains_lit(&name, "nvidia") || contains_lit(&desc, "geforce")
                || contains_lit(&desc, "quadro")
        },
        DeviceTest::VulkanNamingIntel => {
            let desc = lowered(&d.description);
            let name = lowered(&d.name);
            contains_lit(&desc, "intel") || contains_lit(&name, "intel") || contains_lit(&desc, "iris")
                || contains_lit(&desc, "arc")
        },
        DeviceTest::VulkanOfType(ty) => d.device_type == ty,
    }
}

/// The index of the first device passing test `t`.
fn first_passing(devices: &[ComputeDevice], t: DeviceTest) -> (r: Option<usize>)
    ensures
        r matches Some(i) ==> first_where(devices@, test_fn(t), 0) == Some(i as int),
        r is None <==> first_where(devices@, test_fn(t), 0) is None,
{
    let ghost p = test_fn(t);
    let mut i: usize = 0;
    while i < devices.len()
        invariant
            i <= devices@.len(),
            p == test_fn(t),
            first_where(devices@, p, 0) == first_where(devices@, p, i as int),
        decreases devices.len() - i,
    {
        if device_passes(t, &devices[i]) {
            return Some(i);
        }
        i = i + 1;
    }
    None
}

/// The Vulkan device a target picks: any Vulkan device; for NVIDIA or
/// Intel, the first Vulkan device naming that vendor, else the first
/// discrete (NVIDIA) or integrated (Intel) Vulkan GPU.
pub open spec fn vulkan_target(target: VulkanTargetDevice, devs: Seq<ComputeDevice>) -> Option<int> {
    match target {
        VulkanTargetDevice::Any => first_where(devs, test_fn(DeviceTest::Vulkan), 0),
        VulkanTargetDevice::Nvidia => match first_where(devs, test_fn(DeviceTest::VulkanNamingNvidia), 0) {
            Some(i) => Some(i),
            None => first_where(devs, test_fn(DeviceTest::VulkanOfType(DeviceType::Gpu)), 0),
        },
        VulkanTargetDevice::Intel => match first_where(devs, test_fn(DeviceTest::VulkanNamingIntel), 0) {
            Some(i) => Some(i),
            None => first_where(devs, test_fn(DeviceTest::VulkanOfType(DeviceType::Igpu)), 0),
        },
    }
}

/// The index in `devices` of the Vulkan device `target` picks (see
/// [`vulkan_target`]).
pub fn find_vulkan_device(target: VulkanTargetDevice, devices: &[ComputeDevice]) -> (r: Option<usize>)
    ensures
        r matches Some(i) ==> vulkan_target(target, devices@) == Some(i as int),
        r is None <==> vulkan_target(target, devices@) is None,
{
    match target {
        VulkanTargetDevice::Any => first_passing(devices, DeviceTest::Vulkan),
        VulkanTargetDevice::Nvidia => match first_passing(devices, DeviceTest::VulkanNamingNvidia) {
            Some(i) => Some(i),
            None => first_passing(devices, DeviceTest::VulkanOfType(DeviceType::Gpu)),
        },
        VulkanTargetDevice::Intel => match first_passing(devices, DeviceTest::VulkanNamingIntel) {
            Some(i) => Some(i),
            None => first_passing(devices, DeviceTest::VulkanOfType(DeviceType::Igpu)),
        },
    }
}

/// The per-model backend choices a process can honour, best first: `auto`
/// and `cpu` always; with a GPU, each loadable backend, and under Vulkan the
/// vendor entries whose device is present.
pub open spec fn model_backend_names(a: BackendAvailability, devs: Seq<ComputeDevice>) -> Seq<Seq<char>> {
    if a.gpu_disabled {
        seq!["auto"@, "cpu"@]
    } else {
        seq!["auto"@, "cpu"@]
            + (if a.cuda { seq!["cuda"@] } else { Seq::empty() })
            + (if a.vulkan {
                seq!["vulkan"@]
                    + (if vulkan_target(VulkanTargetDevice::Nvidia, devs) is Some { seq!["vulkan_nvidia"@] } else { Seq::empty() })
                    + (if vulkan_target(VulkanTargetDevice::Intel, devs) is Some { seq!["vulkan_intel"@] } else { Seq::empty() })
            } else {
                Seq::empty()
            })
            + (if a.metal { seq!["metal"@] } else { Seq::empty() })
            + (if a.rocm { seq!["rocm"@] } else { Seq::empty() })
    }
}

/// The per-model backend choices (see [`model_backend_names`]); `devices`
/// is the registry the host may use.
pub fn available_model_backends(a: &BackendAvailability, devices: &[ComputeDevice]) -> (v: Vec<String>)
    ensures
        strings_view(v@) == model_backend_names(*a, devices@),
{
    let mut v: Vec<String> = Vec::new();
    v.push(String::from_str("auto"));
    v.push(String::from_str("cpu"));
    if a.gpu_disabled {
        assert(strings_view(v@) =~= model_backend_names(*a, devices@));
        return v;
    }
    let ghost mut want: Seq<Seq<char>> = seq!["auto"@, "cpu"@];
    assert(strings_view(v@) =~= want);
    if a.cuda {
        v.push(String::from_str("cuda"));
        proof { want = want + seq!["cuda"@]; }
        assert(strings_view(v@) =~= want);
    } else {
        proof { want = want + Seq::empty(); }
        assert(strings_view(v@) =~= want);
    }
    let ghost mut vk: Seq<Seq<char>> = Seq::empty();
    if a.vulkan {
        v.push(String::from_str("vulkan"));
        proof { vk = seq!["vulkan"@]; }
        let nvidia = find_vulkan_device(VulkanTargetDevice::Nvidia, devices).is_some();
        let intel = find_vulkan_device(VulkanTargetDevice::Intel, devices).is_some();
        if nvidia {
            v.push(String::from_str("vulkan_nvidia"));
            proof { vk = vk + seq!["vulkan_nvidia"@]; }
        } else {
            proof { vk = vk + Seq::empty(); }
        }
        if intel {
            v.push(String::from_str("vulkan_intel"));
            proof { vk = vk + seq!["vulkan_intel"@]; }
        } else {
            proof { vk = vk + Seq::empty(); }
        }
    }
    proof { want = want + vk; }
    assert(strings_view(v@) =~= want);
    if a.metal {
        v.push(String::from_str("metal"));
        proof { want = want + seq!["metal"@]; }
    } else {
        proof { want = want + Seq::empty(); }
    }
    assert(strings_view(v@) =~= want);
    if a.rocm {
        v.push(String::from_str("rocm"));
        proof { want = want + seq!["rocm"@]; }
    } else {
        proof { want = want + Seq::empty(); }
    }
    assert(strings_view(v@) =~= want);
    assert(want =~= model_backend_names(*a, devices@));
    v
}

/// The accelerators a process offers on its host.
#[derive(Clone, Debug)]
pub struct AvailableAccelerators {
    pub transcribe: Vec<String>,
    pub gpu_devices: Vec<GpuDeviceOption>,
    /// Per-model backend choices this process can honour, best first.
    pub model_backends: Vec<String>,
}

/// The accelerators this process offers, from the devices the engine
/// registered and the backends it can load.
pub fn get_available_accelerators(a: &BackendAvailability, registered: &[ComputeDevice]) -> (r: AvailableAccelerators)
    ensures
        strings_view(r.transcribe@) == accelerator_names(a.gpu_disabled),
        r.gpu_devices@.map_values(|o: GpuDeviceOption| option_view(o))
            == gpu_options(allowed_devices(registered@, a.gpu_disabled)),
        strings_view(r.model_backends@) == model_backend_names(*a, allowed_devices(registered@, a.gpu_disabled)),
{
    let devices = transcribe_compute_devices(registered, a.gpu_disabled);
    AvailableAccelerators {
        transcribe: available_transcribe_accelerators(a.gpu_disabled),
        gpu_devices: gpu_device_options(devices.as_slice()),
        model_backends: available_model_backends(a, devices.as_slice()),
    }
}


/// Accepts the GPU whose persistent identity is `key`.
pub open spec fn gpu_keyed(key: Seq<char>) -> spec_fn(ComputeDevice) -> bool {
    |d: ComputeDevice| is_gpu(d) && device_key(d) == key
}

/// The GPU the user's stored identity selects: only under the `Gpu`
/// setting on a host that can use one; the first GPU with that identity.
pub open spec fn selected_gpu(
    setting: TranscribeAcceleratorSetting,
    stored: Option<Seq<char>>,
    devs: Seq<ComputeDevice>,
    gpu_disabled: bool,
) -> Option<int> {
    if gpu_disabled || setting != TranscribeAcceleratorSetting::Gpu {
        None
    } else {
        match stored {
            Some(key) => first_where(devs, gpu_keyed(key), 0),
            None => None,
        }
    }
}

/// The index in `devices` of the GPU the stored identity selects (see
/// [`selected_gpu`]).
pub fn resolve_gpu_device(
    setting: TranscribeAcceleratorSetting,
    gpu_device: Option<&str>,
    devices: &[ComputeDevice],
    gpu_disabled: bool,
) -> (r: Option<usize>)
    ensures
        r matches Some(i) ==> selected_gpu(setting, opt_str(gpu_device), devices@, gpu_disabled) == Some(i as int),
        r is None <==> selected_gpu(setting, opt_str(gpu_device), devices@, gpu_disabled) is None,
{
    if gpu_disabled || setting != TranscribeAcceleratorSetting::Gpu {
        return None;
    }
    let key = match gpu_device {
        Some(k) => k,
        None => {
            return None;
        },
    };
    let ghost p = gpu_keyed(key@);
    assert(selected_gpu(setting, opt_str(gpu_device), devices@, gpu_disabled) == first_where(devices@, p, 0));
    let mut i: usize = 0;
    while i < devices.len()
        invariant
            i <= devices@.len(),
            p == gpu_keyed(key@),
            selected_gpu(setting, opt_str(gpu_device), devices@, gpu_disabled) == first_where(devices@, p, 0),
            first_where(devices@, p, 0) == first_where(devices@, p, i as int),
        decreases devices.len() - i,
    {
        let d = &devices[i];
        if d.device_type == DeviceType::Gpu || d.device_type == DeviceType::Igpu {
            let k = transcribe_device_key(d);
            if str_eq(k.as_str(), key) {
                assert(p(devices@[i as int]));
                return Some(i);
            }
        }
        i = i + 1;
    }
    None
}

/// An optional index as an optional integer.
pub open spec fn opt_index(o: Option<usize>) -> Option<int> {
    match o {
        Some(i) => Some(i as int),
        None => None,
    }
}

/// What the global accelerator policy loads on: the stored GPU when it is
/// present (with automatic backend selection), else the backend the setting
/// asks for.
pub open spec fn global_plan(settings: AppSettings, devs: Seq<ComputeDevice>, a: BackendAvailability) -> (Backend, Option<int>) {
    let device = selected_gpu(
        settings.transcribe_accelerator,
        crate::settings::opt_chars(settings.transcribe_gpu_device),
        devs,
        a.gpu_disabled,
    );
    match device {
        Some(i) => (Backend::Auto, Some(i)),
        None => (selected_backend(settings.transcribe_accelerator, a), None),
    }
}

/// What a model loads on. Its own preference (CPU on a host without GPU) is
/// a hard request when the backend is loadable; an unloadable request falls
/// back to the global policy. A Vulkan vendor request picks that vendor's
/// device, or the default Vulkan device when none is found.
pub open spec fn model_plan(requested: ModelBackendSetting, settings: AppSettings, devs: Seq<ComputeDevice>, a: BackendAvailability) -> (Backend, Option<int>) {
    let req = if a.gpu_disabled { ModelBackendSetting::Cpu } else { requested };
    match req {
        ModelBackendSetting::Auto => global_plan(settings, devs, a),
        ModelBackendSetting::Cpu => (Backend::Cpu, None),
        ModelBackendSetting::Cuda => if a.cuda { (Backend::Cuda, None) } else { global_plan(settings, devs, a) },
        ModelBackendSetting::Vulkan => if a.vulkan { (Backend::Vulkan, None) } else { global_plan(settings, devs, a) },
        ModelBackendSetting::VulkanNvidia => if a.vulkan {
            (Backend::Vulkan, vulkan_target(VulkanTargetDevice::Nvidia, devs))
        } else {
            global_plan(settings, devs, a)
        },
        ModelBackendSetting::VulkanIntel => if a.vulkan {
            (Backend::Vulkan, vulkan_target(VulkanTargetDevice::Intel, devs))
        } else {
            global_plan(settings, devs, a)
        },
        ModelBackendSetting::Metal => if a.metal { (Backend::Metal, None) } else { global_plan(settings, devs, a) },
        ModelBackendSetting::Rocm => if a.rocm { (Backend::Rocm, None) } else { global_plan(settings, devs, a) },
    }
}

fn global_backend(settings: &AppSettings, devices: &[ComputeDevice], a: &BackendAvailability) -> (r: (Backend, Option<usize>))
    ensures
        (r.0, opt_index(r.1)) == global_plan(*settings, devices@, *a),
{
    let gpu = match &settings.transcribe_gpu_device {
        Some(g) => Some(g.as_str()),
        None => None,
    };
    let device = resolve_gpu_device(settings.transcribe_accelerator, gpu, devices, a.gpu_disabled);
    match device {
        Some(i) => (Backend::Auto, Some(i)),
        None => (select_transcribe_backend(settings.transcribe_accelerator, a), None),
    }
}

/// The backend and device (an index into `devices`, the registry the host
/// may use) a model loads on (see [`model_plan`]).
pub fn resolve_model_backend(
    settings: &AppSettings,
    model_id: &str,
    devices: &[ComputeDevice],
    a: &BackendAvailability,
) -> (r: (Backend, Option<usize>))
    ensures
        (r.0, opt_index(r.1)) == model_plan(
            match inherited(settings.per_model_backends.view(), model_id@) {
                Some(v) => v,
                None => ModelBackendSetting::Auto,
            },
            *settings,
            devices@,
            *a,
        ),
{
    let requested = get_effective_model_backend(settings, model_id);
    let requested = if a.gpu_disabled { ModelBackendSetting::Cpu } else { requested };
    match requested {
        ModelBackendSetting::Auto => global_backend(settings, devices, a),
        ModelBackendSetting::Cpu => (Backend::Cpu, None),
        ModelBackendSetting::Cuda => if a.cuda { (Backend::Cuda, None) } else { global_backend(settings, devices, a) },
        ModelBackendSetting::Vulkan => if a.vulkan { (Backend::Vulkan, None) } else { global_backend(settings, devices, a) },
        ModelBackendSetting::VulkanNvidia => if a.vulkan {
            (Backend::Vulkan, find_vulkan_device(VulkanTargetDevice::Nvidia, devices))
        } else {
            global_backend(settings, devices, a)
        },
        ModelBackendSetting::VulkanIntel => if a.vulkan {
            (Backend::Vulkan, find_vulkan_device(VulkanTargetDevice::Intel, devices))
        } else {
            global_backend(settings, devices, a)
        },
        ModelBackendSetting::Metal => if a.metal { (Backend::Metal, None) } else { global_backend(settings, devices, a) },
        ModelBackendSetting::Rocm => if a.rocm { (Backend::Rocm, None) } else { global_backend(settings, devices, a) },
    }
}

/// Accepts the device registered under index `index`.
pub open spec fn indexed(index: usize) -> spec_fn(ComputeDevice) -> bool {
    |d: ComputeDevice| d.index == Some(index)
}

/// Whether a device of this class can host a model.
pub open spec fn can_host(t: DeviceType) -> bool {
    t != DeviceType::Accel && t != DeviceType::Unknown
}

/// The message for a `--device-index` that names no device.
pub open spec fn no_device_message(index: usize) -> Seq<char> {
    "No compute device with index "@ + decimal(index as nat) + " (see --list-devices)"@
}

/// The message for a `--device-index` whose device cannot host a model.
pub open spec fn cannot_host_message(index: usize, kind: Seq<char>) -> Seq<char> {
    "Device index "@ + decimal(index as nat) + " ("@ + kind + ") cannot host a model"@
}

/// The exact device a `--device-index` selects, with automatic backend
/// selection (the device's own backend cannot conflict with it); an error
/// when no device has that index or the device cannot host a model.
pub fn resolve_device_index(index: usize, devices: &[ComputeDevice]) -> (r: Result<(Backend, Option<usize>), String>)
    ensures
        match first_where(devices@, indexed(index), 0) {
            None => r matches Err(m) && m@ == no_device_message(index),
            Some(i) => if can_host(devices@[i].device_type) {
                r matches Ok(p) && p.0 == Backend::Auto && p.1 == Some(i as usize)
            } else {
                r matches Err(m) && m@ == cannot_host_message(index, devices@[i].kind@)
            },
        },
{
    let ghost p = indexed(index);
    proof {
        lemma_first_where(devices@, p, 0);
    }
    let mut i: usize = 0;
    while i < devices.len()
        invariant
            i <= devices@.len(),
            p == indexed(index),
            first_where(devices@, p, 0) == first_where(devices@, p, i as int),
        decreases devices.len() - i,
    {
        if devices[i].index == Some(index) {
            let d = &devices[i];
            if d.device_type == DeviceType::Accel || d.device_type == DeviceType::Unknown {
                let mut m = String::from_str("Device index ");
                let n = decimal_string(index as u64);
                m.append(n.as_str());
                m.append(" (");
                m.append(d.kind.as_str());
                m.append(") cannot host a model");
                return Err(m);
            }
            return Ok((Backend::Auto, Some(i)));
        }
        i = i + 1;
    }
    let mut m = String::from_str("No compute device with index ");
    let n = decimal_string(index as u64);
    m.append(n.as_str());
    m.append(" (see --list-devices)");
    Err(m)
}


// ---------------------------------------------------------------------------
// Stream timing and events
// ---------------------------------------------------------------------------

/// How much audio the live stream has been fed and how much compute it has
/// spent. Both counters only grow, wrapping at `u64::MAX`; a reader takes a
/// baseline and reports deltas.
#[derive(Debug)]
pub struct StreamTiming {
    /// 16 kHz samples handed to the stream.
    fed_samples: u64,
    /// Microseconds spent feeding and finalizing.
    compute_micros: u64,
}

impl StreamTiming {
    /// The samples counter.
    pub closed spec fn fed(&self) -> u64 {
        self.fed_samples
    }

    /// The compute counter.
    pub closed spec fn micros(&self) -> u64 {
        self.compute_micros
    }

    /// Both counters at zero.
    pub fn new() -> (t: Self)
        ensures
            t.fed() == 0,
            t.micros() == 0,
    {
        StreamTiming { fed_samples: 0, compute_micros: 0 }
    }

    /// Counts `samples` more samples fed.
    pub fn record_feed(&mut self, samples: usize)
        ensures
            final(self).fed() == vstd::wrapping::u64_specs::wrapping_add(old(self).fed(), samples as u64),
            final(self).micros() == old(self).micros(),
    {
        self.fed_samples = self.fed_samples.wrapping_add(samples as u64);
    }

    /// Counts `elapsed_micros` more microseconds of compute (truncated to 64
    /// bits).
    pub fn record_compute(&mut self, elapsed_micros: u128)
        ensures
            final(self).micros() == vstd::wrapping::u64_specs::wrapping_add(
                old(self).micros(),
                (elapsed_micros % 0x1_0000_0000_0000_0000) as u64,
            ),
            final(self).fed() == old(self).fed(),
    {
        let m = (elapsed_micros % 0x1_0000_0000_0000_0000) as u64;
        self.compute_micros = self.compute_micros.wrapping_add(m);
    }

    /// `(fed_samples, compute_micros)`.
    pub fn totals(&self) -> (t: (u64, u64))
        ensures
            t == (self.fed(), self.micros()),
    {
        (self.fed_samples, self.compute_micros)
    }
}

impl Default for StreamTiming {
    fn default() -> (t: Self)
        ensures
            t.fed() == 0,
            t.micros() == 0,
    {
        StreamTiming::new()
    }
}

/// A feed that does not wrap grows the samples counter by exactly what was
/// fed: the counter [`StreamTiming::record_feed`] leaves behind is the sum.
pub proof fn lemma_feed_accumulates(t: StreamTiming, samples: usize)
    requires
        t.fed() + samples <= u64::MAX,
    ensures
        vstd::wrapping::u64_specs::wrapping_add(t.fed(), samples as u64) == t.fed() + samples,
{
}

/// The live stream's own counters, kept by the worker for its periodic log:
/// frames fed, updates emitted, audio streamed, compute spent, the longest
/// single model call and queue wait, and the latest stream position. Every
/// feed and compute is also recorded in the shared `timing`.
#[derive(Debug)]
pub struct StreamPerf {
    pub timing: StreamTiming,
    pub feed_count: u64,
    pub emit_count: u64,
    pub streamed_samples: u64,
    /// Microseconds of model compute.
    pub stream_compute_micros: u128,
    /// Longest wait of a frame in the queue, in microseconds.
    pub queue_max_micros: u128,
    /// Longest single model call, in microseconds.
    pub call_max_micros: u128,
    pub latest_revision: i32,
    pub latest_input_received_ms: i64,
    pub latest_audio_committed_ms: i64,
    pub latest_buffered_ms: i64,
}

impl StreamPerf {
    /// Fresh counters that also feed `timing`.
    pub fn new(timing: StreamTiming) -> (p: Self)
        ensures
            p.timing == timing,
            p.feed_count == 0,
            p.emit_count == 0,
            p.streamed_samples == 0,
            p.stream_compute_micros == 0,
            p.queue_max_micros == 0,
            p.call_max_micros == 0,
            p.latest_revision == 0,
            p.latest_input_received_ms == 0,
            p.latest_audio_committed_ms == 0,
            p.latest_buffered_ms == 0,
    {
        StreamPerf {
            timing,
            feed_count: 0,
            emit_count: 0,
            streamed_samples: 0,
            stream_compute_micros: 0,
            queue_max_micros: 0,
            call_max_micros: 0,
            latest_revision: 0,
            latest_input_received_ms: 0,
            latest_audio_committed_ms: 0,
            latest_buffered_ms: 0,
        }
    }

    /// One more frame of `samples` samples fed.
    pub fn record_feed(&mut self, samples: usize)
        requires
            old(self).feed_count < u64::MAX,
            old(self).streamed_samples + samples <= u64::MAX,
        ensures
            final(self).feed_count == old(self).feed_count + 1,
            final(self).streamed_samples == old(self).streamed_samples + samples,
            final(self).timing.fed() == vstd::wrapping::u64_specs::wrapping_add(
                old(self).timing.fed(),
                samples as u64,
            ),
            final(self).timing.micros() == old(self).timing.micros(),
            final(self).emit_count == old(self).emit_count,
            final(self).stream_compute_micros == old(self).stream_compute_micros,
            final(self).call_max_micros == old(self).call_max_micros,
            final(self).queue_max_micros == old(self).queue_max_micros,
    {
        self.feed_count = self.feed_count + 1;
        self.streamed_samples = self.streamed_samples + samples as u64;
        self.timing.record_feed(samples);
    }

    /// One model call of `elapsed_micros` microseconds.
    pub fn record_compute(&mut self, elapsed_micros: u128)
        requires
            old(self).stream_compute_micros + elapsed_micros <= u128::MAX,
        ensures
            final(self).call_max_micros == if elapsed_micros > old(self).call_max_micros {
                elapsed_micros
            } else {
                old(self).call_max_micros
            },
            final(self).stream_compute_micros == old(self).stream_compute_micros + elapsed_micros,
            final(self).timing.micros() == vstd::wrapping::u64_specs::wrapping_add(
                old(self).timing.micros(),
                (elapsed_micros % 0x1_0000_0000_0000_0000) as u64,
            ),
            final(self).timing.fed() == old(self).timing.fed(),
            final(self).feed_count == old(self).feed_count,
            final(self).emit_count == old(self).emit_count,
            final(self).streamed_samples == old(self).streamed_samples,
            final(self).queue_max_micros == old(self).queue_max_micros,
    {
        if elapsed_micros > self.call_max_micros {
            self.call_max_micros = elapsed_micros;
        }
        self.stream_compute_micros = self.stream_compute_micros + elapsed_micros;
        self.timing.record_compute(elapsed_micros);
    }

    /// The position the stream reported with its latest update.
    pub fn record_update(
        &mut self,
        revision: i32,
        input_received_ms: i64,
        audio_committed_ms: i64,
        buffered_ms: i64,
    )
        ensures
            final(self).latest_revision == revision,
            final(self).latest_input_received_ms == input_received_ms,
            final(self).latest_audio_committed_ms == audio_committed_ms,
            final(self).latest_buffered_ms == buffered_ms,
            final(self).timing == old(self).timing,
            final(self).feed_count == old(self).feed_count,
            final(self).emit_count == old(self).emit_count,
            final(self).streamed_samples == old(self).streamed_samples,
            final(self).stream_compute_micros == old(self).stream_compute_micros,
            final(self).call_max_micros == old(self).call_max_micros,
            final(self).queue_max_micros == old(self).queue_max_micros,
    {
        self.latest_revision = revision;
        self.latest_input_received_ms = input_received_ms;
        self.latest_audio_committed_ms = audio_committed_ms;
        self.latest_buffered_ms = buffered_ms;
    }

    /// One more update emitted to the frontend.
    pub fn record_emit(&mut self)
        requires
            old(self).emit_count < u64::MAX,
        ensures
            final(self).emit_count == old(self).emit_count + 1,
            final(self).timing == old(self).timing,
            final(self).feed_count == old(self).feed_count,
            final(self).streamed_samples == old(self).streamed_samples,
            final(self).stream_compute_micros == old(self).stream_compute_micros,
            final(self).call_max_micros == old(self).call_max_micros,
            final(self).queue_max_micros == old(self).queue_max_micros,
            final(self).latest_revision == old(self).latest_revision,
    {
        self.emit_count = self.emit_count + 1;
    }
}

/// The log form of a streaming latency setting.
pub open spec fn latency_text(point: Option<LatencyPoint>) -> Seq<char> {
    match point {
        None => "model default"@,
        Some(p) => if p.lookahead_ms == 0 {
            decimal(p.latency_ms as nat) + " ms"@
        } else {
            decimal(p.latency_ms as nat) + " ms ("@ + decimal(p.lookahead_ms as nat) + " ms lookahead)"@
        },
    }
}

/// The log form of a streaming latency setting: `560 ms (480 ms lookahead)`,
/// `320 ms` without lookahead, or `model default`.
pub fn describe_latency(point: Option<LatencyPoint>) -> (s: String)
    ensures
        s@ == latency_text(point),
{
    match point {
        None => String::from_str("model default"),
        Some(p) => {
            let mut s = decimal_string(p.latency_ms as u64);
            if p.lookahead_ms == 0 {
                s.append(" ms");
            } else {
                s.append(" ms (");
                let la = decimal_string(p.lookahead_ms as u64);
                s.append(la.as_str());
                s.append(" ms lookahead)");
            }
            s
        },
    }
}

/// A change of a model's load state, for the frontend.
#[derive(Clone, Debug)]
pub struct ModelStateEvent {
    pub event_type: String,
    pub model_id: Option<String>,
    pub model_name: Option<String>,
    pub error: Option<String>,
}

/// A live transcription snapshot for the overlay: `committed` only grows,
/// `tentative` may still be rewritten.
#[derive(Clone, Debug)]
pub struct StreamTextEvent {
    pub committed: String,
    pub tentative: String,
    /// `None` for the primary model's stream, `Some(n)` for an extra one.
    pub slot: Option<u8>,
    /// Chunks whose merge failed, in the Multi-STT streaming mode only.
    pub failed_chunks: Option<u32>,
    /// The text is the whole session's, composed chunk by chunk.
    pub whole_session: bool,
}

/// Whether a flag is off: such a flag is left out of the serialized event.
pub fn is_false(value: &bool) -> (b: bool)
    ensures
        b == !*value,
{
    !*value
}

/// Phase of the streaming overlay card.
#[derive(Clone, Copy, Debug, PartialEq, Eq, Structural)]
pub enum StreamPhase {
    Listening,
    Working,
}

/// What the overlay's spinner says it is doing.
#[derive(Clone, Copy, Debug, PartialEq, Eq, Structural)]
pub enum StreamWorkKind {
    Transcribing,
    Polishing,
}

/// Switches the streaming overlay's phase.
#[derive(Clone, Copy, Debug)]
pub struct StreamPhaseEvent {
    pub phase: StreamPhase,
    /// Present only when `phase` is `Working`.
    pub kind: Option<StreamWorkKind>,
}

/// The event that puts the overlay into its working spinner.
pub fn working_phase_event(kind: StreamWorkKind) -> (e: StreamPhaseEvent)
    ensures
        e.phase == StreamPhase::Working,
        e.kind == Some(kind),
{
    StreamPhaseEvent { phase: StreamPhase::Working, kind: Some(kind) }
}

/// The overlay event for a stream worker's text: labelled with its slot
/// (none for the primary); nothing while an exclusive sink composes the
/// overlay's text itself.
pub fn stream_text_event(slot: u8, committed: &str, tentative: &str, exclusive: bool) -> (e: Option<StreamTextEvent>)
    ensures
        exclusive ==> e is None,
        !exclusive ==> (e matches Some(ev) && ev.committed@ == committed@ && ev.tentative@ == tentative@
            && ev.slot == (if slot == PRIMARY_STREAM_SLOT { None } else { Some(slot) })
            && ev.failed_chunks is None && !ev.whole_session),
{
    if exclusive {
        return None;
    }
    Some(StreamTextEvent {
        committed: String::from_str(committed),
        tentative: String::from_str(tentative),
        slot: if slot == PRIMARY_STREAM_SLOT { None } else { Some(slot) },
        failed_chunks: None,
        whole_session: false,
    })
}

/// The empty event that gives an extra stream its overlay column the
/// moment it is live; nothing for the primary or under an exclusive sink.
pub fn announce_slot_event(slot: u8, exclusive: bool) -> (e: Option<StreamTextEvent>)
    ensures
        (slot == PRIMARY_STREAM_SLOT || exclusive) ==> e is None,
        !(slot == PRIMARY_STREAM_SLOT || exclusive) ==> (e matches Some(ev) && ev.committed@.len() == 0
            && ev.tentative@.len() == 0 && ev.slot == Some(slot) && ev.failed_chunks is None
            && !ev.whole_session),
{
    if slot == PRIMARY_STREAM_SLOT || exclusive {
        return None;
    }
    Some(StreamTextEvent {
        committed: String::new(),
        tentative: String::new(),
        slot: Some(slot),
        failed_chunks: None,
        whole_session: false,
    })
}

/// The overlay event for text composed for the whole session.
pub fn composed_stream_text_event(
    committed: &str,
    tentative: &str,
    failed_chunks: Option<u32>,
    slot: Option<u8>,
) -> (ev: StreamTextEvent)
    ensures
        ev.committed@ == committed@,
        ev.tentative@ == tentative@,
        ev.slot == slot,
        ev.failed_chunks == failed_chunks,
        ev.whole_session,
{
    StreamTextEvent {
        committed: String::from_str(committed),
        tentative: String::from_str(tentative),
        slot,
        failed_chunks,
        whole_session: true,
    }
}

} // verus!
