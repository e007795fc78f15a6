//! The part of the application settings that model selection, per-model
//! preferences and the Multi-STT panel read.
//!
//! Per-model preferences are keyed by model id. A quantized model file is
//! addressed as `repo/file.gguf`; its repo is everything before the last `/`.

use vstd::prelude::*;
use vstd::string::StringExecFns;
use crate::streaming_latency::NativeStreamingLatencyPreset;
use crate::text::{chars_of, chars_equal, has_prefix, has_suffix, occurs_at, matches_at, starts_with_chars, ends_with_chars};

verus! {

/// How many extra models the Multi-STT panel holds (models 2 to 9).
pub const MULTI_STT_MAX_EXTRA_MODELS: usize = 8;

/// The compute backend a single model asks for; `Auto` follows the global
/// accelerator setting.
#[derive(Clone, Copy, Debug, PartialEq, Eq, Structural)]
pub enum ModelBackendSetting {
    Auto,
    Cpu,
    Cuda,
    Vulkan,
    VulkanNvidia,
    VulkanIntel,
    Metal,
    Rocm,
}

/// The global transcription accelerator preference.
#[derive(Clone, Copy, Debug, PartialEq, Eq, Structural)]
pub enum TranscribeAcceleratorSetting {
    Auto,
    Cpu,
    Gpu,
}

/// The value an entry list gives the first key that `p` accepts, scanning
/// from the front.
pub open spec fn first_match<V>(e: Seq<(Seq<char>, V)>, p: spec_fn(Seq<char>) -> bool) -> Option<V>
    decreases e.len(),
{
    if e.len() == 0 {
        None
    } else if p(e[0].0) {
        Some(e[0].1)
    } else {
        first_match(e.drop_first(), p)
    }
}

/// The index of the first entry whose key is `k`, if there is one.
pub open spec fn key_index<V>(e: Seq<(Seq<char>, V)>, k: Seq<char>) -> Option<int>
    decreases e.len(),
{
    if e.len() == 0 {
        None
    } else if e[0].0 == k {
        Some(0)
    } else {
        match key_index(e.drop_first(), k) {
            Some(i) => Some(i + 1),
            None => None,
        }
    }
}

/// Skipping a prefix none of whose keys `p` accepts does not change the
/// first match.
pub proof fn lemma_first_match_skip<V>(e: Seq<(Seq<char>, V)>, p: spec_fn(Seq<char>) -> bool, i: int)
    requires
        0 <= i <= e.len(),
        forall|j: int| 0 <= j < i ==> !p(#[trigger] e[j].0),
    ensures
        first_match(e, p) == first_match(e.subrange(i, e.len() as int), p),
    decreases i,
{
    if i > 0 {
        assert(!p(e[0].0));
        let t = e.drop_first();
        assert forall|j: int| 0 <= j < i - 1 implies !p(#[trigger] t[j].0) by {
            assert(t[j] == e[j + 1]);
        }
        lemma_first_match_skip(t, p, i - 1);
        assert(t.subrange(i - 1, t.len() as int) =~= e.subrange(i, e.len() as int));
    } else {
        assert(e.subrange(0, e.len() as int) =~= e);
    }
}

/// When the entry at `i` is the first that `p` accepts, it is the match.
pub proof fn lemma_first_match_at<V>(e: Seq<(Seq<char>, V)>, p: spec_fn(Seq<char>) -> bool, i: int)
    requires
        0 <= i < e.len(),
        p(e[i].0),
        forall|j: int| 0 <= j < i ==> !p(#[trigger] e[j].0),
    ensures
        first_match(e, p) == Some(e[i].1),
{
    lemma_first_match_skip(e, p, i);
    let t = e.subrange(i, e.len() as int);
    assert(t[0] == e[i]);
}

/// With no key accepted, there is no match.
pub proof fn lemma_first_match_none<V>(e: Seq<(Seq<char>, V)>, p: spec_fn(Seq<char>) -> bool)
    requires
        forall|j: int| 0 <= j < e.len() ==> !p(#[trigger] e[j].0),
    ensures
        first_match(e, p) is None,
{
    lemma_first_match_skip(e, p, e.len() as int);
    assert(e.subrange(e.len() as int, e.len() as int).len() == 0);
}

/// `key_index` finds the first entry with the key.
pub proof fn lemma_key_index<V>(e: Seq<(Seq<char>, V)>, k: Seq<char>)
    ensures
        key_index(e, k) matches Some(i) ==> 0 <= i < e.len() && e[i].0 == k
            && forall|j: int| 0 <= j < i ==> #[trigger] e[j].0 != k,
        key_index(e, k) is None ==> forall|j: int| 0 <= j < e.len() ==> #[trigger] e[j].0 != k,
    decreases e.len(),
{
    if e.len() > 0 {
        let t = e.drop_first();
        lemma_key_index(t, k);
        if e[0].0 != k {
            assert forall|j: int| 1 <= j < e.len() implies e[j] == t[j - 1] by {}
            if key_index(t, k) is None {
                assert forall|j: int| 0 <= j < e.len() implies #[trigger] e[j].0 != k by {
                    if j > 0 {
                        assert(e[j] == t[j - 1]);
                    }
                }
            } else {
                let i = key_index(t, k)->0;
                assert forall|j: int| 0 <= j < i + 1 implies #[trigger] e[j].0 != k by {
                    if j > 0 {
                        assert(e[j] == t[j - 1]);
                    }
                }
            }
        }
    }
}

/// A per-model preference table: model id to value, in the order the ids
/// were first set.
#[derive(Clone, Debug)]
pub struct ModelSettingMap<V> {
    entries: Vec<(String, V)>,
}

/// The entries of a table as `(key, value)` pairs of characters.
pub open spec fn entries_view<V>(e: Seq<(String, V)>) -> Seq<(Seq<char>, V)> {
    e.map_values(|p: (String, V)| (p.0@, p.1))
}

/// Accepts exactly the key `key`.
pub open spec fn key_is(key: Seq<char>) -> spec_fn(Seq<char>) -> bool {
    |k: Seq<char>| k == key
}

/// The value stored under `key`.
pub open spec fn lookup<V>(e: Seq<(Seq<char>, V)>, key: Seq<char>) -> Option<V> {
    first_match(e, key_is(key))
}

impl<V: Copy> ModelSettingMap<V> {
    /// The table's entries, in order.
    pub closed spec fn view(&self) -> Seq<(Seq<char>, V)> {
        entries_view(self.entries@)
    }

    /// An empty table.
    pub fn new() -> (m: Self)
        ensures
            m.view() == Seq::<(Seq<char>, V)>::empty(),
    {
        let m = ModelSettingMap { entries: Vec::new() };
        assert(m.view() =~= Seq::<(Seq<char>, V)>::empty());
        m
    }

    /// Number of entries.
    pub fn len(&self) -> (n: usize)
        ensures
            n == self.view().len(),
    {
        self.entries.len()
    }

    /// The entry at `i`.
    pub fn entry(&self, i: usize) -> (kv: (&String, V))
        requires
            i < self.view().len(),
        ensures
            kv.0@ == self.view()[i as int].0,
            kv.1 == self.view()[i as int].1,
    {
        (&self.entries[i].0, self.entries[i].1)
    }

    /// The position of `key`, if it is set.
    pub fn position(&self, key: &str) -> (r: Option<usize>)
        ensures
            r matches Some(i) ==> key_index(self.view(), key@) == Some(i as int),
            r is None <==> key_index(self.view(), key@) is None,
    {
        let kv = chars_of(key);
        let mut i: usize = 0;
        proof {
            lemma_key_index(self.view(), key@);
        }
        while i < self.entries.len()
            invariant
                i <= self.entries.len(),
                kv@ == key@,
                self.view().len() == self.entries@.len(),
                forall|j: int| 0 <= j < i ==> #[trigger] self.view()[j].0 != key@,
                key_index(self.view(), key@) matches Some(m) ==> 0 <= m < self.view().len()
                    && self.view()[m].0 == key@ && forall|j: int| 0 <= j < m ==> #[trigger] self.view()[j].0 != key@,
                key_index(self.view(), key@) is None ==> forall|j: int| 0 <= j < self.view().len() ==> #[trigger] self.view()[j].0 != key@,
            decreases self.entries.len() - i,
        {
            let ev = chars_of(self.entries[i].0.as_str());
            assert(self.view()[i as int].0 == self.entries@[i as int].0@);
            if chars_equal(&ev, &kv) {
                return Some(i);
            }
            i = i + 1;
        }
        None
    }

    /// The value set for exactly `key`.
    pub fn get(&self, key: &str) -> (r: Option<V>)
        ensures
            r == lookup(self.view(), key@),
    {
        let ghost p = key_is(key@);
        proof {
            lemma_key_index(self.view(), key@);
        }
        match self.position(key) {
            Some(i) => {
                proof {
                    lemma_first_match_at(self.view(), p, i as int);
                }
                Some(self.entries[i].1)
            },
            None => {
                proof {
                    lemma_first_match_none(self.view(), p);
                }
                None
            },
        }
    }

    /// Sets `key` to `value`: an existing entry keeps its place, a new one
    /// goes last.
    pub fn insert(&mut self, key: &str, value: V)
        ensures
            final(self).view() == inserted(old(self).view(), key@, value),
    {
        proof {
            lemma_key_index(self.view(), key@);
        }
        match self.position(key) {
            Some(i) => {
                proof {
                    lemma_key_index(self.view(), key@);
                }
                let k = String::from_str(key);
                self.entries.set(i, (k, value));
                assert(self.view() =~= old(self).view().update(i as int, (key@, value)));
            },
            None => {
                let k = String::from_str(key);
                self.entries.push((k, value));
                assert(self.view() =~= old(self).view().push((key@, value)));
            },
        }
    }

    /// Removes every entry.
    pub fn clear(&mut self)
        ensures
            final(self).view() == Seq::<(Seq<char>, V)>::empty(),
    {
        self.entries.clear();
        assert(self.view() =~= Seq::<(Seq<char>, V)>::empty());
    }
}

/// The entries after setting `key` to `value`: the entry with that key is
/// replaced in place, or a new entry goes last.
pub open spec fn inserted<V>(e: Seq<(Seq<char>, V)>, key: Seq<char>, value: V) -> Seq<(Seq<char>, V)> {
    match key_index(e, key) {
        Some(i) => e.update(i, (key, value)),
        None => e.push((key, value)),
    }
}

/// After a table sets `key` to `value`, `key` reads back `value` and every
/// other key reads what it read before.
pub proof fn lemma_insert_then_lookup<V>(
    before: Seq<(Seq<char>, V)>,
    key: Seq<char>,
    value: V,
    other: Seq<char>,
)
    ensures
        lookup(inserted(before, key, value), key) == Some(value),
        other != key ==> lookup(inserted(before, key, value), other) == lookup(before, other),
{
    let after = inserted(before, key, value);
    lemma_key_index(before, key);
    assert(key_index(before, key) matches Some(i) ==> after == before.update(i, (key, value)));
    lemma_insert_then_lookup_steps(before, after, key, value, other);
}

proof fn lemma_insert_then_lookup_steps<V>(
    before: Seq<(Seq<char>, V)>,
    after: Seq<(Seq<char>, V)>,
    key: Seq<char>,
    value: V,
    other: Seq<char>,
)
    requires
        key_index(before, key) matches Some(i) ==> after == before.update(i, (key, value)),
        key_index(before, key) is None ==> after == before.push((key, value)),
    ensures
        lookup(after, key) == Some(value),
        other != key ==> lookup(after, other) == lookup(before, other),
{
    lemma_key_index(before, key);
    lemma_key_index(before, other);
    let pk = key_is(key);
    let po = key_is(other);
    match key_index(before, key) {
        Some(i) => {
            assert forall|j: int| 0 <= j < i implies !pk(#[trigger] after[j].0) by {
                assert(after[j] == before[j]);
            }
            lemma_first_match_at(after, pk, i);
            if other != key {
                match key_index(before, other) {
                    Some(m) => {
                        assert forall|j: int| 0 <= j < m implies !po(#[trigger] after[j].0) by {
                            if j != i {
                                assert(after[j] == before[j]);
                            }
                        }
                        assert(after[m] == before[m]);
                        lemma_first_match_at(after, po, m);
                        lemma_first_match_at(before, po, m);
                    },
                    None => {
                        assert forall|j: int| 0 <= j < after.len() implies !po(#[trigger] after[j].0) by {
                            if j != i {
                                assert(after[j] == before[j]);
                            }
                        }
                        lemma_first_match_none(after, po);
                        lemma_first_match_none(before, po);
                    },
                }
            }
        },
        None => {
            let n = before.len() as int;
            assert forall|j: int| 0 <= j < n implies !pk(#[trigger] after[j].0) by {
                assert(after[j] == before[j]);
            }
            lemma_first_match_at(after, pk, n);
            if other != key {
                match key_index(before, other) {
                    Some(m) => {
                        assert forall|j: int| 0 <= j < m implies !po(#[trigger] after[j].0) by {
                            assert(after[j] == before[j]);
                        }
                        assert(after[m] == before[m]);
                        lemma_first_match_at(after, po, m);
                        lemma_first_match_at(before, po, m);
                    },
                    None => {
                        assert forall|j: int| 0 <= j < after.len() implies !po(#[trigger] after[j].0) by {
                            if j < n {
                                assert(after[j] == before[j]);
                            }
                        }
                        lemma_first_match_none(after, po);
                        lemma_first_match_none(before, po);
                    },
                }
            }
        },
    }
}

/// Index of the last `/` of `s`.
pub open spec fn last_slash(s: Seq<char>) -> Option<int>
    decreases s.len(),
{
    if s.len() == 0 {
        None
    } else if s.last() == '/' {
        Some(s.len() - 1)
    } else {
        last_slash(s.drop_last())
    }
}

/// The repo part of a model id: everything before its last `/`.
pub open spec fn repo_of(s: Seq<char>) -> Option<Seq<char>> {
    match last_slash(s) {
        Some(i) => Some(s.subrange(0, i)),
        None => None,
    }
}

/// The suffix of a quantized model file.
pub open spec fn gguf_suffix() -> Seq<char> {
    seq!['.', 'g', 'g', 'u', 'f']
}

/// Accepts the keys whose repo is `repo`: quant siblings in that repo.
pub open spec fn in_repo(repo: Seq<char>) -> spec_fn(Seq<char>) -> bool {
    |k: Seq<char>| repo_of(k) == Some(repo)
}

/// Accepts the keys that address a file under the repo `id`.
pub open spec fn under_repo(id: Seq<char>) -> spec_fn(Seq<char>) -> bool {
    |k: Seq<char>| has_prefix(k, id.push('/'))
}

/// The value a model id inherits from a per-model table: its own entry;
/// for a quant file, else its repo's entry, else the first entry of a quant
/// sibling in the same repo; for any other id, the first entry of a file
/// under it.
pub open spec fn inherited<V>(e: Seq<(Seq<char>, V)>, id: Seq<char>) -> Option<V> {
    match lookup(e, id) {
        Some(v) => Some(v),
        None => if has_suffix(id, gguf_suffix()) {
            match repo_of(id) {
                Some(repo) => match lookup(e, repo) {
                    Some(v) => Some(v),
                    None => first_match(e, in_repo(repo)),
                },
                None => None,
            }
        } else {
            first_match(e, under_repo(id))
        },
    }
}

proof fn lemma_last_slash(s: Seq<char>)
    ensures
        last_slash(s) matches Some(i) ==> 0 <= i < s.len() && s[i] == '/'
            && forall|j: int| i < j < s.len() ==> #[trigger] s[j] != '/',
        last_slash(s) is None ==> forall|j: int| 0 <= j < s.len() ==> #[trigger] s[j] != '/',
    decreases s.len(),
{
    if s.len() > 0 && s.last() != '/' {
        let t = s.drop_last();
        lemma_last_slash(t);
        assert forall|j: int| 0 <= j < t.len() implies t[j] == s[j] by {}
    }
}

/// Index of the last `/` of `v`.
pub fn last_slash_index(v: &Vec<char>) -> (r: Option<usize>)
    ensures
        r matches Some(i) ==> last_slash(v@) == Some(i as int) && i < v@.len(),
        r is None <==> last_slash(v@) is None,
{
    proof {
        lemma_last_slash(v@);
    }
    let mut n: usize = v.len();
    assert(v@.subrange(0, n as int) =~= v@);
    while n > 0
        invariant
            n <= v@.len(),
            last_slash(v@) == last_slash(v@.subrange(0, n as int)),
        decreases n,
    {
        let ghost t = v@.subrange(0, n as int);
        assert(t.drop_last() =~= v@.subrange(0, n - 1));
        if v[n - 1] == '/' {
            return Some(n - 1);
        }
        n = n - 1;
    }
    None
}

/// The characters of `v` before index `n`.
fn prefix_chars(v: &Vec<char>, n: usize) -> (w: Vec<char>)
    requires
        n <= v@.len(),
    ensures
        w@ == v@.subrange(0, n as int),
{
    let mut w: Vec<char> = Vec::new();
    let mut i: usize = 0;
    while i < n
        invariant
            i <= n <= v@.len(),
            w@ == v@.subrange(0, i as int),
        decreases n - i,
    {
        w.push(v[i]);
        i = i + 1;
    }
    w
}

/// Whether the repo of the model id `k` is `repo`.
fn key_in_repo(k: &Vec<char>, repo: &Vec<char>) -> (b: bool)
    ensures
        b == (repo_of(k@) == Some(repo@)),
{
    proof {
        lemma_last_slash(k@);
    }
    match last_slash_index(k) {
        Some(i) => {
            let b = i == repo.len() && matches_at(k, repo, 0);
            proof {
                if b {
                    assert(k@.subrange(0, i as int) =~= repo@);
                } else if i == repo.len() {
                    assert(!occurs_at(k@, repo@, 0));
                    assert(k@.subrange(0, i as int) != repo@);
                } else {
                    assert(k@.subrange(0, i as int).len() == i);
                }
            }
            b
        },
        None => false,
    }
}

impl<V: Copy> ModelSettingMap<V> {
    /// The value of the first entry whose key is a quant sibling in `repo`.
    fn first_in_repo(&self, repo: &Vec<char>) -> (r: Option<V>)
        ensures
            r == first_match(self.view(), in_repo(repo@)),
    {
        let ghost p = in_repo(repo@);
        let mut i: usize = 0;
        while i < self.entries.len()
            invariant
                i <= self.entries.len(),
                self.view().len() == self.entries@.len(),
                p == in_repo(repo@),
                forall|j: int| 0 <= j < i ==> !p(#[trigger] self.view()[j].0),
            decreases self.entries.len() - i,
        {
            let k = chars_of(self.entries[i].0.as_str());
            assert(self.view()[i as int].0 == self.entries@[i as int].0@);
            if key_in_repo(&k, repo) {
                proof {
                    lemma_first_match_at(self.view(), p, i as int);
                }
                return Some(self.entries[i].1);
            }
            i = i + 1;
        }
        proof {
            lemma_first_match_none(self.view(), p);
        }
        None
    }

    /// The value of the first entry whose key starts with `prefix`.
    fn first_with_prefix(&self, prefix: &Vec<char>, Ghost(id): Ghost<Seq<char>>) -> (r: Option<V>)
        requires
            prefix@ == id.push('/'),
        ensures
            r == first_match(self.view(), under_repo(id)),
    {
        let ghost p = under_repo(id);
        let mut i: usize = 0;
        while i < self.entries.len()
            invariant
                i <= self.entries.len(),
                self.view().len() == self.entries@.len(),
                p == under_repo(id),
                prefix@ == id.push('/'),
                forall|j: int| 0 <= j < i ==> !p(#[trigger] self.view()[j].0),
            decreases self.entries.len() - i,
        {
            let k = chars_of(self.entries[i].0.as_str());
            assert(self.view()[i as int].0 == self.entries@[i as int].0@);
            if starts_with_chars(&k, prefix) {
                proof {
                    lemma_first_match_at(self.view(), p, i as int);
                }
                return Some(self.entries[i].1);
            }
            i = i + 1;
        }
        proof {
            lemma_first_match_none(self.view(), p);
        }
        None
    }

    /// The value `model_id` inherits from this table (see [`inherited`]).
    pub fn inherited_value(&self, model_id: &str) -> (r: Option<V>)
        ensures
            r == inherited(self.view(), model_id@),
    {
        if let Some(v) = self.get(model_id) {
            return Some(v);
        }
        let id = chars_of(model_id);
        let mut suffix: Vec<char> = Vec::new();
        suffix.push('.');
        suffix.push('g');
        suffix.push('g');
        suffix.push('u');
        suffix.push('f');
        assert(suffix@ =~= gguf_suffix());
        if ends_with_chars(&id, &suffix) {
            match last_slash_index(&id) {
                Some(cut) => {
                    let repo = prefix_chars(&id, cut);
                    let repo_str = crate::text::string_from_chars(&repo);
                    match self.get(repo_str.as_str()) {
                        Some(v) => Some(v),
                        None => self.first_in_repo(&repo),
                    }
                },
                None => None,
            }
        } else {
            let mut prefix = id.clone();
            prefix.push('/');
            self.first_with_prefix(&prefix, Ghost(model_id@))
        }
    }
}

/// One extra model of the Multi-STT panel and its own preferences.
#[derive(Clone, Debug)]
pub struct MultiSttExtraModel {
    pub model_id: Option<String>,
    /// The language pinned for this model; `None` keeps the global one.
    pub language: Option<String>,
    /// Whether this model translates to English.
    pub translate: bool,
    /// This slot's own streaming latency; `None` follows the model's entry.
    pub latency_preset: Option<NativeStreamingLatencyPreset>,
    /// This slot's own R2T2 chunk size; `None` follows the model's entry.
    pub chunk_ms: Option<u32>,
}

impl Default for MultiSttExtraModel {
    fn default() -> (m: Self)
        ensures
            m.model_id is None,
            m.language is None,
            !m.translate,
            m.latency_preset is None,
            m.chunk_ms is None,
    {
        MultiSttExtraModel {
            model_id: None,
            language: None,
            translate: false,
            latency_preset: None,
            chunk_ms: None,
        }
    }
}

/// The settings that model selection and the Multi-STT panel read.
#[derive(Clone, Debug)]
pub struct AppSettings {
    /// The language the user picked, or `auto`.
    pub selected_language: String,
    pub translate_to_english: bool,
    pub transcribe_accelerator: TranscribeAcceleratorSetting,
    /// Persistent identity of the GPU the user picked, if any.
    pub transcribe_gpu_device: Option<String>,
    pub per_model_backends: ModelSettingMap<ModelBackendSetting>,
    pub native_streaming_latency_presets: ModelSettingMap<NativeStreamingLatencyPreset>,
    pub native_streaming_chunk_ms: ModelSettingMap<u32>,
    /// The Multi-STT panel's models 2, 3, ..., in the panel's order.
    pub multi_stt_extra_models: Vec<MultiSttExtraModel>,
}

/// The characters of `auto`.
pub open spec fn auto_language() -> Seq<char> {
    seq!['a', 'u', 't', 'o']
}

impl Default for AppSettings {
    fn default() -> (s: Self)
        ensures
            s.selected_language@ == auto_language(),
            !s.translate_to_english,
            s.transcribe_accelerator == TranscribeAcceleratorSetting::Auto,
            s.transcribe_gpu_device is None,
            s.per_model_backends.view().len() == 0,
            s.native_streaming_latency_presets.view().len() == 0,
            s.native_streaming_chunk_ms.view().len() == 0,
            s.multi_stt_extra_models@.len() == 0,
    {
        let mut auto: Vec<char> = Vec::new();
        auto.push('a');
        auto.push('u');
        auto.push('t');
        auto.push('o');
        assert(auto@ =~= auto_language());
        AppSettings {
            selected_language: crate::text::string_from_chars(&auto),
            translate_to_english: false,
            transcribe_accelerator: TranscribeAcceleratorSetting::Auto,
            transcribe_gpu_device: None,
            per_model_backends: ModelSettingMap::new(),
            native_streaming_latency_presets: ModelSettingMap::new(),
            native_streaming_chunk_ms: ModelSettingMap::new(),
            multi_stt_extra_models: Vec::new(),
        }
    }
}

/// An optional string as optional characters.
pub open spec fn opt_chars(o: Option<String>) -> Option<Seq<char>> {
    match o {
        Some(s) => Some(s@),
        None => None,
    }
}

/// How many of the panel's models count: at most the panel's capacity.
pub open spec fn panel_len(models: Seq<MultiSttExtraModel>) -> int {
    if models.len() < MULTI_STT_MAX_EXTRA_MODELS {
        models.len() as int
    } else {
        MULTI_STT_MAX_EXTRA_MODELS as int
    }
}

/// The first counted panel position at or after `i` whose model is `id`.
pub open spec fn slot_holding(models: Seq<MultiSttExtraModel>, id: Seq<char>, i: int) -> Option<int>
    decreases panel_len(models) - i,
{
    if i < 0 || i >= panel_len(models) {
        None
    } else if opt_chars(models[i].model_id) == Some(id) {
        Some(i)
    } else {
        slot_holding(models, id, i + 1)
    }
}

/// `slot_holding` finds the first position holding `id`.
pub proof fn lemma_slot_holding(models: Seq<MultiSttExtraModel>, id: Seq<char>, i: int)
    requires
        0 <= i,
    ensures
        slot_holding(models, id, i) matches Some(p) ==> i <= p < panel_len(models)
            && opt_chars(models[p].model_id) == Some(id)
            && forall|q: int| i <= q < p ==> opt_chars(#[trigger] models[q].model_id) != Some(id),
        slot_holding(models, id, i) is None ==> forall|q: int|
            i <= q < panel_len(models) ==> opt_chars(#[trigger] models[q].model_id) != Some(id),
    decreases panel_len(models) - i,
{
    if i < panel_len(models) && opt_chars(models[i].model_id) != Some(id) {
        lemma_slot_holding(models, id, i + 1);
    }
}

fn clone_opt_string(o: &Option<String>) -> (r: Option<String>)
    ensures
        r == *o,
{
    match o {
        Some(s) => Some(s.clone()),
        None => None,
    }
}

impl AppSettings {
    /// The model id of each of the panel's slots, in order.
    pub fn multi_stt_extra_model_ids(&self) -> (ids: Vec<Option<String>>)
        ensures
            ids@.len() == panel_len(self.multi_stt_extra_models@),
            forall|i: int| 0 <= i < ids@.len() ==> #[trigger] ids@[i] == self.multi_stt_extra_models@[i].model_id,
    {
        let n = if self.multi_stt_extra_models.len() < MULTI_STT_MAX_EXTRA_MODELS {
            self.multi_stt_extra_models.len()
        } else {
            MULTI_STT_MAX_EXTRA_MODELS
        };
        let mut ids: Vec<Option<String>> = Vec::new();
        let mut i: usize = 0;
        while i < n
            invariant
                n == panel_len(self.multi_stt_extra_models@),
                n <= self.multi_stt_extra_models@.len(),
                i <= n,
                ids@.len() == i,
                forall|j: int| 0 <= j < i ==> #[trigger] ids@[j] == self.multi_stt_extra_models@[j].model_id,
            decreases n - i,
        {
            ids.push(clone_opt_string(&self.multi_stt_extra_models[i].model_id));
            i = i + 1;
        }
        ids
    }

    /// The first of the panel's slots holding `model_id`, if any.
    pub fn multi_stt_extra_slot_for(&self, model_id: &str) -> (r: Option<&MultiSttExtraModel>)
        ensures
            match slot_holding(self.multi_stt_extra_models@, model_id@, 0) {
                Some(p) => r == Some(&self.multi_stt_extra_models@[p]),
                None => r is None,
            },
    {
        let ghost models = self.multi_stt_extra_models@;
        let n = if self.multi_stt_extra_models.len() < MULTI_STT_MAX_EXTRA_MODELS {
            self.multi_stt_extra_models.len()
        } else {
            MULTI_STT_MAX_EXTRA_MODELS
        };
        let kv = chars_of(model_id);
        let mut i: usize = 0;
        while i < n
            invariant
                models == self.multi_stt_extra_models@,
                n == panel_len(models),
                n <= models.len(),
                i <= n,
                kv@ == model_id@,
                slot_holding(models, model_id@, 0) == slot_holding(models, model_id@, i as int),
            decreases n - i,
        {
            if let Some(id) = &self.multi_stt_extra_models[i].model_id {
                let ic = chars_of(id.as_str());
                if chars_equal(&ic, &kv) {
                    return Some(&self.multi_stt_extra_models[i]);
                }
            }
            i = i + 1;
        }
        None
    }
}


/// Key `k` names a file under the model id `id`: it starts with the id
/// followed by a `/` (`id/...`).
pub open spec fn names_file_under(k: Seq<char>, id: Seq<char>) -> bool {
    &&& k.len() > id.len()
    &&& k[id.len() as int] == '/'
    &&& forall|i: int| 0 <= i < id.len() ==> #[trigger] k[i] == id[i]
}

proof fn lemma_under_repo_is_file_under(k: Seq<char>, id: Seq<char>)
    ensures
        under_repo(id)(k) <==> names_file_under(k, id),
{
    let q = id.push('/');
    if names_file_under(k, id) {
        assert(k.subrange(0, q.len() as int) =~= q);
    }
    if under_repo(id)(k) {
        assert forall|i: int| 0 <= i < id.len() implies #[trigger] k[i] == id[i] by {
            assert(k.subrange(0, q.len() as int)[i] == q[i]);
        }
        assert(k.subrange(0, q.len() as int)[id.len() as int] == q[id.len() as int]);
    }
}

proof fn lemma_first_match_source<V>(e: Seq<(Seq<char>, V)>, p: spec_fn(Seq<char>) -> bool)
    ensures
        first_match(e, p) matches Some(v) ==> exists|j: int| 0 <= j < e.len() && p(#[trigger] e[j].0) && e[j].1 == v,
    decreases e.len(),
{
    if e.len() > 0 && !p(e[0].0) {
        let t = e.drop_first();
        lemma_first_match_source(t, p);
        if first_match(t, p) is Some {
            let j = choose|j: int| 0 <= j < t.len() && p(#[trigger] t[j].0) && t[j].1 == first_match(t, p)->0;
            assert(e[j + 1] == t[j]);
        }
    } else if e.len() > 0 {
        assert(p(e[0].0));
    }
}

/// A model id that is not a quant file inherits only from its own entry or
/// from an entry of a file under it (`id/...`): a key that merely starts with
/// the same text and goes on with another character (`id-turbo`) never
/// contributes, and with neither kind of key there is nothing to inherit.
pub proof fn law_model_inherits_only_from_files_under_it<V>(e: Seq<(Seq<char>, V)>, id: Seq<char>)
    requires
        !has_suffix(id, gguf_suffix()),
    ensures
        inherited(e, id) matches Some(v) ==> exists|j: int|
            0 <= j < e.len() && e[j].1 == v && (e[j].0 == id || names_file_under(#[trigger] e[j].0, id)),
        (forall|j: int| 0 <= j < e.len() ==> #[trigger] e[j].0 != id && !names_file_under(e[j].0, id))
            ==> inherited(e, id) is None,
{
    lemma_first_match_source(e, key_is(id));
    lemma_first_match_source(e, under_repo(id));
    assert forall|j: int| 0 <= j < e.len() implies (under_repo(id)(#[trigger] e[j].0) <==> names_file_under(e[j].0, id)) by {
        lemma_under_repo_is_file_under(e[j].0, id);
    }
}

/// Without an entry of its own, a model id that is not a quant file takes
/// the value of the first entry naming a file under it.
pub proof fn law_model_takes_first_file_under_it<V>(e: Seq<(Seq<char>, V)>, id: Seq<char>, i: int)
    requires
        !has_suffix(id, gguf_suffix()),
        forall|j: int| 0 <= j < e.len() ==> #[trigger] e[j].0 != id,
        0 <= i < e.len(),
        names_file_under(e[i].0, id),
        forall|j: int| 0 <= j < i ==> !names_file_under(#[trigger] e[j].0, id),
    ensures
        inherited(e, id) == Some(e[i].1),
{
    lemma_first_match_none(e, key_is(id));
    lemma_under_repo_is_file_under(e[i].0, id);
    assert forall|j: int| 0 <= j < i implies !under_repo(id)(#[trigger] e[j].0) by {
        lemma_under_repo_is_file_under(e[j].0, id);
    }
    lemma_first_match_at(e, under_repo(id), i);
}

/// A model id's own entry always wins over anything it could inherit.
pub proof fn lemma_exact_entry_wins<V>(e: Seq<(Seq<char>, V)>, id: Seq<char>, v: V)
    requires
        lookup(e, id) == Some(v),
    ensures
        inherited(e, id) == Some(v),
{
}

/// A quant file without an entry of its own takes its repo's entry, whatever
/// its siblings are set to.
pub proof fn lemma_repo_entry_reaches_quants<V>(e: Seq<(Seq<char>, V)>, id: Seq<char>, repo: Seq<char>, v: V)
    requires
        has_suffix(id, gguf_suffix()),
        repo_of(id) == Some(repo),
        lookup(e, id) is None,
        lookup(e, repo) == Some(v),
    ensures
        inherited(e, id) == Some(v),
{
}

} // verus!
