//! The model hub: collections, download requests and notifications, the
//! registry of known downloads, and the decisions of the resumable download
//! transport (resume, range checks, size caps, integrity).

use vstd::prelude::*;
use vstd::string::StringExecFns;
use crate::text::{chars_of, chars_equal, str_eq, is_ws, is_white_space, trim_seq, trim_chars, first_non_ws_from, has_prefix, starts_with_chars, decimal, decimal_string};
use crate::search::{first_where, lemma_first_where};

verus! {

/// Which engine collection a model or download belongs to.
#[derive(Clone, Copy, Debug, PartialEq, Eq, Hash, Structural)]
pub enum ModelCollection {
    /// Speech-to-text models.
    Stt,
    /// Local language models.
    Brain,
    /// Text-to-speech models.
    Tts,
    /// Runtime binaries (llama.cpp server builds).
    Runtime,
}

/// The stable key of a collection in hub state.
pub open spec fn collection_key(c: ModelCollection) -> Seq<char> {
    match c {
        ModelCollection::Stt => "stt"@,
        ModelCollection::Brain => "brain"@,
        ModelCollection::Tts => "tts"@,
        ModelCollection::Runtime => "runtime"@,
    }
}

impl ModelCollection {
    /// The stable key entries of this collection are addressed by.
    pub fn key(self) -> (k: &'static str)
        ensures
            k@ == collection_key(self),
    {
        match self {
            ModelCollection::Stt => "stt",
            ModelCollection::Brain => "brain",
            ModelCollection::Tts => "tts",
            ModelCollection::Runtime => "runtime",
        }
    }
}

/// Lifecycle phase of a hub download.
#[derive(Clone, Copy, Debug, PartialEq, Eq, Structural)]
pub enum HubDownloadStatus {
    Downloading,
    Verifying,
    Extracting,
    Completed,
    Failed,
    Cancelled,
}

/// The terminal notifications of a hub entry.
#[derive(Clone, Copy, Debug, PartialEq, Eq, Structural)]
pub enum HubNotificationKind {
    Completed,
    Failed,
    Cancelled,
    Deleted,
}

/// A terminal notification for a hub entry, emitted once at the end of an
/// operation.
#[derive(Clone, Debug)]
pub struct ModelHubNotification {
    pub collection: ModelCollection,
    pub id: String,
    pub name: String,
    pub kind: HubNotificationKind,
    pub error: Option<String>,
}

/// A download request; `id` is scoped by the collection.
#[derive(Clone, Debug)]
pub struct HubDownloadRequest {
    pub collection: ModelCollection,
    pub id: String,
}

/// Whether a terminal notification drops the entry from the registry of
/// active downloads: every kind but a failure, whose row stays to show the
/// error.
pub fn notification_clears_entry(kind: HubNotificationKind) -> (b: bool)
    ensures
        b == (kind != HubNotificationKind::Failed),
{
    match kind {
        HubNotificationKind::Completed | HubNotificationKind::Cancelled | HubNotificationKind::Deleted => true,
        HubNotificationKind::Failed => false,
    }
}

/// The notification of a terminal state.
pub fn hub_notification(
    collection: ModelCollection,
    id: &str,
    name: &str,
    kind: HubNotificationKind,
    error: Option<String>,
) -> (n: ModelHubNotification)
    ensures
        n.collection == collection,
        n.id@ == id@,
        n.name@ == name@,
        n.kind == kind,
        n.error == error,
{
    ModelHubNotification {
        collection,
        id: String::from_str(id),
        name: String::from_str(name),
        kind,
        error,
    }
}

// ---------------------------------------------------------------------------
// The registry of known downloads
// ---------------------------------------------------------------------------

/// The downloads the hub knows of, in flight or last seen, one entry per
/// `(collection, id)`.
pub struct HubRegistry<P> {
    entries: Vec<(ModelCollection, String, P)>,
}

/// Accepts the entry of `(c, id)`.
pub open spec fn entry_is<P>(c: ModelCollection, id: Seq<char>) -> spec_fn((ModelCollection, Seq<char>, P)) -> bool {
    |e: (ModelCollection, Seq<char>, P)| e.0 == c && e.1 == id
}

/// No `(collection, id)` occurs twice.
pub open spec fn keys_distinct<P>(e: Seq<(ModelCollection, Seq<char>, P)>) -> bool {
    forall|i: int, j: int| 0 <= i < j < e.len() ==> !(#[trigger] e[i].0 == #[trigger] e[j].0 && e[i].1 == e[j].1)
}

/// The progress stored for `(c, id)`.
pub open spec fn registry_lookup<P>(e: Seq<(ModelCollection, Seq<char>, P)>, c: ModelCollection, id: Seq<char>) -> Option<P> {
    match first_where(e, entry_is(c, id), 0) {
        Some(i) => Some(e[i].2),
        None => None,
    }
}

impl<P> HubRegistry<P> {
    /// The entries, in the order their keys first appeared.
    pub closed spec fn view(&self) -> Seq<(ModelCollection, Seq<char>, P)> {
        self.entries@.map_values(|e: (ModelCollection, String, P)| (e.0, e.1@, e.2))
    }

    /// The registry's invariant: one entry per key.
    pub open spec fn wf(&self) -> bool {
        keys_distinct(self.view())
    }

    /// An empty registry.
    pub fn new() -> (r: Self)
        ensures
            r.view().len() == 0,
            r.wf(),
    {
        let r = HubRegistry { entries: Vec::new() };
        assert(r.view().len() == 0);
        r
    }

    /// The position of `(c, id)`.
    fn position(&self, c: ModelCollection, id: &str) -> (r: Option<usize>)
        ensures
            r matches Some(i) ==> first_where(self.view(), entry_is(c, id@), 0) == Some(i as int),
            r is None <==> first_where(self.view(), entry_is(c, id@), 0) is None,
    {
        let ghost p = entry_is::<P>(c, id@);
        let key = chars_of(id);
        let mut i: usize = 0;
        while i < self.entries.len()
            invariant
                i <= self.entries@.len(),
                self.view().len() == self.entries@.len(),
                key@ == id@,
                p == entry_is::<P>(c, id@),
                first_where(self.view(), p, 0) == first_where(self.view(), p, i as int),
            decreases self.entries.len() - i,
        {
            assert(self.view()[i as int] == (self.entries@[i as int].0, self.entries@[i as int].1@, self.entries@[i as int].2));
            if self.entries[i].0 == c {
                let k = chars_of(self.entries[i].1.as_str());
                if chars_equal(&k, &key) {
                    return Some(i);
                }
            }
            i = i + 1;
        }
        None
    }

    /// Records the latest progress of `(c, id)`, replacing what was stored
    /// for that key.
    pub fn update(&mut self, c: ModelCollection, id: &str, progress: P)
        requires
            old(self).wf(),
        ensures
            final(self).wf(),
            registry_lookup(final(self).view(), c, id@) == Some(progress),
            forall|c2: ModelCollection, id2: Seq<char>| !(c2 == c && id2 == id@) ==>
                #[trigger] registry_lookup(final(self).view(), c2, id2) == registry_lookup(old(self).view(), c2, id2),
    {
        let ghost before = self.view();
        proof {
            lemma_first_where(before, entry_is::<P>(c, id@), 0);
        }
        match self.position(c, id) {
            Some(i) => {
                self.entries.set(i, (c, String::from_str(id), progress));
                let ghost after = self.view();
                assert(after =~= before.update(i as int, (c, id@, progress)));
                proof {
                    lemma_first_where(after, entry_is::<P>(c, id@), 0);
                    assert(entry_is::<P>(c, id@)(after[i as int]));
                    let r = first_where(after, entry_is::<P>(c, id@), 0);
                    if r is Some && r->0 < i {
                        assert(after[r->0] == before[r->0]);
                    }
                    assert forall|c2: ModelCollection, id2: Seq<char>| !(c2 == c && id2 == id@) implies
                        #[trigger] registry_lookup(after, c2, id2) == registry_lookup(before, c2, id2) by {
                        lemma_first_where(before, entry_is::<P>(c2, id2), 0);
                        lemma_first_where(after, entry_is::<P>(c2, id2), 0);
                        let pa = first_where(after, entry_is::<P>(c2, id2), 0);
                        let pb = first_where(before, entry_is::<P>(c2, id2), 0);
                        if pa is Some {
                            assert(after[pa->0] == before[pa->0]);
                        }
                        if pb is Some {
                            assert(after[pb->0] == before[pb->0]);
                        }
                    }
                }
            },
            None => {
                self.entries.push((c, String::from_str(id), progress));
                let ghost after = self.view();
                assert(after =~= before.push((c, id@, progress)));
                proof {
                    let n = before.len() as int;
                    assert(entry_is::<P>(c, id@)(after[n]));
                    assert forall|j: int| 0 <= j < n implies !entry_is::<P>(c, id@)(#[trigger] after[j]) by {
                        assert(after[j] == before[j]);
                    }
                    lemma_first_where(after, entry_is::<P>(c, id@), 0);
                    assert forall|c2: ModelCollection, id2: Seq<char>| !(c2 == c && id2 == id@) implies
                        #[trigger] registry_lookup(after, c2, id2) == registry_lookup(before, c2, id2) by {
                        lemma_first_where(before, entry_is::<P>(c2, id2), 0);
                        lemma_first_where(after, entry_is::<P>(c2, id2), 0);
                        let pa = first_where(after, entry_is::<P>(c2, id2), 0);
                        let pb = first_where(before, entry_is::<P>(c2, id2), 0);
                        if pa is Some {
                            assert(pa->0 < n);
                            assert(after[pa->0] == before[pa->0]);
                        }
                        if pb is Some {
                            assert(after[pb->0] == before[pb->0]);
                        }
                    }
                }
            },
        }
    }

    /// Forgets `(c, id)`.
    pub fn remove(&mut self, c: ModelCollection, id: &str)
        requires
            old(self).wf(),
        ensures
            final(self).wf(),
            registry_lookup(final(self).view(), c, id@) is None,
            forall|c2: ModelCollection, id2: Seq<char>| !(c2 == c && id2 == id@) ==>
                #[trigger] registry_lookup(final(self).view(), c2, id2) == registry_lookup(old(self).view(), c2, id2),
    {
        let ghost before = self.view();
        proof {
            lemma_first_where(before, entry_is::<P>(c, id@), 0);
        }
        match self.position(c, id) {
            Some(i) => {
                let _ = self.entries.remove(i);
                let ghost after = self.view();
                assert(after =~= before.remove(i as int));
                proof {
                    assert forall|j: int| 0 <= j < after.len() implies !entry_is::<P>(c, id@)(#[trigger] after[j]) by {
                        if j < i {
                            assert(after[j] == before[j]);
                        } else {
                            assert(after[j] == before[j + 1]);
                        }
                    }
                    lemma_first_where(after, entry_is::<P>(c, id@), 0);
                    assert forall|c2: ModelCollection, id2: Seq<char>| !(c2 == c && id2 == id@) implies
                        #[trigger] registry_lookup(after, c2, id2) == registry_lookup(before, c2, id2) by {
                        lemma_first_where(before, entry_is::<P>(c2, id2), 0);
                        lemma_first_where(after, entry_is::<P>(c2, id2), 0);
                        let pa = first_where(after, entry_is::<P>(c2, id2), 0);
                        let pb = first_where(before, entry_is::<P>(c2, id2), 0);
                        if pb is Some {
                            let k = pb->0;
                            assert(k != i);
                            if k < i {
                                assert(after[k] == before[k]);
                            } else {
                                assert(after[k - 1] == before[k]);
                                if pa is Some && pa->0 < k - 1 {
                                    let q = pa->0;
                                    if q < i {
                                        assert(after[q] == before[q]);
                                    } else {
                                        assert(after[q] == before[q + 1]);
                                    }
                                }
                            }
                        }
                        if pa is Some {
                            let q = pa->0;
                            if q < i {
                                assert(after[q] == before[q]);
                            } else {
                                assert(after[q] == before[q + 1]);
                            }
                        }
                    }
                }
            },
            None => {},
        }
    }

    /// Number of known downloads.
    pub fn len(&self) -> (n: usize)
        ensures
            n == self.view().len(),
    {
        self.entries.len()
    }
}

impl<P: Clone> HubRegistry<P> {
    /// A copy of every stored progress, in registry order.
    pub fn snapshot(&self) -> (v: Vec<P>)
        ensures
            v@.len() == self.view().len(),
            forall|i: int| 0 <= i < v@.len() ==> cloned::<P>(self.view()[i].2, #[trigger] v@[i]),
    {
        let mut v: Vec<P> = Vec::new();
        let mut i: usize = 0;
        while i < self.entries.len()
            invariant
                i <= self.entries@.len(),
                self.view().len() == self.entries@.len(),
                v@.len() == i,
                forall|j: int| 0 <= j < i ==> cloned::<P>(self.view()[j].2, #[trigger] v@[j]),
            decreases self.entries.len() - i,
        {
            assert(self.view()[i as int].2 == self.entries@[i as int].2);
            v.push(self.entries[i].2.clone());
            i = i + 1;
        }
        v
    }
}

// ---------------------------------------------------------------------------
// Download ids
// ---------------------------------------------------------------------------

/// Whether an STT id names a quant variant (`repo/file`), which downloads
/// through the catalog's quant path.
pub fn is_quant_variant_id(id: &str) -> (b: bool)
    ensures
        b == id@.contains('/'),
{
    let v = chars_of(id);
    let mut i: usize = 0;
    while i < v.len()
        invariant
            i <= v@.len(),
            v@ == id@,
            forall|j: int| 0 <= j < i ==> v@[j] != '/',
        decreases v.len() - i,
    {
        if v[i] == '/' {
            assert(id@[i as int] == '/');
            return true;
        }
        i = i + 1;
    }
    false
}

/// Index of the last `-` of `s`.
pub open spec fn last_hyphen(s: Seq<char>) -> Option<int>
    decreases s.len(),
{
    if s.len() == 0 {
        None
    } else if s.last() == '-' {
        Some(s.len() - 1)
    } else {
        last_hyphen(s.drop_last())
    }
}

/// The message for a runtime id without a hyphen.
pub open spec fn invalid_runtime_id_message(id: Seq<char>) -> Seq<char> {
    "Invalid runtime id '"@ + id + "'"@
}

/// Splits a runtime id `backend-tag` at its last hyphen (a backend such as
/// `cuda-13.3` contains one itself); an error naming the id when it has no
/// hyphen.
pub fn split_runtime_id(id: &str) -> (r: Result<(String, String), String>)
    ensures
        match last_hyphen(id@) {
            Some(i) => r matches Ok(p) && p.0@ == id@.subrange(0, i) && p.1@ == id@.subrange(i + 1, id@.len() as int),
            None => r matches Err(m) && m@ == invalid_runtime_id_message(id@),
        },
{
    let v = chars_of(id);
    let mut n: usize = v.len();
    assert(v@.subrange(0, n as int) =~= v@);
    while n > 0
        invariant
            n <= v@.len(),
            v@ == id@,
            last_hyphen(id@) == last_hyphen(v@.subrange(0, n as int)),
        decreases n,
    {
        let ghost t = v@.subrange(0, n as int);
        assert(t.drop_last() =~= v@.subrange(0, n - 1));
        if v[n - 1] == '-' {
            let cut = n - 1;
            let mut a: Vec<char> = Vec::new();
            let mut i: usize = 0;
            while i < cut
                invariant
                    i <= cut < v@.len(),
                    a@ == v@.subrange(0, i as int),
                decreases cut - i,
            {
                a.push(v[i]);
                i = i + 1;
            }
            let mut b: Vec<char> = Vec::new();
            let mut j: usize = cut + 1;
            while j < v.len()
                invariant
                    cut + 1 <= j <= v@.len(),
                    b@ == v@.subrange(cut + 1, j as int),
                decreases v.len() - j,
            {
                b.push(v[j]);
                j = j + 1;
            }
            return Ok((crate::text::string_from_chars(&a), crate::text::string_from_chars(&b)));
        }
        n = n - 1;
    }
    let mut m = String::from_str("Invalid runtime id '");
    m.append(id);
    m.append("'");
    Err(m)
}

// ---------------------------------------------------------------------------
// The download transport
// ---------------------------------------------------------------------------

/// How a download ended when it did not fail. Cancellation keeps the
/// partial file for a later resume.
#[derive(Clone, Copy, Debug, PartialEq, Eq, Structural)]
pub enum TransportOutcome {
    Completed,
    Cancelled,
}

/// An ASCII decimal digit.
pub open spec fn is_digit(c: char) -> bool {
    '0' <= c && c <= '9'
}

/// The value of a string of ASCII decimal digits.
pub open spec fn digits_value(s: Seq<char>) -> nat
    decreases s.len(),
{
    if s.len() == 0 {
        0
    } else {
        digits_value(s.drop_last()) * 10 + ((s.last() as u32) - 48) as nat
    }
}

/// Every character is an ASCII digit.
pub open spec fn all_digits(d: Seq<char>) -> bool {
    forall|i: int| 0 <= i < d.len() ==> is_digit(#[trigger] d[i])
}

/// `s` without one leading `+`.
pub open spec fn without_plus(s: Seq<char>) -> Seq<char> {
    if s.len() > 0 && s[0] == '+' {
        s.drop_first()
    } else {
        s
    }
}

/// What `u64` parsing accepts: an optional `+` and one or more ASCII digits
/// whose value fits in 64 bits.
pub open spec fn parsed_u64(s: Seq<char>) -> Option<u64> {
    let d = without_plus(s);
    if d.len() > 0 && all_digits(d) && digits_value(d) <= u64::MAX {
        Some(digits_value(d) as u64)
    } else {
        None
    }
}

proof fn lemma_digits_value_grows(s: Seq<char>, c: char)
    requires
        is_digit(c),
    ensures
        digits_value(s.push(c)) == digits_value(s) * 10 + ((c as u32) - 48) as nat,
        digits_value(s.push(c)) >= digits_value(s),
{
    assert(s.push(c).drop_last() =~= s);
}

/// Parses a decimal `u64` the way `str::parse::<u64>` does (see
/// [`parsed_u64`]).
pub fn parse_u64(s: &str) -> (r: Option<u64>)
    ensures
        r == parsed_u64(s@),
{
    let v = chars_of(s);
    let start: usize = if v.len() > 0 && v[0] == '+' { 1 } else { 0 };
    let ghost d = without_plus(s@);
    assert(d =~= v@.subrange(start as int, v@.len() as int));
    if start >= v.len() {
        return None;
    }
    let mut acc: u64 = 0;
    let mut i: usize = start;
    while i < v.len()
        invariant
            start <= i <= v@.len(),
            v@ == s@,
            d == without_plus(s@),
            d == v@.subrange(start as int, v@.len() as int),
            forall|j: int| start <= j < i ==> is_digit(#[trigger] v@[j]),
            acc as nat == digits_value(v@.subrange(start as int, i as int)),
        decreases v.len() - i,
    {
        let c = v[i];
        let ghost pre = v@.subrange(start as int, i as int);
        assert(v@.subrange(start as int, i + 1) =~= pre.push(c));
        if !('0' <= c && c <= '9') {
            assert(d[i - start] == c);
            assert(!is_digit(d[i - start]));
            assert(!all_digits(d));
            return None;
        }
        proof {
            lemma_digits_value_grows(pre, c);
        }
        let digit = (c as u32 - 48) as u64;
        if acc > (u64::MAX - digit) / 10 {
            proof {
                assert(acc * 10 + digit > u64::MAX) by (nonlinear_arith)
                    requires acc > (u64::MAX - digit) / 10, digit <= 9;
                let k = (i - start + 1) as int;
                assert forall|j: int| 0 <= j < d.len() implies is_digit(#[trigger] d[j]) || j >= k by {
                    if j < k {
                        assert(d[j] == v@[start + j]);
                    }
                }
                lemma_prefix_value_bound(d, k);
                assert(d.subrange(0, k) =~= pre.push(c));
            }
            return None;
        }
        assert(acc * 10 + digit <= u64::MAX) by (nonlinear_arith)
            requires acc <= (u64::MAX - digit) / 10, digit <= 9;
        acc = acc * 10 + digit;
        i = i + 1;
    }
    assert(v@.subrange(start as int, v@.len() as int) =~= d);
    Some(acc)
}

/// The value of a digit string is at least the value of any prefix.
proof fn lemma_prefix_value_bound(d: Seq<char>, k: int)
    requires
        0 <= k <= d.len(),
        forall|i: int| 0 <= i < d.len() ==> is_digit(#[trigger] d[i]) || i >= k,
    ensures
        all_digits(d) ==> digits_value(d) >= digits_value(d.subrange(0, k)),
    decreases d.len() - k,
{
    if k < d.len() {
        if all_digits(d) {
            lemma_prefix_value_bound(d, k + 1);
            assert(d.subrange(0, k + 1) =~= d.subrange(0, k).push(d[k]));
            lemma_digits_value_grows(d.subrange(0, k), d[k]);
        }
    } else {
        assert(d.subrange(0, k) =~= d);
    }
}


/// `s` without its leading white space (`str::trim_start`).
pub open spec fn trim_start_seq(s: Seq<char>) -> Seq<char> {
    s.subrange(first_non_ws_from(s, 0), s.len() as int)
}

/// `s` up to its first `-` (the first piece of `split('-')`).
pub open spec fn before_hyphen(s: Seq<char>) -> Seq<char> {
    match first_where(s, |c: char| c == '-', 0) {
        Some(i) => s.subrange(0, i),
        None => s,
    }
}

/// The start offset a `Content-Range: bytes <start>-<end>/<total>` value
/// names: after trimming, the text must begin with `bytes`; the number is
/// what precedes the first `-`, trimmed.
pub open spec fn range_start(value: Seq<char>) -> Option<u64> {
    let t = trim_seq(value);
    if has_prefix(t, "bytes"@) {
        let rest = trim_start_seq(t.subrange(5, t.len() as int));
        parsed_u64(trim_seq(before_hyphen(rest)))
    } else {
        None
    }
}

/// The start offset of a `Content-Range` value (see [`range_start`]).
pub fn content_range_start(value: &str) -> (r: Option<u64>)
    ensures
        r == range_start(value@),
{
    let v = chars_of(value);
    let t = trim_chars(&v);
    let bytes = chars_of("bytes");
    proof {
        reveal_strlit("bytes");
    }
    if !starts_with_chars(&t, &bytes) {
        return None;
    }
    // Skip `bytes`, then leading white space.
    let mut a: usize = 5;
    let ghost rest_raw = t@.subrange(5, t@.len() as int);
    while a < t.len() && is_white_space(t[a])
        invariant
            5 <= a <= t@.len(),
            rest_raw == t@.subrange(5, t@.len() as int),
            first_non_ws_from(rest_raw, 0) == first_non_ws_from(rest_raw, a - 5),
        decreases t.len() - a,
    {
        assert(rest_raw[a - 5] == t@[a as int]);
        a = a + 1;
    }
    proof {
        if a < t@.len() {
            assert(rest_raw[a - 5] == t@[a as int]);
        }
    }
    let ghost rest = trim_start_seq(rest_raw);
    assert(rest =~= t@.subrange(a as int, t@.len() as int));
    // The first piece of `split('-')`.
    let mut b: usize = a;
    while b < t.len() && t[b] != '-'
        invariant
            a <= b <= t@.len(),
            rest == t@.subrange(a as int, t@.len() as int),
            first_where(rest, |c: char| c == '-', 0) == first_where(rest, |c: char| c == '-', b - a),
        decreases t.len() - b,
    {
        assert(rest[b - a] == t@[b as int]);
        b = b + 1;
    }
    proof {
        if b < t@.len() {
            assert(rest[b - a] == t@[b as int]);
        }
    }
    let mut piece: Vec<char> = Vec::new();
    let mut i: usize = a;
    while i < b
        invariant
            a <= i <= b <= t@.len(),
            piece@ == t@.subrange(a as int, i as int),
        decreases b - i,
    {
        piece.push(t[i]);
        i = i + 1;
    }
    assert(piece@ =~= before_hyphen(rest));
    let trimmed = trim_chars(&piece);
    let text = crate::text::string_from_chars(&trimmed);
    parse_u64(text.as_str())
}

/// Why a download failed.
#[derive(Clone, Debug, PartialEq, Eq)]
pub enum TransportError {
    /// The server answered with a status outside 2xx.
    HttpStatus(u16),
    /// A 206 whose range does not start at the partial file's end.
    MisalignedRange { starts_at: Option<u64>, expected: u64 },
    /// The server sent more than the total it announced.
    Oversized { cap: u64 },
    /// The finished file does not have the announced size.
    Incomplete { expected: u64, actual: u64 },
    /// The finished file's SHA-256 differs from the pinned one.
    Sha256Mismatch { label: String, expected: String, actual: String },
}

/// What the transport does with a response to its request.
#[derive(Clone, Copy, Debug, PartialEq, Eq, Structural)]
pub struct ResponsePlan {
    /// Where the download continues from: 0 after a restart.
    pub resume_from: u64,
    /// The partial file must be deleted first: the server ignored the range
    /// request and sends the whole file.
    pub restart: bool,
}

/// HTTP 200 OK.
pub const HTTP_OK: u16 = 200;

/// HTTP 206 Partial Content.
pub const HTTP_PARTIAL_CONTENT: u16 = 206;

/// How a response is taken: a 200 to a range request restarts from zero; a
/// status outside 2xx fails; a 206 to a range request must start exactly at
/// the partial file's end (`content_range` is the header's value, when it
/// is readable text).
pub open spec fn response_decision(resume_from: u64, status: u16, content_range: Option<Seq<char>>) -> Result<ResponsePlan, TransportError> {
    let restart = resume_from > 0 && status == HTTP_OK;
    let resume = if restart { 0u64 } else { resume_from };
    if !(200 <= status <= 299) {
        Err(TransportError::HttpStatus(status))
    } else if resume > 0 && status == HTTP_PARTIAL_CONTENT {
        let starts_at = match content_range {
            Some(v) => range_start(v),
            None => None,
        };
        if starts_at != Some(resume) {
            Err(TransportError::MisalignedRange { starts_at, expected: resume })
        } else {
            Ok(ResponsePlan { resume_from: resume, restart })
        }
    } else {
        Ok(ResponsePlan { resume_from: resume, restart })
    }
}

/// How a response is taken (see [`response_decision`]).
pub fn take_response(resume_from: u64, status: u16, content_range: Option<&str>) -> (r: Result<ResponsePlan, TransportError>)
    ensures
        r == response_decision(resume_from, status, crate::transcription::opt_str(content_range)),
{
    let restart = resume_from > 0 && status == HTTP_OK;
    let resume: u64 = if restart { 0 } else { resume_from };
    if !(200 <= status && status <= 299) {
        return Err(TransportError::HttpStatus(status));
    }
    if resume > 0 && status == HTTP_PARTIAL_CONTENT {
        let starts_at = match content_range {
            Some(v) => content_range_start(v),
            None => None,
        };
        if starts_at != Some(resume) {
            return Err(TransportError::MisalignedRange { starts_at, expected: resume });
        }
    }
    Ok(ResponsePlan { resume_from: resume, restart })
}

/// The byte count of a body in progress, and the cap a known total puts on
/// it.
#[derive(Clone, Copy, Debug)]
pub struct BodyProgress {
    downloaded: u64,
    known_total: Option<u64>,
}

impl BodyProgress {
    /// Bytes in the partial file so far.
    pub closed spec fn downloaded_spec(&self) -> u64 {
        self.downloaded
    }

    /// The total size, when the server announced a length.
    pub closed spec fn total_spec(&self) -> Option<u64> {
        self.known_total
    }

    /// Never more bytes than the announced total.
    pub open spec fn wf(&self) -> bool {
        self.total_spec() matches Some(cap) ==> self.downloaded_spec() <= cap
    }

    /// The body of a response: `resume_from` bytes already on disk, and the
    /// announced total when the server sent a length.
    pub fn start(resume_from: u64, content_length: Option<u64>) -> (p: Self)
        requires
            content_length matches Some(l) ==> resume_from + l <= u64::MAX,
        ensures
            p.wf(),
            p.downloaded_spec() == resume_from,
            p.total_spec() == match content_length {
                Some(l) => Some((resume_from + l) as u64),
                None => None,
            },
    {
        let known_total = match content_length {
            Some(l) => Some(resume_from + l),
            None => None,
        };
        BodyProgress { downloaded: resume_from, known_total }
    }

    /// Bytes so far.
    pub fn downloaded(&self) -> (n: u64)
        ensures
            n == self.downloaded_spec(),
    {
        self.downloaded
    }

    /// The announced total, or 0 when none was announced.
    pub fn total_size(&self) -> (n: u64)
        ensures
            n == match self.total_spec() {
                Some(t) => t,
                None => 0,
            },
    {
        match self.known_total {
            Some(t) => t,
            None => 0,
        }
    }

    /// Takes a chunk of `len` bytes, or refuses it when it would exceed the
    /// announced total (the partial file is then deleted).
    pub fn accept_chunk(&mut self, len: u64) -> (r: Result<(), TransportError>)
        requires
            old(self).wf(),
            old(self).total_spec() is None ==> old(self).downloaded_spec() + len <= u64::MAX,
        ensures
            final(self).wf(),
            final(self).total_spec() == old(self).total_spec(),
            match old(self).total_spec() {
                Some(cap) => if old(self).downloaded_spec() + len > cap {
                    r == Err::<(), TransportError>(TransportError::Oversized { cap })
                        && final(self).downloaded_spec() == old(self).downloaded_spec()
                } else {
                    r is Ok && final(self).downloaded_spec() == old(self).downloaded_spec() + len
                },
                None => r is Ok && final(self).downloaded_spec() == old(self).downloaded_spec() + len,
            },
    {
        match self.known_total {
            Some(cap) => {
                if len > cap - self.downloaded {
                    return Err(TransportError::Oversized { cap });
                }
                self.downloaded = self.downloaded + len;
                Ok(())
            },
            None => {
                self.downloaded = self.downloaded + len;
                Ok(())
            },
        }
    }

    /// The finished file must have the announced size when one was
    /// announced (the partial file is deleted otherwise).
    pub fn check_complete(&self, actual: u64) -> (r: Result<(), TransportError>)
        ensures
            match self.total_spec() {
                Some(expected) => if actual != expected {
                    r == Err::<(), TransportError>(TransportError::Incomplete { expected, actual })
                } else {
                    r is Ok
                },
                None => r is Ok,
            },
    {
        match self.known_total {
            Some(expected) => {
                if actual != expected {
                    Err(TransportError::Incomplete { expected, actual })
                } else {
                    Ok(())
                }
            },
            None => Ok(()),
        }
    }
}

/// The pinned SHA-256 must equal the file's (the partial file is deleted
/// otherwise).
pub fn check_sha256(label: &str, expected: &str, actual: &str) -> (r: Result<(), TransportError>)
    ensures
        expected@ == actual@ ==> r is Ok,
        expected@ != actual@ ==> (r matches Err(TransportError::Sha256Mismatch { label: l, expected: e, actual: a })
            && l@ == label@ && e@ == expected@ && a@ == actual@),
{
    if str_eq(actual, expected) {
        Ok(())
    } else {
        Err(TransportError::Sha256Mismatch {
            label: String::from_str(label),
            expected: String::from_str(expected),
            actual: String::from_str(actual),
        })
    }
}

} // verus!
