//! Architecture plugin modules: recognising a plugin file, the architecture
//! it serves, and the list the Models page reports.

use vstd::prelude::*;
use crate::text::{chars_of, chars_equal, str_eq, has_prefix, has_suffix, ascii_lower_seq, ascii_lowercase_chars, starts_with_chars, ends_with_chars, string_from_chars};
use crate::search::{first_where, lemma_first_where};

verus! {

/// Metadata of an architecture plugin module.
#[derive(Clone, Debug)]
pub struct ArchPluginInfo {
    /// Architecture identifier, such as `parakeet` or `whisper`.
    pub name: String,
    /// Filesystem path of the module.
    pub path: String,
    /// Whether the app loaded this module itself.
    pub is_loaded: bool,
    /// File size in bytes, when it could be read.
    pub file_size_bytes: Option<u64>,
}

/// `s` up to its first `.`.
pub open spec fn before_dot(s: Seq<char>) -> Seq<char> {
    match first_where(s, |c: char| c == '.', 0) {
        Some(i) => s.subrange(0, i),
        None => s,
    }
}

/// The architecture a plugin file serves: the name without a leading `lib`,
/// then without `transcribe-arch-`, up to its first `.`.
pub open spec fn arch_of(file: Seq<char>) -> Seq<char> {
    let a = if has_prefix(file, "lib"@) { file.subrange(3, file.len() as int) } else { file };
    let b = if has_prefix(a, "transcribe-arch-"@) { a.subrange(16, a.len() as int) } else { a };
    before_dot(b)
}

fn drop_chars(v: &Vec<char>, n: usize) -> (w: Vec<char>)
    requires
        n <= v@.len(),
    ensures
        w@ == v@.subrange(n as int, v@.len() as int),
{
    let mut w: Vec<char> = Vec::new();
    let mut i: usize = n;
    while i < v.len()
        invariant
            n <= i <= v@.len(),
            w@ == v@.subrange(n as int, i as int),
        decreases v.len() - i,
    {
        w.push(v[i]);
        i = i + 1;
    }
    w
}

/// The architecture a plugin file serves (see [`arch_of`]); for example
/// `libtranscribe-arch-whisper.so` serves `whisper`.
pub fn extract_arch_from_filename(filename: &str) -> (arch: String)
    ensures
        arch@ == arch_of(filename@),
{
    proof {
        reveal_strlit("lib");
        reveal_strlit("transcribe-arch-");
    }
    let f = chars_of(filename);
    let lib = chars_of("lib");
    let a = if starts_with_chars(&f, &lib) { drop_chars(&f, 3) } else { f };
    let prefix = chars_of("transcribe-arch-");
    let b = if starts_with_chars(&a, &prefix) { drop_chars(&a, 16) } else { a };
    let mut i: usize = 0;
    while i < b.len() && b[i] != '.'
        invariant
            i <= b@.len(),
            first_where(b@, |c: char| c == '.', 0) == first_where(b@, |c: char| c == '.', i as int),
        decreases b.len() - i,
    {
        i = i + 1;
    }
    let mut out: Vec<char> = Vec::new();
    let mut k: usize = 0;
    while k < i
        invariant
            k <= i <= b@.len(),
            out@ == b@.subrange(0, k as int),
        decreases i - k,
    {
        out.push(b[k]);
        k = k + 1;
    }
    proof {
        if i == b@.len() {
            assert(out@ =~= b@);
        }
    }
    string_from_chars(&out)
}

/// A plugin module's file name: a `transcribe-arch-` or
/// `libtranscribe-arch-` prefix and a `.dll`, `.so` or `.dylib` suffix.
pub open spec fn is_plugin_file(name: Seq<char>) -> bool {
    (has_prefix(name, "transcribe-arch-"@) || has_prefix(name, "libtranscribe-arch-"@))
        && (has_suffix(name, ".dll"@) || has_suffix(name, ".so"@) || has_suffix(name, ".dylib"@))
}

/// Whether a file name looks like an architecture plugin module.
pub fn is_plugin_filename(name: &str) -> (b: bool)
    ensures
        b == is_plugin_file(name@),
{
    let n = chars_of(name);
    let p1 = chars_of("transcribe-arch-");
    let p2 = chars_of("libtranscribe-arch-");
    let s1 = chars_of(".dll");
    let s2 = chars_of(".so");
    let s3 = chars_of(".dylib");
    (starts_with_chars(&n, &p1) || starts_with_chars(&n, &p2))
        && (ends_with_chars(&n, &s1) || ends_with_chars(&n, &s2) || ends_with_chars(&n, &s3))
}

/// Whether the file `name` is a plugin for `arch` (ASCII case ignored in
/// `arch`).
pub fn is_plugin_for(name: &str, arch: &str) -> (b: bool)
    ensures
        b == (is_plugin_file(name@) && arch_of(name@) == ascii_lower_seq(arch@)),
{
    if !is_plugin_filename(name) {
        return false;
    }
    let a = extract_arch_from_filename(name);
    let av = chars_of(a.as_str());
    let arch_chars = chars_of(arch);
    let lower = ascii_lowercase_chars(&arch_chars);
    chars_equal(&av, &lower)
}


/// A file found in a registered plugin directory.
#[derive(Clone, Debug)]
pub struct PluginFile {
    pub file_name: String,
    /// The canonical path, which identifies the module across directories.
    pub canonical_path: String,
    /// The path as found.
    pub path: String,
    pub file_size_bytes: Option<u64>,
}

/// The plugin files of a directory scan, each module once (the first time its
/// canonical path is seen), in scan order.
pub open spec fn kept_files(files: Seq<PluginFile>) -> Seq<PluginFile>
    decreases files.len(),
{
    if files.len() == 0 {
        Seq::empty()
    } else {
        let rest = kept_files(files.drop_last());
        let f = files.last();
        if is_plugin_file(f.file_name@)
            && !(exists|j: int| 0 <= j < rest.len() && #[trigger] rest[j].canonical_path@ == f.canonical_path@) {
            rest.push(f)
        } else {
            rest
        }
    }
}

/// An info record as characters: (name, path, loaded, size).
pub open spec fn info_view(i: ArchPluginInfo) -> (Seq<char>, Seq<char>, bool, Option<u64>) {
    (i.name@, i.path@, i.is_loaded, i.file_size_bytes)
}

/// The info record of a plugin file: the architecture it serves, whether the
/// app loaded that architecture itself, its path and size.
pub open spec fn info_of(f: PluginFile, loaded: Seq<Seq<char>>) -> (Seq<char>, Seq<char>, bool, Option<u64>) {
    (arch_of(f.file_name@), f.path@, loaded.contains(arch_of(f.file_name@)), f.file_size_bytes)
}

/// Code-point order of names, which is the byte order of their UTF-8 text.
pub open spec fn name_le(a: Seq<char>, b: Seq<char>) -> bool
    decreases a.len(),
{
    if a.len() == 0 {
        true
    } else if b.len() == 0 {
        false
    } else if a[0] != b[0] {
        a[0] < b[0]
    } else {
        name_le(a.drop_first(), b.drop_first())
    }
}

proof fn lemma_name_le_total(a: Seq<char>, b: Seq<char>)
    ensures
        name_le(a, b) || name_le(b, a),
    decreases a.len(),
{
    if a.len() > 0 && b.len() > 0 && a[0] == b[0] {
        lemma_name_le_total(a.drop_first(), b.drop_first());
    }
}

proof fn lemma_name_le_transitive(a: Seq<char>, b: Seq<char>, c: Seq<char>)
    requires
        name_le(a, b),
        name_le(b, c),
    ensures
        name_le(a, c),
    decreases a.len(),
{
    if a.len() > 0 && b.len() > 0 && c.len() > 0 && a[0] == b[0] && b[0] == c[0] {
        lemma_name_le_transitive(a.drop_first(), b.drop_first(), c.drop_first());
    }
}

/// Whether `a` sorts at or before `b`.
fn name_le_exec(a: &Vec<char>, b: &Vec<char>) -> (r: bool)
    ensures
        r == name_le(a@, b@),
{
    let mut i: usize = 0;
    assert(a@.subrange(0, a@.len() as int) =~= a@);
    assert(b@.subrange(0, b@.len() as int) =~= b@);
    while i < a.len() && i < b.len() && a[i] == b[i]
        invariant
            i <= a@.len(),
            i <= b@.len(),
            name_le(a@, b@) == name_le(a@.subrange(i as int, a@.len() as int), b@.subrange(i as int, b@.len() as int)),
        decreases a.len() - i,
    {
        let ghost sa = a@.subrange(i as int, a@.len() as int);
        let ghost sb = b@.subrange(i as int, b@.len() as int);
        assert(sa.drop_first() =~= a@.subrange(i + 1, a@.len() as int));
        assert(sb.drop_first() =~= b@.subrange(i + 1, b@.len() as int));
        i = i + 1;
    }
    if i == a.len() {
        true
    } else if i == b.len() {
        false
    } else {
        assert(a@.subrange(i as int, a@.len() as int)[0] == a@[i as int]);
        assert(b@.subrange(i as int, b@.len() as int)[0] == b@[i as int]);
        a[i] < b[i]
    }
}

/// Whether an info list is sorted by name.
pub open spec fn sorted_by_name(s: Seq<(Seq<char>, Seq<char>, bool, Option<u64>)>) -> bool {
    forall|i: int, j: int| 0 <= i < j < s.len() ==> name_le(#[trigger] s[i].0, #[trigger] s[j].0)
}

/// Entries whose name is `n`.
pub open spec fn named(n: Seq<char>) -> spec_fn((Seq<char>, Seq<char>, bool, Option<u64>)) -> bool {
    |e: (Seq<char>, Seq<char>, bool, Option<u64>)| e.0 == n
}

proof fn lemma_name_le_reflexive(a: Seq<char>)
    ensures
        name_le(a, a),
    decreases a.len(),
{
    if a.len() > 0 {
        lemma_name_le_reflexive(a.drop_first());
    }
}

/// Filtering a sequence none of whose elements is accepted leaves nothing.
proof fn lemma_filter_none<A>(s: Seq<A>, p: spec_fn(A) -> bool)
    requires
        forall|k: int| 0 <= k < s.len() ==> !p(#[trigger] s[k]),
    ensures
        s.filter(p).len() == 0,
    decreases s.len(),
{
    reveal(Seq::filter);
    if s.len() > 0 {
        lemma_filter_none(s.drop_last(), p);
    }
}

/// Filtering after a push.
proof fn lemma_filter_push<A>(s: Seq<A>, x: A, p: spec_fn(A) -> bool)
    ensures
        s.push(x).filter(p) == if p(x) {
            s.filter(p).push(x)
        } else {
            s.filter(p)
        },
{
    reveal(Seq::filter);
    assert(s.push(x).drop_last() =~= s);
}

/// Inserts `x` into a list sorted by name, after every entry that sorts at or
/// before it.
fn insert_sorted(v: &mut Vec<ArchPluginInfo>, x: ArchPluginInfo)
    requires
        sorted_by_name(old(v)@.map_values(|i: ArchPluginInfo| info_view(i))),
    ensures
        sorted_by_name(final(v)@.map_values(|i: ArchPluginInfo| info_view(i))),
        final(v)@.map_values(|i: ArchPluginInfo| info_view(i)).to_multiset()
            == old(v)@.map_values(|i: ArchPluginInfo| info_view(i)).to_multiset().insert(info_view(x)),
        forall|n: Seq<char>|
            final(v)@.map_values(|i: ArchPluginInfo| info_view(i)).filter(#[trigger] named(n)) == if x.name@ == n {
                old(v)@.map_values(|i: ArchPluginInfo| info_view(i)).filter(named(n)).push(info_view(x))
            } else {
                old(v)@.map_values(|i: ArchPluginInfo| info_view(i)).filter(named(n))
            },
{
    let ghost before = v@.map_values(|i: ArchPluginInfo| info_view(i));
    let xn = chars_of(x.name.as_str());
    let mut p: usize = 0;
    let mut done = false;
    while !done && p < v.len()
        invariant
            p <= v@.len(),
            before == v@.map_values(|i: ArchPluginInfo| info_view(i)),
            xn@ == x.name@,
            forall|k: int| 0 <= k < p ==> name_le(#[trigger] before[k].0, x.name@),
            done ==> p < v@.len() && !name_le(before[p as int].0, x.name@),
        decreases v.len() - p + (if done { 0int } else { 1int }),
    {
        let yn = chars_of(v[p].name.as_str());
        assert(before[p as int].0 == v@[p as int].name@);
        if !name_le_exec(&yn, &xn) {
            done = true;
        } else {
            p = p + 1;
        }
    }
    let ghost pos = p as int;
    proof {
        if pos < before.len() {
            assert(!name_le(before[pos].0, x.name@));
            lemma_name_le_total(before[pos].0, x.name@);
        }
    }
    v.insert(p, x);
    let ghost after = v@.map_values(|i: ArchPluginInfo| info_view(i));
    assert(after =~= before.insert(pos, info_view(x)));
    proof {
        vstd::seq_lib::to_multiset_insert(before, pos, info_view(x));
        assert forall|i: int, j: int| 0 <= i < j < after.len() implies name_le(#[trigger] after[i].0, #[trigger] after[j].0) by {
            if j < pos {
                assert(after[i] == before[i] && after[j] == before[j]);
            } else if j == pos {
                assert(after[i] == before[i]);
            } else if i < pos {
                assert(after[i] == before[i] && after[j] == before[j - 1]);
            } else if i == pos {
                assert(after[j] == before[j - 1]);
                assert(name_le(x.name@, before[pos].0));
                if j - 1 > pos {
                    assert(name_le(before[pos].0, before[j - 1].0));
                    lemma_name_le_transitive(x.name@, before[pos].0, before[j - 1].0);
                }
            } else {
                assert(after[i] == before[i - 1] && after[j] == before[j - 1]);
            }
        }
        let head = before.subrange(0, pos);
        let tail = before.subrange(pos, before.len() as int);
        assert(before =~= head + tail);
        assert(after =~= head.push(info_view(x)) + tail);
        assert forall|n: Seq<char>| after.filter(#[trigger] named(n)) == if x.name@ == n {
            before.filter(named(n)).push(info_view(x))
        } else {
            before.filter(named(n))
        } by {
            Seq::filter_distributes_over_add(head, tail, named(n));
            Seq::filter_distributes_over_add(head.push(info_view(x)), tail, named(n));
            lemma_filter_push(head, info_view(x), named(n));
            if x.name@ == n {
                assert forall|k: int| 0 <= k < tail.len() implies !named(n)(#[trigger] tail[k]) by {
                    assert(tail[k] == before[pos + k]);
                    if k > 0 {
                        assert(name_le(before[pos].0, before[pos + k].0));
                        if before[pos + k].0 == x.name@ {
                            lemma_name_le_transitive(before[pos].0, before[pos + k].0, x.name@);
                        }
                    } else {
                        lemma_name_le_reflexive(x.name@);
                    }
                }
                lemma_filter_none(tail, named(n));
                assert(tail.filter(named(n)) =~= Seq::empty());
                assert(head.filter(named(n)) + tail.filter(named(n)) =~= head.filter(named(n)));
                assert(head.filter(named(n)).push(info_view(x)) + tail.filter(named(n))
                    =~= head.filter(named(n)).push(info_view(x)));
            } else {
                assert(!named(n)(info_view(x)));
            }
        }
    }
}

/// Whether `names` holds `name`.
fn holds_name(names: &Vec<String>, name: &String) -> (b: bool)
    ensures
        b == names@.map_values(|s: String| s@).contains(name@),
{
    let ghost view = names@.map_values(|s: String| s@);
    let n = chars_of(name.as_str());
    let mut i: usize = 0;
    while i < names.len()
        invariant
            i <= names@.len(),
            view == names@.map_values(|s: String| s@),
            n@ == name@,
            forall|k: int| 0 <= k < i ==> view[k] != name@,
        decreases names.len() - i,
    {
        let m = chars_of(names[i].as_str());
        if chars_equal(&m, &n) {
            assert(view[i as int] == name@);
            return true;
        }
        i = i + 1;
    }
    false
}

/// The architecture plugins installed, sorted by name: each plugin module
/// found in a scan (`files`, in scan order) once, marked loaded when the app
/// loaded its architecture itself (`loaded`). The sort is stable: modules of
/// one architecture stay in scan order.
pub fn plugin_infos(files: &Vec<PluginFile>, loaded: &Vec<String>) -> (v: Vec<ArchPluginInfo>)
    ensures
        sorted_by_name(v@.map_values(|i: ArchPluginInfo| info_view(i))),
        v@.map_values(|i: ArchPluginInfo| info_view(i)).to_multiset()
            == kept_files(files@).map_values(|f: PluginFile| info_of(f, loaded@.map_values(|s: String| s@))).to_multiset(),
        forall|n: Seq<char>|
            v@.map_values(|i: ArchPluginInfo| info_view(i)).filter(#[trigger] named(n))
                == kept_files(files@).map_values(|f: PluginFile| info_of(f, loaded@.map_values(|s: String| s@))).filter(named(n)),
{
    let ghost names = loaded@.map_values(|s: String| s@);
    let mut kept: Vec<PluginFile> = Vec::new();
    let mut v: Vec<ArchPluginInfo> = Vec::new();
    let mut i: usize = 0;
    assert(v@.map_values(|i: ArchPluginInfo| info_view(i)) =~= kept@.map_values(|f: PluginFile| info_of(f, names)));
    while i < files.len()
        invariant
            i <= files@.len(),
            names == loaded@.map_values(|s: String| s@),
            kept@ == kept_files(files@.take(i as int)),
            sorted_by_name(v@.map_values(|i: ArchPluginInfo| info_view(i))),
            v@.map_values(|i: ArchPluginInfo| info_view(i)).to_multiset()
                == kept@.map_values(|f: PluginFile| info_of(f, names)).to_multiset(),
            forall|n: Seq<char>|
                v@.map_values(|i: ArchPluginInfo| info_view(i)).filter(#[trigger] named(n))
                    == kept@.map_values(|f: PluginFile| info_of(f, names)).filter(named(n)),
        decreases files.len() - i,
    {
        let ghost before = files@.take(i as int);
        assert(files@.take(i + 1).drop_last() =~= before);
        let f = &files[i];
        if is_plugin_filename(f.file_name.as_str()) {
            let canon = chars_of(f.canonical_path.as_str());
            let mut seen = false;
            let mut j: usize = 0;
            while j < kept.len()
                invariant
                    j <= kept@.len(),
                    canon@ == f.canonical_path@,
                    seen <==> exists|k: int| 0 <= k < j && #[trigger] kept@[k].canonical_path@ == f.canonical_path@,
                decreases kept.len() - j,
            {
                let c = chars_of(kept[j].canonical_path.as_str());
                if chars_equal(&c, &canon) {
                    seen = true;
                }
                j = j + 1;
            }
            if !seen {
                let name = extract_arch_from_filename(f.file_name.as_str());
                let is_loaded = holds_name(loaded, &name);
                let info = ArchPluginInfo {
                    name,
                    path: f.path.clone(),
                    is_loaded,
                    file_size_bytes: f.file_size_bytes,
                };
                let ghost kept_before = kept@;
                let ghost fv = *f;
                kept.push(f.clone_file());
                proof {
                    assert(kept@.map_values(|f: PluginFile| info_of(f, names))
                        =~= kept_before.map_values(|f: PluginFile| info_of(f, names)).push(info_of(fv, names)));
                    vstd::seq_lib::to_multiset_build(kept_before.map_values(|f: PluginFile| info_of(f, names)), info_of(fv, names));
                }
                assert(info_view(info) == info_of(fv, names));
                insert_sorted(&mut v, info);
                proof {
                    assert forall|n: Seq<char>|
                        v@.map_values(|i: ArchPluginInfo| info_view(i)).filter(#[trigger] named(n))
                            == kept@.map_values(|f: PluginFile| info_of(f, names)).filter(named(n)) by {
                        lemma_filter_push(kept_before.map_values(|f: PluginFile| info_of(f, names)), info_of(fv, names), named(n));
                    }
                }
            }
        }
        i = i + 1;
    }
    assert(files@.take(files@.len() as int) =~= files@);
    v
}

impl PluginFile {
    /// A copy of this record.
    pub fn clone_file(&self) -> (f: Self)
        ensures
            f == *self,
    {
        PluginFile {
            file_name: self.file_name.clone(),
            canonical_path: self.canonical_path.clone(),
            path: self.path.clone(),
            file_size_bytes: self.file_size_bytes,
        }
    }
}

} // verus!
