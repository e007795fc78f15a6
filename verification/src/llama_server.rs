//! llama.cpp server builds: reading a release asset's name, choosing the
//! assets of this platform, finding a download, naming installs and picking
//! an installed server.

use vstd::prelude::*;
use vstd::string::StringExecFns;
use crate::text::{
    chars_of, chars_equal, str_eq, has_infix, has_prefix, has_suffix, contains_chars, starts_with_chars,
    ends_with_chars, first_occurrence, find_chars, std_str_lowercase, str_lowercase, string_from_chars,
};
use crate::search::{first_where, lemma_first_where};
use crate::model_hub::{HubNotificationKind, TransportOutcome, last_hyphen};

verus! {

/// A release of llama.cpp with the assets of this platform.
#[derive(Clone, Debug)]
pub struct LlamaRelease {
    pub tag: String,
    pub name: String,
    pub assets: Vec<LlamaAsset>,
}

/// A downloadable server build.
#[derive(Clone, Debug)]
pub struct LlamaAsset {
    pub name: String,
    pub backend: String,
    pub os: String,
    pub arch: String,
    pub download_url: String,
    pub size_bytes: u64,
}

/// An installed server build.
#[derive(Clone, Debug)]
pub struct DownloadedServer {
    pub backend: String,
    pub release_tag: String,
    pub path: String,
    pub size_bytes: u64,
}

/// The server build the user configured.
#[derive(Clone, Debug)]
pub struct LlamaServerConfig {
    /// `cuda-…`, `vulkan` or `cpu`.
    pub backend: String,
    /// A release tag such as `b9601`.
    pub release_tag: String,
}

// ---------------------------------------------------------------------------
// Asset names
// ---------------------------------------------------------------------------

/// The operating system an asset name (lowercase) targets.
pub open spec fn asset_os(l: Seq<char>) -> Option<Seq<char>> {
    if has_infix(l, "win"@) {
        Some("windows"@)
    } else if has_infix(l, "ubuntu"@) || has_infix(l, "linux"@) {
        Some("linux"@)
    } else if has_infix(l, "macos"@) || has_infix(l, "mac"@) {
        Some("macos"@)
    } else {
        None
    }
}

/// The CPU architecture an asset name (lowercase) targets.
pub open spec fn asset_arch(l: Seq<char>) -> Seq<char> {
    if has_infix(l, "arm64"@) || has_infix(l, "aarch64"@) {
        "arm64"@
    } else {
        "x64"@
    }
}

/// The CUDA version in an asset name (lowercase): the text after the first
/// `cuda-`, up to the next `cuda-` and then up to its first `-`; `13` when
/// the name has no `cuda-`.
pub open spec fn cuda_version(l: Seq<char>) -> Seq<char> {
    match first_occurrence(l, "cuda-"@, 0) {
        None => "13"@,
        Some(p) => {
            let rest = l.subrange(p + 5, l.len() as int);
            let piece = match first_occurrence(rest, "cuda-"@, 0) {
                Some(q) => rest.subrange(0, q),
                None => rest,
            };
            match first_where(piece, |c: char| c == '-', 0) {
                Some(k) => piece.subrange(0, k),
                None => piece,
            }
        },
    }
}

/// The backend an asset name (lowercase) provides: `cuda-<version>`,
/// `vulkan` or `cpu`.
pub open spec fn asset_backend(l: Seq<char>) -> Seq<char> {
    if has_infix(l, "cuda"@) || has_infix(l, "cudart"@) {
        "cuda-"@ + cuda_version(l)
    } else if has_infix(l, "vulkan"@) {
        "vulkan"@
    } else {
        "cpu"@
    }
}

/// What an asset name says, read in lowercase: `(backend, os, arch)`, or
/// nothing for a name that names no OS or is a separate CUDA runtime bundle
/// (`cudart…`).
pub open spec fn parsed_asset(name: Seq<char>) -> Option<(Seq<char>, Seq<char>, Seq<char>)> {
    let l = std_str_lowercase(name);
    match asset_os(l) {
        None => None,
        Some(os) => if has_prefix(l, "cudart"@) {
            None
        } else {
            Some((asset_backend(l), os, asset_arch(l)))
        },
    }
}

fn contains_lit(h: &Vec<char>, lit: &str) -> (b: bool)
    ensures
        b == has_infix(h@, lit@),
{
    let n = chars_of(lit);
    contains_chars(h, &n)
}

fn slice_chars(v: &Vec<char>, a: usize, b: usize) -> (w: Vec<char>)
    requires
        a <= b <= v@.len(),
    ensures
        w@ == v@.subrange(a as int, b as int),
{
    let mut w: Vec<char> = Vec::new();
    let mut i: usize = a;
    while i < b
        invariant
            a <= i <= b <= v@.len(),
            w@ == v@.subrange(a as int, i as int),
        decreases b - i,
    {
        w.push(v[i]);
        i = i + 1;
    }
    w
}

/// The CUDA version in an asset name (see [`cuda_version`]).
fn cuda_version_of(l: &Vec<char>) -> (v: Vec<char>)
    ensures
        v@ == cuda_version(l@),
{
    proof {
        reveal_strlit("cuda-");
        reveal_strlit("13");
    }
    let marker = chars_of("cuda-");
    match find_chars(l, &marker, 0) {
        None => chars_of("13"),
        Some(p) => {
            proof {
                lemma_first_occurrence_in_bounds(l@, marker@, 0);
                assert(p + marker@.len() <= l@.len());
            }
            assert(marker.len() == marker@.len());
            assert(p + marker.len() <= l.len());
            let start = p + marker.len();
            let rest = slice_chars(l, start, l.len());
            let piece = match find_chars(&rest, &marker, 0) {
                Some(q) => {
                    proof {
                        lemma_first_occurrence_in_bounds(rest@, "cuda-"@, 0);
                    }
                    slice_chars(&rest, 0, q)
                },
                None => {
                    assert(rest@.subrange(0, rest@.len() as int) =~= rest@);
                    slice_chars(&rest, 0, rest.len())
                },
            };
            let mut k: usize = 0;
            while k < piece.len() && piece[k] != '-'
                invariant
                    k <= piece@.len(),
                    first_where(piece@, |c: char| c == '-', 0) == first_where(piece@, |c: char| c == '-', k as int),
                decreases piece.len() - k,
            {
                k = k + 1;
            }
            if k == piece.len() {
                assert(piece@.subrange(0, k as int) =~= piece@);
            }
            slice_chars(&piece, 0, k)
        },
    }
}

/// A found occurrence lies inside the text.
proof fn lemma_first_occurrence_in_bounds(h: Seq<char>, n: Seq<char>, i: int)
    ensures
        first_occurrence(h, n, i) matches Some(k) ==> i <= k && k + n.len() <= h.len(),
    decreases h.len() + 1 - i,
{
    if !(i < 0 || i + n.len() > h.len()) && !crate::text::occurs_at(h, n, i) {
        lemma_first_occurrence_in_bounds(h, n, i + 1);
    }
}

/// What a release asset's name says (see [`parsed_asset`]): its backend,
/// and the OS and architecture it is built for.
pub fn parse_asset_name(name: &str) -> (r: Option<(String, &'static str, &'static str)>)
    ensures
        match parsed_asset(name@) {
            None => r is None,
            Some(p) => r matches Some(q) && q.0@ == p.0 && q.1@ == p.1 && q.2@ == p.2,
        },
{
    let lower = str_lowercase(name);
    let l = chars_of(lower.as_str());
    let os: &'static str = if contains_lit(&l, "win") {
        "windows"
    } else if contains_lit(&l, "ubuntu") || contains_lit(&l, "linux") {
        "linux"
    } else if contains_lit(&l, "macos") || contains_lit(&l, "mac") {
        "macos"
    } else {
        return None;
    };
    let arch: &'static str = if contains_lit(&l, "arm64") || contains_lit(&l, "aarch64") {
        "arm64"
    } else {
        "x64"
    };
    let backend = if contains_lit(&l, "cuda") || contains_lit(&l, "cudart") {
        let v = cuda_version_of(&l);
        let mut b = String::from_str("cuda-");
        let vs = string_from_chars(&v);
        b.append(vs.as_str());
        b
    } else if contains_lit(&l, "vulkan") {
        String::from_str("vulkan")
    } else {
        String::from_str("cpu")
    };
    let cudart = chars_of("cudart");
    if starts_with_chars(&l, &cudart) {
        return None;
    }
    Some((backend, os, arch))
}

// ---------------------------------------------------------------------------
// Releases
// ---------------------------------------------------------------------------

/// An asset as the release listing gives it.
#[derive(Clone, Debug)]
pub struct RawAsset {
    pub name: String,
    pub download_url: String,
    pub size: u64,
}

/// A release as the release listing gives it.
#[derive(Clone, Debug)]
pub struct RawRelease {
    pub tag: String,
    /// The release's display name; the tag stands in when it is missing.
    pub name: Option<String>,
    pub assets: Vec<RawAsset>,
}

/// An asset as characters: (name, backend, os, arch, url, size).
pub open spec fn asset_view(a: LlamaAsset) -> (Seq<char>, Seq<char>, Seq<char>, Seq<char>, Seq<char>, u64) {
    (a.name@, a.backend@, a.os@, a.arch@, a.download_url@, a.size_bytes)
}

/// The assets of a release that serve this platform, at most one per
/// backend (the first listed, which is the preferred build), in listing
/// order.
pub open spec fn platform_assets(raw: Seq<RawAsset>, os: Seq<char>, arch: Seq<char>) -> Seq<(Seq<char>, Seq<char>, Seq<char>, Seq<char>, Seq<char>, u64)>
    decreases raw.len(),
{
    if raw.len() == 0 {
        Seq::empty()
    } else {
        let rest = platform_assets(raw.drop_last(), os, arch);
        let a = raw.last();
        match parsed_asset(a.name@) {
            Some(p) => if p.1 == os && p.2 == arch && !(exists|j: int| 0 <= j < rest.len() && #[trigger] rest[j].1 == p.0) {
                rest.push((a.name@, p.0, p.1, p.2, a.download_url@, a.size))
            } else {
                rest
            },
            None => rest,
        }
    }
}

/// The assets of a release that serve `os`/`arch` (see
/// [`platform_assets`]).
pub fn release_assets(raw: &Vec<RawAsset>, os: &str, arch: &str) -> (v: Vec<LlamaAsset>)
    ensures
        v@.map_values(|a: LlamaAsset| asset_view(a)) == platform_assets(raw@, os@, arch@),
{
    let mut v: Vec<LlamaAsset> = Vec::new();
    let mut i: usize = 0;
    while i < raw.len()
        invariant
            i <= raw@.len(),
            v@.map_values(|a: LlamaAsset| asset_view(a)) == platform_assets(raw@.take(i as int), os@, arch@),
        decreases raw.len() - i,
    {
        let ghost before = raw@.take(i as int);
        assert(raw@.take(i + 1).drop_last() =~= before);
        let ghost seen = v@.map_values(|a: LlamaAsset| asset_view(a));
        let a = &raw[i];
        match parse_asset_name(a.name.as_str()) {
            Some((backend, aos, aarch)) => {
                if str_eq(aos, os) && str_eq(aarch, arch) {
                    let mut dup = false;
                    let mut j: usize = 0;
                    while j < v.len()
                        invariant
                            j <= v@.len(),
                            seen == v@.map_values(|a: LlamaAsset| asset_view(a)),
                            dup <==> exists|k: int| 0 <= k < j && #[trigger] seen[k].1 == backend@,
                        decreases v.len() - j,
                    {
                        if str_eq(v[j].backend.as_str(), backend.as_str()) {
                            assert(seen[j as int].1 == backend@);
                            dup = true;
                        }
                        j = j + 1;
                    }
                    if !dup {
                        let asset = LlamaAsset {
                            name: a.name.clone(),
                            backend,
                            os: String::from_str(aos),
                            arch: String::from_str(aarch),
                            download_url: a.download_url.clone(),
                            size_bytes: a.size,
                        };
                        v.push(asset);
                        assert(v@.map_values(|a: LlamaAsset| asset_view(a)) =~= seen.push(asset_view(asset)));
                    }
                }
            },
            None => {},
        }
        i = i + 1;
    }
    assert(raw@.take(raw@.len() as int) =~= raw@);
    v
}

/// A release as characters: (tag, name, assets).
pub open spec fn release_view(r: LlamaRelease) -> (Seq<char>, Seq<char>, Seq<(Seq<char>, Seq<char>, Seq<char>, Seq<char>, Seq<char>, u64)>) {
    (r.tag@, r.name@, r.assets@.map_values(|a: LlamaAsset| asset_view(a)))
}

/// The releases that have assets for `os`/`arch`, each with those assets, in
/// listing order; a release without a name is shown under its tag.
pub open spec fn platform_releases(raw: Seq<RawRelease>, os: Seq<char>, arch: Seq<char>)
    -> Seq<(Seq<char>, Seq<char>, Seq<(Seq<char>, Seq<char>, Seq<char>, Seq<char>, Seq<char>, u64)>)>
    decreases raw.len(),
{
    if raw.len() == 0 {
        Seq::empty()
    } else {
        let rest = platform_releases(raw.drop_last(), os, arch);
        let r = raw.last();
        let assets = platform_assets(r.assets@, os, arch);
        if assets.len() > 0 {
            rest.push((r.tag@, match r.name { Some(n) => n@, None => r.tag@ }, assets))
        } else {
            rest
        }
    }
}

/// The releases that have assets for `os`/`arch` (see
/// [`platform_releases`]).
pub fn build_releases(raw: &Vec<RawRelease>, os: &str, arch: &str) -> (v: Vec<LlamaRelease>)
    ensures
        v@.map_values(|r: LlamaRelease| release_view(r)) == platform_releases(raw@, os@, arch@),
{
    let mut v: Vec<LlamaRelease> = Vec::new();
    let mut i: usize = 0;
    while i < raw.len()
        invariant
            i <= raw@.len(),
            v@.map_values(|r: LlamaRelease| release_view(r)) == platform_releases(raw@.take(i as int), os@, arch@),
        decreases raw.len() - i,
    {
        let ghost before = raw@.take(i as int);
        assert(raw@.take(i + 1).drop_last() =~= before);
        let r = &raw[i];
        let assets = release_assets(&r.assets, os, arch);
        if assets.len() > 0 {
            let name = match &r.name {
                Some(n) => n.clone(),
                None => r.tag.clone(),
            };
            let ghost old_v = v@;
            let rel = LlamaRelease { tag: r.tag.clone(), name, assets };
            v.push(rel);
            assert(v@.map_values(|r: LlamaRelease| release_view(r))
                =~= old_v.map_values(|r: LlamaRelease| release_view(r)).push(release_view(rel)));
        }
        i = i + 1;
    }
    assert(raw@.take(raw@.len() as int) =~= raw@);
    v
}

/// Accepts a release with tag `tag` that has an asset for `backend`.
pub open spec fn offers(tag: Seq<char>, backend: Seq<char>) -> spec_fn(LlamaRelease) -> bool {
    |r: LlamaRelease| r.tag@ == tag && exists|j: int| 0 <= j < r.assets@.len() && #[trigger] r.assets@[j].backend@ == backend
}

/// The message when no release offers the build.
pub open spec fn no_asset_message(backend: Seq<char>, tag: Seq<char>) -> Seq<char> {
    "No release asset found for backend '"@ + backend + "' tag '"@ + tag + "'"@
}

/// The download URL of the build `backend` in release `release_tag`: the
/// first asset of that backend in the first release with that tag that has
/// one; an error naming both when there is none.
pub fn find_release_download_url(releases: &Vec<LlamaRelease>, backend: &str, release_tag: &str) -> (r: Result<String, String>)
    ensures
        match first_where(releases@, offers(release_tag@, backend@), 0) {
            Some(k) => r matches Ok(url) && ({
                let rel = releases@[k];
                let j = first_where(rel.assets@, |a: LlamaAsset| a.backend@ == backend@, 0);
                j is Some && url@ == rel.assets@[j->0].download_url@
            }),
            None => r matches Err(m) && m@ == no_asset_message(backend@, release_tag@),
        },
{
    let mut i: usize = 0;
    while i < releases.len()
        invariant
            i <= releases@.len(),
            first_where(releases@, offers(release_tag@, backend@), 0)
                == first_where(releases@, offers(release_tag@, backend@), i as int),
        decreases releases.len() - i,
    {
        let rel = &releases[i];
        if str_eq(rel.tag.as_str(), release_tag) {
            let mut j: usize = 0;
            while j < rel.assets.len()
                invariant
                    i < releases@.len(),
                    j <= rel.assets@.len(),
                    *rel == releases@[i as int],
                    rel.tag@ == release_tag@,
                    first_where(releases@, offers(release_tag@, backend@), 0)
                        == first_where(releases@, offers(release_tag@, backend@), i as int),
                    first_where(rel.assets@, |a: LlamaAsset| a.backend@ == backend@, 0)
                        == first_where(rel.assets@, |a: LlamaAsset| a.backend@ == backend@, j as int),
                    forall|q: int| 0 <= q < j ==> #[trigger] rel.assets@[q].backend@ != backend@,
                decreases rel.assets.len() - j,
            {
                if str_eq(rel.assets[j].backend.as_str(), backend) {
                    assert(offers(release_tag@, backend@)(releases@[i as int]));
                    return Ok(rel.assets[j].download_url.clone());
                }
                j = j + 1;
            }
            assert(!offers(release_tag@, backend@)(releases@[i as int]));
        }
        i = i + 1;
    }
    let mut m = String::from_str("No release asset found for backend '");
    m.append(backend);
    m.append("' tag '");
    m.append(release_tag);
    m.append("'");
    Err(m)
}

// ---------------------------------------------------------------------------
// Installs
// ---------------------------------------------------------------------------

/// How a downloaded archive is unpacked.
#[derive(Clone, Copy, Debug, PartialEq, Eq, Structural)]
pub enum ArchiveKind {
    Zip,
    TarGz,
}

/// The archive kind a download URL names: `.zip`, or `.tar.gz`/`.tgz`;
/// any other URL is refused with a message naming it.
pub fn archive_kind(url: &str) -> (r: Result<ArchiveKind, String>)
    ensures
        has_suffix(url@, ".zip"@) ==> r == Ok::<ArchiveKind, String>(ArchiveKind::Zip),
        !has_suffix(url@, ".zip"@) && (has_suffix(url@, ".tar.gz"@) || has_suffix(url@, ".tgz"@))
            ==> r == Ok::<ArchiveKind, String>(ArchiveKind::TarGz),
        !has_suffix(url@, ".zip"@) && !has_suffix(url@, ".tar.gz"@) && !has_suffix(url@, ".tgz"@)
            ==> (r matches Err(m) && m@ == "Unsupported archive format: "@ + url@),
{
    let u = chars_of(url);
    let zip = chars_of(".zip");
    let tgz = chars_of(".tar.gz");
    let tgz2 = chars_of(".tgz");
    if ends_with_chars(&u, &zip) {
        Ok(ArchiveKind::Zip)
    } else if ends_with_chars(&u, &tgz) || ends_with_chars(&u, &tgz2) {
        Ok(ArchiveKind::TarGz)
    } else {
        let mut m = String::from_str("Unsupported archive format: ");
        m.append(url);
        Err(m)
    }
}

/// The id of an install and of its hub entry: `backend-tag`.
pub fn server_id(backend: &str, release_tag: &str) -> (id: String)
    ensures
        id@ == backend@ + "-"@ + release_tag@,
{
    let mut id = String::from_str(backend);
    id.append("-");
    id.append(release_tag);
    id
}

/// The name a build is shown under: `llama.cpp backend tag`.
pub fn server_display_name(backend: &str, release_tag: &str) -> (n: String)
    ensures
        n@ == "llama.cpp "@ + backend@ + " "@ + release_tag@,
{
    let mut n = String::from_str("llama.cpp ");
    n.append(backend);
    n.append(" ");
    n.append(release_tag);
    n
}

/// Splits an install folder name at its last hyphen into backend and tag (a
/// backend such as `cuda-13.3` contains one itself); without a hyphen the
/// whole name is the backend and the tag is empty.
pub fn split_server_folder(folder: &str) -> (r: (String, String))
    ensures
        match last_hyphen(folder@) {
            Some(i) => r.0@ == folder@.subrange(0, i) && r.1@ == folder@.subrange(i + 1, folder@.len() as int),
            None => r.0@ == folder@ && r.1@.len() == 0,
        },
{
    match crate::model_hub::split_runtime_id(folder) {
        Ok(p) => p,
        Err(_) => (String::from_str(folder), String::new()),
    }
}

/// The name of the server binary on this platform.
pub fn server_binary_name(windows: bool) -> (n: &'static str)
    ensures
        n@ == if windows { "llama-server.exe"@ } else { "llama-server"@ },
{
    if windows {
        "llama-server.exe"
    } else {
        "llama-server"
    }
}

/// The backend order an automatic pick prefers.
pub open spec fn preferred_prefixes() -> Seq<Seq<char>> {
    seq!["cuda"@, "vulkan"@, "cpu"@]
}

/// Accepts an installed build whose backend starts with `prefix` and whose
/// binary is present.
pub open spec fn usable_with(prefix: Seq<char>, installed: Seq<DownloadedServer>, present: Seq<bool>) -> spec_fn(int) -> bool {
    |i: int| 0 <= i < installed.len() && i < present.len() && present[i] && has_prefix(installed[i].backend@, prefix)
}

/// The install an automatic pick takes: for the first backend prefix (CUDA,
/// then Vulkan, then CPU) that any present install has, the first such
/// install.
pub open spec fn auto_pick(installed: Seq<DownloadedServer>, present: Seq<bool>, p: int) -> Option<int>
    decreases 3 - p,
{
    if p < 0 || p >= 3 {
        None
    } else {
        match first_where(Seq::new(installed.len(), |i: int| i), usable_with(preferred_prefixes()[p], installed, present), 0) {
            Some(i) => Some(i),
            None => auto_pick(installed, present, p + 1),
        }
    }
}

/// The installed build to run when the configured one is missing (see
/// [`auto_pick`]); `present[i]` says whether install `i` has its binary.
pub fn auto_pick_server(installed: &Vec<DownloadedServer>, present: &Vec<bool>) -> (r: Option<usize>)
    ensures
        r matches Some(i) ==> auto_pick(installed@, present@, 0) == Some(i as int),
        r is None <==> auto_pick(installed@, present@, 0) is None,
{
    let mut prefixes: Vec<Vec<char>> = Vec::new();
    prefixes.push(chars_of("cuda"));
    prefixes.push(chars_of("vulkan"));
    prefixes.push(chars_of("cpu"));
    let ghost idx = Seq::new(installed@.len(), |i: int| i);
    let mut p: usize = 0;
    while p < 3
        invariant
            p <= 3,
            prefixes@.len() == 3,
            forall|q: int| 0 <= q < 3 ==> #[trigger] prefixes@[q]@ == preferred_prefixes()[q],
            idx == Seq::new(installed@.len(), |i: int| i),
            auto_pick(installed@, present@, 0) == auto_pick(installed@, present@, p as int),
        decreases 3 - p,
    {
        let ghost u = usable_with(preferred_prefixes()[p as int], installed@, present@);
        let mut i: usize = 0;
        while i < installed.len()
            invariant
                p < 3,
                i <= installed@.len(),
                auto_pick(installed@, present@, 0) == auto_pick(installed@, present@, p as int),
                prefixes@.len() == 3,
                forall|q: int| 0 <= q < 3 ==> #[trigger] prefixes@[q]@ == preferred_prefixes()[q],
                idx == Seq::new(installed@.len(), |i: int| i),
                u == usable_with(preferred_prefixes()[p as int], installed@, present@),
                first_where(idx, u, 0) == first_where(idx, u, i as int),
            decreases installed.len() - i,
        {
            let b = chars_of(installed[i].backend.as_str());
            assert(idx[i as int] == i as int);
            if i < present.len() && present[i] && starts_with_chars(&b, &prefixes[p]) {
                assert(u(idx[i as int]));
                return Some(i);
            }
            assert(!u(idx[i as int]));
            i = i + 1;
        }
        p = p + 1;
    }
    None
}

/// The hub notification a finished download sends.
pub fn download_notification(result: &Result<TransportOutcome, String>) -> (k: HubNotificationKind)
    ensures
        k == match result {
            Ok(TransportOutcome::Completed) => HubNotificationKind::Completed,
            Ok(TransportOutcome::Cancelled) => HubNotificationKind::Cancelled,
            Err(_) => HubNotificationKind::Failed,
        },
{
    match result {
        Ok(TransportOutcome::Completed) => HubNotificationKind::Completed,
        Ok(TransportOutcome::Cancelled) => HubNotificationKind::Cancelled,
        Err(_) => HubNotificationKind::Failed,
    }
}

/// The platforms the server manager tells apart.
#[derive(Clone, Copy, Debug, PartialEq, Eq, Structural)]
pub enum Platform {
    Windows,
    Linux,
    MacOs,
}

/// What the host probes found: `nvidia-smi` answered (with a GPU name, on
/// Windows), `CUDA_PATH` is set, a Vulkan SDK is present, `/usr/local/cuda`
/// exists.
#[derive(Clone, Copy, Debug)]
pub struct GpuProbe {
    pub nvidia_smi: bool,
    pub cuda_path: bool,
    pub vulkan_sdk: bool,
    pub usr_local_cuda: bool,
}

/// The backend a fresh configuration prefers: CUDA when an NVIDIA GPU or a
/// CUDA install is found (Windows also looks at `CUDA_PATH`, then Vulkan),
/// otherwise the CPU build (always on macOS, whose build has Metal).
pub fn preferred_backend(platform: Platform, probe: &GpuProbe) -> (b: &'static str)
    ensures
        b@ == match platform {
            Platform::Windows => if probe.nvidia_smi || probe.cuda_path {
                "cuda"@
            } else if probe.vulkan_sdk {
                "vulkan"@
            } else {
                "cpu"@
            },
            Platform::Linux => if probe.nvidia_smi || probe.usr_local_cuda { "cuda"@ } else { "cpu"@ },
            Platform::MacOs => "cpu"@,
        },
{
    match platform {
        Platform::Windows => {
            if probe.nvidia_smi || probe.cuda_path {
                "cuda"
            } else if probe.vulkan_sdk {
                "vulkan"
            } else {
                "cpu"
            }
        },
        Platform::Linux => {
            if probe.nvidia_smi || probe.usr_local_cuda {
                "cuda"
            } else {
                "cpu"
            }
        },
        Platform::MacOs => "cpu",
    }
}

} // verus!
