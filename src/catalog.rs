//! Choosing versions and builds from a provider's catalog, listed newest
//! first: the latest (stable) pair, and whether a newer pair than the one a
//! server runs is available.
use vstd::prelude::*;
use vstd::string::StringExecFns;

verus! {

/// A game version of a server implementation.
#[derive(Debug, Clone)]
pub struct Version {
    pub name: String,
    pub is_stable: bool,
}

/// A build of a version.
#[derive(Debug, Clone)]
pub struct Build {
    pub name: String,
    pub is_stable: bool,
}

/// A version with its builds, newest first.
#[derive(Debug, Clone)]
pub struct VersionBuilds {
    pub version: Version,
    pub builds: Vec<Build>,
}

/// The names and stability flags of a version and its builds.
pub struct VersionBuildsView {
    pub name: Seq<char>,
    pub is_stable: bool,
    pub builds: Seq<(Seq<char>, bool)>,
}

impl View for VersionBuilds {
    type V = VersionBuildsView;

    open spec fn view(&self) -> VersionBuildsView {
        VersionBuildsView {
            name: self.version.name@,
            is_stable: self.version.is_stable,
            builds: self.builds@.map_values(|b: Build| (b.name@, b.is_stable)),
        }
    }
}

/// The catalog as seen by the contracts.
pub open spec fn catalog_view(c: Seq<VersionBuilds>) -> Seq<VersionBuildsView> {
    c.map_values(|v: VersionBuilds| v@)
}

/// Which update a caller asks for.
#[derive(Debug, Clone, Copy, PartialEq, Eq, Structural)]
pub enum UpdateType {
    Stable,
    Latest,
}

/// What an update of a stopped server did.
#[derive(Debug, Clone)]
pub enum UpdateServerResult {
    NoUpdateNeeded,
    Updated { old_version: String, old_build: String, new_version: String, new_build: String },
}

/// A build may be chosen: any build, or only a stable one when `stable`.
pub open spec fn build_ok(b: (Seq<char>, bool), stable: bool) -> bool {
    !stable || b.1
}

/// A version may be chosen: it has a build that may be chosen, and is
/// itself stable when `stable`.
pub open spec fn version_ok(v: VersionBuildsView, stable: bool) -> bool {
    (!stable || v.is_stable) && exists|j: int| 0 <= j < v.builds.len() && build_ok(#[trigger] v.builds[j], stable)
}

/// The latest version and build: the first version that may be chosen and
/// its first build that may be chosen.
pub open spec fn is_latest(c: Seq<VersionBuildsView>, stable: bool, vi: int, bi: int) -> bool {
    &&& 0 <= vi < c.len()
    &&& (!stable || c[vi].is_stable)
    &&& 0 <= bi < c[vi].builds.len()
    &&& build_ok(c[vi].builds[bi], stable)
    &&& forall|j: int| 0 <= j < bi ==> !build_ok(#[trigger] c[vi].builds[j], stable)
    &&& forall|k: int| 0 <= k < vi ==> !version_ok(#[trigger] c[k], stable)
}

/// Finds the latest version and build, stable ones only when `stable`;
/// `None` where the catalog has none.
pub fn latest_version_build(catalog: &Vec<VersionBuilds>, stable: bool) -> (r: Option<(usize, usize)>)
    ensures
        match r {
            Some((vi, bi)) => is_latest(catalog_view(catalog@), stable, vi as int, bi as int),
            None => forall|k: int| 0 <= k < catalog@.len() ==> !version_ok(#[trigger] catalog_view(catalog@)[k], stable),
        },
{
    let ghost c = catalog_view(catalog@);
    let mut k: usize = 0;
    while k < catalog.len()
        invariant
            k <= catalog@.len(),
            c == catalog_view(catalog@),
            forall|m: int| 0 <= m < k ==> !version_ok(#[trigger] c[m], stable),
        decreases catalog@.len() - k,
    {
        let entry = &catalog[k];
        assert(c[k as int] == entry@);
        if !stable || entry.version.is_stable {
            let mut j: usize = 0;
            while j < entry.builds.len()
                invariant
                    k < catalog@.len(),
                    c == catalog_view(catalog@),
                    !stable || entry.version.is_stable,
                    forall|m: int| 0 <= m < k ==> !version_ok(#[trigger] c[m], stable),
                    j <= entry.builds@.len(),
                    c[k as int] == entry@,
                    forall|m: int| 0 <= m < j ==> !build_ok(#[trigger] c[k as int].builds[m], stable),
                decreases entry.builds@.len() - j,
            {
                assert(c[k as int].builds[j as int] == (entry.builds@[j as int].name@, entry.builds@[j as int].is_stable));
                if !stable || entry.builds[j].is_stable {
                    return Some((k, j));
                }
                j = j + 1;
            }
        }
        k = k + 1;
    }
    None
}

/// What a catalog pair means when looking for an update from the current
/// version and build: the current pair itself, a candidate, or neither.
pub enum ScanEvent {
    Current,
    Candidate,
    Skip,
}

/// Whether a version is looked at: every version, or, when `stable`, stable
/// ones and the current one.
pub open spec fn version_considered(v: VersionBuildsView, current_version: Seq<char>, stable: bool) -> bool {
    !(stable && !v.is_stable && v.name != current_version)
}

/// What the pair of version `k` and its build `j` means.
pub open spec fn scan_event(c: Seq<VersionBuildsView>, k: int, j: int, cv: Seq<char>, cb: Seq<char>, stable: bool) -> ScanEvent {
    if !version_considered(c[k], cv, stable) {
        ScanEvent::Skip
    } else if c[k].name == cv && c[k].builds[j].0 == cb {
        ScanEvent::Current
    } else if !stable || (c[k].is_stable && c[k].builds[j].1) {
        ScanEvent::Candidate
    } else {
        ScanEvent::Skip
    }
}

/// Every pair before version `k`, build `j` (newest first) is skipped.
pub open spec fn skipped_before(c: Seq<VersionBuildsView>, k: int, j: int, cv: Seq<char>, cb: Seq<char>, stable: bool) -> bool {
    &&& forall|m: int, n: int| 0 <= m < k && 0 <= n < c[m].builds.len() ==> #[trigger] scan_event(c, m, n, cv, cb, stable) is Skip
    &&& forall|n: int| 0 <= n < j ==> #[trigger] scan_event(c, k, n, cv, cb, stable) is Skip
}

/// Looks, newest first, for a pair newer than the current one: the first
/// candidate met before the current pair is given; `None` where the current
/// pair comes first or no candidate is met.
pub fn is_newer_version_available(catalog: &Vec<VersionBuilds>, current_version: &str, current_build: &str, stable: bool) -> (r: Option<(usize, usize)>)
    ensures
        ({
            let c = catalog_view(catalog@);
            match r {
                Some((k, j)) => k < c.len() && j < c[k as int].builds.len() && scan_event(c, k as int, j as int, current_version@, current_build@, stable) is Candidate
                    && skipped_before(c, k as int, j as int, current_version@, current_build@, stable),
                None => skipped_before(c, c.len() as int, 0, current_version@, current_build@, stable) || exists|k: int, j: int|
                    0 <= k < c.len() && 0 <= j < c[k].builds.len() && #[trigger] scan_event(c, k, j, current_version@, current_build@, stable) is Current
                        && skipped_before(c, k, j, current_version@, current_build@, stable),
            }
        }),
{
    let ghost c = catalog_view(catalog@);
    let cv = String::from_str(current_version);
    let cb = String::from_str(current_build);
    let mut k: usize = 0;
    while k < catalog.len()
        invariant
            k <= catalog@.len(),
            c == catalog_view(catalog@),
            cv@ == current_version@,
            cb@ == current_build@,
            skipped_before(c, k as int, 0, current_version@, current_build@, stable),
        decreases catalog@.len() - k,
    {
        let entry = &catalog[k];
        assert(c[k as int] == entry@);
        let same_version = entry.version.name.eq(&cv);
        if stable && !entry.version.is_stable && !same_version {
            assert forall|m: int, n: int| 0 <= m < k + 1 && 0 <= n < c[m].builds.len() implies #[trigger] scan_event(c, m, n, current_version@, current_build@, stable) is Skip by {}
            k = k + 1;
            continue;
        }
        let mut j: usize = 0;
        while j < entry.builds.len()
            invariant
                k < catalog@.len(),
                j <= entry.builds@.len(),
                c[k as int] == entry@,
                c == catalog_view(catalog@),
                cv@ == current_version@,
                cb@ == current_build@,
                same_version == (entry.version.name@ == current_version@),
                version_considered(c[k as int], current_version@, stable),
                skipped_before(c, k as int, j as int, current_version@, current_build@, stable),
            decreases entry.builds@.len() - j,
        {
            let b = &entry.builds[j];
            assert(c[k as int].builds[j as int] == (b.name@, b.is_stable));
            if same_version && b.name.eq(&cb) {
                assert(scan_event(c, k as int, j as int, current_version@, current_build@, stable) is Current);
                return None;
            }
            if !stable || (entry.version.is_stable && b.is_stable) {
                return Some((k, j));
            }
            j = j + 1;
        }
        assert forall|m: int, n: int| 0 <= m < k + 1 && 0 <= n < c[m].builds.len() implies #[trigger] scan_event(c, m, n, current_version@, current_build@, stable) is Skip by {
            if m == k {
                assert(scan_event(c, k as int, n, current_version@, current_build@, stable) is Skip);
            }
        }
        k = k + 1;
    }
    None
}

/// The pair a running server should be updated to by the periodic update
/// pass: none where its manifest does not ask for updates, else the newer
/// stable pair the catalog offers, if any.
pub fn update_target(auto_update: bool, catalog: &Vec<VersionBuilds>, version: &str, build: &str) -> (r: Option<(usize, usize)>)
    ensures
        !auto_update ==> r is None,
        auto_update ==> ({
            let c = catalog_view(catalog@);
            match r {
                Some((k, j)) => k < c.len() && j < c[k as int].builds.len() && scan_event(c, k as int, j as int, version@, build@, true) is Candidate
                    && skipped_before(c, k as int, j as int, version@, build@, true),
                None => skipped_before(c, c.len() as int, 0, version@, build@, true) || exists|k: int, j: int|
                    0 <= k < c.len() && 0 <= j < c[k].builds.len() && #[trigger] scan_event(c, k, j, version@, build@, true) is Current
                        && skipped_before(c, k, j, version@, build@, true),
            }
        }),
{
    if !auto_update {
        return None;
    }
    is_newer_version_available(catalog, version, build, true)
}

/// The outcome of updating a stopped server to the chosen pair: nothing to
/// do where it already runs that pair.
pub fn update_result(old_version: &str, old_build: &str, new_version: &str, new_build: &str) -> (r: UpdateServerResult)
    ensures
        (old_version@ == new_version@ && old_build@ == new_build@) <==> r is NoUpdateNeeded,
        r matches UpdateServerResult::Updated { old_version: ov, old_build: ob, new_version: nv, new_build: nb } ==> ov@ == old_version@ && ob@ == old_build@ && nv@ == new_version@ && nb@ == new_build@,
{
    let ov = String::from_str(old_version);
    let ob = String::from_str(old_build);
    let nv = String::from_str(new_version);
    let nb = String::from_str(new_build);
    if ov.eq(&nv) && ob.eq(&nb) {
        UpdateServerResult::NoUpdateNeeded
    } else {
        UpdateServerResult::Updated { old_version: ov, old_build: ob, new_version: nv, new_build: nb }
    }
}

/// Whether an update of this type asks for stable pairs only.
pub fn update_wants_stable(update_type: UpdateType) -> (r: bool)
    ensures
        r == (update_type == UpdateType::Stable),
{
    match update_type {
        UpdateType::Stable => true,
        UpdateType::Latest => false,
    }
}

/// The server implementations the daemon knows, by name.
pub fn get_server_implementations() -> (r: Vec<String>)
    ensures
        r@.len() == 2,
        r@[0]@ == "vanilla"@,
        r@[1]@ == "paper"@,
{
    let mut v: Vec<String> = Vec::new();
    v.push(String::from_str("vanilla"));
    v.push(String::from_str("paper"));
    v
}

/// The extension providers the daemon knows, by name.
pub fn get_extension_providers() -> (r: Vec<String>)
    ensures
        r@.len() == 1,
        r@[0]@ == "modrinth"@,
{
    let mut v: Vec<String> = Vec::new();
    v.push(String::from_str("modrinth"));
    v
}

} // verus!
