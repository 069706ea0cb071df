//! Installing a Java runtime tree from Mojang's file manifest: which
//! download of a file to fetch, how to check it, and the mode it gets.
use crate::integrity::{digest_matches, sha1_of, verify_sha1, IntegrityError};
use vstd::prelude::*;
use vstd::string::StrSliceExecFns;

verus! {

/// One entry of a runtime's file manifest.
#[derive(Debug, Clone)]
pub enum File {
    Directory,
    File { downloads: Downloads, executable: bool },
    Link { target: String },
}

/// The downloads of a file: compressed with LZMA, raw, or both.
#[derive(Debug, Clone)]
pub struct Downloads {
    pub lzma: Option<Download>,
    pub raw: Option<Download>,
}

/// One download with its advertised digest and size.
#[derive(Debug, Clone)]
pub struct Download {
    pub sha1: String,
    pub size: u64,
    pub url: String,
}

/// How widely a runtime is rolled out.
#[derive(Debug, Clone, Copy, PartialEq, Eq, Structural)]
pub struct Availability {
    pub group: i32,
    pub progress: i32,
}

/// Why a runtime file could not be installed.
#[derive(Debug, Clone, Copy, PartialEq, Eq, Structural)]
pub enum ProvisionError {
    /// The manifest offers no download for the file.
    Unavailable,
    /// The bytes do not match the advertised size or digest.
    Integrity(IntegrityError),
}

/// The download to fetch: the compressed one where there is one, else the
/// raw one; `true` marks a compressed download.
pub fn choose_download(d: &Downloads) -> (r: Result<(bool, &Download), ProvisionError>)
    ensures
        match d.lzma {
            Some(l) => r == Ok::<(bool, &Download), ProvisionError>((true, &l)),
            None => match d.raw {
                Some(w) => r == Ok::<(bool, &Download), ProvisionError>((false, &w)),
                None => r == Err::<(bool, &Download), ProvisionError>(ProvisionError::Unavailable),
            },
        },
{
    match &d.lzma {
        Some(l) => Ok((true, l)),
        None => match &d.raw {
            Some(w) => Ok((false, w)),
            None => Err(ProvisionError::Unavailable),
        },
    }
}

/// Checks fetched bytes against the download they came from: size first,
/// then SHA-1.
pub fn check_download(bytes: &[u8], d: &Download) -> (r: Result<(), ProvisionError>)
    ensures
        r is Ok <==> (bytes@.len() == d.size && digest_matches(d.sha1@, sha1_of(bytes@))),
        r matches Err(e) ==> e is Integrity,
{
    match verify_sha1(bytes, d.size, d.sha1.as_str()) {
        Ok(()) => Ok(()),
        Err(e) => Err(ProvisionError::Integrity(e)),
    }
}

/// The permission bits a file is given after it is written, where it is
/// executable.
pub fn file_mode(executable: bool) -> (r: Option<u32>)
    ensures
        executable ==> r == Some(0o755u32),
        !executable ==> r is None,
{
    if executable {
        Some(0o755)
    } else {
        None
    }
}

/// `a` sorts before `b`, character by character, a prefix first.
pub open spec fn path_lt(a: Seq<char>, b: Seq<char>) -> bool
    decreases a.len(),
{
    if a.len() == 0 {
        b.len() > 0
    } else if b.len() == 0 {
        false
    } else if a[0] != b[0] {
        a[0] < b[0]
    } else {
        path_lt(a.drop_first(), b.drop_first())
    }
}

/// `x` inserted into `s` before the first index whose path sorts after its own.
pub open spec fn insert_by_path(x: int, s: Seq<int>, ps: Seq<Seq<char>>) -> Seq<int>
    decreases s.len(),
{
    if s.len() == 0 {
        seq![x]
    } else if path_lt(ps[x], ps[s[0]]) {
        seq![x] + s
    } else {
        seq![s[0]] + insert_by_path(x, s.drop_first(), ps)
    }
}

/// The first `n` indices ordered by their paths, equal paths in index order.
pub open spec fn sort_by_path(n: nat, ps: Seq<Seq<char>>) -> Seq<int>
    decreases n,
{
    if n == 0 {
        Seq::empty()
    } else {
        insert_by_path(n - 1, sort_by_path((n - 1) as nat, ps), ps)
    }
}

/// What installing one manifest entry takes.
#[derive(Debug, Clone, Copy, PartialEq, Eq, Structural)]
pub enum StepKind {
    CreateDir,
    /// Fetch the chosen download (compressed or not), check it, write it,
    /// then give it these permission bits where there are some.
    WriteFile { compressed: bool, mode: Option<u32> },
    /// The manifest offers no download for the file.
    Unavailable,
    CreateLink,
}

/// One step of an install: the position of the entry and what to do.
#[derive(Debug, Clone, Copy, PartialEq, Eq, Structural)]
pub struct InstallStep {
    pub index: usize,
    pub kind: StepKind,
}

/// What an entry's step does.
pub open spec fn step_kind(f: File) -> StepKind {
    match f {
        File::Directory => StepKind::CreateDir,
        File::File { downloads, executable } => {
            let mode = if executable { Some(0o755u32) } else { None };
            if downloads.lzma is Some {
                StepKind::WriteFile { compressed: true, mode }
            } else if downloads.raw is Some {
                StepKind::WriteFile { compressed: false, mode }
            } else {
                StepKind::Unavailable
            }
        },
        File::Link { .. } => StepKind::CreateLink,
    }
}

/// The steps for the entries at `order`, links only or no links.
pub open spec fn steps_for(order: Seq<int>, entries: Seq<(String, File)>, links: bool) -> Seq<InstallStep>
    decreases order.len(),
{
    if order.len() == 0 {
        Seq::empty()
    } else {
        let i = order.last();
        steps_for(order.drop_last(), entries, links) + if (entries[i].1 is Link) == links {
            seq![InstallStep { index: i as usize, kind: step_kind(entries[i].1) }]
        } else {
            Seq::empty()
        }
    }
}

/// The paths of the entries.
pub open spec fn entry_paths(entries: Seq<(String, File)>) -> Seq<Seq<char>> {
    entries.map_values(|e: (String, File)| e.0@)
}

/// The install steps: directories and files in path order, then the links
/// in path order, so that every directory's links come after its files.
pub open spec fn install_steps(entries: Seq<(String, File)>) -> Seq<InstallStep> {
    let order = sort_by_path(entries.len(), entry_paths(entries));
    steps_for(order, entries, false) + steps_for(order, entries, true)
}

fn path_less(a: &str, b: &str) -> (r: bool)
    ensures
        r == path_lt(a@, b@),
{
    let n = a.unicode_len();
    let m = b.unicode_len();
    let mut i: usize = 0;
    assert(a@.skip(0) =~= a@ && b@.skip(0) =~= b@);
    loop
        invariant
            n == a@.len(),
            m == b@.len(),
            i <= n,
            i <= m,
            path_lt(a@.skip(i as int), b@.skip(i as int)) == path_lt(a@, b@),
        decreases n - i,
    {
        if i == n {
            return i < m;
        }
        if i == m {
            return false;
        }
        let x = a.get_char(i);
        let y = b.get_char(i);
        if x != y {
            return x < y;
        }
        assert(a@.skip(i as int).drop_first() =~= a@.skip(i + 1));
        assert(b@.skip(i as int).drop_first() =~= b@.skip(i + 1));
        i = i + 1;
    }
}

proof fn lemma_insert_at(x: int, s: Seq<int>, ps: Seq<Seq<char>>, j: int)
    requires
        0 <= j <= s.len(),
        forall|i: int| 0 <= i < j ==> !path_lt(ps[x], #[trigger] ps[s[i]]),
        j == s.len() || path_lt(ps[x], ps[s[j]]),
    ensures
        insert_by_path(x, s, ps) == s.take(j) + seq![x] + s.skip(j),
    decreases j,
{
    if j == 0 {
        if s.len() == 0 {
            assert(s.take(0) + seq![x] + s.skip(0) =~= seq![x]);
        } else {
            assert(s.take(0) + seq![x] + s.skip(0) =~= seq![x] + s);
        }
    } else {
        let t = s.drop_first();
        assert forall|i: int| 0 <= i < j - 1 implies !path_lt(ps[x], #[trigger] ps[t[i]]) by {
            assert(t[i] == s[i + 1]);
        }
        if j - 1 < t.len() {
            assert(t[j - 1] == s[j]);
        }
        lemma_insert_at(x, t, ps, j - 1);
        assert(!path_lt(ps[x], ps[s[0]]));
        assert(seq![s[0]] + (t.take(j - 1) + seq![x] + t.skip(j - 1)) =~= s.take(j) + seq![x] + s.skip(j));
    }
}

/// The install plan of a runtime's file manifest, as entry positions with
/// what to do for each: directories and files in path order, then links in
/// path order, each file with the download it will use and its mode.
pub fn install_plan(entries: &Vec<(String, File)>) -> (r: Vec<InstallStep>)
    ensures
        r@ == install_steps(entries@),
{
    let ghost ps = entry_paths(entries@);
    let n = entries.len();
    let mut order: Vec<usize> = Vec::new();
    let mut k: usize = 0;
    while k < n
        invariant
            n == entries@.len(),
            ps == entry_paths(entries@),
            k <= n,
            order@.map_values(|i: usize| i as int) == sort_by_path(k as nat, ps),
            forall|i: int| 0 <= i < order@.len() ==> #[trigger] order@[i] < k,
        decreases n - k,
    {
        let ghost s = order@.map_values(|i: usize| i as int);
        let mut j: usize = 0;
        while j < order.len() && !path_less(entries[k].0.as_str(), entries[order[j]].0.as_str())
            invariant
                n == entries@.len(),
                ps == entry_paths(entries@),
                k < n,
                j <= order@.len(),
                s == order@.map_values(|i: usize| i as int),
                forall|i: int| 0 <= i < order@.len() ==> #[trigger] order@[i] < k,
                forall|i: int| 0 <= i < j ==> !path_lt(ps[k as int], #[trigger] ps[s[i]]),
            decreases order@.len() - j,
        {
            assert(ps[k as int] == entries@[k as int].0@ && ps[s[j as int]] == entries@[order@[j as int] as int].0@);
            j = j + 1;
        }
        proof {
            if j < order@.len() {
                assert(ps[k as int] == entries@[k as int].0@ && ps[s[j as int]] == entries@[order@[j as int] as int].0@);
            }
            lemma_insert_at(k as int, s, ps, j as int);
        }
        order.insert(j, k);
        assert(order@.map_values(|i: usize| i as int) =~= s.take(j as int) + seq![k as int] + s.skip(j as int));
        k = k + 1;
    }
    let ghost o = order@.map_values(|i: usize| i as int);
    let mut steps: Vec<InstallStep> = Vec::new();
    let mut pass: usize = 0;
    while pass < 2
        invariant
            pass <= 2,
            o == order@.map_values(|i: usize| i as int),
            o == sort_by_path(entries@.len(), entry_paths(entries@)),
            forall|i: int| 0 <= i < order@.len() ==> #[trigger] order@[i] < entries@.len(),
            pass == 0 ==> steps@ == Seq::<InstallStep>::empty(),
            pass == 1 ==> steps@ == steps_for(o, entries@, false),
            pass == 2 ==> steps@ == steps_for(o, entries@, false) + steps_for(o, entries@, true),
        decreases 2 - pass,
    {
        let links = pass == 1;
        let ghost base = steps@;
        let mut t: usize = 0;
        assert(o.take(0) =~= Seq::<int>::empty());
        while t < order.len()
            invariant
                t <= order@.len(),
                o == order@.map_values(|i: usize| i as int),
                forall|i: int| 0 <= i < order@.len() ==> #[trigger] order@[i] < entries@.len(),
                steps@ == base + steps_for(o.take(t as int), entries@, links),
            decreases order@.len() - t,
        {
            let i = order[t];
            assert(o.take(t + 1).drop_last() =~= o.take(t as int));
            assert(o.take(t + 1).last() == i as int);
            let is_link = match &entries[i].1 {
                File::Link { .. } => true,
                _ => false,
            };
            if is_link == links {
                let kind = match &entries[i].1 {
                    File::Directory => StepKind::CreateDir,
                    File::File { downloads, executable } => match choose_download(downloads) {
                        Ok((compressed, _)) => StepKind::WriteFile { compressed, mode: file_mode(*executable) },
                        Err(_) => StepKind::Unavailable,
                    },
                    File::Link { .. } => StepKind::CreateLink,
                };
                steps.push(InstallStep { index: i, kind });
                assert(steps@ =~= base + steps_for(o.take(t + 1), entries@, links));
            } else {
                assert(steps@ =~= base + steps_for(o.take(t + 1), entries@, links));
            }
            t = t + 1;
        }
        assert(o.take(t as int) =~= o);
        pass = pass + 1;
        proof {
            if pass == 1 {
                assert(steps@ =~= steps_for(o, entries@, false));
            }
        }
    }
    steps
}

} // verus!
