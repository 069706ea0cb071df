//! Linking extensions from the central cache into a server's `mods` and
//! `plugins` directories: where a cached extension lives, what its link is
//! called, which existing links the daemon manages, and which links to
//! remove and to create so that they match the manifest.
use crate::manifest::{ExtensionEntry, ExtensionType};
use crate::paths::{join, path_join};
use vstd::prelude::*;
use vstd::string::StringExecFns;

verus! {

/// The directory name of an extension type.
pub open spec fn type_dir(t: ExtensionType) -> Seq<char> {
    match t {
        ExtensionType::Mod => "mods"@,
        ExtensionType::Plugin => "plugins"@,
    }
}

fn type_dir_name(t: ExtensionType) -> (r: &'static str)
    ensures
        r@ == type_dir(t),
{
    match t {
        ExtensionType::Mod => "mods",
        ExtensionType::Plugin => "plugins",
    }
}

/// The root of the extension cache: `<data>/minecraftd/extensions`.
pub fn extension_cache_root_dir(data_dir: &str) -> (r: String)
    ensures
        r@ == path_join(path_join(data_dir@, "minecraftd"@), "extensions"@),
{
    let a = join(data_dir, "minecraftd");
    join(a.as_str(), "extensions")
}

/// Where a cached extension lives:
/// `<cache root>/<provider>/<mods|plugins>/<id>/<version_id>/extension.jar`.
pub fn extension_cache_path(data_dir: &str, provider: &str, type_: ExtensionType, id: &str, version_id: &str) -> (r: String)
    ensures
        r@ == path_join(path_join(path_join(path_join(path_join(path_join(path_join(data_dir@, "minecraftd"@), "extensions"@), provider@), type_dir(type_)), id@), version_id@), "extension.jar"@),
{
    let root = extension_cache_root_dir(data_dir);
    let a = join(root.as_str(), provider);
    let b = join(a.as_str(), type_dir_name(type_));
    let c = join(b.as_str(), id);
    let d = join(c.as_str(), version_id);
    join(d.as_str(), "extension.jar")
}

/// The file name of an extension's link: `<name>-<provider>-<id>-<version_id>.jar`.
pub open spec fn link_name(e: ExtensionEntry) -> Seq<char> {
    e.name@ + "-"@ + e.provider@ + "-"@ + e.id@ + "-"@ + e.version_id@ + ".jar"@
}

/// The file name of the link for `e`.
pub fn extension_link_name(e: &ExtensionEntry) -> (r: String)
    ensures
        r@ == link_name(*e),
{
    let mut s = e.name.clone();
    s.append("-");
    s.append(e.provider.as_str());
    s.append("-");
    s.append(e.id.as_str());
    s.append("-");
    s.append(e.version_id.as_str());
    s.append(".jar");
    s
}

/// A link found in a `mods` or `plugins` directory that points into the
/// extension cache.
#[derive(Debug, Clone)]
pub struct ManagedLink {
    pub type_: ExtensionType,
    pub provider: String,
    pub id: String,
    pub version_id: String,
}

/// What to do with a link, from the components of its target below the cache root.
#[derive(Debug, Clone)]
pub enum LinkClass {
    /// Not one of the daemon's links: leave it.
    Unmanaged,
    /// An extension of the other type in this directory: remove it.
    Misplaced,
    /// A link the daemon manages.
    Managed(ManagedLink),
}

/// How a link whose target, below the cache root, has these components is
/// treated in the directory for `dir_type`.
pub open spec fn link_class(c: Seq<Seq<char>>, dir_type: ExtensionType) -> Option<(ExtensionType, Seq<char>, Seq<char>, Seq<char>)> {
    if c.len() == 5 && (c[1] == "mods"@ || c[1] == "plugins"@) && (if c[1] == "mods"@ { ExtensionType::Mod } else { ExtensionType::Plugin }) == dir_type && c[4] == "extension.jar"@ {
        Some((dir_type, c[0], c[2], c[3]))
    } else {
        None
    }
}

/// The link is in the wrong directory for its type.
pub open spec fn link_misplaced(c: Seq<Seq<char>>, dir_type: ExtensionType) -> bool {
    c.len() == 5 && (c[1] == "mods"@ || c[1] == "plugins"@) && (if c[1] == "mods"@ { ExtensionType::Mod } else { ExtensionType::Plugin }) != dir_type
}

/// Classifies a link in the directory for `dir_type` by the components of
/// its target below the cache root (`<provider>/<type>/<id>/<version_id>/extension.jar`).
pub fn classify_link(components: &Vec<String>, dir_type: ExtensionType) -> (r: LinkClass)
    ensures
        ({
            let c = components@.map_values(|s: String| s@);
            match r {
                LinkClass::Misplaced => link_misplaced(c, dir_type),
                LinkClass::Managed(m) => link_class(c, dir_type) == Some((m.type_, m.provider@, m.id@, m.version_id@)),
                LinkClass::Unmanaged => !link_misplaced(c, dir_type) && link_class(c, dir_type) is None,
            }
        }),
{
    let ghost c = components@.map_values(|s: String| s@);
    if components.len() != 5 {
        return LinkClass::Unmanaged;
    }
    assert(c[1] == components@[1]@ && c[0] == components@[0]@ && c[2] == components@[2]@ && c[3] == components@[3]@ && c[4] == components@[4]@);
    let mods = String::from_str("mods");
    let plugins = String::from_str("plugins");
    let ty = if components[1].eq(&mods) {
        ExtensionType::Mod
    } else if components[1].eq(&plugins) {
        ExtensionType::Plugin
    } else {
        return LinkClass::Unmanaged;
    };
    if ty != dir_type {
        return LinkClass::Misplaced;
    }
    let jar = String::from_str("extension.jar");
    if !components[4].eq(&jar) {
        return LinkClass::Unmanaged;
    }
    LinkClass::Managed(ManagedLink {
        type_: ty,
        provider: components[0].clone(),
        id: components[2].clone(),
        version_id: components[3].clone(),
    })
}

/// A managed link stands for a manifest entry.
pub open spec fn link_matches(l: ManagedLink, e: ExtensionEntry) -> bool {
    l.type_ == e.type_ && l.provider@ == e.provider@ && l.id@ == e.id@ && l.version_id@ == e.version_id@
}

fn same_extension(l: &ManagedLink, e: &ExtensionEntry) -> (r: bool)
    ensures
        r == link_matches(*l, *e),
{
    l.type_ == e.type_ && l.provider.eq(&e.provider) && l.id.eq(&e.id) && l.version_id.eq(&e.version_id)
}

/// Which links to remove and which entries to link: a managed link that
/// stands for no manifest entry is removed; an entry that no managed link
/// stands for is linked. One flag per link and one per entry.
pub fn plan_links(links: &Vec<ManagedLink>, entries: &Vec<ExtensionEntry>) -> (r: (Vec<bool>, Vec<bool>))
    ensures
        r.0@.len() == links@.len(),
        r.1@.len() == entries@.len(),
        forall|i: int| 0 <= i < links@.len() ==> (#[trigger] r.0@[i] <==> forall|j: int| 0 <= j < entries@.len() ==> !link_matches(links@[i], #[trigger] entries@[j])),
        forall|j: int| 0 <= j < entries@.len() ==> (#[trigger] r.1@[j] <==> forall|i: int| 0 <= i < links@.len() ==> !link_matches(#[trigger] links@[i], entries@[j])),
{
    let mut remove: Vec<bool> = Vec::new();
    let mut i: usize = 0;
    while i < links.len()
        invariant
            i <= links@.len(),
            remove@.len() == i,
            forall|a: int| 0 <= a < i ==> (#[trigger] remove@[a] <==> forall|j: int| 0 <= j < entries@.len() ==> !link_matches(links@[a], #[trigger] entries@[j])),
        decreases links@.len() - i,
    {
        let mut found = false;
        let mut j: usize = 0;
        while j < entries.len()
            invariant
                i < links@.len(),
                j <= entries@.len(),
                found <==> exists|b: int| 0 <= b < j && link_matches(links@[i as int], #[trigger] entries@[b]),
            decreases entries@.len() - j,
        {
            if same_extension(&links[i], &entries[j]) {
                found = true;
            }
            j = j + 1;
        }
        remove.push(!found);
        i = i + 1;
    }
    let mut create: Vec<bool> = Vec::new();
    let mut j: usize = 0;
    while j < entries.len()
        invariant
            j <= entries@.len(),
            create@.len() == j,
            forall|b: int| 0 <= b < j ==> (#[trigger] create@[b] <==> forall|i: int| 0 <= i < links@.len() ==> !link_matches(#[trigger] links@[i], entries@[b])),
        decreases entries@.len() - j,
    {
        let mut found = false;
        let mut i: usize = 0;
        while i < links.len()
            invariant
                j < entries@.len(),
                i <= links@.len(),
                found <==> exists|a: int| 0 <= a < i && link_matches(#[trigger] links@[a], entries@[j as int]),
            decreases links@.len() - i,
        {
            if same_extension(&links[i], &entries[j]) {
                found = true;
            }
            i = i + 1;
        }
        create.push(!found);
        j = j + 1;
    }
    (remove, create)
}

/// What a provider tells of an extension.
#[derive(Debug, Clone)]
pub struct ExtensionInfo {
    pub id: String,
    pub type_: ExtensionType,
    pub name: String,
}

/// One version of an extension, with the extensions it depends on.
#[derive(Debug, Clone)]
pub struct ExtensionVersionInfo {
    pub id: String,
    pub version: String,
    pub is_stable: bool,
    pub dependencies: Vec<ExntensionDependency>,
}

/// An extension another one depends on, at a given version or any.
#[derive(Debug, Clone)]
pub struct ExntensionDependency {
    pub extension_id: String,
    pub extension_version_id: Option<String>,
}

/// The extensions an add request installed, the requested one and its
/// dependencies.
#[derive(Debug)]
pub struct AddExtensionResult {
    pub added_extensions: Vec<ExtensionInfo>,
}

/// The entry is of this provider and id.
pub open spec fn is_entry_for(e: ExtensionEntry, provider: Seq<char>, id: Seq<char>) -> bool {
    e.provider@ == provider && e.id@ == id
}

/// The manifest already has the extension: at the given version, or at any
/// version where none is given.
pub open spec fn already_added(entries: Seq<ExtensionEntry>, provider: Seq<char>, id: Seq<char>, version_id: Option<Seq<char>>) -> bool {
    exists|i: int|
        0 <= i < entries.len() && is_entry_for(#[trigger] entries[i], provider, id) && match version_id {
            Some(v) => entries[i].version_id@ == v,
            None => true,
        }
}

/// Whether the manifest already has the extension (at `version_id` where given).
pub fn is_already_added(entries: &Vec<ExtensionEntry>, provider: &str, id: &str, version_id: Option<&str>) -> (r: bool)
    ensures
        r == already_added(entries@, provider@, id@, match version_id {
            Some(v) => Some(v@),
            None => None,
        }),
{
    let p = String::from_str(provider);
    let k = String::from_str(id);
    let v = match version_id {
        Some(v) => Some(String::from_str(v)),
        None => None,
    };
    let ghost vv = match version_id {
        Some(v) => Some(v@),
        None => None::<Seq<char>>,
    };
    assert(vv == match version_id {
        Some(v) => Some(v@),
        None => None::<Seq<char>>,
    });
    let mut i: usize = 0;
    while i < entries.len()
        invariant
            i <= entries@.len(),
            p@ == provider@,
            k@ == id@,
            vv == match version_id {
                Some(v) => Some(v@),
                None => None::<Seq<char>>,
            },
            match v {
                Some(x) => vv == Some(x@),
                None => vv is None,
            },
            forall|j: int| 0 <= j < i ==> !(is_entry_for(#[trigger] entries@[j], provider@, id@) && match vv {
                Some(x) => entries@[j].version_id@ == x,
                None => true,
            }),
        decreases entries@.len() - i,
    {
        let e = &entries[i];
        if e.provider.eq(&p) && e.id.eq(&k) {
            let version_ok = match &v {
                Some(x) => e.version_id.eq(x),
                None => true,
            };
            if version_ok {
                assert(is_entry_for(entries@[i as int], provider@, id@));
                assert(match vv {
                    Some(x) => entries@[i as int].version_id@ == x,
                    None => true,
                });
                assert(already_added(entries@, provider@, id@, vv));
                return true;
            }
        }
        i = i + 1;
    }
    false
}

proof fn lemma_filter_step(s: Seq<ExtensionEntry>, j: int, pred: spec_fn(ExtensionEntry) -> bool)
    requires
        0 <= j < s.len(),
    ensures
        s.take(j + 1).filter(pred) == (if pred(s[j]) {
            s.take(j).filter(pred).push(s[j])
        } else {
            s.take(j).filter(pred)
        }),
{
    let a = s.take(j);
    let x = seq![s[j]];
    assert(s.take(j + 1) =~= a + x);
    Seq::filter_distributes_over_add(a, x, pred);
    assert(x.drop_last() =~= Seq::<ExtensionEntry>::empty());
    assert(x.last() == s[j]);
    reveal_with_fuel(Seq::<ExtensionEntry>::filter, 2);
    assert(x.drop_last().filter(pred) =~= Seq::<ExtensionEntry>::empty());
    if pred(s[j]) {
        assert(x.filter(pred) =~= x);
        assert(a.filter(pred) + x =~= a.filter(pred).push(s[j]));
    } else {
        assert(x.filter(pred) =~= Seq::<ExtensionEntry>::empty());
        assert(a.filter(pred) + Seq::<ExtensionEntry>::empty() =~= a.filter(pred));
    }
}

/// Drops every entry of this provider and id, keeping the others in order.
pub fn remove_extension_entries(entries: &mut Vec<ExtensionEntry>, provider: &str, id: &str)
    ensures
        final(entries)@ == old(entries)@.filter(|e: ExtensionEntry| !is_entry_for(e, provider@, id@)),
{
    let p = String::from_str(provider);
    let k = String::from_str(id);
    let ghost pred = |e: ExtensionEntry| !is_entry_for(e, provider@, id@);
    let ghost o = old(entries)@;
    let ghost mut j: int = 0;
    let mut i: usize = 0;
    assert(o.take(0).filter(pred) =~= Seq::<ExtensionEntry>::empty());
    assert(entries@.subrange(0, 0) =~= Seq::<ExtensionEntry>::empty());
    assert(entries@.skip(0) =~= o.skip(0));
    while i < entries.len()
        invariant
            p@ == provider@,
            k@ == id@,
            pred == (|e: ExtensionEntry| !is_entry_for(e, provider@, id@)),
            0 <= j <= o.len(),
            i <= entries@.len(),
            entries@.subrange(0, i as int) == o.take(j).filter(pred),
            entries@.skip(i as int) == o.skip(j),
        decreases entries@.len() - i,
    {
        assert(o.skip(j).len() == entries@.len() - i);
        assert(j < o.len());
        assert(entries@[i as int] == o.skip(j)[0]);
        proof {
            lemma_filter_step(o, j, pred);
        }
        if entries[i].provider.eq(&p) && entries[i].id.eq(&k) {
            let ghost before = entries@;
            assert(!pred(o[j]));
            entries.remove(i);
            assert(entries@.subrange(0, i as int) =~= before.subrange(0, i as int));
            assert(o.skip(j + 1) =~= o.skip(j).skip(1));
            assert(entries@.skip(i as int) =~= before.skip(i as int).skip(1));
            assert(entries@.skip(i as int) =~= o.skip(j + 1));
        } else {
            assert(pred(o[j]));
            assert(entries@.subrange(0, i + 1) =~= entries@.subrange(0, i as int).push(o[j]));
            assert(o.skip(j + 1) =~= o.skip(j).skip(1));
            assert(entries@.skip(i + 1) =~= entries@.skip(i as int).skip(1));
            assert(entries@.skip(i + 1) =~= o.skip(j + 1));
            i = i + 1;
        }
        proof {
            j = j + 1;
        }
    }
    assert(o.skip(j).len() == 0);
    assert(o.take(j) =~= o);
    assert(entries@ =~= entries@.subrange(0, i as int));
}

/// The version to install where none was asked for: the first stable one,
/// else the first one; `None` where there is no version.
pub fn pick_version(versions: &Vec<ExtensionVersionInfo>) -> (r: Option<usize>)
    ensures
        versions@.len() == 0 ==> r is None,
        versions@.len() > 0 ==> (r matches Some(i) && i < versions@.len() && (
            if exists|j: int| 0 <= j < versions@.len() && #[trigger] versions@[j].is_stable {
                versions@[i as int].is_stable && forall|j: int| 0 <= j < i ==> !(#[trigger] versions@[j].is_stable)
            } else {
                i == 0
            }
        )),
{
    if versions.len() == 0 {
        return None;
    }
    let mut i: usize = 0;
    while i < versions.len()
        invariant
            i <= versions@.len(),
            forall|j: int| 0 <= j < i ==> !(#[trigger] versions@[j].is_stable),
        decreases versions@.len() - i,
    {
        if versions[i].is_stable {
            return Some(i);
        }
        i = i + 1;
    }
    Some(0)
}

/// An extension still to be added: its id, and its version where one was asked for.
#[derive(Debug, Clone)]
pub struct PendingExtension {
    pub id: String,
    pub version_id: Option<String>,
}

/// Two entries name the same extension of the same provider.
pub open spec fn same_key(a: ExtensionEntry, b: ExtensionEntry) -> bool {
    a.provider@ == b.provider@ && a.id@ == b.id@
}

/// No two entries name the same extension of the same provider.
pub open spec fn entry_keys_unique(entries: Seq<ExtensionEntry>) -> bool {
    forall|i: int, j: int| 0 <= i < j < entries.len() ==> !same_key(#[trigger] entries[i], #[trigger] entries[j])
}

proof fn lemma_filter_keeps_unique(s: Seq<ExtensionEntry>, pred: spec_fn(ExtensionEntry) -> bool)
    ensures
        entry_keys_unique(s) ==> entry_keys_unique(s.filter(pred)),
        forall|k: int| 0 <= k < s.filter(pred).len() ==> exists|i: int| 0 <= i < s.len() && s[i] == #[trigger] s.filter(pred)[k],
    decreases s.len(),
{
    reveal_with_fuel(Seq::<ExtensionEntry>::filter, 2);
    if s.len() > 0 {
        let d = s.drop_last();
        lemma_filter_keeps_unique(d, pred);
        let f0 = d.filter(pred);
        assert forall|k: int| 0 <= k < f0.len() implies exists|i: int| 0 <= i < s.len() - 1 && s[i] == #[trigger] f0[k] by {
            let i = choose|i: int| 0 <= i < d.len() && d[i] == f0[k];
            assert(s[i] == d[i]);
        }
        if pred(s.last()) {
            assert(s.filter(pred) == f0.push(s.last()));
            let f = s.filter(pred);
            assert forall|k: int| 0 <= k < f.len() implies exists|i: int| 0 <= i < s.len() && s[i] == #[trigger] f[k] by {
                if k < f0.len() {
                    assert(f[k] == f0[k]);
                } else {
                    assert(s[s.len() - 1] == f[k]);
                }
            }
            if entry_keys_unique(s) {
                assert forall|a: int, b: int| 0 <= a < b < d.len() implies !same_key(#[trigger] d[a], #[trigger] d[b]) by {
                    assert(d[a] == s[a] && d[b] == s[b]);
                }
                assert forall|a: int, b: int| 0 <= a < b < f.len() implies !same_key(#[trigger] f[a], #[trigger] f[b]) by {
                    if b < f0.len() {
                        assert(f[a] == f0[a] && f[b] == f0[b]);
                    } else {
                        assert(f[a] == f0[a]);
                        let i = choose|i: int| 0 <= i < s.len() - 1 && s[i] == f0[a];
                        assert(f[b] == s[s.len() - 1]);
                        assert(!same_key(s[i], s[s.len() - 1]));
                    }
                }
            }
        } else {
            assert(s.filter(pred) == f0);
            if entry_keys_unique(s) {
                assert forall|a: int, b: int| 0 <= a < b < d.len() implies !same_key(#[trigger] d[a], #[trigger] d[b]) by {
                    assert(d[a] == s[a] && d[b] == s[b]);
                }
            }
        }
    }
}

/// Whether a pending extension still has to be fetched: not where the
/// manifest already has it (at the asked version, where one was asked).
pub fn add_needed(entries: &Vec<ExtensionEntry>, provider: &str, pending: &PendingExtension) -> (r: bool)
    ensures
        r == !already_added(entries@, provider@, pending.id@, match pending.version_id {
            Some(v) => Some(v@),
            None => None,
        }),
{
    let v = match &pending.version_id {
        Some(v) => Some(v.as_str()),
        None => None,
    };
    !is_already_added(entries, provider, pending.id.as_str(), v)
}

/// Records the provider's answer for a pending extension: every other
/// version of it leaves the manifest, the chosen version is appended, and
/// each of its dependencies is queued.
pub fn add_extension_step(
    entries: &mut Vec<ExtensionEntry>,
    queue: &mut Vec<PendingExtension>,
    provider: &str,
    type_: ExtensionType,
    id: &str,
    name: &str,
    version: &ExtensionVersionInfo,
)
    ensures
        final(entries)@.len() > 0,
        final(entries)@.drop_last() == old(entries)@.filter(|e: ExtensionEntry| !is_entry_for(e, provider@, id@)),
        final(entries)@.last().name@ == name@,
        final(entries)@.last().type_ == type_,
        final(entries)@.last().provider@ == provider@,
        final(entries)@.last().id@ == id@,
        final(entries)@.last().version_id@ == version.id@,
        !final(entries)@.last().auto_update,
        entry_keys_unique(old(entries)@) ==> entry_keys_unique(final(entries)@),
        final(queue)@.len() == old(queue)@.len() + version.dependencies@.len(),
        forall|i: int| 0 <= i < old(queue)@.len() ==> #[trigger] final(queue)@[i] == old(queue)@[i],
        forall|d: int| #![trigger version.dependencies@[d]] 0 <= d < version.dependencies@.len() ==> {
            &&& final(queue)@[old(queue)@.len() + d].id@ == version.dependencies@[d].extension_id@
            &&& match version.dependencies@[d].extension_version_id {
                Some(v) => final(queue)@[old(queue)@.len() + d].version_id matches Some(w) && w@ == v@,
                None => final(queue)@[old(queue)@.len() + d].version_id is None,
            }
        },
{
    remove_extension_entries(entries, provider, id);
    let ghost kept = entries@;
    proof {
        lemma_filter_keeps_unique(old(entries)@, |e: ExtensionEntry| !is_entry_for(e, provider@, id@));
    }
    entries.push(ExtensionEntry {
        name: String::from_str(name),
        type_,
        provider: String::from_str(provider),
        id: String::from_str(id),
        version_id: version.id.clone(),
        auto_update: false,
    });
    assert(entries@.drop_last() =~= kept);
    proof {
        if entry_keys_unique(old(entries)@) {
            let pred = |e: ExtensionEntry| !is_entry_for(e, provider@, id@);
            assert forall|a: int, b: int| 0 <= a < b < entries@.len() implies !same_key(#[trigger] entries@[a], #[trigger] entries@[b]) by {
                if b < kept.len() {
                    assert(entries@[a] == kept[a] && entries@[b] == kept[b]);
                } else {
                    assert(entries@[a] == kept[a]);
                    assert(kept.len() == old(entries)@.filter(pred).len());
                    assert(pred(old(entries)@.filter(pred)[a])) by {
                        old(entries)@.lemma_filter_pred(pred, a);
                    }
                }
            }
        }
    }
    let ghost q0 = queue@;
    let mut d: usize = 0;
    while d < version.dependencies.len()
        invariant
            d <= version.dependencies@.len(),
            queue@.len() == q0.len() + d,
            forall|i: int| 0 <= i < q0.len() ==> #[trigger] queue@[i] == q0[i],
            forall|k: int| #![trigger version.dependencies@[k]] 0 <= k < d ==> {
                &&& queue@[q0.len() + k].id@ == version.dependencies@[k].extension_id@
                &&& match version.dependencies@[k].extension_version_id {
                    Some(v) => queue@[q0.len() + k].version_id matches Some(w) && w@ == v@,
                    None => queue@[q0.len() + k].version_id is None,
                }
            },
        decreases version.dependencies@.len() - d,
    {
        let dep = &version.dependencies[d];
        let version_id = match &dep.extension_version_id {
            Some(v) => Some(v.clone()),
            None => None,
        };
        queue.push(PendingExtension { id: dep.extension_id.clone(), version_id });
        d = d + 1;
    }
}

} // verus!
