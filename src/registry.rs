//! The registry of running servers: records keyed by id, with an index from
//! proxy hostname to id and one from canonical server directory to id, kept
//! in step with the records by every operation.
use crate::status::{killed_status, mark_killed, mark_ready, mark_stopping, ready_status, status_step, stopping_status, ServerStatus};
use vstd::prelude::*;

verus! {

/// One running server.
#[derive(Debug)]
pub struct ServerRecord<T> {
    /// Fresh for each run.
    pub id: u128,
    /// The canonical server directory.
    pub server_dir: String,
    /// The hostname it is reached under through the proxy; `None` in direct mode.
    pub hostname: Option<String>,
    pub status: ServerStatus,
    /// The port the server itself listens on.
    pub server_port: u16,
    /// What else the supervisor keeps for it (process, terminal, RCON).
    pub data: T,
}

/// What a record says of its server.
pub struct RecordView {
    pub id: u128,
    pub server_dir: Seq<char>,
    pub hostname: Option<Seq<char>>,
    pub status: ServerStatus,
    pub server_port: u16,
}

impl<T> View for ServerRecord<T> {
    type V = RecordView;

    open spec fn view(&self) -> RecordView {
        RecordView {
            id: self.id,
            server_dir: self.server_dir@,
            hostname: match self.hostname {
                Some(h) => Some(h@),
                None => None,
            },
            status: self.status,
            server_port: self.server_port,
        }
    }
}

/// Why a record could not be registered.
#[derive(Debug, Clone, Copy, PartialEq, Eq, Structural)]
pub enum RegistryError {
    /// A server runs from the same directory.
    AlreadyRunning,
    /// A record has the same id.
    DuplicateId,
    /// A server runs under the same proxy hostname.
    HostnameTaken,
}

/// The running servers and their two indexes.
#[derive(Debug)]
pub struct RunningServers<T> {
    servers: Vec<ServerRecord<T>>,
    hostname_to_id: Vec<(String, u128)>,
    server_dir_to_id: Vec<(String, u128)>,
}

/// The keys and ids of an index.
pub open spec fn index_view(v: Seq<(String, u128)>) -> Seq<(Seq<char>, u128)> {
    v.map_values(|e: (String, u128)| (e.0@, e.1))
}

/// No two records share an id, a directory, or a proxy hostname.
pub open spec fn records_unique(rs: Seq<RecordView>) -> bool {
    forall|i: int, j: int|
        0 <= i < rs.len() && 0 <= j < rs.len() && i != j ==> {
            &&& #[trigger] rs[i].id != #[trigger] rs[j].id
            &&& rs[i].server_dir != rs[j].server_dir
            &&& (rs[i].hostname is Some ==> rs[i].hostname != rs[j].hostname)
        }
}

/// No two entries of an index share a key.
pub open spec fn keys_unique(ix: Seq<(Seq<char>, u128)>) -> bool {
    forall|k: int, l: int| 0 <= k < ix.len() && 0 <= l < ix.len() && k != l ==> #[trigger] ix[k].0 != #[trigger] ix[l].0
}

/// Some record has the hostname and id of index entry `e`.
pub open spec fn names_host_record(rs: Seq<RecordView>, e: (Seq<char>, u128)) -> bool {
    exists|i: int| #![trigger rs[i]] 0 <= i < rs.len() && rs[i].id == e.1 && rs[i].hostname == Some(e.0)
}

/// The hostname index has the entry of record `r`.
pub open spec fn has_host_entry(hi: Seq<(Seq<char>, u128)>, r: RecordView) -> bool {
    exists|k: int| #![trigger hi[k]] 0 <= k < hi.len() && hi[k] == (r.hostname->Some_0, r.id)
}

/// Some record has the directory and id of index entry `e`.
pub open spec fn names_dir_record(rs: Seq<RecordView>, e: (Seq<char>, u128)) -> bool {
    exists|i: int| #![trigger rs[i]] 0 <= i < rs.len() && rs[i].id == e.1 && rs[i].server_dir == e.0
}

/// The directory index has the entry of record `r`.
pub open spec fn has_dir_entry(di: Seq<(Seq<char>, u128)>, r: RecordView) -> bool {
    exists|k: int| #![trigger di[k]] 0 <= k < di.len() && di[k] == (r.server_dir, r.id)
}

/// Every hostname entry names a record with that hostname and id.
#[verifier::opaque]
pub open spec fn host_index_sound(rs: Seq<RecordView>, hi: Seq<(Seq<char>, u128)>) -> bool {
    forall|k: int| 0 <= k < hi.len() ==> #[trigger] names_host_record(rs, hi[k])
}

/// Every proxied record has its hostname entry.
#[verifier::opaque]
pub open spec fn host_index_complete(rs: Seq<RecordView>, hi: Seq<(Seq<char>, u128)>) -> bool {
    forall|i: int| 0 <= i < rs.len() && rs[i].hostname is Some ==> #[trigger] has_host_entry(hi, rs[i])
}

/// Every directory entry names a record with that directory and id.
#[verifier::opaque]
pub open spec fn dir_index_sound(rs: Seq<RecordView>, di: Seq<(Seq<char>, u128)>) -> bool {
    forall|k: int| 0 <= k < di.len() ==> #[trigger] names_dir_record(rs, di[k])
}

/// Every record has its directory entry.
#[verifier::opaque]
pub open spec fn dir_index_complete(rs: Seq<RecordView>, di: Seq<(Seq<char>, u128)>) -> bool {
    forall|i: int| 0 <= i < rs.len() ==> #[trigger] has_dir_entry(di, rs[i])
}

/// The records are unique by id, directory and hostname, and both indexes
/// hold exactly the records' keys.
pub open spec fn registry_wf(rs: Seq<RecordView>, hi: Seq<(Seq<char>, u128)>, di: Seq<(Seq<char>, u128)>) -> bool {
    &&& records_unique(rs)
    &&& keys_unique(hi)
    &&& keys_unique(di)
    &&& host_index_sound(rs, hi)
    &&& host_index_complete(rs, hi)
    &&& dir_index_sound(rs, di)
    &&& dir_index_complete(rs, di)
}

/// The index entries a record brings: its hostname entry, if proxied.
pub open spec fn host_entries(r: RecordView) -> Seq<(Seq<char>, u128)> {
    match r.hostname {
        Some(h) => seq![(h, r.id)],
        None => Seq::empty(),
    }
}

proof fn lemma_insert_unique(rs: Seq<RecordView>, r: RecordView)
    requires
        records_unique(rs),
        forall|i: int| 0 <= i < rs.len() ==> #[trigger] rs[i].id != r.id,
        forall|i: int| 0 <= i < rs.len() ==> #[trigger] rs[i].server_dir != r.server_dir,
        r.hostname is Some ==> forall|i: int| 0 <= i < rs.len() ==> #[trigger] rs[i].hostname != r.hostname,
    ensures
        records_unique(rs.push(r)),
{
    let rs2 = rs.push(r);
    let n = rs.len() as int;
    assert forall|i: int, j: int| 0 <= i < rs2.len() && 0 <= j < rs2.len() && i != j implies {
        &&& #[trigger] rs2[i].id != #[trigger] rs2[j].id
        &&& rs2[i].server_dir != rs2[j].server_dir
        &&& (rs2[i].hostname is Some ==> rs2[i].hostname != rs2[j].hostname)
    } by {
        if i < n && j < n {
            assert(rs2[i] == rs[i] && rs2[j] == rs[j]);
        } else if i == n {
            assert(rs2[j] == rs[j]);
        } else {
            assert(rs2[i] == rs[i]);
        }
    }
}

proof fn lemma_push_keys_unique(ix: Seq<(Seq<char>, u128)>, e: (Seq<char>, u128))
    requires
        keys_unique(ix),
        forall|k: int| 0 <= k < ix.len() ==> #[trigger] ix[k].0 != e.0,
    ensures
        keys_unique(ix.push(e)),
{
    let ix2 = ix.push(e);
    assert forall|k: int, l: int| 0 <= k < ix2.len() && 0 <= l < ix2.len() && k != l implies #[trigger] ix2[k].0 != #[trigger] ix2[l].0 by {
        if k < ix.len() && l < ix.len() {
            assert(ix2[k] == ix[k] && ix2[l] == ix[l]);
        } else if k < ix.len() {
            assert(ix2[k] == ix[k]);
        } else {
            assert(ix2[l] == ix[l]);
        }
    }
}

proof fn lemma_host_keys_absent(rs: Seq<RecordView>, hi: Seq<(Seq<char>, u128)>, h: Seq<char>)
    requires
        host_index_sound(rs, hi),
        forall|i: int| 0 <= i < rs.len() ==> #[trigger] rs[i].hostname != Some(h),
    ensures
        forall|k: int| 0 <= k < hi.len() ==> #[trigger] hi[k].0 != h,
{
    reveal(host_index_sound);
    assert forall|k: int| 0 <= k < hi.len() implies #[trigger] hi[k].0 != h by {
        assert(names_host_record(rs, hi[k]));
        let w = choose|i: int| #![trigger rs[i]] 0 <= i < rs.len() && rs[i].id == hi[k].1 && rs[i].hostname == Some(hi[k].0);
    }
}

proof fn lemma_dir_keys_absent(rs: Seq<RecordView>, di: Seq<(Seq<char>, u128)>, d: Seq<char>)
    requires
        dir_index_sound(rs, di),
        forall|i: int| 0 <= i < rs.len() ==> #[trigger] rs[i].server_dir != d,
    ensures
        forall|k: int| 0 <= k < di.len() ==> #[trigger] di[k].0 != d,
{
    reveal(dir_index_sound);
    assert forall|k: int| 0 <= k < di.len() implies #[trigger] di[k].0 != d by {
        assert(names_dir_record(rs, di[k]));
        let w = choose|i: int| #![trigger rs[i]] 0 <= i < rs.len() && rs[i].id == di[k].1 && rs[i].server_dir == di[k].0;
    }
}

proof fn lemma_insert_host_sound(rs: Seq<RecordView>, hi: Seq<(Seq<char>, u128)>, r: RecordView)
    requires
        host_index_sound(rs, hi),
    ensures
        host_index_sound(rs.push(r), hi + host_entries(r)),
{
    reveal(host_index_sound);
    let rs2 = rs.push(r);
    let hi2 = hi + host_entries(r);
    assert forall|k: int| 0 <= k < hi2.len() implies #[trigger] names_host_record(rs2, hi2[k]) by {
        if k < hi.len() {
            assert(hi2[k] == hi[k]);
            assert(names_host_record(rs, hi[k]));
            let w = choose|i: int| #![trigger rs[i]] 0 <= i < rs.len() && rs[i].id == hi[k].1 && rs[i].hostname == Some(hi[k].0);
            assert(rs2[w] == rs[w]);
        } else {
            assert(rs2[rs.len() as int] == r);
        }
    }
}

proof fn lemma_insert_host_complete(rs: Seq<RecordView>, hi: Seq<(Seq<char>, u128)>, r: RecordView)
    requires
        host_index_complete(rs, hi),
    ensures
        host_index_complete(rs.push(r), hi + host_entries(r)),
{
    reveal(host_index_complete);
    let rs2 = rs.push(r);
    let hi2 = hi + host_entries(r);
    assert forall|i: int| 0 <= i < rs2.len() && rs2[i].hostname is Some implies #[trigger] has_host_entry(hi2, rs2[i]) by {
        if i < rs.len() {
            assert(rs2[i] == rs[i]);
            assert(has_host_entry(hi, rs[i]));
            let w = choose|k: int| #![trigger hi[k]] 0 <= k < hi.len() && hi[k] == (rs[i].hostname->Some_0, rs[i].id);
            assert(hi2[w] == hi[w]);
        } else {
            assert(hi2[hi.len() as int] == (r.hostname->Some_0, r.id));
        }
    }
}

proof fn lemma_insert_dir_sound(rs: Seq<RecordView>, di: Seq<(Seq<char>, u128)>, r: RecordView)
    requires
        dir_index_sound(rs, di),
    ensures
        dir_index_sound(rs.push(r), di.push((r.server_dir, r.id))),
{
    reveal(dir_index_sound);
    let rs2 = rs.push(r);
    let di2 = di.push((r.server_dir, r.id));
    assert forall|k: int| 0 <= k < di2.len() implies #[trigger] names_dir_record(rs2, di2[k]) by {
        if k < di.len() {
            assert(di2[k] == di[k]);
            assert(names_dir_record(rs, di[k]));
            let w = choose|i: int| #![trigger rs[i]] 0 <= i < rs.len() && rs[i].id == di[k].1 && rs[i].server_dir == di[k].0;
            assert(rs2[w] == rs[w]);
        } else {
            assert(rs2[rs.len() as int] == r);
        }
    }
}

proof fn lemma_insert_dir_complete(rs: Seq<RecordView>, di: Seq<(Seq<char>, u128)>, r: RecordView)
    requires
        dir_index_complete(rs, di),
    ensures
        dir_index_complete(rs.push(r), di.push((r.server_dir, r.id))),
{
    reveal(dir_index_complete);
    let rs2 = rs.push(r);
    let di2 = di.push((r.server_dir, r.id));
    assert forall|i: int| 0 <= i < rs2.len() implies #[trigger] has_dir_entry(di2, rs2[i]) by {
        if i < rs.len() {
            assert(rs2[i] == rs[i]);
            assert(has_dir_entry(di, rs[i]));
            let w = choose|k: int| #![trigger di[k]] 0 <= k < di.len() && di[k] == (rs[i].server_dir, rs[i].id);
            assert(di2[w] == di[w]);
        } else {
            assert(di2[di.len() as int] == (r.server_dir, r.id));
        }
    }
}

proof fn lemma_insert_preserves(rs: Seq<RecordView>, hi: Seq<(Seq<char>, u128)>, di: Seq<(Seq<char>, u128)>, r: RecordView)
    requires
        registry_wf(rs, hi, di),
        forall|i: int| 0 <= i < rs.len() ==> #[trigger] rs[i].id != r.id,
        forall|i: int| 0 <= i < rs.len() ==> #[trigger] rs[i].server_dir != r.server_dir,
        r.hostname is Some ==> forall|i: int| 0 <= i < rs.len() ==> #[trigger] rs[i].hostname != r.hostname,
    ensures
        registry_wf(rs.push(r), hi + host_entries(r), di.push((r.server_dir, r.id))),
{
    lemma_insert_unique(rs, r);
    match r.hostname {
        Some(h) => {
            lemma_host_keys_absent(rs, hi, h);
            lemma_push_keys_unique(hi, (h, r.id));
            assert(hi + host_entries(r) =~= hi.push((h, r.id)));
        },
        None => {
            assert(hi + host_entries(r) =~= hi);
        },
    }
    lemma_dir_keys_absent(rs, di, r.server_dir);
    lemma_push_keys_unique(di, (r.server_dir, r.id));
    lemma_insert_host_sound(rs, hi, r);
    lemma_insert_host_complete(rs, hi, r);
    lemma_insert_dir_sound(rs, di, r);
    lemma_insert_dir_complete(rs, di, r);
}

/// The sequence without its element at `p`, indexed.
proof fn lemma_remove_index<A>(s: Seq<A>, p: int)
    requires
        0 <= p < s.len(),
    ensures
        s.remove(p).len() == s.len() - 1,
        forall|j: int| 0 <= j < s.len() - 1 ==> #[trigger] s.remove(p)[j] == if j < p { s[j] } else { s[j + 1] },
{
}

proof fn lemma_remove_unique(rs: Seq<RecordView>, p: int)
    requires
        records_unique(rs),
        0 <= p < rs.len(),
    ensures
        records_unique(rs.remove(p)),
{
    lemma_remove_index(rs, p);
    let rs2 = rs.remove(p);
    assert forall|i: int, j: int| 0 <= i < rs2.len() && 0 <= j < rs2.len() && i != j implies {
        &&& #[trigger] rs2[i].id != #[trigger] rs2[j].id
        &&& rs2[i].server_dir != rs2[j].server_dir
        &&& (rs2[i].hostname is Some ==> rs2[i].hostname != rs2[j].hostname)
    } by {
        let a = if i < p { i } else { i + 1 };
        let b = if j < p { j } else { j + 1 };
        assert(rs2[i] == rs[a] && rs2[j] == rs[b]);
        assert(a != b);
        assert(rs[a].id != rs[b].id);
        assert(rs2[i].id != rs2[j].id);
    }
}

proof fn lemma_remove_keys_unique(ix: Seq<(Seq<char>, u128)>, m: int)
    requires
        keys_unique(ix),
        0 <= m < ix.len(),
    ensures
        keys_unique(ix.remove(m)),
{
    lemma_remove_index(ix, m);
    let ix2 = ix.remove(m);
    assert forall|k: int, l: int| 0 <= k < ix2.len() && 0 <= l < ix2.len() && k != l implies #[trigger] ix2[k].0 != #[trigger] ix2[l].0 by {
        let a = if k < m { k } else { k + 1 };
        let b = if l < m { l } else { l + 1 };
        assert(ix2[k] == ix[a] && ix2[l] == ix[b]);
    }
}

proof fn lemma_remove_host_sound(rs: Seq<RecordView>, hi: Seq<(Seq<char>, u128)>, p: int, hi2: Seq<(Seq<char>, u128)>, kk: int)
    requires
        host_index_sound(rs, hi),
        keys_unique(hi),
        0 <= p < rs.len(),
        rs[p].hostname is None ==> hi2 == hi && kk == hi.len(),
        rs[p].hostname is Some ==> 0 <= kk < hi.len() && hi[kk].0 == rs[p].hostname->Some_0 && hi2 == hi.remove(kk),
    ensures
        host_index_sound(rs.remove(p), hi2),
{
    reveal(host_index_sound);
    lemma_remove_index(rs, p);
    let rs2 = rs.remove(p);
    if rs[p].hostname is Some {
        lemma_remove_index(hi, kk);
    }
    let rs2 = rs.remove(p);
    assert forall|k: int| 0 <= k < hi2.len() implies #[trigger] names_host_record(rs2, hi2[k]) by {
        let a = if k < kk { k } else { k + 1 };
        assert(hi2[k] == hi[a]);
        assert(names_host_record(rs, hi[a]));
        let w = choose|i: int| #![trigger rs[i]] 0 <= i < rs.len() && rs[i].id == hi[a].1 && rs[i].hostname == Some(hi[a].0);
        if w == p {
            assert(hi[kk].0 == hi[a].0);
            assert(false);
        }
        let w2 = if w < p { w } else { w - 1 };
        assert(rs2[w2] == rs[w]);
    }
}

proof fn lemma_remove_host_complete(rs: Seq<RecordView>, hi: Seq<(Seq<char>, u128)>, p: int, hi2: Seq<(Seq<char>, u128)>, kk: int)
    requires
        host_index_complete(rs, hi),
        records_unique(rs),
        0 <= p < rs.len(),
        rs[p].hostname is None ==> hi2 == hi && kk == hi.len(),
        rs[p].hostname is Some ==> 0 <= kk < hi.len() && hi[kk].0 == rs[p].hostname->Some_0 && hi2 == hi.remove(kk),
    ensures
        host_index_complete(rs.remove(p), hi2),
{
    reveal(host_index_complete);
    lemma_remove_index(rs, p);
    if rs[p].hostname is Some {
        lemma_remove_index(hi, kk);
    }
    let rs2 = rs.remove(p);
    assert forall|i: int| 0 <= i < rs2.len() && rs2[i].hostname is Some implies #[trigger] has_host_entry(hi2, rs2[i]) by {
        let a = if i < p { i } else { i + 1 };
        assert(rs2[i] == rs[a]);
        assert(has_host_entry(hi, rs[a]));
        let w = choose|k: int| #![trigger hi[k]] 0 <= k < hi.len() && hi[k] == (rs[a].hostname->Some_0, rs[a].id);
        if rs[p].hostname is Some && w == kk {
            assert(rs[a].id != rs[p].id);
            assert(rs[a].hostname == rs[p].hostname);
            assert(false);
        }
        let w2 = if w < kk { w } else { w - 1 };
        assert(hi2[w2] == hi[w]);
    }
}

proof fn lemma_remove_dir_sound(rs: Seq<RecordView>, di: Seq<(Seq<char>, u128)>, p: int, m: int)
    requires
        dir_index_sound(rs, di),
        keys_unique(di),
        0 <= p < rs.len(),
        0 <= m < di.len(),
        di[m].0 == rs[p].server_dir,
    ensures
        dir_index_sound(rs.remove(p), di.remove(m)),
{
    reveal(dir_index_sound);
    lemma_remove_index(rs, p);
    lemma_remove_index(di, m);
    let rs2 = rs.remove(p);
    let di2 = di.remove(m);
    assert forall|k: int| 0 <= k < di2.len() implies #[trigger] names_dir_record(rs2, di2[k]) by {
        let a = if k < m { k } else { k + 1 };
        assert(di2[k] == di[a]);
        assert(names_dir_record(rs, di[a]));
        let w = choose|i: int| #![trigger rs[i]] 0 <= i < rs.len() && rs[i].id == di[a].1 && rs[i].server_dir == di[a].0;
        if w == p {
            assert(di[m].0 == di[a].0);
            assert(false);
        }
        let w2 = if w < p { w } else { w - 1 };
        assert(rs2[w2] == rs[w]);
    }
}

proof fn lemma_remove_dir_complete(rs: Seq<RecordView>, di: Seq<(Seq<char>, u128)>, p: int, m: int)
    requires
        dir_index_complete(rs, di),
        records_unique(rs),
        0 <= p < rs.len(),
        0 <= m < di.len(),
        di[m].0 == rs[p].server_dir,
    ensures
        dir_index_complete(rs.remove(p), di.remove(m)),
{
    reveal(dir_index_complete);
    lemma_remove_index(rs, p);
    lemma_remove_index(di, m);
    let rs2 = rs.remove(p);
    let di2 = di.remove(m);
    assert forall|i: int| 0 <= i < rs2.len() implies #[trigger] has_dir_entry(di2, rs2[i]) by {
        let a = if i < p { i } else { i + 1 };
        assert(rs2[i] == rs[a]);
        assert(has_dir_entry(di, rs[a]));
        let w = choose|k: int| #![trigger di[k]] 0 <= k < di.len() && di[k] == (rs[a].server_dir, rs[a].id);
        if w == m {
            assert(rs[a].id != rs[p].id);
            assert(false);
        }
        let w2 = if w < m { w } else { w - 1 };
        assert(di2[w2] == di[w]);
    }
}

proof fn lemma_remove_preserves(rs: Seq<RecordView>, hi: Seq<(Seq<char>, u128)>, di: Seq<(Seq<char>, u128)>, p: int, hi2: Seq<(Seq<char>, u128)>, kk: int, m: int)
    requires
        registry_wf(rs, hi, di),
        0 <= p < rs.len(),
        0 <= m < di.len(),
        di[m].0 == rs[p].server_dir,
        rs[p].hostname is None ==> hi2 == hi && kk == hi.len(),
        rs[p].hostname is Some ==> 0 <= kk < hi.len() && hi[kk].0 == rs[p].hostname->Some_0 && hi2 == hi.remove(kk),
    ensures
        registry_wf(rs.remove(p), hi2, di.remove(m)),
{
    lemma_remove_unique(rs, p);
    if rs[p].hostname is Some {
        lemma_remove_keys_unique(hi, kk);
    }
    lemma_remove_keys_unique(di, m);
    lemma_remove_host_sound(rs, hi, p, hi2, kk);
    lemma_remove_host_complete(rs, hi, p, hi2, kk);
    lemma_remove_dir_sound(rs, di, p, m);
    lemma_remove_dir_complete(rs, di, p, m);
}

proof fn lemma_index_hit(rs: Seq<RecordView>, ix: Seq<(Seq<char>, u128)>, k: int, by_host: bool)
    requires
        0 <= k < ix.len(),
        by_host ==> host_index_sound(rs, ix),
        !by_host ==> dir_index_sound(rs, ix),
    ensures
        by_host ==> exists|i: int| #![trigger rs[i]] 0 <= i < rs.len() && rs[i].id == ix[k].1 && rs[i].hostname == Some(ix[k].0),
        !by_host ==> exists|i: int| #![trigger rs[i]] 0 <= i < rs.len() && rs[i].id == ix[k].1 && rs[i].server_dir == ix[k].0,
{
    reveal(host_index_sound);
    reveal(dir_index_sound);
    if by_host {
        assert(names_host_record(rs, ix[k]));
    } else {
        assert(names_dir_record(rs, ix[k]));
    }
}

proof fn lemma_index_miss(rs: Seq<RecordView>, ix: Seq<(Seq<char>, u128)>, key: Seq<char>, by_host: bool)
    requires
        forall|j: int| 0 <= j < ix.len() ==> #[trigger] ix[j].0 != key,
        by_host ==> host_index_complete(rs, ix),
        !by_host ==> dir_index_complete(rs, ix),
    ensures
        by_host ==> forall|i: int| 0 <= i < rs.len() ==> #[trigger] rs[i].hostname != Some(key),
        !by_host ==> forall|i: int| 0 <= i < rs.len() ==> #[trigger] rs[i].server_dir != key,
{
    reveal(host_index_complete);
    reveal(dir_index_complete);
    assert forall|i: int| 0 <= i < rs.len() implies (by_host ==> #[trigger] rs[i].hostname != Some(key)) by {
        if by_host && rs[i].hostname == Some(key) {
            assert(has_host_entry(ix, rs[i]));
            let w = choose|w: int| #![trigger ix[w]] 0 <= w < ix.len() && ix[w] == (rs[i].hostname->Some_0, rs[i].id);
            assert(ix[w].0 == key);
        }
    }
    assert forall|i: int| 0 <= i < rs.len() implies (!by_host ==> #[trigger] rs[i].server_dir != key) by {
        if !by_host && rs[i].server_dir == key {
            assert(has_dir_entry(ix, rs[i]));
            let w = choose|w: int| #![trigger ix[w]] 0 <= w < ix.len() && ix[w] == (rs[i].server_dir, rs[i].id);
            assert(ix[w].0 == key);
        }
    }
}

impl<T> RunningServers<T> {
    /// The records, in the order they were registered.
    pub closed spec fn records(&self) -> Seq<RecordView> {
        self.servers@.map_values(|r: ServerRecord<T>| r@)
    }

    /// The hostname index.
    pub closed spec fn host_index(&self) -> Seq<(Seq<char>, u128)> {
        index_view(self.hostname_to_id@)
    }

    /// The directory index.
    pub closed spec fn dir_index(&self) -> Seq<(Seq<char>, u128)> {
        index_view(self.server_dir_to_id@)
    }

    /// The registry is consistent: records are unique by id, directory and
    /// hostname, and both indexes hold exactly the records' keys.
    pub open spec fn wf(&self) -> bool {
        registry_wf(self.records(), self.host_index(), self.dir_index())
    }

    /// Some record runs from `dir`.
    pub open spec fn has_dir(&self, dir: Seq<char>) -> bool {
        exists|i: int| 0 <= i < self.records().len() && #[trigger] self.records()[i].server_dir == dir
    }

    /// Some record has id `id`.
    pub open spec fn has_id(&self, id: u128) -> bool {
        exists|i: int| 0 <= i < self.records().len() && #[trigger] self.records()[i].id == id
    }

    /// Some record is proxied under `host`.
    pub open spec fn has_hostname(&self, host: Seq<char>) -> bool {
        exists|i: int| 0 <= i < self.records().len() && #[trigger] self.records()[i].hostname == Some(host)
    }

    /// An empty registry.
    pub fn new() -> (r: RunningServers<T>)
        ensures
            r.wf(),
            r.records() == Seq::<RecordView>::empty(),
    {
        let r = RunningServers { servers: Vec::new(), hostname_to_id: Vec::new(), server_dir_to_id: Vec::new() };
        assert(r.records() =~= Seq::<RecordView>::empty());
        assert(r.host_index() =~= Seq::<(Seq<char>, u128)>::empty());
        assert(r.dir_index() =~= Seq::<(Seq<char>, u128)>::empty());
        proof {
            reveal(host_index_sound);
            reveal(host_index_complete);
            reveal(dir_index_sound);
            reveal(dir_index_complete);
        }
        r
    }

    /// The number of running servers.
    pub fn len(&self) -> (r: usize)
        ensures
            r == self.records().len(),
    {
        self.servers.len()
    }

    /// The position of the record with id `id`.
    fn position_of(&self, id: u128) -> (r: Option<usize>)
        ensures
            match r {
                Some(i) => i < self.records().len() && self.records()[i as int].id == id,
                None => !self.has_id(id),
            },
    {
        let mut i: usize = 0;
        while i < self.servers.len()
            invariant
                i <= self.servers@.len(),
                forall|j: int| 0 <= j < i ==> #[trigger] self.records()[j].id != id,
            decreases self.servers@.len() - i,
        {
            if self.servers[i].id == id {
                return Some(i);
            }
            i = i + 1;
        }
        None
    }

    /// Whether a record has id `id`.
    pub fn contains(&self, id: u128) -> (r: bool)
        ensures
            r == self.has_id(id),
    {
        self.position_of(id).is_some()
    }

    /// The record with id `id`.
    pub fn get(&self, id: u128) -> (r: Option<&ServerRecord<T>>)
        ensures
            match r {
                Some(rec) => rec.id == id && exists|i: int| 0 <= i < self.records().len() && #[trigger] self.records()[i] == rec@,
                None => !self.has_id(id),
            },
    {
        match self.position_of(id) {
            Some(i) => Some(&self.servers[i]),
            None => None,
        }
    }

    /// The id of the server proxied under `hostname`, read from the hostname index.
    pub fn get_id_by_hostname(&self, hostname: &str) -> (r: Option<u128>)
        requires
            self.wf(),
        ensures
            match r {
                Some(id) => exists|i: int| #![trigger self.records()[i]] 0 <= i < self.records().len() && self.records()[i].id == id && self.records()[i].hostname == Some(hostname@),
                None => !self.has_hostname(hostname@),
            },
    {
        let key = String::from_str(hostname);
        let mut k: usize = 0;
        while k < self.hostname_to_id.len()
            invariant
                k <= self.hostname_to_id@.len(),
                key@ == hostname@,
                self.wf(),
                forall|j: int| 0 <= j < k ==> #[trigger] self.host_index()[j].0 != hostname@,
            decreases self.hostname_to_id@.len() - k,
        {
            if self.hostname_to_id[k].0.eq(&key) {
                let id = self.hostname_to_id[k].1;
                proof {
                    lemma_index_hit(self.records(), self.host_index(), k as int, true);
                }
                return Some(id);
            }
            k = k + 1;
        }
        proof {
            lemma_index_miss(self.records(), self.host_index(), hostname@, true);
        }
        None
    }

    /// The id of the server running from the canonical directory `server_dir`,
    /// read from the directory index.
    pub fn get_id_by_server_dir(&self, server_dir: &str) -> (r: Option<u128>)
        requires
            self.wf(),
        ensures
            match r {
                Some(id) => exists|i: int| #![trigger self.records()[i]] 0 <= i < self.records().len() && self.records()[i].id == id && self.records()[i].server_dir == server_dir@,
                None => !self.has_dir(server_dir@),
            },
    {
        let key = String::from_str(server_dir);
        let mut k: usize = 0;
        while k < self.server_dir_to_id.len()
            invariant
                k <= self.server_dir_to_id@.len(),
                key@ == server_dir@,
                self.wf(),
                forall|j: int| 0 <= j < k ==> #[trigger] self.dir_index()[j].0 != server_dir@,
            decreases self.server_dir_to_id@.len() - k,
        {
            if self.server_dir_to_id[k].0.eq(&key) {
                let id = self.server_dir_to_id[k].1;
                proof {
                    lemma_index_hit(self.records(), self.dir_index(), k as int, false);
                }
                return Some(id);
            }
            k = k + 1;
        }
        proof {
            lemma_index_miss(self.records(), self.dir_index(), server_dir@, false);
        }
        None
    }
}


/// `rs2` differs from `rs` at most in the statuses and ports of its records.
pub open spec fn same_keys(rs: Seq<RecordView>, rs2: Seq<RecordView>) -> bool {
    &&& rs2.len() == rs.len()
    &&& forall|i: int| 0 <= i < rs.len() ==> (#[trigger] rs2[i]).id == rs[i].id && rs2[i].server_dir
        == rs[i].server_dir && rs2[i].hostname == rs[i].hostname
}

proof fn lemma_same_keys_preserves(rs: Seq<RecordView>, rs2: Seq<RecordView>, hi: Seq<(Seq<char>, u128)>, di: Seq<(Seq<char>, u128)>)
    requires
        registry_wf(rs, hi, di),
        same_keys(rs, rs2),
    ensures
        registry_wf(rs2, hi, di),
{
    assert forall|i: int, j: int| 0 <= i < rs2.len() && 0 <= j < rs2.len() && i != j implies {
        &&& #[trigger] rs2[i].id != #[trigger] rs2[j].id
        &&& rs2[i].server_dir != rs2[j].server_dir
        &&& (rs2[i].hostname is Some ==> rs2[i].hostname != rs2[j].hostname)
    } by {
        assert(rs[i].id != rs[j].id);
    }
    assert(host_index_sound(rs2, hi)) by {
        reveal(host_index_sound);
        assert forall|k: int| 0 <= k < hi.len() implies #[trigger] names_host_record(rs2, hi[k]) by {
            assert(names_host_record(rs, hi[k]));
            let w = choose|i: int| #![trigger rs[i]] 0 <= i < rs.len() && rs[i].id == hi[k].1 && rs[i].hostname == Some(hi[k].0);
            assert(rs2[w].id == rs[w].id);
        }
    }
    assert(host_index_complete(rs2, hi)) by {
        reveal(host_index_complete);
        assert forall|i: int| 0 <= i < rs2.len() && rs2[i].hostname is Some implies #[trigger] has_host_entry(hi, rs2[i]) by {
            assert(rs2[i].id == rs[i].id);
            assert(has_host_entry(hi, rs[i]));
        }
    }
    assert(dir_index_sound(rs2, di)) by {
        reveal(dir_index_sound);
        assert forall|k: int| 0 <= k < di.len() implies #[trigger] names_dir_record(rs2, di[k]) by {
            assert(names_dir_record(rs, di[k]));
            let w = choose|i: int| #![trigger rs[i]] 0 <= i < rs.len() && rs[i].id == di[k].1 && rs[i].server_dir == di[k].0;
            assert(rs2[w].id == rs[w].id);
        }
    }
    assert(dir_index_complete(rs2, di)) by {
        reveal(dir_index_complete);
        assert forall|i: int| 0 <= i < rs2.len() implies #[trigger] has_dir_entry(di, rs2[i]) by {
            assert(rs2[i].id == rs[i].id);
            assert(has_dir_entry(di, rs[i]));
        }
    }
}

proof fn lemma_entries_exist(rs: Seq<RecordView>, hi: Seq<(Seq<char>, u128)>, di: Seq<(Seq<char>, u128)>, p: int)
    requires
        registry_wf(rs, hi, di),
        0 <= p < rs.len(),
    ensures
        rs[p].hostname is Some ==> exists|k: int| 0 <= k < hi.len() && #[trigger] hi[k].0 == rs[p].hostname->Some_0,
        exists|m: int| 0 <= m < di.len() && #[trigger] di[m].0 == rs[p].server_dir,
{
    reveal(host_index_complete);
    reveal(dir_index_complete);
    if rs[p].hostname is Some {
        assert(has_host_entry(hi, rs[p]));
        let w = choose|k: int| #![trigger hi[k]] 0 <= k < hi.len() && hi[k] == (rs[p].hostname->Some_0, rs[p].id);
        assert(hi[w].0 == rs[p].hostname->Some_0);
    }
    assert(has_dir_entry(di, rs[p]));
    let w = choose|k: int| #![trigger di[k]] 0 <= k < di.len() && di[k] == (rs[p].server_dir, rs[p].id);
    assert(di[w].0 == rs[p].server_dir);
}

/// The indexes are in step with the records: every proxied record is found
/// under its hostname with its own id, every record under its directory, and
/// every index entry names a record that is there.
pub proof fn lemma_indexes_in_sync<T>(reg: &RunningServers<T>)
    requires
        reg.wf(),
    ensures
        forall|i: int|
            0 <= i < reg.records().len() && reg.records()[i].hostname is Some ==> #[trigger] has_host_entry(
                reg.host_index(),
                reg.records()[i],
            ),
        forall|i: int| 0 <= i < reg.records().len() ==> #[trigger] has_dir_entry(reg.dir_index(), reg.records()[i]),
        forall|k: int| 0 <= k < reg.dir_index().len() ==> #[trigger] names_dir_record(reg.records(), reg.dir_index()[k]),
        forall|k: int| 0 <= k < reg.host_index().len() ==> #[trigger] names_host_record(reg.records(), reg.host_index()[k]),
{
    reveal(host_index_sound);
    reveal(host_index_complete);
    reveal(dir_index_sound);
    reveal(dir_index_complete);
}

/// No two running servers share a canonical directory, and no two share a
/// proxy hostname.
pub proof fn lemma_records_unique<T>(reg: &RunningServers<T>, i: int, j: int)
    requires
        reg.wf(),
        0 <= i < reg.records().len(),
        0 <= j < reg.records().len(),
        i != j,
    ensures
        reg.records()[i].server_dir != reg.records()[j].server_dir,
        reg.records()[i].id != reg.records()[j].id,
        reg.records()[i].hostname is Some ==> reg.records()[i].hostname != reg.records()[j].hostname,
{
    assert(reg.records()[i].id != reg.records()[j].id);
}

/// The position of the entry for `key` in an index.
fn key_position(ix: &Vec<(String, u128)>, key: &String) -> (r: Option<usize>)
    ensures
        match r {
            Some(k) => k < ix@.len() && index_view(ix@)[k as int].0 == key@,
            None => forall|j: int| 0 <= j < ix@.len() ==> #[trigger] index_view(ix@)[j].0 != key@,
        },
{
    let mut k: usize = 0;
    while k < ix.len()
        invariant
            k <= ix@.len(),
            forall|j: int| 0 <= j < k ==> #[trigger] index_view(ix@)[j].0 != key@,
        decreases ix@.len() - k,
    {
        if ix[k].0.eq(key) {
            return Some(k);
        }
        k = k + 1;
    }
    None
}

impl<T> RunningServers<T> {
    /// Registers a started server. Fails, changing nothing, when a server
    /// runs from the same directory, a record has the same id, or (in proxy
    /// mode) a server runs under the same hostname, checked in that order.
    pub fn insert(&mut self, record: ServerRecord<T>) -> (r: Result<(), RegistryError>)
        requires
            old(self).wf(),
        ensures
            final(self).wf(),
            match r {
                Ok(()) => !old(self).has_dir(record@.server_dir) && !old(self).has_id(record.id) && (
                record@.hostname matches Some(h) ==> !old(self).has_hostname(h)) && final(self).records()
                    == old(self).records().push(record@),
                Err(e) => final(self).records() == old(self).records() && match e {
                    RegistryError::AlreadyRunning => old(self).has_dir(record@.server_dir),
                    RegistryError::DuplicateId => !old(self).has_dir(record@.server_dir) && old(self).has_id(record.id),
                    RegistryError::HostnameTaken => !old(self).has_dir(record@.server_dir) && !old(self).has_id(record.id)
                        && (record@.hostname matches Some(h) && old(self).has_hostname(h)),
                },
            },
    {
        if self.get_id_by_server_dir(record.server_dir.as_str()).is_some() {
            return Err(RegistryError::AlreadyRunning);
        }
        if self.contains(record.id) {
            return Err(RegistryError::DuplicateId);
        }
        match &record.hostname {
            Some(h) => {
                if self.get_id_by_hostname(h.as_str()).is_some() {
                    return Err(RegistryError::HostnameTaken);
                }
            },
            None => {},
        }
        let ghost rs = self.records();
        let ghost hi = self.host_index();
        let ghost di = self.dir_index();
        let ghost rv = record@;
        proof {
            assert forall|i: int| 0 <= i < rs.len() implies #[trigger] rs[i].id != rv.id by {}
            assert forall|i: int| 0 <= i < rs.len() implies #[trigger] rs[i].server_dir != rv.server_dir by {}
            if rv.hostname is Some {
                assert forall|i: int| 0 <= i < rs.len() implies #[trigger] rs[i].hostname != rv.hostname by {}
            }
            lemma_insert_preserves(rs, hi, di, rv);
        }
        match &record.hostname {
            Some(h) => {
                self.hostname_to_id.push((h.clone(), record.id));
            },
            None => {},
        }
        self.server_dir_to_id.push((record.server_dir.clone(), record.id));
        self.servers.push(record);
        assert(self.records() =~= rs.push(rv));
        assert(self.host_index() =~= hi + host_entries(rv));
        assert(self.dir_index() =~= di.push((rv.server_dir, rv.id)));
        Ok(())
    }

    /// Removes the record with id `id`, with its index entries, and hands it
    /// back (its ports are then free to be released).
    pub fn remove(&mut self, id: u128) -> (r: Option<ServerRecord<T>>)
        requires
            old(self).wf(),
        ensures
            final(self).wf(),
            match r {
                Some(rec) => rec.id == id && exists|p: int| 0 <= p < old(self).records().len() && #[trigger] old(self).records()[p] == rec@ && final(self).records() == old(self).records().remove(p),
                None => !old(self).has_id(id) && final(self).records() == old(self).records(),
            },
    {
        let p = match self.position_of(id) {
            Some(p) => p,
            None => return None,
        };
        let ghost rs = self.records();
        let ghost hi = self.host_index();
        let ghost di = self.dir_index();
        proof {
            lemma_entries_exist(rs, hi, di, p as int);
        }
        let rec = self.servers.remove(p);
        assert(rec@ == rs[p as int]);
        let ghost mut kk: int = hi.len() as int;
        match &rec.hostname {
            Some(h) => {
                match key_position(&self.hostname_to_id, h) {
                    Some(k) => {
                        self.hostname_to_id.remove(k);
                        proof {
                            kk = k as int;
                        }
                    },
                    None => {
                        proof {
                            let w = choose|k: int| 0 <= k < hi.len() && #[trigger] hi[k].0 == rs[p as int].hostname->Some_0;
                            assert(index_view(self.hostname_to_id@)[w].0 == h@);
                        }
                    },
                }
            },
            None => {},
        }
        let m = match key_position(&self.server_dir_to_id, &rec.server_dir) {
            Some(m) => m,
            None => {
                proof {
                    let w = choose|m: int| 0 <= m < di.len() && #[trigger] di[m].0 == rs[p as int].server_dir;
                    assert(index_view(self.server_dir_to_id@)[w].0 == rec.server_dir@);
                }
                0
            },
        };
        self.server_dir_to_id.remove(m);
        proof {
            assert(self.records() =~= rs.remove(p as int));
            if rs[p as int].hostname is Some {
                assert(self.host_index() =~= hi.remove(kk));
            } else {
                assert(self.host_index() =~= hi);
            }
            assert(self.dir_index() =~= di.remove(m as int));
            lemma_remove_preserves(rs, hi, di, p as int, self.host_index(), kk, m as int);
        }
        Some(rec)
    }

    /// Sets the status of the record at `p` to `status`.
    fn set_status_at(&mut self, p: usize, status: ServerStatus)
        requires
            old(self).wf(),
            p < old(self).records().len(),
        ensures
            final(self).wf(),
            final(self).records() == old(self).records().update(p as int, RecordView { status, ..old(self).records()[p as int] }),
    {
        let ghost rs = self.records();
        let mut rec = self.servers.remove(p);
        rec.status = status;
        self.servers.insert(p, rec);
        let ghost rs2 = rs.update(p as int, RecordView { status, ..rs[p as int] });
        assert(self.records() =~= rs2);
        proof {
            lemma_same_keys_preserves(rs, rs2, self.host_index(), self.dir_index());
        }
    }

    /// Marks the record with id `id` ready, where it is still starting;
    /// `false` where no record has that id.
    pub fn set_ready(&mut self, id: u128) -> (r: bool)
        requires
            old(self).wf(),
        ensures
            final(self).wf(),
            r == old(self).has_id(id),
            r ==> exists|p: int| 0 <= p < old(self).records().len() && #[trigger] old(self).records()[p].id == id && final(self).records() == old(self).records().update(p, RecordView { status: ready_status(old(self).records()[p].status), ..old(self).records()[p] }),
            !r ==> final(self).records() == old(self).records(),
    {
        match self.position_of(id) {
            Some(p) => {
                let s = mark_ready(self.servers[p].status);
                self.set_status_at(p, s);
                true
            },
            None => false,
        }
    }

    /// Marks the record with id `id` as stopping, for a restart or not;
    /// `false` where no record has that id.
    pub fn set_stopping(&mut self, id: u128, restarting: bool) -> (r: bool)
        requires
            old(self).wf(),
        ensures
            final(self).wf(),
            r == old(self).has_id(id),
            r ==> exists|p: int| 0 <= p < old(self).records().len() && #[trigger] old(self).records()[p].id == id && final(self).records() == old(self).records().update(p, RecordView { status: stopping_status(old(self).records()[p].status, restarting), ..old(self).records()[p] }),
            !r ==> final(self).records() == old(self).records(),
    {
        match self.position_of(id) {
            Some(p) => {
                let s = mark_stopping(self.servers[p].status, restarting);
                self.set_status_at(p, s);
                true
            },
            None => false,
        }
    }

    /// Marks the record with id `id` as stopping because it is being killed;
    /// `false` where no record has that id.
    pub fn set_killed(&mut self, id: u128) -> (r: bool)
        requires
            old(self).wf(),
        ensures
            final(self).wf(),
            r == old(self).has_id(id),
            r ==> exists|p: int| 0 <= p < old(self).records().len() && #[trigger] old(self).records()[p].id == id && final(self).records() == old(self).records().update(p, RecordView { status: killed_status(old(self).records()[p].status), ..old(self).records()[p] }),
            !r ==> final(self).records() == old(self).records(),
    {
        match self.position_of(id) {
            Some(p) => {
                let s = mark_killed(self.servers[p].status);
                self.set_status_at(p, s);
                true
            },
            None => false,
        }
    }

    /// The status and port of the server proxied under `hostname`, as the
    /// reverse proxy sees it under one lock.
    pub fn route_target(&self, hostname: &str) -> (r: Option<(ServerStatus, u16)>)
        requires
            self.wf(),
        ensures
            match r {
                Some((s, port)) => exists|i: int| 0 <= i < self.records().len() && #[trigger] self.records()[i].hostname == Some(hostname@) && self.records()[i].status == s && self.records()[i].server_port == port,
                None => !self.has_hostname(hostname@),
            },
    {
        match self.get_id_by_hostname(hostname) {
            Some(id) => {
                match self.get(id) {
                    Some(rec) => {
                        proof {
                            let i = choose|i: int| #![trigger self.records()[i]] 0 <= i < self.records().len() && self.records()[i].id == id && self.records()[i].hostname == Some(hostname@);
                            let j = choose|j: int| 0 <= j < self.records().len() && #[trigger] self.records()[j] == rec@;
                            if i != j {
                                lemma_records_unique(self, i, j);
                            }
                        }
                        Some((rec.status, rec.server_port))
                    },
                    None => {
                        proof {
                            let i = choose|i: int| #![trigger self.records()[i]] 0 <= i < self.records().len() && self.records()[i].id == id && self.records()[i].hostname == Some(hostname@);
                        }
                        None
                    },
                }
            },
            None => None,
        }
    }

    /// The ids of all running servers.
    pub fn ids(&self) -> (r: Vec<u128>)
        ensures
            r@.len() == self.records().len(),
            forall|i: int| 0 <= i < r@.len() ==> #[trigger] r@[i] == self.records()[i].id,
    {
        let mut out: Vec<u128> = Vec::new();
        let mut i: usize = 0;
        while i < self.servers.len()
            invariant
                i <= self.servers@.len(),
                out@.len() == i,
                forall|j: int| 0 <= j < i ==> #[trigger] out@[j] == self.records()[j].id,
            decreases self.servers@.len() - i,
        {
            out.push(self.servers[i].id);
            i = i + 1;
        }
        out
    }
}

} // verus!
