//! The set of server directories launched at daemon start-up. It is
//! persisted after each change, so each edit says whether it changed.
use vstd::prelude::*;

verus! {

/// The directories, each once.
#[derive(Debug, Clone)]
pub struct AutoStartSet {
    directories: Vec<String>,
}

impl AutoStartSet {
    /// The directories held.
    pub closed spec fn spec_dirs(&self) -> Seq<Seq<char>> {
        self.directories@.map_values(|d: String| d@)
    }

    /// As a set.
    pub open spec fn dir_set(&self) -> Set<Seq<char>> {
        self.spec_dirs().to_set()
    }

    /// No directory is held twice.
    pub open spec fn wf(&self) -> bool {
        self.spec_dirs().no_duplicates()
    }

    /// An empty set.
    pub fn new() -> (r: AutoStartSet)
        ensures
            r.wf(),
            r.dir_set() == Set::<Seq<char>>::empty(),
    {
        let r = AutoStartSet { directories: Vec::new() };
        assert(r.spec_dirs() =~= Seq::<Seq<char>>::empty());
        assert(r.dir_set() =~= Set::<Seq<char>>::empty());
        r
    }

    fn position(&self, dir: &String) -> (r: Option<usize>)
        ensures
            match r {
                Some(i) => i < self.spec_dirs().len() && self.spec_dirs()[i as int] == dir@,
                None => !self.spec_dirs().contains(dir@),
            },
    {
        let mut i: usize = 0;
        while i < self.directories.len()
            invariant
                i <= self.directories@.len(),
                forall|j: int| 0 <= j < i ==> #[trigger] self.spec_dirs()[j] != dir@,
            decreases self.directories@.len() - i,
        {
            if self.directories[i].eq(dir) {
                return Some(i);
            }
            i = i + 1;
        }
        None
    }

    /// Whether `dir` is held.
    pub fn contains(&self, dir: &String) -> (r: bool)
        ensures
            r == self.dir_set().contains(dir@),
    {
        self.position(dir).is_some()
    }

    /// Adds `dir`; `true` where it was not held before.
    pub fn insert(&mut self, dir: String) -> (r: bool)
        requires
            old(self).wf(),
        ensures
            final(self).wf(),
            r == !old(self).dir_set().contains(dir@),
            final(self).dir_set() == old(self).dir_set().insert(dir@),
    {
        let ghost d = dir@;
        match self.position(&dir) {
            Some(_) => {
                assert(self.dir_set().insert(d) =~= self.dir_set());
                false
            },
            None => {
                let ghost before = self.spec_dirs();
                self.directories.push(dir);
                assert(self.spec_dirs() =~= before.push(d));
                assert(self.dir_set() =~= before.to_set().insert(d)) by {
                    assert forall|x: Seq<char>| self.dir_set().contains(x) <==> before.to_set().insert(d).contains(x) by {
                        if self.dir_set().contains(x) {
                            let i = choose|i: int| 0 <= i < self.spec_dirs().len() && self.spec_dirs()[i] == x;
                            if i < before.len() {
                                assert(before[i] == x);
                            }
                        }
                        if before.to_set().contains(x) {
                            let i = choose|i: int| 0 <= i < before.len() && before[i] == x;
                            assert(self.spec_dirs()[i] == x);
                        }
                        if x == d {
                            assert(self.spec_dirs()[before.len() as int] == d);
                        }
                    }
                }
                true
            },
        }
    }

    /// Removes `dir`; `true` where it was held.
    pub fn remove(&mut self, dir: &String) -> (r: bool)
        requires
            old(self).wf(),
        ensures
            final(self).wf(),
            r == old(self).dir_set().contains(dir@),
            final(self).dir_set() == old(self).dir_set().remove(dir@),
    {
        match self.position(dir) {
            None => {
                assert(self.dir_set().remove(dir@) =~= self.dir_set());
                false
            },
            Some(i) => {
                let ghost before = self.spec_dirs();
                self.directories.remove(i);
                assert(self.spec_dirs() =~= before.remove(i as int));
                assert forall|x: Seq<char>| self.dir_set().contains(x) <==> before.to_set().remove(dir@).contains(x) by {
                    if self.dir_set().contains(x) {
                        let k = choose|k: int| 0 <= k < self.spec_dirs().len() && self.spec_dirs()[k] == x;
                        let w = if k < i { k } else { k + 1 };
                        assert(before[w] == x);
                        assert(w != i);
                    }
                    if before.to_set().remove(dir@).contains(x) {
                        let k = choose|k: int| 0 <= k < before.len() && before[k] == x;
                        assert(k != i);
                        let w = if k < i { k } else { k - 1 };
                        assert(self.spec_dirs()[w] == x);
                    }
                }
                assert(self.dir_set() =~= before.to_set().remove(dir@));
                true
            },
        }
    }

    /// The directories, in the order they were added.
    pub fn directories(&self) -> (r: Vec<String>)
        ensures
            r@.map_values(|d: String| d@) == self.spec_dirs(),
    {
        let r = self.directories.clone();
        assert(r@.map_values(|d: String| d@) =~= self.spec_dirs());
        r
    }
}

} // verus!
