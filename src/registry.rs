//! The registry of running jobs: job identifier to process handle.
use vstd::prelude::*;

verus! {

/// Returned by `Registry::insert` when the identifier is already taken; it
/// hands back the handle that was not stored.
pub struct DuplicateJob<H> {
    pub handle: H,
}

/// What `take_and_remove` hands out for `job` from a registry whose contents are `m`.
pub open spec fn taken<H>(m: Map<Seq<char>, H>, job: Seq<char>) -> Option<H> {
    if m.contains_key(job) {
        Some(m[job])
    } else {
        None
    }
}

pub struct Registry<H> {
    entries: Vec<(String, H)>,
    model: Ghost<Map<Seq<char>, H>>,
}

impl<H> View for Registry<H> {
    type V = Map<Seq<char>, H>;

    closed spec fn view(&self) -> Map<Seq<char>, H> {
        self.model@
    }
}

impl<H> Registry<H> {
    /// Identifiers are unique and the entries hold exactly the contents.
    pub closed spec fn wf(&self) -> bool {
        &&& forall|i: int, j: int|
            0 <= i < j < self.entries@.len() ==> #[trigger] self.entries@[i].0@
                != #[trigger] self.entries@[j].0@
        &&& forall|i: int|
            0 <= i < self.entries@.len() ==> self.model@.contains_key(
                #[trigger] self.entries@[i].0@,
            ) && self.model@[self.entries@[i].0@] == self.entries@[i].1
        &&& forall|k: Seq<char>|
            #[trigger] self.model@.contains_key(k) ==> exists|i: int|
                0 <= i < self.entries@.len() && #[trigger] self.entries@[i].0@ == k
    }

    pub fn new() -> (r: Registry<H>)
        ensures
            r.wf(),
            r@ == Map::<Seq<char>, H>::empty(),
    {
        Registry { entries: Vec::new(), model: Ghost(Map::empty()) }
    }

    pub fn len(&self) -> (r: usize)
        requires
            self.wf(),
        ensures
            r == self@.len(),
    {
        proof {
            self.lemma_len();
        }
        self.entries.len()
    }

    proof fn lemma_len(&self)
        requires
            self.wf(),
        ensures
            self@.dom().finite(),
            self@.len() == self.entries@.len(),
    {
        let keys = self.entries@.map_values(|e: (String, H)| e.0@);
        assert forall|i: int, j: int| 0 <= i < keys.len() && 0 <= j < keys.len() && i != j implies keys[i]
            != keys[j] by {
            if i < j {
                assert(self.entries@[i].0@ != self.entries@[j].0@);
            } else {
                assert(self.entries@[j].0@ != self.entries@[i].0@);
            }
        }
        keys.unique_seq_to_set();
        assert(self@.dom() =~= keys.to_set()) by {
            assert forall|k: Seq<char>| self@.dom().contains(k) implies keys.to_set().contains(k) by {
                let i = choose|i: int| 0 <= i < self.entries@.len() && #[trigger] self.entries@[i].0@ == k;
                assert(keys[i] == k);
            }
            assert forall|k: Seq<char>| keys.to_set().contains(k) implies self@.dom().contains(k) by {
                let i = choose|i: int| 0 <= i < keys.len() && keys[i] == k;
                assert(self.entries@[i].0@ == k);
            }
        }
    }

    fn find(&self, job: &String) -> (r: Option<usize>)
        requires
            self.wf(),
        ensures
            r.is_some() == self@.contains_key(job@),
            r.is_some() ==> r->0 < self.entries@.len() && self.entries@[r->0 as int].0@ == job@,
    {
        let mut i: usize = 0;
        while i < self.entries.len()
            invariant
                self.wf(),
                i <= self.entries.len(),
                forall|j: int| 0 <= j < i ==> self.entries@[j].0@ != job@,
            decreases self.entries.len() - i,
        {
            if self.entries[i].0 == *job {
                return Some(i);
            }
            i = i + 1;
        }
        proof {
            if self@.contains_key(job@) {
                let w = choose|w: int| 0 <= w < self.entries@.len() && #[trigger] self.entries@[w].0@ == job@;
                assert(self.entries@[w].0@ == job@);
            }
        }
        None
    }

    pub fn contains(&self, job: &String) -> (r: bool)
        requires
            self.wf(),
        ensures
            r == self@.contains_key(job@),
    {
        self.find(job).is_some()
    }

    /// Stores the handle of a job that has just been started.
    pub fn insert(&mut self, job: String, handle: H) -> (r: Result<(), DuplicateJob<H>>)
        requires
            old(self).wf(),
        ensures
            final(self).wf(),
            r.is_err() == old(self)@.contains_key(job@),
            r.is_ok() ==> final(self)@ == old(self)@.insert(job@, handle),
            r.is_err() ==> final(self)@ == old(self)@ && r->Err_0.handle == handle,
    {
        if self.find(&job).is_some() {
            return Err(DuplicateJob { handle });
        }
        let ghost k = job@;
        let ghost old_entries = self.entries@;
        self.entries.push((job, handle));
        self.model = Ghost(self.model@.insert(k, handle));
        assert forall|i: int, j: int|
            0 <= i < j < self.entries@.len() implies #[trigger] self.entries@[i].0@
            != #[trigger] self.entries@[j].0@ by {
            if j == old_entries.len() {
                assert(old_entries[i] == self.entries@[i]);
                assert(self.model@.contains_key(old_entries[i].0@));
            } else {
                assert(old_entries[i] == self.entries@[i]);
                assert(old_entries[j] == self.entries@[j]);
            }
        }
        assert forall|kk: Seq<char>| #[trigger] self.model@.contains_key(kk) implies exists|i: int|
            0 <= i < self.entries@.len() && #[trigger] self.entries@[i].0@ == kk by {
            if kk == k {
                assert(self.entries@[old_entries.len() as int].0@ == kk);
            } else {
                let i = choose|i: int| 0 <= i < old_entries.len() && #[trigger] old_entries[i].0@ == kk;
                assert(self.entries@[i] == old_entries[i]);
            }
        }
        assert forall|i: int| 0 <= i < self.entries@.len() implies self.model@.contains_key(
            #[trigger] self.entries@[i].0@,
        ) && self.model@[self.entries@[i].0@] == self.entries@[i].1 by {
            if i < old_entries.len() {
                assert(self.entries@[i] == old_entries[i]);
            }
        }
        Ok(())
    }

    /// Removes the job's entry and hands out its handle; `None` when the job
    /// is not registered. Each handle is handed out at most once.
    pub fn take_and_remove(&mut self, job: &String) -> (r: Option<H>)
        requires
            old(self).wf(),
        ensures
            final(self).wf(),
            r == taken(old(self)@, job@),
            final(self)@ == old(self)@.remove(job@),
    {
        match self.find(job) {
            None => {
                assert(self@.remove(job@) =~= self@);
                None
            },
            Some(idx) => {
                let ghost old_entries = self.entries@;
                let ghost k = job@;
                let (_, h) = self.entries.remove(idx);
                self.model = Ghost(self.model@.remove(k));
                assert forall|i: int, j: int|
                    0 <= i < j < self.entries@.len() implies #[trigger] self.entries@[i].0@
                    != #[trigger] self.entries@[j].0@ by {
                    let oi = if i < idx { i } else { i + 1 };
                    let oj = if j < idx { j } else { j + 1 };
                    assert(self.entries@[i] == old_entries[oi]);
                    assert(self.entries@[j] == old_entries[oj]);
                    assert(old_entries[oi].0@ != old_entries[oj].0@);
                }
                assert forall|i: int| 0 <= i < self.entries@.len() implies self.model@.contains_key(
                    #[trigger] self.entries@[i].0@,
                ) && self.model@[self.entries@[i].0@] == self.entries@[i].1 by {
                    let oi = if i < idx { i } else { i + 1 };
                    assert(self.entries@[i] == old_entries[oi]);
                    assert(old_entries[oi].0@ != old_entries[idx as int].0@);
                }
                assert forall|kk: Seq<char>| #[trigger] self.model@.contains_key(kk) implies exists|i: int|
                    0 <= i < self.entries@.len() && #[trigger] self.entries@[i].0@ == kk by {
                    let oi = choose|oi: int| 0 <= oi < old_entries.len() && #[trigger] old_entries[oi].0@ == kk;
                    assert(oi != idx);
                    let i = if oi < idx { oi } else { oi - 1 };
                    assert(self.entries@[i] == old_entries[oi]);
                }
                Some(h)
            },
        }
    }
}

/// A handle stored under an identifier is handed out by the first
/// `take_and_remove` of that identifier, and a second one finds nothing.
pub proof fn lemma_take_exactly_once<H>(m: Map<Seq<char>, H>, job: Seq<char>, handle: H)
    requires
        !m.contains_key(job),
    ensures
        taken(m.insert(job, handle), job) == Some(handle),
        taken(m.insert(job, handle).remove(job), job) == None::<H>,
        m.insert(job, handle).remove(job) == m,
{
    assert(m.insert(job, handle).remove(job) =~= m);
}

} // verus!
