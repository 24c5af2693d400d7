//! The student record store: a key-unique mapping from an account identifier
//! to at most one student record. Inserting under an existing key silently
//! replaces the old record; looking up or removing an absent key is not an
//! error but an explicit "absent" result.

use vstd::prelude::*;
use vstd::map::*;

verus! {

/// One student record. It carries no identity of its own: its identity is
/// the account key it is stored under.
#[derive(Debug, PartialEq, Eq)]
pub struct Student {
    /// The student's name.
    pub name: String,
    /// The course the student is enrolled in.
    pub course: String,
    /// The year of enrolment.
    pub year: u32,
    /// The student's age.
    pub age: u32,
}

/// The mathematical content of a student record.
pub ghost struct StudentView {
    /// The student's name.
    pub name: Seq<char>,
    /// The course the student is enrolled in.
    pub course: Seq<char>,
    /// The year of enrolment.
    pub year: u32,
    /// The student's age.
    pub age: u32,
}

impl View for Student {
    type V = StudentView;

    open spec fn view(&self) -> StudentView {
        StudentView { name: self.name@, course: self.course@, year: self.year, age: self.age }
    }
}

impl Clone for Student {
    fn clone(&self) -> (r: Self)
        ensures
            r == *self,
    {
        Student {
            name: self.name.clone(),
            course: self.course.clone(),
            year: self.year,
            age: self.age,
        }
    }
}

/// A key-unique mapping from an account key to one student record, kept as a
/// sequence of entries with pairwise distinct keys.
pub struct RecordStore {
    entries: Vec<(String, Student)>,
}

impl View for RecordStore {
    type V = Map<Seq<char>, StudentView>;

    closed spec fn view(&self) -> Map<Seq<char>, StudentView> {
        Map::new(|k: Seq<char>| self.has_key(k), |k: Seq<char>| self.value_for(k))
    }
}

impl RecordStore {
    /// Whether some entry holds the key `k`.
    spec fn has_key(self, k: Seq<char>) -> bool {
        exists|i: int| 0 <= i < self.entries@.len() && self.entries@[i].0@ == k
    }

    /// The index of the entry holding the key `k`, where one exists.
    spec fn index_of(self, k: Seq<char>) -> int {
        choose|i: int| 0 <= i < self.entries@.len() && self.entries@[i].0@ == k
    }

    /// The record stored under the key `k`, where one exists.
    spec fn value_for(self, k: Seq<char>) -> StudentView {
        self.entries@[self.index_of(k)].1@
    }

    /// Well-formedness: no two entries hold the same key, so each key maps
    /// to at most one record.
    pub closed spec fn wf(self) -> bool {
        forall|i: int, j: int|
            0 <= i < self.entries@.len() && 0 <= j < self.entries@.len() && i != j
                ==> self.entries@[i].0@ != self.entries@[j].0@
    }

    /// With pairwise distinct keys, the entry at `i` is the one its key maps
    /// to.
    proof fn lemma_entry_determines(self, i: int)
        requires
            self.wf(),
            0 <= i < self.entries@.len(),
        ensures
            self.has_key(self.entries@[i].0@),
            self.index_of(self.entries@[i].0@) == i,
            self.value_for(self.entries@[i].0@) == self.entries@[i].1@,
    {
        let k = self.entries@[i].0@;
        assert(0 <= i < self.entries@.len() && self.entries@[i].0@ == k);
        let j = self.index_of(k);
        assert(0 <= j < self.entries@.len() && self.entries@[j].0@ == k);
    }

    /// An empty store.
    pub fn new() -> (r: Self)
        ensures
            r.wf(),
            r@ == Map::<Seq<char>, StudentView>::empty(),
    {
        let r = RecordStore { entries: Vec::new() };
        proof {
            assert(r@ =~= Map::<Seq<char>, StudentView>::empty());
        }
        r
    }

    /// The index of the entry holding `key`, or `None` where the key is
    /// absent.
    fn find(&self, key: &String) -> (r: Option<usize>)
        requires
            self.wf(),
        ensures
            match r {
                Some(i) => i < self.entries@.len() && self.entries@[i as int].0@ == key@
                    && self@.contains_key(key@),
                None => !self@.contains_key(key@),
            },
    {
        let mut i: usize = 0;
        while i < self.entries.len()
            invariant
                self.wf(),
                i <= self.entries@.len(),
                forall|j: int| 0 <= j < i ==> self.entries@[j].0@ != key@,
            decreases self.entries@.len() - i,
        {
            if self.entries[i].0 == *key {
                proof {
                    self.lemma_entry_determines(i as int);
                }
                return Some(i);
            }
            i = i + 1;
        }
        None
    }

    /// Whether a record is stored under `key`.
    pub fn contains(&self, key: &String) -> (r: bool)
        requires
            self.wf(),
        ensures
            r == self@.contains_key(key@),
    {
        self.find(key).is_some()
    }

    /// The record stored under `key`, or "absent"; never an error.
    pub fn get(&self, key: &String) -> (r: Option<Student>)
        requires
            self.wf(),
        ensures
            match r {
                Some(s) => self@.contains_key(key@) && s@ == self@[key@],
                None => !self@.contains_key(key@),
            },
    {
        match self.find(key) {
            Some(i) => {
                proof {
                    self.lemma_entry_determines(i as int);
                }
                Some(self.entries[i].1.clone())
            },
            None => None,
        }
    }

    /// Inserts or replaces the record under `key`: last write wins, with no
    /// "already exists" error.
    pub fn put(&mut self, key: String, record: Student)
        requires
            old(self).wf(),
        ensures
            final(self).wf(),
            final(self)@ == old(self)@.insert(key@, record@),
    {
        let ghost prior = *self;
        match self.find(&key) {
            Some(i) => {
                let entry = &mut self.entries[i];
                *entry = (key, record);
                proof {
                    self.lemma_same_keys_same_map(prior, i as int);
                }
            },
            None => {
                self.entries.push((key, record));
                proof {
                    self.lemma_pushed_entry_inserts(prior);
                }
            },
        }
    }

    /// Replacing the entry at `i` with one of the same key keeps the store
    /// well formed and makes the map view an insert at that key.
    proof fn lemma_same_keys_same_map(self, prior: RecordStore, i: int)
        requires
            prior.wf(),
            0 <= i < prior.entries@.len(),
            self.entries@.len() == prior.entries@.len(),
            self.entries@[i].0@ == prior.entries@[i].0@,
            forall|j: int| 0 <= j < prior.entries@.len() && j != i
                ==> self.entries@[j] == prior.entries@[j],
        ensures
            self.wf(),
            self@ == prior@.insert(self.entries@[i].0@, self.entries@[i].1@),
    {
        let key = self.entries@[i].0@;
        assert forall|a: int, b: int|
            0 <= a < self.entries@.len() && 0 <= b < self.entries@.len() && a != b implies self
            .entries@[a].0@ != self.entries@[b].0@ by {
            assert(prior.entries@[a].0@ != prior.entries@[b].0@);
        }
        assert forall|k: Seq<char>| self.has_key(k) == prior.has_key(k) by {
            if self.has_key(k) {
                let a = choose|a: int| 0 <= a < self.entries@.len() && self.entries@[a].0@ == k;
                assert(prior.entries@[a].0@ == k);
            }
            if prior.has_key(k) {
                let a = choose|a: int| 0 <= a < prior.entries@.len() && prior.entries@[a].0@ == k;
                assert(self.entries@[a].0@ == k);
            }
        }
        assert forall|k: Seq<char>| self.has_key(k) && k != key implies self.value_for(k)
            == prior.value_for(k) by {
            let a = self.index_of(k);
            assert(0 <= a < self.entries@.len() && self.entries@[a].0@ == k);
            assert(a != i);
            prior.lemma_entry_determines(a);
        }
        self.lemma_entry_determines(i);
        assert(self@ =~= prior@.insert(key, self.entries@[i].1@));
    }

    /// Appending an entry with a fresh key keeps the store well formed and
    /// makes the map view an insert at that key.
    proof fn lemma_pushed_entry_inserts(self, prior: RecordStore)
        requires
            prior.wf(),
            !prior.has_key(self.entries@.last().0@),
            self.entries@ == prior.entries@.push(self.entries@.last()),
        ensures
            self.wf(),
            self@ == prior@.insert(self.entries@.last().0@, self.entries@.last().1@),
    {
        let n = prior.entries@.len() as int;
        let key = self.entries@[n].0@;
        assert forall|a: int, b: int|
            0 <= a < self.entries@.len() && 0 <= b < self.entries@.len() && a != b implies self
            .entries@[a].0@ != self.entries@[b].0@ by {
            if a < n && b < n {
                assert(prior.entries@[a].0@ != prior.entries@[b].0@);
            } else if a == n {
                assert(prior.entries@[b].0@ != key);
            } else {
                assert(prior.entries@[a].0@ != key);
            }
        }
        assert forall|k: Seq<char>| k != key implies self.has_key(k) == prior.has_key(k) by {
            if self.has_key(k) {
                let a = choose|a: int| 0 <= a < self.entries@.len() && self.entries@[a].0@ == k;
                assert(a < n);
                assert(prior.entries@[a].0@ == k);
            }
            if prior.has_key(k) {
                let a = choose|a: int| 0 <= a < prior.entries@.len() && prior.entries@[a].0@ == k;
                assert(self.entries@[a].0@ == k);
            }
        }
        assert forall|k: Seq<char>| self.has_key(k) && k != key implies self.value_for(k)
            == prior.value_for(k) by {
            let a = self.index_of(k);
            assert(0 <= a < self.entries@.len() && self.entries@[a].0@ == k);
            assert(a < n);
            prior.lemma_entry_determines(a);
        }
        self.lemma_entry_determines(n);
        assert(self@ =~= prior@.insert(key, self.entries@[n].1@));
    }

    /// Deletes and returns the record under `key`, or returns "absent" where
    /// none existed; removing an absent key is not an error and changes
    /// nothing.
    pub fn remove(&mut self, key: &String) -> (r: Option<Student>)
        requires
            old(self).wf(),
        ensures
            final(self).wf(),
            final(self)@ == old(self)@.remove(key@),
            match r {
                Some(s) => old(self)@.contains_key(key@) && s@ == old(self)@[key@],
                None => !old(self)@.contains_key(key@),
            },
    {
        let ghost prior = *self;
        match self.find(key) {
            Some(i) => {
                proof {
                    self.lemma_entry_determines(i as int);
                }
                let entry = self.entries.swap_remove(i);
                proof {
                    self.lemma_swapped_out_removes(prior, i as int);
                }
                Some(entry.1)
            },
            None => {
                proof {
                    assert(self@ =~= prior@.remove(key@));
                }
                None
            },
        }
    }

    /// Swapping the last entry into slot `i` and shrinking by one keeps the
    /// store well formed and makes the map view a removal of slot `i`'s key.
    proof fn lemma_swapped_out_removes(self, prior: RecordStore, i: int)
        requires
            prior.wf(),
            0 <= i < prior.entries@.len(),
            self.entries@ == prior.entries@.update(i, prior.entries@.last()).drop_last(),
        ensures
            self.wf(),
            self@ == prior@.remove(prior.entries@[i].0@),
    {
        let n = prior.entries@.len() as int;
        let key = prior.entries@[i].0@;
        assert forall|a: int, b: int|
            0 <= a < self.entries@.len() && 0 <= b < self.entries@.len() && a != b implies self
            .entries@[a].0@ != self.entries@[b].0@ by {
            let pa: int = if a == i { n - 1 } else { a };
            let pb: int = if b == i { n - 1 } else { b };
            assert(self.entries@[a] == prior.entries@[pa]);
            assert(self.entries@[b] == prior.entries@[pb]);
            assert(prior.entries@[pa].0@ != prior.entries@[pb].0@);
        }
        assert forall|k: Seq<char>| k != key implies self.has_key(k) == prior.has_key(k) by {
            if self.has_key(k) {
                let a = choose|a: int| 0 <= a < self.entries@.len() && self.entries@[a].0@ == k;
                let pa: int = if a == i { n - 1 } else { a };
                assert(prior.entries@[pa].0@ == k);
            }
            if prior.has_key(k) {
                let a = choose|a: int| 0 <= a < prior.entries@.len() && prior.entries@[a].0@ == k;
                assert(a != i);
                if a == n - 1 {
                    if i < n - 1 {
                        assert(self.entries@[i].0@ == k);
                    }
                } else {
                    assert(self.entries@[a].0@ == k);
                }
            }
        }
        assert(!self.has_key(key));
        assert forall|k: Seq<char>| self.has_key(k) && k != key implies self.value_for(k)
            == prior.value_for(k) by {
            let a = self.index_of(k);
            assert(0 <= a < self.entries@.len() && self.entries@[a].0@ == k);
            let pa: int = if a == i { n - 1 } else { a };
            assert(self.entries@[a] == prior.entries@[pa]);
            prior.lemma_entry_determines(pa);
        }
        assert(self@ =~= prior@.remove(key));
    }
}

/// Inserting a record and then looking up the same key yields exactly the
/// record inserted.
pub proof fn lemma_put_then_get(m: Map<Seq<char>, StudentView>, key: Seq<char>, record: StudentView)
    ensures
        m.insert(key, record).contains_key(key),
        m.insert(key, record)[key] == record,
{
}

/// A key never inserted stays absent: it is absent from the empty store, and
/// inserts or removals at any other key leave it absent.
pub proof fn lemma_never_added_absent(
    m: Map<Seq<char>, StudentView>,
    key: Seq<char>,
    other: Seq<char>,
    record: StudentView,
)
    requires
        !m.contains_key(key),
        other != key,
    ensures
        !Map::<Seq<char>, StudentView>::empty().contains_key(key),
        !m.insert(other, record).contains_key(key),
        !m.remove(other).contains_key(key),
{
}

/// Removing an absent key leaves the store exactly as it was, every other
/// key included.
pub proof fn lemma_remove_absent(m: Map<Seq<char>, StudentView>, key: Seq<char>)
    requires
        !m.contains_key(key),
    ensures
        m.remove(key) == m,
{
    assert(m.remove(key) =~= m);
}

} // verus!
