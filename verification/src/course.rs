//! The course ledger: a dense sequence of course records that appends at the
//! end, reads a clamped range, and removes by swapping the last record into
//! the vacated slot. Removal trades index stability for constant-time work:
//! the record formerly last takes over the removed record's index.

use vstd::prelude::*;
use crate::accounting::Error;

verus! {

/// One course record; its identity is its position in the ledger.
#[derive(Debug, PartialEq, Eq)]
pub struct Course {
    /// The course's name.
    pub name: String,
}

impl View for Course {
    type V = Seq<char>;

    open spec fn view(&self) -> Seq<char> {
        self.name@
    }
}

impl Clone for Course {
    fn clone(&self) -> (r: Self)
        ensures
            r == *self,
    {
        Course { name: self.name.clone() }
    }
}

/// The names of a sequence of course records, in order.
pub open spec fn course_views(s: Seq<Course>) -> Seq<Seq<char>> {
    s.map_values(|c: Course| c@)
}

/// The slice of a ledger that a ranged read returns: up to `limit` records
/// beginning at `start`, clamped so that it never reaches past the end. The
/// upper bound is `start + min(limit, len)`, itself capped at `len`; a
/// `start` at or past the end yields the empty sequence.
pub open spec fn list_range(s: Seq<Seq<char>>, start: int, limit: int) -> Seq<Seq<char>> {
    let len = s.len() as int;
    let lo = if start < len { start } else { len };
    let capped = if limit < len { limit } else { len };
    let hi = if start + capped < len { start + capped } else { len };
    s.subrange(lo, hi)
}

/// A dense, order-losing-on-delete sequence of course records.
pub struct CourseLedger {
    items: Vec<Course>,
}

impl View for CourseLedger {
    type V = Seq<Seq<char>>;

    closed spec fn view(&self) -> Seq<Seq<char>> {
        course_views(self.items@)
    }
}

impl CourseLedger {
    /// An empty ledger.
    pub fn new() -> (r: Self)
        ensures
            r@ == Seq::<Seq<char>>::empty(),
    {
        let r = CourseLedger { items: Vec::new() };
        proof {
            assert(r@ =~= Seq::<Seq<char>>::empty());
        }
        r
    }

    /// How many records the ledger holds.
    pub fn len(&self) -> (r: usize)
        ensures
            r == self@.len(),
    {
        self.items.len()
    }

    /// Appends a record at the end; its index is the previous length.
    pub fn append(&mut self, record: Course)
        ensures
            final(self)@ == old(self)@.push(record@),
    {
        let ghost prior = self.items@;
        self.items.push(record);
        proof {
            assert(self@ =~= course_views(prior).push(self.items@.last()@));
        }
    }

    /// Returns up to `limit` records beginning at `start`, never reading past
    /// the current length; a `start` at or past the end yields nothing.
    pub fn read_range(&self, start: u32, limit: u32) -> (r: Vec<Course>)
        ensures
            course_views(r@) == list_range(self@, start as int, limit as int),
    {
        let len = self.items.len();
        let mut result: Vec<Course> = Vec::new();
        if (start as usize) < len {
            let s = start as usize;
            let remaining = len - s;
            let lim = limit as usize;
            let take = if lim < remaining { lim } else { remaining };
            let mut k: usize = 0;
            while k < take
                invariant
                    s + take <= len,
                    len == self.items@.len(),
                    k <= take,
                    result@.len() == k,
                    forall|j: int| 0 <= j < k ==> result@[j]@ == self.items@[s + j]@,
                decreases take - k,
            {
                result.push(self.items[s + k].clone());
                k = k + 1;
            }
        }
        proof {
            assert(course_views(result@) =~= list_range(self@, start as int, limit as int));
        }
        result
    }

    /// Removes the record at `index` by moving the last record into its slot
    /// and shrinking by one, returning the removed record. An `index` at or
    /// past the end aborts with `OutOfRange` and changes nothing. The record
    /// formerly last is afterwards found at `index`.
    pub fn remove_at(&mut self, index: u32) -> (r: Result<Course, Error>)
        ensures
            index as int >= old(self)@.len() ==> r == Err::<Course, Error>(Error::OutOfRange)
                && final(self)@ == old(self)@,
            (index as int) < old(self)@.len() ==> (r matches Ok(c)
                && c@ == old(self)@[index as int]
                && final(self)@ == old(self)@.update(index as int, old(self)@.last()).drop_last()
                && final(self)@.len() == old(self)@.len() - 1),
            (index as int) < old(self)@.len() - 1 ==> final(self)@[index as int] == old(self)@[old(
                self,
            )@.len() - 1],
    {
        if (index as usize) < self.items.len() {
            let ghost prior = self.items@;
            let removed = self.items.swap_remove(index as usize);
            proof {
                assert(self@ =~= course_views(prior).update(
                    index as int,
                    course_views(prior).last(),
                ).drop_last());
            }
            Ok(removed)
        } else {
            Err(Error::OutOfRange)
        }
    }
}

/// Reading from the start with a limit at least the ledger's length returns
/// every record, in append order.
pub proof fn lemma_list_all(s: Seq<Seq<char>>, limit: int)
    requires
        limit >= s.len(),
    ensures
        list_range(s, 0, limit) == s,
{
    assert(list_range(s, 0, limit) =~= s);
}

/// Reading from a start at or past the end returns the empty sequence,
/// whatever the limit.
pub proof fn lemma_list_past_end(s: Seq<Seq<char>>, start: int, limit: int)
    requires
        start >= s.len(),
        limit >= 0,
    ensures
        list_range(s, start, limit) == Seq::<Seq<char>>::empty(),
{
    assert(list_range(s, start, limit) =~= Seq::<Seq<char>>::empty());
}

} // verus!
