//! A small ledger-style contract: a key-unique store of student records, a
//! dense swap-remove ledger of course records, and a storage-rent accountant
//! that charges callers for the bytes their mutations occupy and refunds any
//! overpayment.
//!
//! The hosting execution environment is out of scope: caller identity,
//! attached payment and the storage-usage counters arrive as an explicit
//! [`accounting::CallContext`], and the refund leaves as an
//! [`accounting::RefundEffect`] descriptor that the host executes after the
//! call's own state change commits. A call either returns its declared
//! output or aborts with one of [`accounting::Error`]'s conditions, applying
//! no partial mutation.

use vstd::prelude::*;

pub mod accounting;
pub mod course;
pub mod students;

use crate::accounting::{settles_to, CallContext, Error, RefundEffect};
use crate::course::{course_views, list_range, Course, CourseLedger};
use crate::students::{RecordStore, Student, StudentView};

verus! {

/// The mathematical content of the contract's persistent state: the student
/// records by account key, and the course names in ledger order.
pub ghost struct ContractView {
    /// The student record stored under each account key.
    pub students: Map<Seq<char>, StudentView>,
    /// The course names, in ledger order.
    pub courses: Seq<Seq<char>>,
}

/// The contract's persistent state: one student record store and one course
/// ledger, owned exclusively by the contract instance.
pub struct Contract {
    students: RecordStore,
    courses: CourseLedger,
}

impl View for Contract {
    type V = ContractView;

    closed spec fn view(&self) -> ContractView {
        ContractView { students: self.students@, courses: self.courses@ }
    }
}

impl Contract {
    /// Well-formedness of the persistent state: the record store keeps its
    /// keys unique.
    pub closed spec fn wf(self) -> bool {
        self.students.wf()
    }
}

impl Default for Contract {
    /// The initial state: no student records and no courses.
    fn default() -> (r: Self)
        ensures
            r.wf(),
            r@.students == Map::<Seq<char>, StudentView>::empty(),
            r@.courses == Seq::<Seq<char>>::empty(),
    {
        Contract { students: RecordStore::new(), courses: CourseLedger::new() }
    }
}

impl Contract {
    /// Stores a student record under the caller's account key, replacing any
    /// record already there, and settles the storage rent for the bytes the
    /// mutation occupied. An overflowing cost or an insufficient payment
    /// aborts with no state change; an overpayment yields a refund effect of
    /// exactly the excess, addressed to the caller; an exact payment yields
    /// none.
    pub fn add_to_map(
        &mut self,
        name: String,
        course: String,
        year: u32,
        age: u32,
        ctx: &CallContext,
    ) -> (r: Result<Option<RefundEffect>, Error>)
        requires
            old(self).wf(),
            ctx.usage_after >= ctx.usage_before,
        ensures
            final(self).wf(),
            settles_to(*ctx, r),
            r matches Err(_) ==> final(self)@ == old(self)@,
            r matches Ok(_) ==> final(self)@.students == old(self)@.students.insert(
                ctx.caller@,
                StudentView { name: name@, course: course@, year, age },
            ) && final(self)@.courses == old(self)@.courses,
    {
        // The host measures usage around the mutation and would roll a
        // failed call back wholesale; settling before mutating gives the
        // same all-or-nothing outcome without a rollback.
        match self.pay_for_storage(ctx) {
            Err(e) => Err(e),
            Ok(refund) => {
                let record = Student { name, course, year, age };
                self.students.put(ctx.caller.clone(), record);
                Ok(refund)
            },
        }
    }

    /// Returns the caller's stored student record, or "absent"; never an
    /// error.
    pub fn get_from_map(&self, signer: &String) -> (r: Option<Student>)
        requires
            self.wf(),
        ensures
            match r {
                Some(s) => self@.students.contains_key(signer@) && s@ == self@.students[signer@],
                None => !self@.students.contains_key(signer@),
            },
    {
        self.students.get(signer)
    }

    /// Deletes and returns the caller's stored student record, or returns
    /// "absent" where none existed. Removing an absent key changes nothing.
    pub fn remove_from_map(&mut self, signer: &String) -> (r: Option<Student>)
        requires
            old(self).wf(),
        ensures
            final(self).wf(),
            final(self)@.students == old(self)@.students.remove(signer@),
            final(self)@.courses == old(self)@.courses,
            match r {
                Some(s) => old(self)@.students.contains_key(signer@) && s@ == old(
                    self,
                )@.students[signer@],
                None => !old(self)@.students.contains_key(signer@),
            },
    {
        self.students.remove(signer)
    }

    /// Whether any student record is stored under the given account key.
    pub fn search_in_map(&self, account_id: String) -> (r: bool)
        requires
            self.wf(),
        ensures
            r == self@.students.contains_key(account_id@),
    {
        self.students.contains(&account_id)
    }

    /// Appends a course record at the end of the ledger; its index is the
    /// previous length. Appending is not charged for storage.
    pub fn add_to_vec(&mut self, name: String)
        ensures
            final(self).wf() == old(self).wf(),
            final(self)@.courses == old(self)@.courses.push(name@),
            final(self)@.students == old(self)@.students,
    {
        let course = Course { name };
        self.courses.append(course);
    }

    /// Returns up to `limit` course records beginning at `start`, clamped so
    /// that the read never reaches past the ledger's end; a `start` at or
    /// past the end yields an empty sequence.
    pub fn get_from_vec(&self, start: u32, limit: u32) -> (r: Vec<Course>)
        ensures
            course_views(r@) == list_range(self@.courses, start as int, limit as int),
    {
        self.courses.read_range(start, limit)
    }

    /// Removes the course record at `index` by moving the last record into
    /// its slot, returning the removed record; the record formerly last is
    /// afterwards found at `index`. An `index` at or past the end aborts
    /// with `OutOfRange` and changes nothing. Removal is not charged for
    /// storage.
    pub fn remove_from_vec(&mut self, index: u32) -> (r: Result<Course, Error>)
        ensures
            final(self).wf() == old(self).wf(),
            final(self)@.students == old(self)@.students,
            index as int >= old(self)@.courses.len() ==> r == Err::<Course, Error>(
                Error::OutOfRange,
            ) && final(self)@ == old(self)@,
            (index as int) < old(self)@.courses.len() ==> (r matches Ok(c)
                && c@ == old(self)@.courses[index as int]
                && final(self)@.courses == old(self)@.courses.update(
                index as int,
                old(self)@.courses.last(),
            ).drop_last() && final(self)@.courses.len() == old(self)@.courses.len() - 1),
            (index as int) < old(self)@.courses.len() - 1 ==> final(self)@.courses[index as int]
                == old(self)@.courses[old(self)@.courses.len() - 1],
    {
        self.courses.remove_at(index)
    }

    /// Settles the storage rent for one mutation: the bytes between the two
    /// usage snapshots, priced per byte with an overflow-checked multiply
    /// that fails closed, must be covered by the attached payment; any
    /// excess comes back as a refund effect addressed to the caller.
    pub fn pay_for_storage(&self, ctx: &CallContext) -> (r: Result<Option<RefundEffect>, Error>)
        requires
            ctx.usage_after >= ctx.usage_before,
        ensures
            settles_to(*ctx, r),
    {
        let storage_used: u64 = ctx.usage_after - ctx.usage_before;
        match ctx.cost_per_byte.checked_mul(storage_used as u128) {
            None => Err(Error::Overflow),
            Some(total_storage_cost) => {
                if ctx.attached_payment < total_storage_cost {
                    Err(Error::InsufficientPayment)
                } else {
                    let excess_balance = ctx.attached_payment - total_storage_cost;
                    if excess_balance > 0 {
                        Ok(Some(self.return_excess_tokens(ctx.caller.clone(), excess_balance)))
                    } else {
                        Ok(None)
                    }
                }
            },
        }
    }

    /// Describes the transfer of excess tokens back to the signer. The
    /// transfer itself is fire-and-forget: the host executes the returned
    /// effect after this call's state changes commit, and its outcome is
    /// neither awaited nor inspected here.
    pub fn return_excess_tokens(&self, signer: String, excess_balance: u128) -> (r: RefundEffect)
        ensures
            r.to == signer,
            r.amount == excess_balance,
    {
        RefundEffect { to: signer, amount: excess_balance }
    }
}

} // verus!
