//! Lending contracts: immutable agreements binding an owner, a lendee, a
//! time window and a price.

use vstd::prelude::*;

use crate::member::Member;
use crate::uuid::Uuid;

verus! {

/// Mathematical view of a [`Contract`].
pub struct ContractV {
    pub uuid: Uuid,
    pub owner_id: Uuid,
    pub lendee_id: Uuid,
    pub start_day: int,
    pub duration_days: int,
    pub end_day: int,
    pub total_price: int,
}

/// A contract is active on `day` when the day lies in the half-open window
/// from its start day to its end day.
pub open spec fn active_on(c: ContractV, day: int) -> bool {
    c.start_day <= day < c.end_day
}

/// Two contracts overlap when some day is active under both.
pub open spec fn windows_overlap(a: ContractV, b: ContractV) -> bool {
    exists|d: int| active_on(a, d) && active_on(b, d)
}

/// One lending period over an item. Immutable once created: settlement reads
/// contracts but never changes them.
#[derive(Clone, Copy, Debug, PartialEq, Eq, Structural)]
pub struct Contract {
    uuid: Uuid,
    owner_id: Uuid,
    lendee_id: Uuid,
    start_day: u64,
    duration_days: u64,
    end_day: u64,
    total_price: i64,
}

impl View for Contract {
    type V = ContractV;

    closed spec fn view(&self) -> ContractV {
        ContractV {
            uuid: self.uuid,
            owner_id: self.owner_id,
            lendee_id: self.lendee_id,
            start_day: self.start_day as int,
            duration_days: self.duration_days as int,
            end_day: self.end_day as int,
            total_price: self.total_price as int,
        }
    }
}

impl Contract {
    /// A new contract between the owner and the lendee, covering the window
    /// of `duration_days` days from `start_day`, at the given total price.
    pub fn new(
        owner: &Member,
        lendee: &Member,
        start_day: u64,
        duration_days: u64,
        total_price: i64,
    ) -> (r: Contract)
        requires
            start_day + duration_days <= u64::MAX,
        ensures
            r@.owner_id == owner@.uuid,
            r@.lendee_id == lendee@.uuid,
            r@.start_day == start_day,
            r@.duration_days == duration_days,
            r@.end_day == start_day + duration_days,
            r@.total_price == total_price,
    {
        Contract {
            uuid: Uuid::new(),
            owner_id: owner.get_uuid(),
            lendee_id: lendee.get_uuid(),
            start_day,
            duration_days,
            end_day: start_day + duration_days,
            total_price,
        }
    }

    pub fn get_uuid(&self) -> (r: Uuid)
        ensures
            r == self@.uuid,
    {
        self.uuid
    }

    /// The identifier of the member who owns the lent item.
    pub fn owner_id(&self) -> (r: Uuid)
        ensures
            r == self@.owner_id,
    {
        self.owner_id
    }

    /// The identifier of the member who borrows the item.
    pub fn lendee_id(&self) -> (r: Uuid)
        ensures
            r == self@.lendee_id,
    {
        self.lendee_id
    }

    pub fn get_start_day(&self) -> (r: u64)
        ensures
            r == self@.start_day,
    {
        self.start_day
    }

    pub fn get_duration_days(&self) -> (r: u64)
        ensures
            r == self@.duration_days,
    {
        self.duration_days
    }

    pub fn get_end_day(&self) -> (r: u64)
        ensures
            r == self@.end_day,
    {
        self.end_day
    }

    pub fn get_total_price(&self) -> (r: i64)
        ensures
            r == self@.total_price,
    {
        self.total_price
    }

    /// Whether this contract is active on the given day.
    pub fn is_active_on(&self, day: u64) -> (r: bool)
        ensures
            r == active_on(self@, day as int),
    {
        self.start_day <= day && day < self.end_day
    }

    /// Whether some day is active under both this contract and `other`.
    pub fn overlaps(&self, other: &Contract) -> (r: bool)
        ensures
            r == windows_overlap(self@, other@),
    {
        let r = self.start_day < self.end_day && other.start_day < other.end_day
            && self.start_day < other.end_day && other.start_day < self.end_day;
        proof {
            if r {
                let d: int = if self@.start_day >= other@.start_day {
                    self@.start_day
                } else {
                    other@.start_day
                };
                assert(active_on(self@, d) && active_on(other@, d));
            }
        }
        r
    }
}

} // verus!
