//! Lendable items: objects owned by exactly one member, with an optional
//! currently-active contract and a history of contracts.

use vstd::prelude::*;

use crate::contract::{active_on, windows_overlap, Contract, ContractV};
use crate::member::Member;
use crate::util::copy_vec;
use crate::uuid::Uuid;

verus! {

/// What kind of object an item is.
#[derive(Clone, Copy, Debug, PartialEq, Eq, Structural)]
pub enum Category {
    Tool,
    Vehicle,
    Game,
    Toy,
    Sport,
    Other,
}

impl Default for Category {
    fn default() -> (r: Category)
        ensures
            r == Category::Other,
    {
        Category::Other
    }
}

/// Reported when a contract is added over a window that collides with one
/// already on the item's history.
#[derive(Clone, Copy, Debug, PartialEq, Eq, Structural)]
pub struct AlreadyUnderContract;

/// Mathematical view of an [`Item`].
pub struct ItemV {
    pub uuid: Uuid,
    pub category: Category,
    pub name: Seq<char>,
    pub description: Seq<char>,
    pub owner_id: Uuid,
    pub cost_per_day: int,
    pub active_contract: Option<ContractV>,
    pub history: Seq<ContractV>,
    pub day_of_creation: int,
}

/// The windows of the contracts in `history` are pairwise disjoint, so at
/// most one of them is active on any day.
pub open spec fn history_disjoint(history: Seq<ContractV>) -> bool {
    forall|i: int, j: int|
        0 <= i < history.len() && 0 <= j < history.len() && i != j ==> !windows_overlap(
            history[i],
            history[j],
        )
}

/// Well-formedness of an item: the active contract, when present, appears in
/// the history, and no two history windows overlap.
pub open spec fn item_wf(item: ItemV) -> bool {
    &&& match item.active_contract {
        Some(c) => item.history.contains(c),
        None => true,
    }
    &&& history_disjoint(item.history)
}

/// Whether `history` holds a contract with the given identifier.
pub open spec fn history_has_contract(history: Seq<ContractV>, contract_id: Uuid) -> bool {
    exists|j: int| 0 <= j < history.len() && history[j].uuid == contract_id
}

/// The first contract in `history` carrying the given identifier, scanning
/// from the front; `None` when the identifier is unknown.
pub open spec fn find_in_history(history: Seq<ContractV>, contract_id: Uuid) -> Option<ContractV>
    decreases history.len(),
{
    if history.len() == 0 {
        None
    } else if history[0].uuid == contract_id {
        Some(history[0])
    } else {
        find_in_history(history.drop_first(), contract_id)
    }
}

/// The first contract in `history` that is active on `day`, scanning from
/// the front; `None` when no contract covers the day. Under
/// [`history_disjoint`] at most one entry can match, so "first" is "the one".
pub open spec fn first_active(history: Seq<ContractV>, day: int) -> Option<ContractV>
    decreases history.len(),
{
    if history.len() == 0 {
        None
    } else if active_on(history[0], day) {
        Some(history[0])
    } else {
        first_active(history.drop_first(), day)
    }
}

/// A lendable object. The contract bookkeeping keeps [`item_wf`]: overlapping
/// contracts are rejected on insertion.
#[derive(Debug)]
pub struct Item {
    uuid: Uuid,
    category: Category,
    name: String,
    description: String,
    owner_id: Uuid,
    cost_per_day: i64,
    active_contract: Option<Contract>,
    history: Vec<Contract>,
    day_of_creation: u64,
}

impl View for Item {
    type V = ItemV;

    closed spec fn view(&self) -> ItemV {
        ItemV {
            uuid: self.uuid,
            category: self.category,
            name: self.name@,
            description: self.description@,
            owner_id: self.owner_id,
            cost_per_day: self.cost_per_day as int,
            active_contract: match self.active_contract {
                Some(c) => Some(c@),
                None => None,
            },
            history: self.history@.map_values(|c: Contract| c@),
            day_of_creation: self.day_of_creation as int,
        }
    }
}

impl Clone for Item {
    fn clone(&self) -> (r: Self)
        ensures
            r@ == self@,
    {
        Item {
            uuid: self.uuid,
            category: self.category,
            name: self.name.clone(),
            description: self.description.clone(),
            owner_id: self.owner_id,
            cost_per_day: self.cost_per_day,
            active_contract: self.active_contract,
            history: copy_vec(&self.history),
            day_of_creation: self.day_of_creation,
        }
    }
}

impl Item {
    /// A new item listed by `owner`: no contract yet, an empty history, a
    /// fresh identifier, created on the given day of the system clock.
    pub fn new(
        name: String,
        description: String,
        category: Category,
        owner: Member,
        cost_per_day: i64,
        day: u64,
    ) -> (r: Item)
        ensures
            r@.name == name@,
            r@.description == description@,
            r@.category == category,
            r@.owner_id == owner@.uuid,
            r@.cost_per_day == cost_per_day,
            r@.day_of_creation == day,
            r@.active_contract is None,
            r@.history == Seq::<ContractV>::empty(),
            item_wf(r@),
    {
        let r = Item {
            uuid: Uuid::new(),
            category,
            name,
            description,
            owner_id: owner.get_uuid(),
            cost_per_day,
            active_contract: None,
            history: Vec::new(),
            day_of_creation: day,
        };
        proof {
            assert(r@.history =~= Seq::<ContractV>::empty());
        }
        r
    }

    /// Replaces the name.
    pub fn name(self, name: String) -> (r: Item)
        ensures
            r@ == (ItemV { name: name@, ..self@ }),
    {
        Item { name, ..self }
    }

    /// Replaces the category.
    pub fn category(self, category: Category) -> (r: Item)
        ensures
            r@ == (ItemV { category, ..self@ }),
    {
        Item { category, ..self }
    }

    pub fn get_uuid(&self) -> (r: Uuid)
        ensures
            r == self@.uuid,
    {
        self.uuid
    }

    pub fn get_name(&self) -> (r: String)
        ensures
            r@ == self@.name,
    {
        self.name.clone()
    }

    pub fn get_description(&self) -> (r: String)
        ensures
            r@ == self@.description,
    {
        self.description.clone()
    }

    pub fn get_category(&self) -> (r: Category)
        ensures
            r == self@.category,
    {
        self.category
    }

    /// The identifier of the member who owns this item.
    pub fn get_owner_id(&self) -> (r: Uuid)
        ensures
            r == self@.owner_id,
    {
        self.owner_id
    }

    pub fn get_cost_per_day(&self) -> (r: i64)
        ensures
            r == self@.cost_per_day,
    {
        self.cost_per_day
    }

    pub fn get_day_of_creation(&self) -> (r: u64)
        ensures
            r == self@.day_of_creation,
    {
        self.day_of_creation
    }

    /// A snapshot of the contract history, oldest first.
    pub fn get_history(&self) -> (r: Vec<Contract>)
        ensures
            r@.map_values(|c: Contract| c@) == self@.history,
    {
        copy_vec(&self.history)
    }

    /// Whether the history holds a contract with the given identifier.
    pub fn has_contract(&self, contract_id: Uuid) -> (r: bool)
        ensures
            r == history_has_contract(self@.history, contract_id),
    {
        let mut i: usize = 0;
        while i < self.history.len()
            invariant
                i <= self.history@.len(),
                self@.history.len() == self.history@.len(),
                forall|k: int| 0 <= k < i ==> self@.history[k].uuid != contract_id,
                forall|k: int| 0 <= k < self.history@.len() ==> self@.history[k] == self.history@[k]@,
            decreases self.history@.len() - i,
        {
            if self.history[i].get_uuid() == contract_id {
                proof {
                    assert(self@.history[i as int].uuid == contract_id);
                }
                return true;
            }
            i += 1;
        }
        false
    }

    /// The contract on the history carrying the given identifier, when the
    /// history holds one.
    pub fn find_contract(&self, contract_id: Uuid) -> (r: Option<Contract>)
        ensures
            match r {
                Some(c) => find_in_history(self@.history, contract_id) == Some(c@),
                None => find_in_history(self@.history, contract_id) is None,
            },
    {
        let ghost hist = self@.history;
        proof {
            assert(hist.skip(0) =~= hist);
        }
        let mut i: usize = 0;
        while i < self.history.len()
            invariant
                i <= hist.len(),
                hist == self@.history,
                hist.len() == self.history@.len(),
                forall|k: int| 0 <= k < hist.len() ==> hist[k] == self.history@[k]@,
                find_in_history(hist, contract_id) == find_in_history(hist.skip(i as int), contract_id),
            decreases hist.len() - i,
        {
            proof {
                assert(hist.skip(i as int).drop_first() =~= hist.skip(i + 1));
                assert(hist.skip(i as int)[0] == hist[i as int]);
            }
            if self.history[i].get_uuid() == contract_id {
                return Some(self.history[i]);
            }
            i += 1;
        }
        proof {
            assert(hist.skip(hist.len() as int) =~= Seq::<ContractV>::empty());
        }
        None
    }

    /// Records a new contract: it becomes the active one and is appended to
    /// the history. Rejected, with nothing changed, when its window overlaps
    /// a contract already on the history, which keeps [`item_wf`].
    pub fn add_contract(&mut self, contract: Contract) -> (r: Result<(), AlreadyUnderContract>)
        requires
            item_wf(old(self)@),
        ensures
            item_wf(final(self)@),
            (exists|j: int|
                0 <= j < old(self)@.history.len() && windows_overlap(
                    old(self)@.history[j],
                    contract@,
                )) ==> r == Result::<(), AlreadyUnderContract>::Err(AlreadyUnderContract)
                && final(self)@ == old(self)@,
            (forall|j: int|
                0 <= j < old(self)@.history.len() ==> !windows_overlap(
                    old(self)@.history[j],
                    contract@,
                )) ==> r == Result::<(), AlreadyUnderContract>::Ok(()) && final(self)@ == (ItemV {
                active_contract: Some(contract@),
                history: old(self)@.history.push(contract@),
                ..old(self)@
            }),
    {
        let mut i: usize = 0;
        while i < self.history.len()
            invariant
                i <= self.history@.len(),
                self@ == old(self)@,
                forall|k: int| 0 <= k < i ==> !windows_overlap(self@.history[k], contract@),
                forall|k: int| 0 <= k < self.history@.len() ==> self@.history[k] == self.history@[k]@,
            decreases self.history@.len() - i,
        {
            if self.history[i].overlaps(&contract) {
                proof {
                    assert(windows_overlap(old(self)@.history[i as int], contract@));
                }
                return Err(AlreadyUnderContract);
            }
            i += 1;
        }
        self.history.push(contract);
        self.active_contract = Some(contract);
        proof {
            assert(final(self)@.history =~= old(self)@.history.push(contract@));
            assert(final(self)@.history.last() == contract@);
        }
        Ok(())
    }

    /// The contract whose window contains `current_day`, scanning the history
    /// from the front; `None` when no window covers the day.
    pub fn get_active_contract(&self, current_day: u64) -> (r: Option<Contract>)
        ensures
            match r {
                Some(c) => first_active(self@.history, current_day as int) == Some(c@),
                None => first_active(self@.history, current_day as int) is None,
            },
    {
        let ghost hist = self@.history;
        proof {
            assert(hist.skip(0) =~= hist);
        }
        let mut i: usize = 0;
        while i < self.history.len()
            invariant
                i <= hist.len(),
                hist == self@.history,
                hist.len() == self.history@.len(),
                forall|k: int| 0 <= k < hist.len() ==> hist[k] == self.history@[k]@,
                first_active(hist, current_day as int) == first_active(
                    hist.skip(i as int),
                    current_day as int,
                ),
            decreases hist.len() - i,
        {
            proof {
                assert(hist.skip(i as int).drop_first() =~= hist.skip(i + 1));
                assert(hist.skip(i as int)[0] == hist[i as int]);
            }
            if self.history[i].is_active_on(current_day) {
                return Some(self.history[i]);
            }
            i += 1;
        }
        proof {
            assert(hist.skip(hist.len() as int) =~= Seq::<ContractV>::empty());
        }
        None
    }
}

} // verus!
