//! The aggregate root: owns all members and items, enforces the uniqueness
//! rules, and advances the logical clock with the daily credit settlement.

use vstd::prelude::*;

use crate::contract::{Contract, ContractV};
use crate::errors::{SysError, SysResult};
use crate::item::{find_in_history, first_active, history_has_contract, item_wf, Item, ItemV};
use crate::member::{conflicts, sat_add, sat_sub, Member, MemberV};
use crate::uuid::Uuid;

verus! {

/// Mathematical view of a [`System`].
pub struct SystemV {
    pub members: Seq<MemberV>,
    pub items: Seq<ItemV>,
    pub day: int,
}

/// Whether some stored member carries the given identifier.
pub open spec fn contains_member_id(members: Seq<MemberV>, id: Uuid) -> bool {
    exists|i: int| 0 <= i < members.len() && members[i].uuid == id
}

/// The index of the member carrying the given identifier; under [`sys_wf`]
/// the index is unique.
pub open spec fn member_index(members: Seq<MemberV>, id: Uuid) -> int {
    choose|i: int| 0 <= i < members.len() && members[i].uuid == id
}

/// Whether some stored item carries the given identifier.
pub open spec fn contains_item_id(items: Seq<ItemV>, id: Uuid) -> bool {
    exists|i: int| 0 <= i < items.len() && items[i].uuid == id
}

/// The index of the item carrying the given identifier; under [`sys_wf`] the
/// index is unique.
pub open spec fn item_index(items: Seq<ItemV>, id: Uuid) -> int {
    choose|i: int| 0 <= i < items.len() && items[i].uuid == id
}

/// Whether inserting `m` is blocked by the dedup rule: some stored member
/// matches `m` on email, phone number or identifier.
pub open spec fn add_blocked(members: Seq<MemberV>, m: MemberV) -> bool {
    exists|i: int| 0 <= i < members.len() && conflicts(members[i], m)
}

/// Well-formedness of the aggregate: member and item identifiers are unique
/// store keys, and every item keeps its own invariant.
pub open spec fn sys_wf(s: SystemV) -> bool {
    &&& forall|i: int, j: int|
        0 <= i < s.members.len() && 0 <= j < s.members.len() && i != j
            ==> s.members[i].uuid != s.members[j].uuid
    &&& forall|i: int, j: int|
        0 <= i < s.items.len() && 0 <= j < s.items.len() && i != j ==> s.items[i].uuid
            != s.items[j].uuid
    &&& forall|i: int| 0 <= i < s.items.len() ==> item_wf(#[trigger] s.items[i])
}

/// The first item whose history holds a contract with the given identifier,
/// scanning the store from the front.
pub open spec fn first_item_with_contract(items: Seq<ItemV>, contract_id: Uuid) -> Option<ItemV>
    decreases items.len(),
{
    if items.len() == 0 {
        None
    } else if history_has_contract(items[0].history, contract_id) {
        Some(items[0])
    } else {
        first_item_with_contract(items.drop_first(), contract_id)
    }
}

/// The stored contract with the given identifier, scanning the items and
/// their histories from the front.
pub open spec fn find_contract_in_items(items: Seq<ItemV>, contract_id: Uuid) -> Option<ContractV>
    decreases items.len(),
{
    if items.len() == 0 {
        None
    } else {
        match find_in_history(items[0].history, contract_id) {
            Some(c) => Some(c),
            None => find_contract_in_items(items.drop_first(), contract_id),
        }
    }
}

/// The member `m` with its balance replaced by `credits`.
pub open spec fn with_credits(m: MemberV, credits: int) -> MemberV {
    MemberV { credits, ..m }
}

/// The store after adding `amount` to the balance of the member carrying
/// `id`, clipped to the i64 range; unchanged when no member carries `id`.
pub open spec fn credit_member(members: Seq<MemberV>, id: Uuid, amount: int) -> Seq<MemberV> {
    if contains_member_id(members, id) {
        let k = member_index(members, id);
        members.update(k, with_credits(members[k], sat_add(members[k].credits, amount)))
    } else {
        members
    }
}

/// The store after deducting `amount` from the balance of the member
/// carrying `id`, clipped to the i64 range; unchanged when no member
/// carries `id`.
pub open spec fn debit_member(members: Seq<MemberV>, id: Uuid, amount: int) -> Seq<MemberV> {
    if contains_member_id(members, id) {
        let k = member_index(members, id);
        members.update(k, with_credits(members[k], sat_sub(members[k].credits, amount)))
    } else {
        members
    }
}

/// One settlement transfer for contract `c` at `cost` per day: the owner is
/// credited when present, then the lendee is debited when present. A negative
/// cost moves nothing.
pub open spec fn transfer(members: Seq<MemberV>, c: ContractV, cost: int) -> Seq<MemberV> {
    if cost >= 0 {
        debit_member(credit_member(members, c.owner_id, cost), c.lendee_id, cost)
    } else {
        members
    }
}

/// Whether the transfer for contract `c` settles cleanly: the cost is
/// non-negative and the lendee is present. A missing owner is a soft no-op,
/// a missing lendee is an error.
pub open spec fn transfer_ok(members: Seq<MemberV>, c: ContractV, cost: int) -> bool {
    cost >= 0 && contains_member_id(members, c.lendee_id)
}

/// The member store after settling one item on `day`: the transfer of its
/// contract active on that day, if any.
pub open spec fn settle_item(members: Seq<MemberV>, item: ItemV, day: int) -> Seq<MemberV> {
    match first_active(item.history, day) {
        Some(c) => transfer(members, c, item.cost_per_day),
        None => members,
    }
}

/// Whether settling one item on `day` reports success.
pub open spec fn settle_item_ok(members: Seq<MemberV>, item: ItemV, day: int) -> bool {
    match first_active(item.history, day) {
        Some(c) => transfer_ok(members, c, item.cost_per_day),
        None => true,
    }
}

/// The member store after settling every item on `day`, front to back.
pub open spec fn settle_items(members: Seq<MemberV>, items: Seq<ItemV>, day: int) -> Seq<MemberV>
    decreases items.len(),
{
    if items.len() == 0 {
        members
    } else {
        settle_items(settle_item(members, items[0], day), items.drop_first(), day)
    }
}

/// What a full settlement pass reports: the status of the item settled last,
/// success when there is no item. Earlier failures are overwritten — every
/// item is visited exactly once and the last result wins.
pub open spec fn settle_status(members: Seq<MemberV>, items: Seq<ItemV>, day: int) -> SysResult<()>
    decreases items.len(),
{
    if items.len() == 0 {
        Ok(())
    } else if items.len() == 1 {
        if settle_item_ok(members, items[0], day) {
            Ok(())
        } else {
            Err(SysError::CannotUpdate)
        }
    } else {
        settle_status(settle_item(members, items[0], day), items.drop_first(), day)
    }
}

/// The whole system after one time advance: the clock moves one day forward
/// and every item is settled on the new day.
pub open spec fn advance(s: SystemV) -> SystemV {
    SystemV { members: settle_items(s.members, s.items, s.day + 1), items: s.items, day: s.day + 1 }
}

/// The system after `n` time advances.
pub open spec fn advance_n(s: SystemV, n: nat) -> SystemV
    decreases n,
{
    if n == 0 {
        s
    } else {
        advance_n(advance(s), (n - 1) as nat)
    }
}

/// Settling a sequence of items one more item at the end is one settlement
/// step on the members the earlier items produced; the reported status is
/// that of the last item.
proof fn lemma_settle_items_push(members: Seq<MemberV>, items: Seq<ItemV>, x: ItemV, day: int)
    ensures
        settle_items(members, items.push(x), day) == settle_item(
            settle_items(members, items, day),
            x,
            day,
        ),
        settle_status(members, items.push(x), day) == (if settle_item_ok(
            settle_items(members, items, day),
            x,
            day,
        ) {
            SysResult::<()>::Ok(())
        } else {
            SysResult::<()>::Err(SysError::CannotUpdate)
        }),
    decreases items.len(),
{
    if items.len() == 0 {
        assert(items.push(x)[0] == x);
        assert(items.push(x).drop_first() =~= Seq::<ItemV>::empty());
        assert(settle_items(members, items, day) == members);
        assert(settle_items(members, items.push(x), day) == settle_items(
            settle_item(members, x, day),
            Seq::<ItemV>::empty(),
            day,
        ));
    } else {
        assert(items.push(x)[0] == items[0]);
        assert(items.push(x).drop_first() =~= items.drop_first().push(x));
        lemma_settle_items_push(settle_item(members, items[0], day), items.drop_first(), x, day);
        assert(settle_items(members, items.push(x), day) == settle_items(
            settle_item(members, items[0], day),
            items.drop_first().push(x),
            day,
        ));
        assert(settle_items(members, items, day) == settle_items(
            settle_item(members, items[0], day),
            items.drop_first(),
            day,
        ));
        assert(items.push(x).len() >= 2);
        assert(settle_status(members, items.push(x), day) == settle_status(
            settle_item(members, items[0], day),
            items.drop_first().push(x),
            day,
        ));
    }
}

/// The aggregate. All mutators are atomic over the in-memory stores: on
/// failure the state is unchanged.
#[derive(Debug)]
pub struct System {
    members: Vec<Member>,
    items: Vec<Item>,
    day: u64,
}

impl View for System {
    type V = SystemV;

    closed spec fn view(&self) -> SystemV {
        SystemV {
            members: self.members@.map_values(|m: Member| m@),
            items: self.items@.map_values(|it: Item| it@),
            day: self.day as int,
        }
    }
}

impl System {
    /// Validity of the aggregate; established by [`System::new`] and kept by
    /// every mutator.
    pub open spec fn wf(&self) -> bool {
        sys_wf(self@)
    }

    /// An empty system at day zero.
    pub fn new() -> (r: System)
        ensures
            r@.members == Seq::<MemberV>::empty(),
            r@.items == Seq::<ItemV>::empty(),
            r@.day == 0,
            r.wf(),
    {
        let r = System { members: Vec::new(), items: Vec::new(), day: 0 };
        proof {
            assert(r@.members =~= Seq::<MemberV>::empty());
            assert(r@.items =~= Seq::<ItemV>::empty());
        }
        r
    }

    /// The index of the stored member carrying `id`, when there is one.
    fn find_member_index(&self, id: Uuid) -> (r: Option<usize>)
        ensures
            match r {
                Some(k) => k < self@.members.len() && self@.members[k as int].uuid == id,
                None => !contains_member_id(self@.members, id),
            },
    {
        let mut i: usize = 0;
        while i < self.members.len()
            invariant
                i <= self.members@.len(),
                forall|k: int| 0 <= k < i ==> self@.members[k].uuid != id,
            decreases self.members@.len() - i,
        {
            if self.members[i].get_uuid() == id {
                proof {
                    assert(self@.members[i as int].uuid == id);
                }
                return Some(i);
            }
            i += 1;
        }
        None
    }

    /// The index of the stored item carrying `id`, when there is one.
    fn find_item_index(&self, id: Uuid) -> (r: Option<usize>)
        ensures
            match r {
                Some(k) => k < self@.items.len() && self@.items[k as int].uuid == id,
                None => !contains_item_id(self@.items, id),
            },
    {
        let mut i: usize = 0;
        while i < self.items.len()
            invariant
                i <= self.items@.len(),
                forall|k: int| 0 <= k < i ==> self@.items[k].uuid != id,
            decreases self.items@.len() - i,
        {
            if self.items[i].get_uuid() == id {
                proof {
                    assert(self@.items[i as int].uuid == id);
                }
                return Some(i);
            }
            i += 1;
        }
        None
    }

    /// Snapshots of all members, in store order.
    pub fn get_members(&self) -> (r: Vec<Member>)
        ensures
            r@.map_values(|m: Member| m@) == self@.members,
    {
        let mut out: Vec<Member> = Vec::new();
        let mut i: usize = 0;
        while i < self.members.len()
            invariant
                i <= self.members@.len(),
                out@.map_values(|m: Member| m@) =~= self@.members.take(i as int),
            decreases self.members@.len() - i,
        {
            out.push(self.members[i].clone());
            proof {
                assert(out@.map_values(|m: Member| m@) =~= self@.members.take(i + 1));
            }
            i += 1;
        }
        proof {
            assert(out@.map_values(|m: Member| m@) =~= self@.members);
        }
        out
    }

    /// A snapshot of the stored member with `member`'s identifier, or
    /// `DoesntExist` when no member carries it.
    pub fn get_member(&self, member: &Member) -> (r: SysResult<Member>)
        requires
            self.wf(),
        ensures
            contains_member_id(self@.members, member@.uuid) ==> (r matches Ok(m) && m@
                == self@.members[member_index(self@.members, member@.uuid)]),
            !contains_member_id(self@.members, member@.uuid) ==> r == SysResult::<Member>::Err(
                SysError::DoesntExist,
            ),
    {
        match self.find_member_index(member.get_uuid()) {
            Some(k) => {
                proof {
                    assert(k as int == member_index(self@.members, member@.uuid));
                }
                Ok(self.members[k].clone())
            },
            None => Err(SysError::DoesntExist),
        }
    }

    /// Whether some stored member collides with `member` under the dedup
    /// rule: a single matching field (email, phone number or identifier)
    /// is a collision.
    pub fn exists_member(&self, member: &Member) -> (r: bool)
        ensures
            r == add_blocked(self@.members, member@),
    {
        let mut i: usize = 0;
        while i < self.members.len()
            invariant
                i <= self.members@.len(),
                forall|k: int| 0 <= k < i ==> !conflicts(#[trigger] self@.members[k], member@),
            decreases self.members@.len() - i,
        {
            if self.members[i].conflicts_with(member) {
                proof {
                    assert(conflicts(self@.members[i as int], member@));
                }
                return true;
            }
            i += 1;
        }
        false
    }

    /// Inserts a member. Rejected with `AlreadyExists`, and nothing changes,
    /// when some stored member matches on email, phone number or identifier.
    pub fn add_member(&mut self, member: Member) -> (r: SysResult<()>)
        requires
            old(self).wf(),
        ensures
            final(self).wf(),
            add_blocked(old(self)@.members, member@) ==> r == SysResult::<()>::Err(
                SysError::AlreadyExists,
            ) && final(self)@ == old(self)@,
            !add_blocked(old(self)@.members, member@) ==> r == SysResult::<()>::Ok(())
                && final(self)@ == (SystemV {
                members: old(self)@.members.push(member@),
                ..old(self)@
            }),
    {
        if self.exists_member(&member) {
            return Err(SysError::AlreadyExists);
        }
        self.members.push(member);
        proof {
            assert(final(self)@.members =~= old(self)@.members.push(member@));
        }
        Ok(())
    }

    /// Removes the member keyed by `member`'s identifier. Rejected with
    /// `DoesntExist`, and nothing changes, when no stored member collides
    /// with `member` under the dedup rule. When the collision is on email or
    /// phone number alone, no store key matches and the store is unchanged.
    pub fn remove_member(&mut self, member: &Member) -> (r: SysResult<()>)
        requires
            old(self).wf(),
        ensures
            final(self).wf(),
            !add_blocked(old(self)@.members, member@) ==> r == SysResult::<()>::Err(
                SysError::DoesntExist,
            ) && final(self)@ == old(self)@,
            add_blocked(old(self)@.members, member@) ==> r == SysResult::<()>::Ok(()),
            add_blocked(old(self)@.members, member@) && contains_member_id(
                old(self)@.members,
                member@.uuid,
            ) ==> final(self)@ == (SystemV {
                members: old(self)@.members.remove(
                    member_index(old(self)@.members, member@.uuid),
                ),
                ..old(self)@
            }),
            add_blocked(old(self)@.members, member@) && !contains_member_id(
                old(self)@.members,
                member@.uuid,
            ) ==> final(self)@ == old(self)@,
    {
        if !self.exists_member(member) {
            return Err(SysError::DoesntExist);
        }
        match self.find_member_index(member.get_uuid()) {
            Some(k) => {
                proof {
                    assert(k as int == member_index(self@.members, member@.uuid));
                }
                self.members.remove(k);
                proof {
                    assert(final(self)@.members =~= old(self)@.members.remove(k as int));
                }
            },
            None => {},
        }
        Ok(())
    }

    /// Replaces the stored member keyed by `old_info`'s identifier with
    /// `new_info`. Rejected with `DoesntExist` when the key is absent, and
    /// with `CannotUpdate` when `new_info` carries another member's
    /// identifier, which would break the store's uniqueness.
    pub fn update_member(&mut self, old_info: &Member, new_info: &Member) -> (r: SysResult<()>)
        requires
            old(self).wf(),
        ensures
            final(self).wf(),
            !contains_member_id(old(self)@.members, old_info@.uuid) ==> r == SysResult::<()>::Err(
                SysError::DoesntExist,
            ) && final(self)@ == old(self)@,
            contains_member_id(old(self)@.members, old_info@.uuid) && new_info@.uuid
                != old_info@.uuid && contains_member_id(old(self)@.members, new_info@.uuid) ==> r
                == SysResult::<()>::Err(SysError::CannotUpdate) && final(self)@ == old(self)@,
            contains_member_id(old(self)@.members, old_info@.uuid) && (new_info@.uuid
                == old_info@.uuid || !contains_member_id(old(self)@.members, new_info@.uuid)) ==> r
                == SysResult::<()>::Ok(()) && final(self)@ == (SystemV {
                members: old(self)@.members.update(
                    member_index(old(self)@.members, old_info@.uuid),
                    new_info@,
                ),
                ..old(self)@
            }),
    {
        let k = match self.find_member_index(old_info.get_uuid()) {
            Some(k) => k,
            None => {
                return Err(SysError::DoesntExist);
            },
        };
        proof {
            assert(k as int == member_index(self@.members, old_info@.uuid));
        }
        if new_info.get_uuid() != old_info.get_uuid() {
            match self.find_member_index(new_info.get_uuid()) {
                Some(_) => {
                    return Err(SysError::CannotUpdate);
                },
                None => {},
            }
        }
        self.members[k] = new_info.clone();
        proof {
            assert(final(self)@.members =~= old(self)@.members.update(k as int, new_info@));
        }
        Ok(())
    }

    /// Snapshots of all items, in store order.
    pub fn get_items(&self) -> (r: Vec<Item>)
        ensures
            r@.map_values(|it: Item| it@) == self@.items,
    {
        let mut out: Vec<Item> = Vec::new();
        let mut i: usize = 0;
        while i < self.items.len()
            invariant
                i <= self.items@.len(),
                out@.map_values(|it: Item| it@) =~= self@.items.take(i as int),
            decreases self.items@.len() - i,
        {
            out.push(self.items[i].clone());
            proof {
                assert(out@.map_values(|it: Item| it@) =~= self@.items.take(i + 1));
            }
            i += 1;
        }
        proof {
            assert(out@.map_values(|it: Item| it@) =~= self@.items);
        }
        out
    }

    /// Snapshots of the items owned by `member`, in store order.
    pub fn get_items_for_member(&self, member: &Member) -> (r: Vec<Item>)
        ensures
            r@.map_values(|it: Item| it@) == self@.items.filter(
                |it: ItemV| it.owner_id == member@.uuid,
            ),
    {
        let ghost pred = |it: ItemV| it.owner_id == member@.uuid;
        let mut out: Vec<Item> = Vec::new();
        let mut i: usize = 0;
        while i < self.items.len()
            invariant
                i <= self.items@.len(),
                out@.map_values(|it: Item| it@) == self@.items.take(i as int).filter(
                    |it: ItemV| it.owner_id == member@.uuid,
                ),
            decreases self.items@.len() - i,
        {
            proof {
                reveal_with_fuel(Seq::filter, 2);
                assert(self@.items.take(i + 1).drop_last() =~= self@.items.take(i as int));
                assert(self@.items.take(i + 1).last() == self@.items[i as int]);
            }
            if self.items[i].get_owner_id() == member.get_uuid() {
                out.push(self.items[i].clone());
                proof {
                    assert(out@.map_values(|it: Item| it@) =~= self@.items.take(i + 1).filter(
                        |it: ItemV| it.owner_id == member@.uuid,
                    ));
                }
            } else {
                proof {
                    assert(out@.map_values(|it: Item| it@) =~= self@.items.take(i + 1).filter(
                        |it: ItemV| it.owner_id == member@.uuid,
                    ));
                }
            }
            i += 1;
        }
        proof {
            assert(self@.items.take(self@.items.len() as int) =~= self@.items);
        }
        out
    }

    /// How many stored items `member` owns.
    pub fn count_items_for_member(&self, member: &Member) -> (r: usize)
        ensures
            r == self@.items.filter(|it: ItemV| it.owner_id == member@.uuid).len(),
    {
        let mut count: usize = 0;
        let mut i: usize = 0;
        while i < self.items.len()
            invariant
                i <= self.items@.len(),
                count <= i,
                count == self@.items.take(i as int).filter(
                    |it: ItemV| it.owner_id == member@.uuid,
                ).len(),
            decreases self.items@.len() - i,
        {
            proof {
                reveal_with_fuel(Seq::filter, 2);
                assert(self@.items.take(i + 1).drop_last() =~= self@.items.take(i as int));
                assert(self@.items.take(i + 1).last() == self@.items[i as int]);
            }
            if self.items[i].get_owner_id() == member.get_uuid() {
                count += 1;
            }
            i += 1;
        }
        proof {
            assert(self@.items.take(self@.items.len() as int) =~= self@.items);
        }
        count
    }

    /// A snapshot of the stored item with `item`'s identifier, or
    /// `DoesntExist` when no item carries it.
    pub fn get_item(&self, item: &Item) -> (r: SysResult<Item>)
        requires
            self.wf(),
        ensures
            contains_item_id(self@.items, item@.uuid) ==> (r matches Ok(it) && it@
                == self@.items[item_index(self@.items, item@.uuid)]),
            !contains_item_id(self@.items, item@.uuid) ==> r == SysResult::<Item>::Err(
                SysError::DoesntExist,
            ),
    {
        match self.find_item_index(item.get_uuid()) {
            Some(k) => {
                proof {
                    assert(k as int == item_index(self@.items, item@.uuid));
                }
                Ok(self.items[k].clone())
            },
            None => Err(SysError::DoesntExist),
        }
    }

    /// A snapshot of the first item whose history holds a contract with
    /// `contract`'s identifier, or `None` when no item does.
    pub fn get_item_for_contract(&self, contract: &Contract) -> (r: Option<Item>)
        ensures
            match r {
                Some(it) => first_item_with_contract(self@.items, contract@.uuid) == Some(it@),
                None => first_item_with_contract(self@.items, contract@.uuid) is None,
            },
    {
        let ghost items = self@.items;
        let cid = contract.get_uuid();
        proof {
            assert(items.skip(0) =~= items);
        }
        let mut i: usize = 0;
        while i < self.items.len()
            invariant
                i <= items.len(),
                items == self@.items,
                items.len() == self.items@.len(),
                first_item_with_contract(items, contract@.uuid) == first_item_with_contract(
                    items.skip(i as int),
                    contract@.uuid,
                ),
            decreases items.len() - i,
        {
            proof {
                assert(items.skip(i as int).drop_first() =~= items.skip(i + 1));
                assert(items.skip(i as int)[0] == items[i as int]);
            }
            if self.items[i].has_contract(cid) {
                return Some(self.items[i].clone());
            }
            i += 1;
        }
        proof {
            assert(items.skip(items.len() as int) =~= Seq::<ItemV>::empty());
        }
        None
    }

    /// A copy of the stored contract with `contract`'s identifier, or
    /// `DoesntExist` when no item's history holds it.
    pub fn get_contract(&self, contract: &Contract) -> (r: SysResult<Contract>)
        ensures
            match r {
                Ok(c) => find_contract_in_items(self@.items, contract@.uuid) == Some(c@),
                Err(e) => e == SysError::DoesntExist && find_contract_in_items(
                    self@.items,
                    contract@.uuid,
                ) is None,
            },
    {
        let ghost items = self@.items;
        let cid = contract.get_uuid();
        proof {
            assert(items.skip(0) =~= items);
        }
        let mut i: usize = 0;
        while i < self.items.len()
            invariant
                i <= items.len(),
                items == self@.items,
                items.len() == self.items@.len(),
                find_contract_in_items(items, contract@.uuid) == find_contract_in_items(
                    items.skip(i as int),
                    contract@.uuid,
                ),
            decreases items.len() - i,
        {
            proof {
                assert(items.skip(i as int).drop_first() =~= items.skip(i + 1));
                assert(items.skip(i as int)[0] == items[i as int]);
            }
            match self.items[i].find_contract(cid) {
                Some(c) => {
                    return Ok(c);
                },
                None => {},
            }
            i += 1;
        }
        proof {
            assert(items.skip(items.len() as int) =~= Seq::<ItemV>::empty());
        }
        Err(SysError::DoesntExist)
    }

    /// Inserts an item and pays the owner the one-time listing reward of 100
    /// credits. Rejected with `AlreadyExists` when the identifier is already
    /// a store key, and with `DoesntExist` when the owner is not a stored
    /// member; nothing changes on failure.
    pub fn add_item(&mut self, item: Item) -> (r: SysResult<()>)
        requires
            old(self).wf(),
            item_wf(item@),
        ensures
            final(self).wf(),
            contains_item_id(old(self)@.items, item@.uuid) ==> r == SysResult::<()>::Err(
                SysError::AlreadyExists,
            ) && final(self)@ == old(self)@,
            !contains_item_id(old(self)@.items, item@.uuid) && !contains_member_id(
                old(self)@.members,
                item@.owner_id,
            ) ==> r == SysResult::<()>::Err(SysError::DoesntExist) && final(self)@ == old(self)@,
            !contains_item_id(old(self)@.items, item@.uuid) && contains_member_id(
                old(self)@.members,
                item@.owner_id,
            ) ==> r == SysResult::<()>::Ok(()) && final(self)@ == (SystemV {
                members: credit_member(old(self)@.members, item@.owner_id, 100),
                items: old(self)@.items.push(item@),
                day: old(self)@.day,
            }),
    {
        match self.find_item_index(item.get_uuid()) {
            Some(_) => {
                return Err(SysError::AlreadyExists);
            },
            None => {},
        }
        let k = match self.find_member_index(item.get_owner_id()) {
            Some(k) => k,
            None => {
                return Err(SysError::DoesntExist);
            },
        };
        proof {
            assert(k as int == member_index(self@.members, item@.owner_id));
        }
        let mut owner = self.members[k].clone();
        let _paid = owner.add_credits(100);
        self.members[k] = owner;
        self.items.push(item);
        proof {
            assert(final(self)@.items =~= old(self)@.items.push(item@));
            assert(final(self)@.members =~= credit_member(
                old(self)@.members,
                item@.owner_id,
                100,
            ));
        }
        Ok(())
    }

    /// Removes the item keyed by `item`'s identifier. Rejected with
    /// `CannotDelete`, and nothing changes, when the key is absent.
    pub fn remove_item(&mut self, item: &Item) -> (r: SysResult<()>)
        requires
            old(self).wf(),
        ensures
            final(self).wf(),
            !contains_item_id(old(self)@.items, item@.uuid) ==> r == SysResult::<()>::Err(
                SysError::CannotDelete,
            ) && final(self)@ == old(self)@,
            contains_item_id(old(self)@.items, item@.uuid) ==> r == SysResult::<()>::Ok(())
                && final(self)@ == (SystemV {
                items: old(self)@.items.remove(item_index(old(self)@.items, item@.uuid)),
                ..old(self)@
            }),
    {
        match self.find_item_index(item.get_uuid()) {
            Some(k) => {
                proof {
                    assert(k as int == item_index(self@.items, item@.uuid));
                }
                self.items.remove(k);
                proof {
                    assert(final(self)@.items =~= old(self)@.items.remove(k as int));
                }
                Ok(())
            },
            None => Err(SysError::CannotDelete),
        }
    }

    /// Replaces the stored item keyed by `info`'s identifier with `info`.
    /// Rejected with `CannotUpdate`, and nothing changes, when the key is
    /// absent.
    pub fn update_item(&mut self, info: &Item) -> (r: SysResult<()>)
        requires
            old(self).wf(),
            item_wf(info@),
        ensures
            final(self).wf(),
            !contains_item_id(old(self)@.items, info@.uuid) ==> r == SysResult::<()>::Err(
                SysError::CannotUpdate,
            ) && final(self)@ == old(self)@,
            contains_item_id(old(self)@.items, info@.uuid) ==> r == SysResult::<()>::Ok(())
                && final(self)@ == (SystemV {
                items: old(self)@.items.update(item_index(old(self)@.items, info@.uuid), info@),
                ..old(self)@
            }),
    {
        match self.find_item_index(info.get_uuid()) {
            Some(k) => {
                proof {
                    assert(k as int == item_index(self@.items, info@.uuid));
                }
                self.items[k] = info.clone();
                proof {
                    assert(final(self)@.items =~= old(self)@.items.update(k as int, info@));
                }
                Ok(())
            },
            None => Err(SysError::CannotUpdate),
        }
    }

    /// Applies one settlement transfer to the member store: the owner of
    /// `contract` is credited `cost` when present, then the lendee is debited
    /// `cost` when present. Reports whether the transfer settled cleanly.
    fn settle_one(&mut self, contract: &Contract, cost: i64) -> (ok: bool)
        requires
            old(self).wf(),
        ensures
            final(self).wf(),
            final(self)@.members == transfer(old(self)@.members, contract@, cost as int),
            final(self)@.items == old(self)@.items,
            final(self)@.day == old(self)@.day,
            ok == transfer_ok(old(self)@.members, contract@, cost as int),
    {
        if cost < 0 {
            return false;
        }
        match self.find_member_index(contract.owner_id()) {
            Some(k) => {
                proof {
                    assert(k as int == member_index(self@.members, contract@.owner_id));
                }
                let mut owner = self.members[k].clone();
                let _paid = owner.add_credits(cost);
                self.members[k] = owner;
                proof {
                    assert(self@.members =~= credit_member(
                        old(self)@.members,
                        contract@.owner_id,
                        cost as int,
                    ));
                }
            },
            None => {},
        }
        proof {
            assert(self@.members == credit_member(
                old(self)@.members,
                contract@.owner_id,
                cost as int,
            ));
            assert(self@.members.len() == old(self)@.members.len());
            assert(forall|i: int|
                0 <= i < self@.members.len() ==> (#[trigger] self@.members[i]).uuid
                    == old(self)@.members[i].uuid);
            assert(contains_member_id(self@.members, contract@.lendee_id) == contains_member_id(
                old(self)@.members,
                contract@.lendee_id,
            )) by {
                if contains_member_id(self@.members, contract@.lendee_id) {
                    let w = choose|i: int|
                        0 <= i < self@.members.len() && self@.members[i].uuid
                            == contract@.lendee_id;
                    assert(old(self)@.members[w].uuid == contract@.lendee_id);
                }
                if contains_member_id(old(self)@.members, contract@.lendee_id) {
                    let w = choose|i: int|
                        0 <= i < old(self)@.members.len() && old(self)@.members[i].uuid
                            == contract@.lendee_id;
                    assert(self@.members[w].uuid == contract@.lendee_id);
                }
            }
        }
        match self.find_member_index(contract.lendee_id()) {
            Some(k) => {
                proof {
                    assert(k as int == member_index(self@.members, contract@.lendee_id));
                }
                let mut lendee = self.members[k].clone();
                let _charged = lendee.deduce_credits(cost);
                self.members[k] = lendee;
                proof {
                    assert(final(self)@.members =~= debit_member(
                        credit_member(old(self)@.members, contract@.owner_id, cost as int),
                        contract@.lendee_id,
                        cost as int,
                    ));
                }
                true
            },
            None => false,
        }
    }

    /// Advances the clock one day and settles every item on the new day: for
    /// each contract active on that day, the owner is credited and the lendee
    /// debited the item's cost per day. Every item is visited exactly once;
    /// the reported result is that of the item settled last.
    pub fn incr_time(&mut self) -> (r: SysResult<()>)
        requires
            old(self).wf(),
            old(self)@.day < u64::MAX,
        ensures
            final(self).wf(),
            final(self)@ == advance(old(self)@),
            r == settle_status(old(self)@.members, old(self)@.items, old(self)@.day + 1),
    {
        self.day = self.day + 1;
        let ghost m0 = self@.members;
        let ghost items0 = self@.items;
        let ghost day = self@.day;
        proof {
            assert(items0.take(0) =~= Seq::<ItemV>::empty());
        }
        let mut out: SysResult<()> = Ok(());
        let mut i: usize = 0;
        while i < self.items.len()
            invariant
                self.wf(),
                i <= items0.len(),
                self@.items == items0,
                self@.day == day,
                self.items@.len() == items0.len(),
                self@.members == settle_items(m0, items0.take(i as int), day),
                out == settle_status(m0, items0.take(i as int), day),
            decreases items0.len() - i,
        {
            let today = self.day;
            let active = self.items[i].get_active_contract(today);
            let cost = self.items[i].get_cost_per_day();
            let ghost members_before = self@.members;
            let res: SysResult<()> = match active {
                Some(con) => {
                    if self.settle_one(&con, cost) {
                        Ok(())
                    } else {
                        Err(SysError::CannotUpdate)
                    }
                },
                None => Ok(()),
            };
            proof {
                assert(self@.members == settle_item(members_before, items0[i as int], day));
                lemma_settle_items_push(m0, items0.take(i as int), items0[i as int], day);
                assert(items0.take(i + 1) =~= items0.take(i as int).push(items0[i as int]));
            }
            out = res;
            i += 1;
        }
        proof {
            assert(items0.take(items0.len() as int) =~= items0);
        }
        out
    }

    /// The current day of the logical clock.
    pub fn now(&self) -> (r: u64)
        ensures
            r == self@.day,
    {
        self.day
    }
}

} // verus!
