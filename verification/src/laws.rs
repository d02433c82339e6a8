//! Laws of the lending system, stated against the same spec functions that
//! the executable contracts use.

use vstd::prelude::*;

use crate::contract::{active_on, ContractV};
use crate::item::{first_active, ItemV};
use crate::member::{conflicts, MemberV};
use crate::system::{
    add_blocked, advance, advance_n, contains_member_id, credit_member, member_index, settle_item,
    settle_items, sys_wf, transfer, with_credits, SystemV,
};
use crate::uuid::Uuid;

verus! {

/// Law: two members with distinct identifiers but the same email or the same
/// phone number still collide under the dedup rule. After `add_member` of
/// `m1` succeeds, `add_member` of such an `m2` is blocked, so by
/// `add_member`'s contract it returns `AlreadyExists` and changes nothing.
pub proof fn lemma_duplicate_contact_blocked(members: Seq<MemberV>, m1: MemberV, m2: MemberV)
    requires
        m1.uuid != m2.uuid,
        m1.email == m2.email || m1.phone_nr == m2.phone_nr,
    ensures
        add_blocked(members.push(m1), m2),
{
    assert(conflicts(members.push(m1)[members.len() as int], m2));
}

/// Law: adding a member that was not blocked and then removing that same
/// member restores the member store, so afterwards `exists_member` is false
/// and the member is absent from `get_members`.
pub proof fn lemma_add_then_remove_roundtrip(members: Seq<MemberV>, m: MemberV)
    requires
        !add_blocked(members, m),
    ensures
        add_blocked(members.push(m), m),
        contains_member_id(members.push(m), m.uuid),
        members.push(m).remove(member_index(members.push(m), m.uuid)) == members,
        !add_blocked(members.push(m).remove(member_index(members.push(m), m.uuid)), m),
{
    let ms1 = members.push(m);
    assert(conflicts(ms1[members.len() as int], m));
    assert(forall|i: int| 0 <= i < members.len() ==> !conflicts(#[trigger] members[i], m));
    let k = member_index(ms1, m.uuid);
    assert(ms1[members.len() as int].uuid == m.uuid);
    assert(0 <= k < ms1.len() && ms1[k].uuid == m.uuid);
    assert(k == members.len());
    assert(ms1.remove(k) =~= members);
}

/// Law: a successful item listing raises the owner's balance by exactly 100
/// credits and touches no other member. This is the member store that
/// `add_item`'s contract leaves behind, as `get_member` reads it.
pub proof fn lemma_listing_reward(members: Seq<MemberV>, owner_id: Uuid)
    requires
        forall|i: int, j: int|
            0 <= i < members.len() && 0 <= j < members.len() && i != j ==> members[i].uuid
                != members[j].uuid,
        contains_member_id(members, owner_id),
        i64::MIN <= members[member_index(members, owner_id)].credits,
        members[member_index(members, owner_id)].credits + 100 <= i64::MAX,
    ensures
        contains_member_id(credit_member(members, owner_id, 100), owner_id),
        member_index(credit_member(members, owner_id, 100), owner_id) == member_index(
            members,
            owner_id,
        ),
        credit_member(members, owner_id, 100)[member_index(members, owner_id)].credits
            == members[member_index(members, owner_id)].credits + 100,
        forall|i: int|
            0 <= i < members.len() && i != member_index(members, owner_id)
                ==> credit_member(members, owner_id, 100)[i] == members[i],
{
    let k = member_index(members, owner_id);
    let updated = credit_member(members, owner_id, 100);
    assert(updated[k].uuid == owner_id);
    let k2 = member_index(updated, owner_id);
    assert(0 <= k2 < updated.len() && updated[k2].uuid == owner_id);
    assert(forall|i: int|
        0 <= i < updated.len() ==> (#[trigger] updated[i]).uuid == members[i].uuid);
    assert(k2 == k);
}

/// Member identifiers are pairwise distinct store keys.
pub open spec fn unique_member_ids(members: Seq<MemberV>) -> bool {
    forall|i: int, j: int|
        0 <= i < members.len() && 0 <= j < members.len() && i != j ==> members[i].uuid
            != members[j].uuid
}

/// A transfer on a store with unique keys, a present owner and lendee that
/// differ, a non-negative cost and balances that stay in range moves exactly
/// `cost` from the lendee to the owner and touches nobody else.
pub proof fn lemma_transfer_exact(members: Seq<MemberV>, c: ContractV, cost: int)
    requires
        unique_member_ids(members),
        cost >= 0,
        contains_member_id(members, c.owner_id),
        contains_member_id(members, c.lendee_id),
        c.owner_id != c.lendee_id,
        i64::MIN <= members[member_index(members, c.owner_id)].credits,
        members[member_index(members, c.owner_id)].credits + cost <= i64::MAX,
        members[member_index(members, c.lendee_id)].credits <= i64::MAX,
        members[member_index(members, c.lendee_id)].credits - cost >= i64::MIN,
    ensures
        transfer(members, c, cost) == members.update(
            member_index(members, c.owner_id),
            with_credits(
                members[member_index(members, c.owner_id)],
                members[member_index(members, c.owner_id)].credits + cost,
            ),
        ).update(
            member_index(members, c.lendee_id),
            with_credits(
                members[member_index(members, c.lendee_id)],
                members[member_index(members, c.lendee_id)].credits - cost,
            ),
        ),
{
    let ko = member_index(members, c.owner_id);
    let kl = member_index(members, c.lendee_id);
    assert(0 <= ko < members.len() && members[ko].uuid == c.owner_id);
    assert(0 <= kl < members.len() && members[kl].uuid == c.lendee_id);
    assert(ko != kl);
    let m1 = credit_member(members, c.owner_id, cost);
    assert(m1 == members.update(
        ko,
        with_credits(members[ko], members[ko].credits + cost),
    ));
    assert(forall|i: int| 0 <= i < m1.len() ==> (#[trigger] m1[i]).uuid == members[i].uuid);
    assert(m1[kl].uuid == c.lendee_id);
    assert(contains_member_id(m1, c.lendee_id));
    let kl1 = member_index(m1, c.lendee_id);
    assert(0 <= kl1 < m1.len() && m1[kl1].uuid == c.lendee_id);
    assert(kl1 == kl);
    assert(m1[kl] == members[kl]);
}

/// The setting of the iterated settlement law: one item with one contract,
/// whose owner and lendee are distinct stored members, at a non-negative
/// daily cost.
pub open spec fn single_lending_setup(s: SystemV) -> bool {
    &&& sys_wf(s)
    &&& s.items.len() == 1
    &&& s.items[0].history.len() == 1
    &&& s.items[0].cost_per_day >= 0
    &&& s.items[0].history[0].owner_id != s.items[0].history[0].lendee_id
    &&& contains_member_id(s.members, s.items[0].history[0].owner_id)
    &&& contains_member_id(s.members, s.items[0].history[0].lendee_id)
}

/// The stored member owning under the single contract of the setup.
pub open spec fn setup_owner(s: SystemV) -> MemberV {
    s.members[member_index(s.members, s.items[0].history[0].owner_id)]
}

/// The stored member borrowing under the single contract of the setup.
pub open spec fn setup_lendee(s: SystemV) -> MemberV {
    s.members[member_index(s.members, s.items[0].history[0].lendee_id)]
}

/// Law: while the contract window covers every settled day, each of `n` time
/// advances moves the daily cost from the lendee to the owner: after `n`
/// advances the owner holds `n` times the cost more, the lendee `n` times
/// the cost less, and every other member is untouched.
pub proof fn lemma_settlement_window(s: SystemV, n: nat)
    requires
        single_lending_setup(s),
        s.items[0].history[0].start_day <= s.day + 1,
        s.day + n < s.items[0].history[0].end_day,
        i64::MIN <= setup_owner(s).credits,
        setup_owner(s).credits + n * s.items[0].cost_per_day <= i64::MAX,
        setup_lendee(s).credits <= i64::MAX,
        setup_lendee(s).credits - n * s.items[0].cost_per_day >= i64::MIN,
    ensures
        advance_n(s, n).day == s.day + n,
        advance_n(s, n).items == s.items,
        advance_n(s, n).members == s.members.update(
            member_index(s.members, s.items[0].history[0].owner_id),
            with_credits(setup_owner(s), setup_owner(s).credits + n * s.items[0].cost_per_day),
        ).update(
            member_index(s.members, s.items[0].history[0].lendee_id),
            with_credits(setup_lendee(s), setup_lendee(s).credits - n * s.items[0].cost_per_day),
        ),
    decreases n,
{
    let c = s.items[0].history[0];
    let cost = s.items[0].cost_per_day;
    let ko = member_index(s.members, c.owner_id);
    let kl = member_index(s.members, c.lendee_id);
    assert(0 <= ko < s.members.len() && s.members[ko].uuid == c.owner_id);
    assert(0 <= kl < s.members.len() && s.members[kl].uuid == c.lendee_id);
    assert(ko != kl);
    if n == 0 {
        assert(advance_n(s, 0) == s);
        assert(n * cost == 0);
        assert(with_credits(setup_owner(s), setup_owner(s).credits + 0) == setup_owner(s));
        assert(s.members.update(ko, setup_owner(s)).update(kl, setup_lendee(s)) =~= s.members);
    } else {
        assert((n - 1) * cost >= 0) by (nonlinear_arith)
            requires
                n >= 1,
                cost >= 0,
        ;
        assert(n * cost == cost + (n - 1) * cost) by (nonlinear_arith);
        // one advance settles the single item's contract on the new day
        let s1 = advance(s);
        assert(s.items.drop_first() =~= Seq::<ItemV>::empty());
        let day1 = s.day + 1;
        let m_settled = settle_item(s.members, s.items[0], day1);
        assert(settle_items(s.members, s.items, day1) == settle_items(
            m_settled,
            Seq::<ItemV>::empty(),
            day1,
        ));
        assert(settle_items(m_settled, Seq::<ItemV>::empty(), day1) == m_settled);
        assert(active_on(c, s.day + 1));
        assert(first_active(s.items[0].history, s.day + 1) == Some(c));
        lemma_transfer_exact(s.members, c, cost);
        let owner1 = with_credits(setup_owner(s), setup_owner(s).credits + cost);
        let lendee1 = with_credits(setup_lendee(s), setup_lendee(s).credits - cost);
        assert(s1.members == s.members.update(ko, owner1).update(kl, lendee1));
        // the new store keeps the keys, so the setup carries over
        assert(forall|i: int|
            0 <= i < s1.members.len() ==> (#[trigger] s1.members[i]).uuid == s.members[i].uuid);
        assert(s1.members[ko].uuid == c.owner_id);
        assert(s1.members[kl].uuid == c.lendee_id);
        assert(contains_member_id(s1.members, c.owner_id));
        assert(contains_member_id(s1.members, c.lendee_id));
        assert(sys_wf(s1));
        assert(single_lending_setup(s1));
        let ko1 = member_index(s1.members, c.owner_id);
        assert(0 <= ko1 < s1.members.len() && s1.members[ko1].uuid == c.owner_id);
        assert(ko1 == ko);
        let kl1 = member_index(s1.members, c.lendee_id);
        assert(0 <= kl1 < s1.members.len() && s1.members[kl1].uuid == c.lendee_id);
        assert(kl1 == kl);
        assert(setup_owner(s1) == owner1);
        assert(setup_lendee(s1) == lendee1);
        // the remaining n - 1 advances by induction
        lemma_settlement_window(s1, (n - 1) as nat);
        assert(advance_n(s, n) == advance_n(s1, (n - 1) as nat));
        assert(advance_n(s1, (n - 1) as nat).members == s1.members.update(
            ko,
            with_credits(owner1, owner1.credits + (n - 1) * cost),
        ).update(kl, with_credits(lendee1, lendee1.credits - (n - 1) * cost)));
        assert(with_credits(owner1, owner1.credits + (n - 1) * cost) == with_credits(
            setup_owner(s),
            setup_owner(s).credits + n * cost,
        ));
        assert(with_credits(lendee1, lendee1.credits - (n - 1) * cost) == with_credits(
            setup_lendee(s),
            setup_lendee(s).credits - n * cost,
        ));
        assert(advance_n(s, n).members =~= s.members.update(
            ko,
            with_credits(setup_owner(s), setup_owner(s).credits + n * cost),
        ).update(kl, with_credits(setup_lendee(s), setup_lendee(s).credits - n * cost)));
    }
}

/// A history none of whose windows contains `day` yields no active contract.
pub proof fn lemma_first_active_none(history: Seq<ContractV>, day: int)
    requires
        forall|j: int| 0 <= j < history.len() ==> !active_on(#[trigger] history[j], day),
    ensures
        first_active(history, day) is None,
    decreases history.len(),
{
    if history.len() > 0 {
        assert(!active_on(history[0], day));
        assert(forall|j: int|
            0 <= j < history.drop_first().len() ==> !active_on(
                #[trigger] history.drop_first()[j],
                day,
            ));
        lemma_first_active_none(history.drop_first(), day);
    }
}

/// No item's history is active on the settled day: the pass moves nothing.
proof fn lemma_settle_items_no_active(members: Seq<MemberV>, items: Seq<ItemV>, day: int)
    requires
        forall|i: int|
            0 <= i < items.len() ==> first_active(#[trigger] items[i].history, day) is None,
    ensures
        settle_items(members, items, day) == members,
    decreases items.len(),
{
    if items.len() > 0 {
        assert(first_active(items[0].history, day) is None);
        assert(settle_item(members, items[0], day) == members);
        assert(forall|i: int|
            0 <= i < items.drop_first().len() ==> first_active(
                #[trigger] items.drop_first()[i].history,
                day,
            ) is None);
        lemma_settle_items_no_active(members, items.drop_first(), day);
    }
}

/// Law: a time advance on whose new day no contract is active transfers
/// nothing: the member store is unchanged, only the clock moves.
pub proof fn lemma_advance_without_active_contract(s: SystemV)
    requires
        forall|i: int|
            0 <= i < s.items.len() ==> first_active(#[trigger] s.items[i].history, s.day + 1) is None,
    ensures
        advance(s).members == s.members,
        advance(s).items == s.items,
        advance(s).day == s.day + 1,
{
    lemma_settle_items_no_active(s.members, s.items, s.day + 1);
}

} // verus!
