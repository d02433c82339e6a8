//! Members of the lending club: participants with a credit balance and a set
//! of owned items.

use vstd::prelude::*;

use crate::util::copy_vec;
use crate::uuid::Uuid;

verus! {

/// Failures of member-level bookkeeping.
#[derive(Clone, Copy, Debug, PartialEq, Eq, Structural)]
pub enum MError {
    AlreadyExists,
    DoesntExist,
}

/// Result of a member-level operation.
pub type MResult<T> = Result<T, MError>;

/// Reported when a credit mutation is asked to add or deduct a negative
/// amount; the balance is left unchanged.
#[derive(Clone, Copy, Debug, PartialEq, Eq, Structural)]
pub struct NegativeCreditInput;

/// Mathematical view of a [`Member`].
pub struct MemberV {
    pub name: Seq<char>,
    pub email: Seq<char>,
    pub phone_nr: Seq<char>,
    pub credits: int,
    pub day_of_creation: int,
    pub uuid: Uuid,
    pub items: Seq<Uuid>,
}

/// The balance after adding `amount` to `credits`, clipped to the i64 range.
pub open spec fn sat_add(credits: int, amount: int) -> int {
    if credits + amount > i64::MAX {
        i64::MAX as int
    } else if credits + amount < i64::MIN {
        i64::MIN as int
    } else {
        credits + amount
    }
}

/// The balance after deducting `amount` from `credits`, clipped to the i64
/// range.
pub open spec fn sat_sub(credits: int, amount: int) -> int {
    sat_add(credits, -amount)
}

/// The dedup predicate: two members collide when any one of email, phone
/// number or identifier matches. It is used solely to reject duplicate
/// inserts and is deliberately not the type's structural equality.
pub open spec fn conflicts(a: MemberV, b: MemberV) -> bool {
    a.email == b.email || a.phone_nr == b.phone_nr || a.uuid == b.uuid
}

/// A participant of the club. The credit balance is changed only through
/// [`Member::add_credits`] and [`Member::deduce_credits`].
#[derive(Debug)]
pub struct Member {
    name: String,
    email: String,
    phone_nr: String,
    credits: i64,
    day_of_creation: u64,
    uuid: Uuid,
    items: Vec<Uuid>,
}

impl View for Member {
    type V = MemberV;

    closed spec fn view(&self) -> MemberV {
        MemberV {
            name: self.name@,
            email: self.email@,
            phone_nr: self.phone_nr@,
            credits: self.credits as int,
            day_of_creation: self.day_of_creation as int,
            uuid: self.uuid,
            items: self.items@,
        }
    }
}

impl Clone for Member {
    fn clone(&self) -> (r: Self)
        ensures
            r@ == self@,
    {
        Member {
            name: self.name.clone(),
            email: self.email.clone(),
            phone_nr: self.phone_nr.clone(),
            credits: self.credits,
            day_of_creation: self.day_of_creation,
            uuid: self.uuid,
            items: copy_vec(&self.items),
        }
    }
}

impl Default for Member {
    /// A blank member with a fresh identifier, ready for the field setters.
    fn default() -> (r: Member)
        ensures
            r@.name == Seq::<char>::empty(),
            r@.email == Seq::<char>::empty(),
            r@.phone_nr == Seq::<char>::empty(),
            r@.credits == 0,
            r@.day_of_creation == 0,
            r@.items == Seq::<Uuid>::empty(),
    {
        Member {
            name: String::new(),
            email: String::new(),
            phone_nr: String::new(),
            credits: 0,
            day_of_creation: 0,
            uuid: Uuid::new(),
            items: Vec::new(),
        }
    }
}

impl Member {
    /// A new member: zero credits, no items, a fresh identifier, created on
    /// the given day of the system clock. Construction never fails; the
    /// result is a `Result` so that future validation keeps the signature.
    pub fn new(name: String, email: String, phone_nr: String, day: u64) -> (r: MResult<Member>)
        ensures
            r matches Ok(m) && m@.name == name@ && m@.email == email@ && m@.phone_nr == phone_nr@
                && m@.credits == 0 && m@.day_of_creation == day && m@.items == Seq::<Uuid>::empty(),
    {
        Ok(Member {
            name,
            email,
            phone_nr,
            credits: 0,
            day_of_creation: day,
            uuid: Uuid::new(),
            items: Vec::new(),
        })
    }

    /// Replaces the name.
    pub fn name(self, name: String) -> (r: Member)
        ensures
            r@ == (MemberV { name: name@, ..self@ }),
    {
        Member { name, ..self }
    }

    /// Replaces the email address.
    pub fn email(self, email: String) -> (r: Member)
        ensures
            r@ == (MemberV { email: email@, ..self@ }),
    {
        Member { email, ..self }
    }

    /// Replaces the phone number.
    pub fn phone_nr(self, phone_nr: String) -> (r: Member)
        ensures
            r@ == (MemberV { phone_nr: phone_nr@, ..self@ }),
    {
        Member { phone_nr, ..self }
    }

    pub fn get_name(&self) -> (r: String)
        ensures
            r@ == self@.name,
    {
        self.name.clone()
    }

    pub fn get_email(&self) -> (r: String)
        ensures
            r@ == self@.email,
    {
        self.email.clone()
    }

    pub fn get_phone_nr(&self) -> (r: String)
        ensures
            r@ == self@.phone_nr,
    {
        self.phone_nr.clone()
    }

    pub fn get_credits(&self) -> (r: i64)
        ensures
            r == self@.credits,
    {
        self.credits
    }

    pub fn get_day_of_creation(&self) -> (r: u64)
        ensures
            r == self@.day_of_creation,
    {
        self.day_of_creation
    }

    pub fn get_uuid(&self) -> (r: Uuid)
        ensures
            r == self@.uuid,
    {
        self.uuid
    }

    /// The identifiers of the items this member has registered on itself.
    pub fn get_items(&self) -> (r: Vec<Uuid>)
        ensures
            r@ == self@.items,
    {
        copy_vec(&self.items)
    }

    /// Whether the dedup predicate blocks `other` next to `self`: any single
    /// matching field (email, phone number or identifier) makes a collision.
    pub fn conflicts_with(&self, other: &Member) -> (r: bool)
        ensures
            r == conflicts(self@, other@),
    {
        self.email == other.email || self.phone_nr == other.phone_nr || self.uuid == other.uuid
    }

    /// Records an item as owned by this member and pays the one-time listing
    /// reward of 100 credits. Fails when the item is already recorded.
    pub fn add_item(&mut self, item_id: Uuid) -> (r: MResult<()>)
        ensures
            old(self)@.items.contains(item_id) ==> r == MResult::<()>::Err(MError::AlreadyExists)
                && final(self)@ == old(self)@,
            !old(self)@.items.contains(item_id) ==> r == MResult::<()>::Ok(()) && final(self)@
                == (MemberV {
                items: old(self)@.items.push(item_id),
                credits: sat_add(old(self)@.credits, 100),
                ..old(self)@
            }),
    {
        if self.has_item(item_id) {
            return Err(MError::AlreadyExists);
        }
        self.items.push(item_id);
        self.credits = if self.credits > i64::MAX - 100 {
            i64::MAX
        } else {
            self.credits + 100
        };
        Ok(())
    }

    /// Forgets an item; every occurrence of the identifier is dropped. Fails
    /// when the item is not recorded.
    pub fn remove_item(&mut self, item_id: Uuid) -> (r: MResult<()>)
        ensures
            !old(self)@.items.contains(item_id) ==> r == MResult::<()>::Err(MError::DoesntExist)
                && final(self)@ == old(self)@,
            old(self)@.items.contains(item_id) ==> r == MResult::<()>::Ok(()) && final(self)@
                == (MemberV {
                items: old(self)@.items.filter(|u: Uuid| u != item_id),
                ..old(self)@
            }),
    {
        if !self.has_item(item_id) {
            return Err(MError::DoesntExist);
        }
        let ghost orig = self.items@;
        let mut kept: Vec<Uuid> = Vec::new();
        let mut i: usize = 0;
        while i < self.items.len()
            invariant
                i <= orig.len(),
                self.items@ == orig,
                kept@ == orig.take(i as int).filter(|u: Uuid| u != item_id),
            decreases orig.len() - i,
        {
            proof {
                reveal_with_fuel(Seq::filter, 2);
                assert(orig.take(i + 1).drop_last() =~= orig.take(i as int));
                assert(orig.take(i + 1).last() == orig[i as int]);
            }
            if self.items[i] != item_id {
                kept.push(self.items[i]);
            }
            i += 1;
        }
        proof {
            assert(orig.take(orig.len() as int) =~= orig);
        }
        self.items = kept;
        Ok(())
    }

    /// Whether the member has recorded the given item.
    pub fn has_item(&self, item_id: Uuid) -> (r: bool)
        ensures
            r == self@.items.contains(item_id),
    {
        let mut i: usize = 0;
        while i < self.items.len()
            invariant
                i <= self.items@.len(),
                forall|k: int| 0 <= k < i ==> self.items@[k] != item_id,
            decreases self.items@.len() - i,
        {
            if self.items[i] == item_id {
                return true;
            }
            i += 1;
        }
        false
    }

    /// Adds a non-negative amount to the balance, clipping at the top of the
    /// i64 range. A negative amount is rejected and nothing changes.
    pub fn add_credits(&mut self, credits: i64) -> (r: Result<(), NegativeCreditInput>)
        ensures
            credits < 0 ==> r == Result::<(), NegativeCreditInput>::Err(NegativeCreditInput)
                && final(self)@ == old(self)@,
            credits >= 0 ==> r == Result::<(), NegativeCreditInput>::Ok(()) && final(self)@
                == (MemberV { credits: sat_add(old(self)@.credits, credits as int), ..old(self)@ }),
    {
        if credits < 0 {
            return Err(NegativeCreditInput);
        }
        self.credits = if self.credits > i64::MAX - credits {
            i64::MAX
        } else {
            self.credits + credits
        };
        Ok(())
    }

    /// Deducts a non-negative amount from the balance, clipping at the bottom
    /// of the i64 range; the balance may go negative. A negative amount is
    /// rejected and nothing changes.
    pub fn deduce_credits(&mut self, credits: i64) -> (r: Result<(), NegativeCreditInput>)
        ensures
            credits < 0 ==> r == Result::<(), NegativeCreditInput>::Err(NegativeCreditInput)
                && final(self)@ == old(self)@,
            credits >= 0 ==> r == Result::<(), NegativeCreditInput>::Ok(()) && final(self)@
                == (MemberV { credits: sat_sub(old(self)@.credits, credits as int), ..old(self)@ }),
    {
        if credits < 0 {
            return Err(NegativeCreditInput);
        }
        self.credits = if self.credits < i64::MIN + credits {
            i64::MIN
        } else {
            self.credits - credits
        };
        Ok(())
    }
}

} // verus!
