//! The delegation registry: which account has let which other account act
//! on its behalf.

use vstd::prelude::*;
use crate::account::AccountId;

verus! {

/// What a delegate may do for the owner.
#[derive(Clone, Copy, Debug, PartialEq, Eq, Structural)]
pub enum DelegationKind {
    /// Everything the owner may do.
    Any,
    /// Everything but moving the owner's funds.
    NonTransfer,
}

impl Default for DelegationKind {
    fn default() -> (kind: DelegationKind)
        ensures
            kind == DelegationKind::Any,
    {
        DelegationKind::Any
    }
}

/// One grant: `delegate` may act for `owner`, `delay` blocks after announcing it.
#[derive(Clone, Copy, Debug, PartialEq, Eq)]
pub struct Delegation {
    pub owner: AccountId,
    pub delegate: AccountId,
    pub kind: DelegationKind,
    pub delay: u32,
}

/// A grant as mathematical values.
pub struct DelegationView {
    pub owner: Seq<u8>,
    pub delegate: Seq<u8>,
    pub kind: DelegationKind,
    pub delay: u32,
}

impl View for Delegation {
    type V = DelegationView;

    open spec fn view(&self) -> DelegationView {
        DelegationView {
            owner: self.owner@,
            delegate: self.delegate@,
            kind: self.kind,
            delay: self.delay,
        }
    }
}

/// The grant that lets `delegate` act for `owner`.
pub open spec fn grant_of(
    owner: Seq<u8>,
    delegate: Seq<u8>,
    kind: DelegationKind,
    delay: u32,
) -> DelegationView {
    DelegationView { owner, delegate, kind, delay }
}

impl Delegation {
    /// Whether two grants are the same in every part.
    pub fn same_as(&self, other: &Delegation) -> (same: bool)
        ensures
            same == (self@ == other@),
    {
        self.owner.same_as(&other.owner) && self.delegate.same_as(&other.delegate) && self.kind
            == other.kind && self.delay == other.delay
    }
}

/// Why the registry turned a grant down.
#[derive(Clone, Copy, Debug, PartialEq, Eq)]
pub enum Error {
    /// The very same grant is recorded already.
    Duplicate,
}

/// The grants on record, oldest first.
pub struct Delegations {
    grants: Vec<Delegation>,
}

impl View for Delegations {
    type V = Seq<DelegationView>;

    closed spec fn view(&self) -> Seq<DelegationView> {
        self.grants@.map_values(|grant: Delegation| grant@)
    }
}

impl Delegations {
    /// A registry without grants.
    pub fn new() -> (delegations: Delegations)
        ensures
            delegations@ == Seq::<DelegationView>::empty(),
    {
        let delegations = Delegations { grants: Vec::new() };
        assert(delegations@ =~= Seq::empty());
        delegations
    }

    /// How many grants are on record.
    pub fn len(&self) -> (count: usize)
        ensures
            count == self@.len(),
    {
        self.grants.len()
    }

    /// Whether `grant` is on record.
    pub fn contains(&self, grant: &Delegation) -> (found: bool)
        ensures
            found == self@.contains(grant@),
    {
        let mut i: usize = 0;
        while i < self.grants.len()
            invariant
                i <= self.grants.len(),
                forall|j: int| 0 <= j < i ==> self@[j] != grant@,
            decreases self.grants.len() - i,
        {
            if self.grants[i].same_as(grant) {
                assert(self@[i as int] == grant@);
                return true;
            }
            i += 1;
        }
        false
    }

    /// Whether some grant lets `delegate` act for `owner`.
    pub fn is_delegate(&self, owner: &AccountId, delegate: &AccountId) -> (found: bool)
        ensures
            found == exists|i: int|
                0 <= i < self@.len() && (#[trigger] self@[i]).owner == owner@ && self@[i].delegate
                    == delegate@,
    {
        let mut i: usize = 0;
        while i < self.grants.len()
            invariant
                i <= self.grants.len(),
                forall|j: int|
                    0 <= j < i ==> !((#[trigger] self@[j]).owner == owner@ && self@[j].delegate
                        == delegate@),
            decreases self.grants.len() - i,
        {
            if self.grants[i].owner.same_as(owner) && self.grants[i].delegate.same_as(delegate) {
                assert(self@[i as int].owner == owner@ && self@[i as int].delegate == delegate@);
                return true;
            }
            i += 1;
        }
        false
    }

    /// Records that `delegate` may act for `owner`, unless the very same grant
    /// is on record.
    pub fn add_delegate(
        &mut self,
        owner: AccountId,
        delegate: AccountId,
        kind: DelegationKind,
        delay: u32,
    ) -> (result: Result<(), Error>)
        ensures
            result is Ok <==> !old(self)@.contains(grant_of(owner@, delegate@, kind, delay)),
            result is Ok ==> final(self)@ == old(self)@.push(
                grant_of(owner@, delegate@, kind, delay),
            ),
            result matches Err(e) ==> e == Error::Duplicate && *final(self) == *old(self),
    {
        let grant = Delegation { owner, delegate, kind, delay };
        if self.contains(&grant) {
            return Err(Error::Duplicate);
        }
        self.grants.push(grant);
        assert(self@ =~= old(self)@.push(grant@));
        Ok(())
    }

    /// A copy of the registry as it stands.
    pub fn snapshot(&self) -> (copy: Delegations)
        ensures
            copy@ == self@,
    {
        let copy = Delegations { grants: self.grants.clone() };
        assert(copy@ =~= self@);
        copy
    }
}

} // verus!
