//! Balances: what each account may spend and what it holds locked.

use vstd::prelude::*;
use crate::account::AccountId;

verus! {

/// An amount of currency.
pub type Balance = u128;

/// What one account holds, as mathematical values.
pub struct Holding {
    /// What the account may spend.
    pub free: nat,
    /// What is locked: still the account's own, but not to be spent.
    pub reserved: nat,
}

/// The balances as mathematical values. Every account has a holding; one that
/// never received anything holds nothing.
pub struct BalancesView {
    pub accounts: Map<Seq<u8>, Holding>,
    pub total_issuance: nat,
}

impl BalancesView {
    /// No account holds anything.
    pub open spec fn empty() -> BalancesView {
        BalancesView {
            accounts: Map::total(|who: Seq<u8>| Holding { free: 0, reserved: 0 }),
            total_issuance: 0,
        }
    }

    /// What `who` may spend.
    pub open spec fn free(self, who: Seq<u8>) -> nat {
        self.accounts[who].free
    }

    /// What `who` holds locked.
    pub open spec fn reserved(self, who: Seq<u8>) -> nat {
        self.accounts[who].reserved
    }

    /// The balances after `amount` has been issued to `who`.
    pub open spec fn deposit(self, who: Seq<u8>, amount: nat) -> BalancesView {
        BalancesView {
            accounts: self.accounts.insert(
                who,
                Holding { free: self.free(who) + amount, reserved: self.reserved(who) },
            ),
            total_issuance: self.total_issuance + amount,
        }
    }

    /// The balances after `from` has paid `amount` to `to`.
    pub open spec fn transfer(self, from: Seq<u8>, to: Seq<u8>, amount: nat) -> BalancesView
        recommends
            amount <= self.free(from),
    {
        let paid = self.accounts.insert(
            from,
            Holding { free: (self.free(from) - amount) as nat, reserved: self.reserved(from) },
        );
        BalancesView {
            accounts: paid.insert(
                to,
                Holding { free: paid[to].free + amount, reserved: paid[to].reserved },
            ),
            total_issuance: self.total_issuance,
        }
    }

    /// The balances after `who` has had `amount` locked.
    pub open spec fn reserve(self, who: Seq<u8>, amount: nat) -> BalancesView
        recommends
            amount <= self.free(who),
    {
        BalancesView {
            accounts: self.accounts.insert(
                who,
                Holding {
                    free: (self.free(who) - amount) as nat,
                    reserved: self.reserved(who) + amount,
                },
            ),
            total_issuance: self.total_issuance,
        }
    }
}

/// Why the currency turned a request down.
#[derive(Clone, Copy, Debug, PartialEq, Eq)]
pub enum Error {
    /// The account may spend less than the amount asked for.
    InsufficientBalance,
    /// The currency cannot count that much in issue.
    Overflow,
}

#[derive(Clone, Copy)]
struct Entry {
    who: AccountId,
    free: Balance,
    reserved: Balance,
}

impl Entry {
    spec fn holding(self) -> Holding {
        Holding { free: self.free as nat, reserved: self.reserved as nat }
    }

    spec fn held(self) -> nat {
        self.free as nat + self.reserved as nat
    }
}

/// Everything that the entries hold together.
spec fn sum(entries: Seq<Entry>) -> nat
    decreases entries.len(),
{
    if entries.len() == 0 {
        0
    } else {
        sum(entries.drop_last()) + entries.last().held()
    }
}

/// One more entry adds what it holds.
proof fn lemma_sum_push(entries: Seq<Entry>, entry: Entry)
    ensures
        sum(entries.push(entry)) == sum(entries) + entry.held(),
{
    assert(entries.push(entry).drop_last() =~= entries);
}

/// Replacing an entry takes away what the old one held and adds what the new
/// one holds.
proof fn lemma_sum_update(entries: Seq<Entry>, i: int, entry: Entry)
    requires
        0 <= i < entries.len(),
    ensures
        sum(entries.update(i, entry)) + entries[i].held() == sum(entries) + entry.held(),
    decreases entries.len(),
{
    let updated = entries.update(i, entry);
    if i == entries.len() - 1 {
        assert(updated.drop_last() =~= entries.drop_last());
    } else {
        lemma_sum_update(entries.drop_last(), i, entry);
        assert(updated.drop_last() =~= entries.drop_last().update(i, entry));
    }
}

/// No entry holds more than all of them together.
proof fn lemma_sum_covers(entries: Seq<Entry>, i: int)
    requires
        0 <= i < entries.len(),
    ensures
        entries[i].held() <= sum(entries),
    decreases entries.len(),
{
    if i < entries.len() - 1 {
        lemma_sum_covers(entries.drop_last(), i);
    }
}

/// No account occurs twice among the entries, the map holds what they hold,
/// and an account without an entry holds nothing.
spec fn consistent(entries: Seq<Entry>, accounts: Map<Seq<u8>, Holding>) -> bool {
    &&& forall|i: int, j: int|
        0 <= i < j < entries.len() ==> (#[trigger] entries[i]).who@ != (#[trigger] entries[j]).who@
    &&& forall|k: Seq<u8>| #[trigger] accounts.dom().contains(k)
    &&& forall|i: int|
        0 <= i < entries.len() ==> accounts[(#[trigger] entries[i]).who@] == entries[i].holding()
    &&& forall|k: Seq<u8>|
        (forall|i: int| 0 <= i < entries.len() ==> (#[trigger] entries[i]).who@ != k)
            ==> #[trigger] accounts[k] == (Holding { free: 0, reserved: 0 })
}

/// Where the entry of `who` stands, if there is one.
fn position_in(entries: &Vec<Entry>, who: &AccountId) -> (found: Option<usize>)
    ensures
        found matches Some(i) ==> i < entries.len() && entries[i as int].who@ == who@,
        found is None ==> forall|j: int| 0 <= j < entries.len() ==> entries[j].who@ != who@,
{
    let mut i: usize = 0;
    while i < entries.len()
        invariant
            i <= entries.len(),
            forall|j: int| 0 <= j < i ==> entries[j].who@ != who@,
        decreases entries.len() - i,
    {
        if entries[i].who.same_as(who) {
            return Some(i);
        }
        i += 1;
    }
    None
}

/// Writes `entry` at the place where its account was found, or behind the
/// other entries where it was not.
fn put_at(
    entries: &mut Vec<Entry>,
    accounts: Ghost<Map<Seq<u8>, Holding>>,
    found: Option<usize>,
    entry: Entry,
) -> (updated: Ghost<Map<Seq<u8>, Holding>>)
    requires
        consistent(old(entries)@, accounts@),
        found matches Some(i) ==> i < old(entries).len() && old(entries)[i as int].who@
            == entry.who@,
        found is None ==> forall|j: int|
            0 <= j < old(entries).len() ==> old(entries)[j].who@ != entry.who@,
    ensures
        consistent(final(entries)@, updated@),
        updated@ == accounts@.insert(entry.who@, entry.holding()),
        found matches Some(i) ==> final(entries)@ == old(entries)@.update(i as int, entry),
        found is None ==> final(entries)@ == old(entries)@.push(entry),
{
    let ghost before = entries@;
    match found {
        Some(i) => {
            entries.set(i, entry);
        },
        None => {
            entries.push(entry);
        },
    }
    let ghost map = accounts@.insert(entry.who@, entry.holding());
    proof {
        let after = entries@;
        assert forall|i: int, j: int| 0 <= i < j < after.len() implies (#[trigger] after[i]).who@
            != (#[trigger] after[j]).who@ by {
            if i < before.len() && after[i].who@ != entry.who@ {
                assert(after[i] == before[i]);
            }
            if j < before.len() && after[j].who@ != entry.who@ {
                assert(after[j] == before[j]);
            }
        }
        assert forall|i: int| 0 <= i < after.len() implies map[(#[trigger] after[i]).who@]
            == after[i].holding() by {
            if after[i].who@ != entry.who@ {
                assert(after[i] == before[i]);
            }
        }
        assert forall|k: Seq<u8>|
            (forall|i: int| 0 <= i < after.len() ==> (#[trigger] after[i]).who@ != k)
                implies #[trigger] map[k] == (Holding { free: 0, reserved: 0 }) by {
            let at = if found is Some { found.unwrap() as int } else { before.len() as int };
            assert(after[at].who@ == entry.who@);
            assert forall|i: int| 0 <= i < before.len() implies (#[trigger] before[i]).who@ != k by {
                assert(after[i].who@ != k);
            }
        }
    }
    Ghost(map)
}

/// The currency: the holding of every account, and how much is in issue.
pub struct Balances {
    entries: Vec<Entry>,
    total_issuance: Balance,
    accounts: Ghost<Map<Seq<u8>, Holding>>,
}

impl View for Balances {
    type V = BalancesView;

    closed spec fn view(&self) -> BalancesView {
        BalancesView { accounts: self.accounts@, total_issuance: self.total_issuance as nat }
    }
}

impl Balances {
    #[verifier::type_invariant]
    spec fn inv(self) -> bool {
        &&& consistent(self.entries@, self.accounts@)
        &&& sum(self.entries@) == self.total_issuance
    }

    /// A currency of which nothing is in issue.
    pub fn new() -> (balances: Balances)
        ensures
            balances@ == BalancesView::empty(),
    {
        Balances {
            entries: Vec::new(),
            total_issuance: 0,
            accounts: Ghost(BalancesView::empty().accounts),
        }
    }

    fn position(&self, who: &AccountId) -> (found: Option<usize>)
        ensures
            found matches Some(i) ==> i < self.entries.len() && self.entries[i as int].who@ == who@,
            found is None ==> forall|j: int|
                0 <= j < self.entries.len() ==> self.entries[j].who@ != who@,
    {
        position_in(&self.entries, who)
    }

    /// How much is in issue.
    pub fn total_issuance(&self) -> (total: Balance)
        ensures
            total == self@.total_issuance,
    {
        self.total_issuance
    }

    /// What `who` may spend. No account holds more than is in issue.
    pub fn free_balance(&self, who: &AccountId) -> (amount: Balance)
        ensures
            amount == self@.free(who@),
            self@.free(who@) + self@.reserved(who@) <= self@.total_issuance,
    {
        proof {
            use_type_invariant(self);
        }
        match self.position(who) {
            Some(i) => {
                proof {
                    lemma_sum_covers(self.entries@, i as int);
                }
                self.entries[i].free
            },
            None => 0,
        }
    }

    /// Issues `amount` to `who`, unless that is more than the currency can count.
    pub fn deposit(&mut self, who: &AccountId, amount: Balance) -> (result: Result<(), Error>)
        ensures
            result is Ok <==> old(self)@.total_issuance + amount <= Balance::MAX,
            result is Ok ==> final(self)@ == old(self)@.deposit(who@, amount as nat),
            result matches Err(e) ==> e == Error::Overflow && *final(self) == *old(self),
    {
        proof {
            use_type_invariant(&*self);
        }
        let total = match self.total_issuance.checked_add(amount) {
            Some(total) => total,
            None => {
                return Err(Error::Overflow);
            },
        };
        let found = self.position(who);
        let (free, reserved) = match found {
            Some(i) => {
                proof {
                    lemma_sum_covers(self.entries@, i as int);
                }
                (self.entries[i].free, self.entries[i].reserved)
            },
            None => (0, 0),
        };
        let mut taken = Balances::new();
        std::mem::swap(self, &mut taken);
        let Balances { mut entries, total_issuance: _, accounts } = taken;
        let entry = Entry { who: *who, free: free + amount, reserved };
        proof {
            match found {
                Some(i) => lemma_sum_update(entries@, i as int, entry),
                None => lemma_sum_push(entries@, entry),
            }
        }
        let accounts = put_at(&mut entries, accounts, found, entry);
        *self = Balances { entries, total_issuance: total, accounts };
        Ok(())
    }

    /// Moves `amount` from what `from` may spend to what `to` may spend.
    pub fn transfer(
        &mut self,
        from: &AccountId,
        to: &AccountId,
        amount: Balance,
    ) -> (result: Result<(), Error>)
        ensures
            result is Ok <==> amount <= old(self)@.free(from@),
            result is Ok ==> final(self)@ == old(self)@.transfer(from@, to@, amount as nat),
            result matches Err(e) ==> e == Error::InsufficientBalance && *final(self) == *old(self),
    {
        proof {
            use_type_invariant(&*self);
        }
        let paying = self.position(from);
        let spendable = match paying {
            Some(i) => self.entries[i].free,
            None => 0,
        };
        if spendable < amount {
            return Err(Error::InsufficientBalance);
        }
        if amount == 0 || from.same_as(to) {
            assert(self@.transfer(from@, to@, amount as nat).accounts =~= self@.accounts);
            return Ok(());
        }
        let i = paying.unwrap();
        let mut taken = Balances::new();
        std::mem::swap(self, &mut taken);
        let Balances { mut entries, total_issuance, accounts } = taken;
        let ghost before = entries@;
        let payer = Entry { who: *from, free: spendable - amount, reserved: entries[i].reserved };
        let accounts = put_at(&mut entries, accounts, paying, payer);
        let receiving = position_in(&entries, to);
        let (free, reserved) = match receiving {
            Some(j) => (entries[j].free, entries[j].reserved),
            None => (0, 0),
        };
        proof {
            lemma_sum_update(before, i as int, payer);
            match receiving {
                Some(j) => lemma_sum_covers(entries@, j as int),
                None => {},
            }
        }
        let payee = Entry { who: *to, free: free + amount, reserved };
        proof {
            match receiving {
                Some(j) => lemma_sum_update(entries@, j as int, payee),
                None => lemma_sum_push(entries@, payee),
            }
        }
        let accounts = put_at(&mut entries, accounts, receiving, payee);
        *self = Balances { entries, total_issuance, accounts };
        Ok(())
    }

    /// Locks `amount` of what `who` may spend.
    pub fn reserve(&mut self, who: &AccountId, amount: Balance) -> (result: Result<(), Error>)
        ensures
            result is Ok <==> amount <= old(self)@.free(who@),
            result is Ok ==> final(self)@ == old(self)@.reserve(who@, amount as nat),
            result matches Err(e) ==> e == Error::InsufficientBalance && *final(self) == *old(self),
    {
        proof {
            use_type_invariant(&*self);
        }
        let found = self.position(who);
        let (free, reserved) = match found {
            Some(i) => {
                proof {
                    lemma_sum_covers(self.entries@, i as int);
                }
                (self.entries[i].free, self.entries[i].reserved)
            },
            None => (0, 0),
        };
        if free < amount {
            return Err(Error::InsufficientBalance);
        }
        let mut taken = Balances::new();
        std::mem::swap(self, &mut taken);
        let Balances { mut entries, total_issuance, accounts } = taken;
        let entry = Entry { who: *who, free: free - amount, reserved: reserved + amount };
        proof {
            match found {
                Some(i) => lemma_sum_update(entries@, i as int, entry),
                None => lemma_sum_push(entries@, entry),
            }
        }
        let accounts = put_at(&mut entries, accounts, found, entry);
        *self = Balances { entries, total_issuance, accounts };
        Ok(())
    }

    /// A copy of the balances as they stand.
    pub fn snapshot(&self) -> (copy: Balances)
        ensures
            copy@ == self@,
    {
        proof {
            use_type_invariant(self);
        }
        let entries = self.entries.clone();
        assert(entries@ =~= self.entries@);
        Balances { entries, total_issuance: self.total_issuance, accounts: self.accounts }
    }

    /// What `who` holds locked. No account holds more than is in issue.
    pub fn reserved_balance(&self, who: &AccountId) -> (amount: Balance)
        ensures
            amount == self@.reserved(who@),
            self@.free(who@) + self@.reserved(who@) <= self@.total_issuance,
    {
        proof {
            use_type_invariant(self);
        }
        match self.position(who) {
            Some(i) => {
                proof {
                    lemma_sum_covers(self.entries@, i as int);
                }
                self.entries[i].reserved
            },
            None => 0,
        }
    }
}

} // verus!
