//! The class factory: creates an asset class that a custody account owns,
//! with the creator's deposit locked in that account and the creator set up
//! as its delegate. All of it happens, or none of it.

use vstd::prelude::*;
use crate::account::{custody_account, custody_bytes, lemma_custody_accounts_differ, AccountId};
use crate::asset_class;
use crate::asset_class::{ClassData, ClassId, ClassInfoView, ClassProperties, ClassRegistry};
use crate::currency;
use crate::currency::{Balance, Balances, BalancesView};
use crate::delegation;
use crate::delegation::{grant_of, DelegationKind, DelegationView, Delegations};
use crate::origin::{ensure_signed, BadOrigin, Origin};

verus! {

/// What is fixed for the factory.
#[derive(Clone, Copy, Debug, PartialEq, Eq)]
pub struct Config {
    /// The deposit that creating a class costs.
    pub create_class_deposit: Balance,
    /// The identifier from which the custody accounts are derived.
    pub module_id: [u8; 8],
}

/// What the factory works on: the currency, the delegation registry and the
/// asset-class registry.
pub struct Ledger {
    pub balances: Balances,
    pub delegations: Delegations,
    pub classes: ClassRegistry,
}

/// The ledger as mathematical values.
pub struct LedgerView {
    pub balances: BalancesView,
    pub delegations: Seq<DelegationView>,
    pub classes: asset_class::RegistryView,
}

impl View for Ledger {
    type V = LedgerView;

    open spec fn view(&self) -> LedgerView {
        LedgerView {
            balances: self.balances@,
            delegations: self.delegations@,
            classes: self.classes@,
        }
    }
}

/// Why the factory turned a request down: the collaborator that refused, and
/// its reason.
#[derive(Clone, Copy, Debug, PartialEq, Eq)]
pub enum Error {
    Currency(currency::Error),
    Delegation(delegation::Error),
    Registry(asset_class::Error),
}

/// What the factory reports to the outside.
#[derive(Clone, Copy, Debug, PartialEq, Eq)]
pub enum Event {
    /// The caller that tried the factory out.
    TestedCall(AccountId),
    /// A class was created: its custody account, its id.
    CreatedClass(AccountId, ClassId),
}

/// An event as mathematical values.
pub enum EventView {
    TestedCall(Seq<u8>),
    CreatedClass(Seq<u8>, ClassId),
}

impl View for Event {
    type V = EventView;

    open spec fn view(&self) -> EventView {
        match *self {
            Event::TestedCall(who) => EventView::TestedCall(who@),
            Event::CreatedClass(custody, class_id) => EventView::CreatedClass(custody@, class_id),
        }
    }
}

impl LedgerView {
    /// The id that the next class will get.
    pub open spec fn next_class_id(self) -> ClassId {
        self.classes.next_class_id as ClassId
    }

    /// The custody account of the class that would be created next.
    pub open spec fn next_custody(self, config: Config) -> Seq<u8> {
        custody_bytes(config.module_id@, self.next_class_id())
    }

    /// The balances after `creator` has paid the deposit to the custody
    /// account and everything that this account may then spend has been locked.
    pub open spec fn funded(self, config: Config, creator: Seq<u8>) -> BalancesView
        recommends
            config.create_class_deposit <= self.balances.free(creator),
    {
        let custody = self.next_custody(config);
        let paid = self.balances.transfer(creator, custody, config.create_class_deposit as nat);
        paid.reserve(custody, paid.free(custody))
    }

    /// The grant that lets `creator` act for the custody account.
    pub open spec fn grant(self, config: Config, creator: Seq<u8>) -> DelegationView {
        grant_of(self.next_custody(config), creator, DelegationKind::Any, 0)
    }

    /// The class that `create_class` puts on record.
    pub open spec fn new_class(
        self,
        config: Config,
        metadata: Seq<u8>,
        properties: ClassProperties,
    ) -> ClassInfoView {
        ClassInfoView {
            metadata,
            owner: self.next_custody(config),
            data: ClassData { deposit: config.create_class_deposit, properties },
        }
    }

    /// What `create_class` makes of the ledger: the ledger with the class in
    /// it, or the refusal of the first step that fails.
    pub open spec fn create_class(
        self,
        config: Config,
        creator: Seq<u8>,
        metadata: Seq<u8>,
        properties: ClassProperties,
    ) -> Result<LedgerView, Error> {
        if self.balances.free(creator) < config.create_class_deposit {
            Err(Error::Currency(currency::Error::InsufficientBalance))
        } else if self.delegations.contains(self.grant(config, creator)) {
            Err(Error::Delegation(delegation::Error::Duplicate))
        } else if !self.classes.has_room() {
            Err(Error::Registry(asset_class::Error::NoAvailableClassId))
        } else {
            Ok(
                LedgerView {
                    balances: self.funded(config, creator),
                    delegations: self.delegations.push(self.grant(config, creator)),
                    classes: self.classes.create_class(
                        self.next_custody(config),
                        metadata,
                        ClassData { deposit: config.create_class_deposit, properties },
                    ),
                },
            )
        }
    }
}

/// Where `create_class` succeeds, the deposit has left what the creator may
/// spend, the custody account may spend nothing and holds locked all that it
/// held and received, the creator is its delegate, the class is on record as
/// owned by it with the deposit and the properties given, nobody else's
/// holding has changed, and the next class will get another custody account.
pub proof fn lemma_created_class_is_settled(
    before: LedgerView,
    config: Config,
    creator: Seq<u8>,
    metadata: Seq<u8>,
    properties: ClassProperties,
)
    requires
        before.create_class(config, creator, metadata, properties) is Ok,
    ensures
        before.create_class(config, creator, metadata, properties) matches Ok(after) ==> ({
            let custody = before.next_custody(config);
            let deposit = config.create_class_deposit as nat;
            &&& after.balances.free(custody) == 0
            &&& after.balances.total_issuance == before.balances.total_issuance
            &&& creator != custody ==> {
                &&& after.balances.free(creator) == before.balances.free(creator) - deposit
                &&& after.balances.reserved(creator) == before.balances.reserved(creator)
                &&& after.balances.reserved(custody) == before.balances.reserved(custody)
                    + before.balances.free(custody) + deposit
            }
            &&& creator == custody ==> after.balances.reserved(custody)
                == before.balances.reserved(custody) + before.balances.free(custody)
            &&& forall|other: Seq<u8>|
                other != creator && other != custody ==> #[trigger] after.balances.accounts[other]
                    == before.balances.accounts[other]
            &&& after.delegations.contains(before.grant(config, creator))
            &&& after.classes.classes.dom().contains(before.next_class_id())
            &&& after.classes.classes[before.next_class_id()] == before.new_class(
                config,
                metadata,
                properties,
            )
            &&& after.classes.next_class_id == before.classes.next_class_id + 1
            &&& after.next_custody(config) != custody
        }),
{
    let after = before.create_class(config, creator, metadata, properties)->Ok_0;
    let grant = before.grant(config, creator);
    assert(after.delegations[before.delegations.len() as int] == grant);
    lemma_custody_accounts_differ(
        config.module_id@,
        before.next_class_id(),
        config.module_id@,
        after.next_class_id(),
    );
}

impl Ledger {
    /// A ledger on which nothing has happened yet.
    pub fn new() -> (ledger: Ledger)
        ensures
            ledger@.balances == BalancesView::empty(),
            ledger@.delegations == Seq::<DelegationView>::empty(),
            ledger@.classes == asset_class::RegistryView::starting_at(0),
    {
        Ledger {
            balances: Balances::new(),
            delegations: Delegations::new(),
            classes: ClassRegistry::new(),
        }
    }
}

/// The factory.
pub struct Pallet {
    pub config: Config,
}

impl Pallet {
    /// A factory with the given deposit and module identifier.
    pub fn new(config: Config) -> (pallet: Pallet)
        ensures
            pallet.config == config,
    {
        Pallet { config }
    }

    /// Reports the account that signed the call. A call that no account
    /// signed is refused.
    pub fn test_call(origin: Origin) -> (result: Result<Event, BadOrigin>)
        ensures
            result is Ok <==> origin is Signed,
            result matches Ok(event) ==> origin matches Origin::Signed(who) && event
                == Event::TestedCall(who),
    {
        match ensure_signed(origin) {
            Ok(who) => Ok(Event::TestedCall(who)),
            Err(refusal) => Err(refusal),
        }
    }

    /// The custody account that this factory keeps for the class `class_id`.
    pub fn custody_account(&self, class_id: ClassId) -> (account: AccountId)
        ensures
            account@ == custody_bytes(self.config.module_id@, class_id),
    {
        custody_account(&self.config.module_id, class_id)
    }

    /// Creates a class for `creator`. In order: the next class id is read and
    /// its custody account derived; `creator` pays the deposit to that
    /// account; all that the account may then spend is locked; `creator`
    /// becomes its delegate; the class is registered as owned by it. The
    /// first step that fails ends the call, and the ledger is then as it was.
    pub fn create_class(
        &self,
        ledger: &mut Ledger,
        creator: &AccountId,
        metadata: Vec<u8>,
        properties: ClassProperties,
    ) -> (result: Result<Event, Error>)
        ensures
            result matches Ok(event) ==> event@ == EventView::CreatedClass(
                old(ledger)@.next_custody(self.config),
                old(ledger)@.next_class_id(),
            ),
            result is Ok ==> old(ledger)@.create_class(
                self.config,
                creator@,
                metadata@,
                properties,
            ) == Ok::<LedgerView, Error>(final(ledger)@),
            result matches Err(e) ==> old(ledger)@.create_class(
                self.config,
                creator@,
                metadata@,
                properties,
            ) == Err::<LedgerView, Error>(e),
            result is Err ==> *final(ledger) == *old(ledger),
    {
        let deposit = self.config.create_class_deposit;
        let class_id = ledger.classes.next_class_id();
        let custody = self.custody_account(class_id);

        // The steps work on copies, so that the ledger sees none of them
        // before all have succeeded.
        let mut balances = ledger.balances.snapshot();
        match balances.transfer(creator, &custody, deposit) {
            Ok(()) => {},
            Err(e) => {
                return Err(Error::Currency(e));
            },
        }
        let spendable = balances.free_balance(&custody);
        match balances.reserve(&custody, spendable) {
            Ok(()) => {},
            Err(e) => {
                return Err(Error::Currency(e));
            },
        }
        let mut delegations = ledger.delegations.snapshot();
        match delegations.add_delegate(custody, *creator, DelegationKind::default(), 0) {
            Ok(()) => {},
            Err(e) => {
                return Err(Error::Delegation(e));
            },
        }
        // The registry comes last, and leaves itself unchanged where it refuses.
        let data = ClassData { deposit, properties };
        match ledger.classes.create_class(&custody, metadata, data) {
            Ok(_) => {},
            Err(e) => {
                return Err(Error::Registry(e));
            },
        }
        ledger.balances = balances;
        ledger.delegations = delegations;
        Ok(Event::CreatedClass(custody, class_id))
    }
}

} // verus!
