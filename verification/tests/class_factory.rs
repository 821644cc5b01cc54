use gamepower::account::AccountId;
use gamepower::asset_class::{self, ClassData, ClassInfo, ClassProperties, ClassRegistry};
use gamepower::class_factory::{Config, Error, Event, Ledger, Pallet};
use gamepower::currency;
use gamepower::delegation::{self, Delegation, DelegationKind};
use gamepower::origin::{BadOrigin, Origin};

const DEPOSIT: u128 = 1_000;

fn creator(tag: u8) -> AccountId {
    AccountId::new([tag; 32])
}

fn factory() -> Pallet {
    Pallet::new(Config { create_class_deposit: DEPOSIT, module_id: *b"gp/nftcl" })
}

fn policy() -> ClassProperties {
    ClassProperties { transferable: true, burnable: false }
}

#[test]
fn test_call_reports_the_caller() {
    assert_eq!(Pallet::test_call(Origin::Signed(creator(4))), Ok(Event::TestedCall(creator(4))));
}

#[test]
fn test_call_that_no_account_signed_is_refused() {
    assert_eq!(Pallet::test_call(Origin::Root), Err(BadOrigin {}));
    assert_eq!(Pallet::test_call(Origin::Nobody), Err(BadOrigin {}));
}

#[test]
fn new_factory_keeps_its_configuration() {
    let pallet = factory();
    assert_eq!(pallet.config.create_class_deposit, DEPOSIT);
    assert_eq!(pallet.config.module_id, *b"gp/nftcl");
}

#[test]
fn create_class_with_too_little_is_turned_down() {
    let b = creator(2);
    let pallet = factory();
    let custody = pallet.custody_account(0);
    let mut ledger = Ledger::new();
    ledger.balances.deposit(&b, DEPOSIT - 1).unwrap();

    let result = pallet.create_class(&mut ledger, &b, b"cid".to_vec(), policy());

    assert_eq!(result, Err(Error::Currency(currency::Error::InsufficientBalance)));
    assert_eq!(ledger.balances.free_balance(&b), DEPOSIT - 1);
    assert_eq!(ledger.balances.reserved_balance(&b), 0);
    assert_eq!(ledger.balances.free_balance(&custody), 0);
    assert_eq!(ledger.balances.reserved_balance(&custody), 0);
    assert_eq!(ledger.balances.total_issuance(), DEPOSIT - 1);
    assert_eq!(ledger.delegations.len(), 0);
    assert!(!ledger.delegations.is_delegate(&custody, &b));
    assert_eq!(ledger.classes.next_class_id(), 0);
    assert!(ledger.classes.class(0).is_none());
}

#[test]
fn create_class_by_an_account_without_funds_is_turned_down() {
    let pallet = factory();
    let mut ledger = Ledger::new();
    let result = pallet.create_class(&mut ledger, &creator(9), vec![], policy());
    assert_eq!(result, Err(Error::Currency(currency::Error::InsufficientBalance)));
    assert_eq!(ledger.classes.next_class_id(), 0);
}

#[test]
fn create_class_locks_the_deposit_in_the_custody_account() {
    let c = creator(3);
    let pallet = factory();
    let custody = pallet.custody_account(0);
    let mut ledger = Ledger::new();
    ledger.balances.deposit(&c, 2_500).unwrap();

    let result = pallet.create_class(&mut ledger, &c, b"cid".to_vec(), policy());

    assert_eq!(result, Ok(Event::CreatedClass(custody, 0)));
    assert_eq!(ledger.balances.free_balance(&c), 1_500);
    assert_eq!(ledger.balances.reserved_balance(&c), 0);
    assert_eq!(ledger.balances.free_balance(&custody), 0);
    assert_eq!(ledger.balances.reserved_balance(&custody), DEPOSIT);
    assert_eq!(ledger.balances.total_issuance(), 2_500);
    assert!(ledger.delegations.is_delegate(&custody, &c));
    assert!(ledger.delegations.contains(&Delegation {
        owner: custody,
        delegate: c,
        kind: DelegationKind::Any,
        delay: 0,
    }));
    assert_eq!(ledger.delegations.len(), 1);
    assert_eq!(
        ledger.classes.class(0),
        Some(&ClassInfo {
            metadata: b"cid".to_vec(),
            owner: custody,
            data: ClassData { deposit: DEPOSIT, properties: policy() },
        })
    );
    assert_eq!(ledger.classes.next_class_id(), 1);
}

#[test]
fn create_class_with_exactly_the_deposit() {
    let c = creator(3);
    let pallet = factory();
    let mut ledger = Ledger::new();
    ledger.balances.deposit(&c, DEPOSIT).unwrap();
    let result = pallet.create_class(&mut ledger, &c, vec![], policy());
    assert_eq!(result, Ok(Event::CreatedClass(pallet.custody_account(0), 0)));
    assert_eq!(ledger.balances.free_balance(&c), 0);
    assert_eq!(ledger.balances.reserved_balance(&pallet.custody_account(0)), DEPOSIT);
}

#[test]
fn create_class_locks_what_the_custody_account_held_before() {
    let c = creator(3);
    let pallet = factory();
    let custody = pallet.custody_account(0);
    let mut ledger = Ledger::new();
    ledger.balances.deposit(&c, DEPOSIT).unwrap();
    ledger.balances.deposit(&custody, 7).unwrap();
    ledger.balances.reserve(&custody, 2).unwrap();

    let result = pallet.create_class(&mut ledger, &c, vec![], policy());

    assert_eq!(result, Ok(Event::CreatedClass(custody, 0)));
    assert_eq!(ledger.balances.free_balance(&custody), 0);
    assert_eq!(ledger.balances.reserved_balance(&custody), DEPOSIT + 7);
    assert_eq!(ledger.balances.total_issuance(), DEPOSIT + 7);
}

#[test]
fn each_class_gets_its_own_custody_account() {
    let c = creator(3);
    let d = creator(4);
    let pallet = factory();
    let mut ledger = Ledger::new();
    ledger.balances.deposit(&c, 2 * DEPOSIT).unwrap();
    ledger.balances.deposit(&d, DEPOSIT).unwrap();

    let first = pallet.create_class(&mut ledger, &c, b"one".to_vec(), policy());
    let second = pallet.create_class(&mut ledger, &d, b"two".to_vec(), policy());
    let third = pallet.create_class(&mut ledger, &c, b"three".to_vec(), policy());

    assert_eq!(first, Ok(Event::CreatedClass(pallet.custody_account(0), 0)));
    assert_eq!(second, Ok(Event::CreatedClass(pallet.custody_account(1), 1)));
    assert_eq!(third, Ok(Event::CreatedClass(pallet.custody_account(2), 2)));
    assert_ne!(pallet.custody_account(0), pallet.custody_account(1));
    assert_ne!(pallet.custody_account(1), pallet.custody_account(2));
    for class_id in 0..3 {
        let custody = pallet.custody_account(class_id);
        assert_eq!(ledger.balances.reserved_balance(&custody), DEPOSIT);
        assert_eq!(ledger.balances.free_balance(&custody), 0);
        assert_eq!(ledger.classes.class(class_id).map(|info| info.owner), Some(custody));
    }
    assert!(ledger.delegations.is_delegate(&pallet.custody_account(1), &d));
    assert!(!ledger.delegations.is_delegate(&pallet.custody_account(1), &c));
    assert_eq!(ledger.balances.free_balance(&c), 0);
    assert_eq!(ledger.balances.free_balance(&d), 0);
    assert_eq!(ledger.classes.next_class_id(), 3);
}

#[test]
fn a_grant_on_record_undoes_the_payment() {
    let c = creator(3);
    let pallet = factory();
    let custody = pallet.custody_account(0);
    let mut ledger = Ledger::new();
    ledger.balances.deposit(&c, 2_500).unwrap();
    ledger.balances.deposit(&custody, 7).unwrap();
    ledger.delegations.add_delegate(custody, c, DelegationKind::Any, 0).unwrap();

    let result = pallet.create_class(&mut ledger, &c, b"cid".to_vec(), policy());

    assert_eq!(result, Err(Error::Delegation(delegation::Error::Duplicate)));
    assert_eq!(ledger.balances.free_balance(&c), 2_500);
    assert_eq!(ledger.balances.free_balance(&custody), 7);
    assert_eq!(ledger.balances.reserved_balance(&custody), 0);
    assert_eq!(ledger.balances.total_issuance(), 2_507);
    assert_eq!(ledger.delegations.len(), 1);
    assert_eq!(ledger.classes.next_class_id(), 0);
    assert!(ledger.classes.class(0).is_none());
}

#[test]
fn a_full_registry_undoes_the_payment_and_the_grant() {
    let c = creator(3);
    let pallet = factory();
    let custody = pallet.custody_account(u32::MAX);
    let mut ledger = Ledger::new();
    ledger.classes = ClassRegistry::starting_at(u32::MAX);
    ledger.balances.deposit(&c, 2_500).unwrap();

    let result = pallet.create_class(&mut ledger, &c, b"cid".to_vec(), policy());

    assert_eq!(result, Err(Error::Registry(asset_class::Error::NoAvailableClassId)));
    assert_eq!(ledger.balances.free_balance(&c), 2_500);
    assert_eq!(ledger.balances.free_balance(&custody), 0);
    assert_eq!(ledger.balances.reserved_balance(&custody), 0);
    assert_eq!(ledger.delegations.len(), 0);
    assert!(!ledger.delegations.is_delegate(&custody, &c));
    assert_eq!(ledger.classes.next_class_id(), u32::MAX);
}

#[test]
fn too_little_is_reported_before_anything_else() {
    let c = creator(3);
    let pallet = factory();
    let custody = pallet.custody_account(u32::MAX);
    let mut ledger = Ledger::new();
    ledger.classes = ClassRegistry::starting_at(u32::MAX);
    ledger.delegations.add_delegate(custody, c, DelegationKind::Any, 0).unwrap();
    assert_eq!(
        pallet.create_class(&mut ledger, &c, vec![], policy()),
        Err(Error::Currency(currency::Error::InsufficientBalance))
    );
    ledger.balances.deposit(&c, DEPOSIT).unwrap();
    assert_eq!(
        pallet.create_class(&mut ledger, &c, vec![], policy()),
        Err(Error::Delegation(delegation::Error::Duplicate))
    );
}

#[test]
fn a_failed_call_does_not_stand_in_the_way_of_the_next() {
    let c = creator(3);
    let pallet = factory();
    let mut ledger = Ledger::new();
    ledger.balances.deposit(&c, DEPOSIT - 1).unwrap();
    assert!(pallet.create_class(&mut ledger, &c, vec![], policy()).is_err());
    ledger.balances.deposit(&c, 1).unwrap();
    assert_eq!(
        pallet.create_class(&mut ledger, &c, vec![], policy()),
        Ok(Event::CreatedClass(pallet.custody_account(0), 0))
    );
}

#[test]
fn a_factory_without_deposit_asks_for_nothing() {
    let c = creator(3);
    let pallet = Pallet::new(Config { create_class_deposit: 0, module_id: [0; 8] });
    let custody = pallet.custody_account(0);
    let mut ledger = Ledger::new();
    let result = pallet.create_class(&mut ledger, &c, vec![], policy());
    assert_eq!(result, Ok(Event::CreatedClass(custody, 0)));
    assert_eq!(ledger.balances.reserved_balance(&custody), 0);
    assert!(ledger.delegations.is_delegate(&custody, &c));
    assert_eq!(ledger.classes.class(0).map(|info| info.data.deposit), Some(0));
}

#[test]
fn a_custody_account_that_creates_a_class_locks_its_own_funds() {
    let pallet = factory();
    let custody = pallet.custody_account(0);
    let mut ledger = Ledger::new();
    ledger.balances.deposit(&custody, 1_200).unwrap();
    let result = pallet.create_class(&mut ledger, &custody, vec![], policy());
    assert_eq!(result, Ok(Event::CreatedClass(custody, 0)));
    assert_eq!(ledger.balances.free_balance(&custody), 0);
    assert_eq!(ledger.balances.reserved_balance(&custody), 1_200);
    assert!(ledger.delegations.is_delegate(&custody, &custody));
}
