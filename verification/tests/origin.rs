use gamepower::account::AccountId;
use gamepower::origin::{ensure_signed, BadOrigin, Origin};

#[test]
fn a_signed_call_gets_through_under_its_account() {
    let who = AccountId::new([7; 32]);
    assert_eq!(ensure_signed(Origin::Signed(who)), Ok(who));
    let other = AccountId::new([8; 32]);
    assert_eq!(ensure_signed(Origin::Signed(other)), Ok(other));
}

#[test]
fn a_call_that_no_account_signed_is_refused() {
    assert_eq!(ensure_signed(Origin::Root), Err(BadOrigin {}));
    assert_eq!(ensure_signed(Origin::Nobody), Err(BadOrigin {}));
}
