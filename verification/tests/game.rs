use gamepower::account::AccountId;
use gamepower::game::{Event, Pallet};
use gamepower::origin::{BadOrigin, Origin};

#[test]
fn start_game_reports_the_player() {
    let player = AccountId::new([5; 32]);
    assert_eq!(Pallet::start_game(Origin::Signed(player)), Ok(Event::GameStarted(player)));
}

#[test]
fn end_game_reports_the_player() {
    let player = AccountId::new([6; 32]);
    assert_eq!(Pallet::end_game(Origin::Signed(player)), Ok(Event::GameEnded(player)));
    assert_ne!(Pallet::end_game(Origin::Signed(player)), Pallet::start_game(Origin::Signed(player)));
}

#[test]
fn a_game_that_no_account_signed_for_is_refused() {
    assert_eq!(Pallet::start_game(Origin::Root), Err(BadOrigin {}));
    assert_eq!(Pallet::start_game(Origin::Nobody), Err(BadOrigin {}));
    assert_eq!(Pallet::end_game(Origin::Root), Err(BadOrigin {}));
    assert_eq!(Pallet::end_game(Origin::Nobody), Err(BadOrigin {}));
}
