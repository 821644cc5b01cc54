//! Game sessions: a player starts a game and ends it.

use vstd::prelude::*;
use crate::account::AccountId;
use crate::origin::{ensure_signed, BadOrigin, Origin};

verus! {

/// What the game module reports to the outside.
#[derive(Clone, Copy, Debug, PartialEq, Eq)]
pub enum Event {
    /// A player started a game.
    GameStarted(AccountId),
    /// A player ended a game.
    GameEnded(AccountId),
}

/// The game module. It keeps nothing: each call only reports.
pub struct Pallet {}

impl Pallet {
    /// Reports that the account that signed the call started a game. A call
    /// that no account signed is refused.
    pub fn start_game(origin: Origin) -> (result: Result<Event, BadOrigin>)
        ensures
            result is Ok <==> origin is Signed,
            result matches Ok(event) ==> origin matches Origin::Signed(player) && event
                == Event::GameStarted(player),
    {
        match ensure_signed(origin) {
            Ok(player) => Ok(Event::GameStarted(player)),
            Err(refusal) => Err(refusal),
        }
    }

    /// Reports that the account that signed the call ended a game. A call
    /// that no account signed is refused.
    pub fn end_game(origin: Origin) -> (result: Result<Event, BadOrigin>)
        ensures
            result is Ok <==> origin is Signed,
            result matches Ok(event) ==> origin matches Origin::Signed(player) && event
                == Event::GameEnded(player),
    {
        match ensure_signed(origin) {
            Ok(player) => Ok(Event::GameEnded(player)),
            Err(refusal) => Err(refusal),
        }
    }
}

} // verus!
