//! Where a call comes from, and the rule that only a signed call gets through.

use vstd::prelude::*;
use crate::account::AccountId;

verus! {

/// Where a call comes from.
#[derive(Clone, Copy, Debug, PartialEq, Eq)]
pub enum Origin {
    /// The system itself.
    Root,
    /// An account that signed the call.
    Signed(AccountId),
    /// Nobody.
    Nobody,
}

/// The refusal of a call that no account signed.
#[derive(Clone, Copy, Debug, PartialEq, Eq)]
pub struct BadOrigin {}

/// The account that signed the call; any other origin is refused.
pub fn ensure_signed(origin: Origin) -> (result: Result<AccountId, BadOrigin>)
    ensures
        result is Ok <==> origin is Signed,
        result matches Ok(who) ==> origin == Origin::Signed(who),
{
    match origin {
        Origin::Signed(who) => Ok(who),
        Origin::Root => Err(BadOrigin {  }),
        Origin::Nobody => Err(BadOrigin {  }),
    }
}

} // verus!
