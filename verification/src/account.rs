//! Account identifiers.

use vstd::prelude::*;

verus! {

/// A ledger account, identified by 32 bytes.
#[derive(Clone, Copy, Debug, PartialEq, Eq)]
pub struct AccountId {
    pub bytes: [u8; 32],
}

impl View for AccountId {
    type V = Seq<u8>;

    open spec fn view(&self) -> Seq<u8> {
        self.bytes@
    }
}

impl AccountId {
    /// The account with the given bytes.
    pub fn new(bytes: [u8; 32]) -> (account: AccountId)
        ensures
            account@ == bytes@,
    {
        AccountId { bytes }
    }

    /// Whether two identifiers name the same account.
    pub fn same_as(&self, other: &AccountId) -> (same: bool)
        ensures
            same == (self@ == other@),
    {
        let mut i: usize = 0;
        while i < 32
            invariant
                i <= 32,
                forall|j: int| 0 <= j < i ==> self.bytes@[j] == other.bytes@[j],
            decreases 32 - i,
        {
            if self.bytes[i] != other.bytes[i] {
                return false;
            }
            i += 1;
        }
        assert(self@ =~= other@);
        true
    }
}

/// The four bytes that every custody account starts with.
pub open spec fn custody_prefix() -> Seq<u8> {
    seq![0x6du8, 0x6fu8, 0x64u8, 0x6cu8]
}

/// The four bytes of `number`, lowest first.
pub open spec fn low_first(number: u32) -> Seq<u8> {
    seq![
        (number % 0x100) as u8,
        (number / 0x100 % 0x100) as u8,
        (number / 0x1_0000 % 0x100) as u8,
        (number / 0x100_0000) as u8,
    ]
}

/// The bytes of the custody account that the module `module_id` keeps for the
/// class `class_id`: the prefix, the module's identifier, the class id lowest
/// byte first, and zeros up to 32 bytes.
pub open spec fn custody_bytes(module_id: Seq<u8>, class_id: u32) -> Seq<u8>
    recommends
        module_id.len() == 8,
{
    custody_prefix() + module_id + low_first(class_id) + Seq::new(16, |i: int| 0u8)
}

/// The custody account that the module `module_id` keeps for the class
/// `class_id`. No key signs for it; it is reached by delegation only.
pub fn custody_account(module_id: &[u8; 8], class_id: u32) -> (account: AccountId)
    ensures
        account@ == custody_bytes(module_id@, class_id),
{
    let mut bytes = [0u8; 32];
    bytes[0] = 0x6d;
    bytes[1] = 0x6f;
    bytes[2] = 0x64;
    bytes[3] = 0x6c;
    let mut i: usize = 0;
    while i < 8
        invariant
            i <= 8,
            bytes@.len() == 32,
            bytes@.subrange(0, 4) == custody_prefix(),
            forall|j: int| 0 <= j < i ==> bytes@[4 + j] == module_id@[j],
            forall|j: int| 4 + i <= j < 32 ==> bytes@[j] == 0,
        decreases 8 - i,
    {
        bytes[4 + i] = module_id[i];
        assert(bytes@.subrange(0, 4) =~= custody_prefix());
        i += 1;
    }
    bytes[12] = (class_id % 0x100) as u8;
    bytes[13] = (class_id / 0x100 % 0x100) as u8;
    bytes[14] = (class_id / 0x1_0000 % 0x100) as u8;
    bytes[15] = (class_id / 0x100_0000) as u8;
    assert(bytes@ =~= custody_bytes(module_id@, class_id));
    AccountId { bytes }
}

/// Two custody accounts are the same only where the module and the class are
/// the same: no two classes share a custody account, and deriving the account
/// of one class again gives the same account.
pub proof fn lemma_custody_accounts_differ(
    module_a: Seq<u8>,
    class_a: u32,
    module_b: Seq<u8>,
    class_b: u32,
)
    requires
        module_a.len() == 8,
        module_b.len() == 8,
    ensures
        custody_bytes(module_a, class_a) == custody_bytes(module_b, class_b) <==> module_a
            == module_b && class_a == class_b,
{
    let a = custody_bytes(module_a, class_a);
    let b = custody_bytes(module_b, class_b);
    if a == b {
        assert forall|j: int| 0 <= j < 8 implies module_a[j] == module_b[j] by {
            assert(a[4 + j] == module_a[j]);
            assert(b[4 + j] == module_b[j]);
        }
        assert(module_a =~= module_b);
        assert(a[12] == low_first(class_a)[0] && b[12] == low_first(class_b)[0]);
        assert(a[13] == low_first(class_a)[1] && b[13] == low_first(class_b)[1]);
        assert(a[14] == low_first(class_a)[2] && b[14] == low_first(class_b)[2]);
        assert(a[15] == low_first(class_a)[3] && b[15] == low_first(class_b)[3]);
        assert(class_a == class_b);
    }
}

/// Every custody account has 32 bytes and starts with the custody prefix.
pub proof fn lemma_custody_account_shape(module_id: Seq<u8>, class_id: u32)
    requires
        module_id.len() == 8,
    ensures
        custody_bytes(module_id, class_id).len() == 32,
        custody_bytes(module_id, class_id).subrange(0, 4) == custody_prefix(),
{
    assert(custody_bytes(module_id, class_id).subrange(0, 4) =~= custody_prefix());
}

} // verus!
