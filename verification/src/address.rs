//! Identities of callers, and the test that gates the owner-only operations.

use vstd::prelude::*;

verus! {

/// The number of bytes in an account address.
pub const ACCOUNT_ADDRESS_SIZE: usize = 32;

/// The address of an account, as raw bytes.
#[derive(Debug, Clone, Copy, PartialEq, Eq)]
pub struct AccountAddress(pub [u8; 32]);

/// The address of a contract instance.
#[derive(Debug, Clone, Copy, PartialEq, Eq)]
pub struct ContractAddress {
    pub index: u64,
    pub subindex: u64,
}

/// Who sent a call: an account or a contract instance.
#[derive(Debug, Clone, Copy, PartialEq, Eq)]
pub enum Address {
    Account(AccountAddress),
    Contract(ContractAddress),
}

/// The access guard: `caller` is the owner exactly when it is an account
/// address and agrees with `owner` in every byte. A contract is never the owner.
pub open spec fn spec_is_owner(caller: Address, owner: AccountAddress) -> bool {
    caller matches Address::Account(account) && account.0@ == owner.0@
}

/// Whether `caller` is the designated `owner`.
#[verifier::when_used_as_spec(spec_is_owner)]
pub fn is_owner(caller: Address, owner: AccountAddress) -> (yes: bool)
    ensures
        yes == spec_is_owner(caller, owner),
{
    match caller {
        Address::Account(account) => {
            let mut i: usize = 0;
            while i < ACCOUNT_ADDRESS_SIZE
                invariant
                    i <= ACCOUNT_ADDRESS_SIZE,
                    caller == Address::Account(account),
                    forall|k: int| 0 <= k < i ==> account.0@[k] == owner.0@[k],
                decreases ACCOUNT_ADDRESS_SIZE - i,
            {
                if account.0[i] != owner.0[i] {
                    assert(account.0@[i as int] != owner.0@[i as int]);
                    return false;
                }
                i += 1;
            }
            assert(account.0@ =~= owner.0@);
            true
        },
        Address::Contract(_) => false,
    }
}

} // verus!
