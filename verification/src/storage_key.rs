//! The keys under which the launchpad keeps its collections in storage.
use vstd::prelude::*;
use vstd::string::*;

verus! {

/// A storage key of the launchpad.
#[derive(Debug, Clone, PartialEq, Eq)]
pub enum StorageKey {
    Investments,
    Vestings,
    IndividualVestingClaimed,
    DistributedAccounts,
    LockedWithdraw,
    DiscountPhasesState,
    LinkedPhases,
    DiscountWhitelist { id: u16 },
    SaleTokensPerUser { id: u16 },
}

/// The little-endian bytes of `id`.
pub open spec fn le_bytes(id: u16) -> Seq<u8> {
    seq![(id % 256) as u8, (id / 256) as u8]
}

/// The bytes of `prefix` followed by the little-endian bytes of `id`.
pub fn to_vec(prefix: &str, id: u16) -> (r: Vec<u8>)
    ensures
        r@ == prefix.spec_bytes() + le_bytes(id),
{
    let mut bytes = prefix.as_bytes_vec();
    bytes.push((id % 256) as u8);
    bytes.push((id / 256) as u8);
    assert(bytes@ =~= prefix.spec_bytes() + le_bytes(id));
    bytes
}

impl StorageKey {
    /// The bytes of the key.
    pub open spec fn bytes(self) -> Seq<u8> {
        match self {
            StorageKey::Investments => "investments".spec_bytes(),
            StorageKey::Vestings => "vestings".spec_bytes(),
            StorageKey::IndividualVestingClaimed => "individual_vesting_claimed".spec_bytes(),
            StorageKey::DistributedAccounts => "distributed_accounts".spec_bytes(),
            StorageKey::LockedWithdraw => "locked_withdraw".spec_bytes(),
            StorageKey::DiscountPhasesState => "discount_phases_state".spec_bytes(),
            StorageKey::LinkedPhases => "linked_phases".spec_bytes(),
            StorageKey::DiscountWhitelist { id } => "whitelist".spec_bytes() + le_bytes(id),
            StorageKey::SaleTokensPerUser { id } => "tokens_per_user".spec_bytes() + le_bytes(id),
        }
    }

    /// Returns the bytes of the key.
    pub fn into_storage_key(self) -> (r: Vec<u8>)
        ensures
            r@ == self.bytes(),
    {
        match self {
            StorageKey::Investments => "investments".as_bytes_vec(),
            StorageKey::Vestings => "vestings".as_bytes_vec(),
            StorageKey::IndividualVestingClaimed => "individual_vesting_claimed".as_bytes_vec(),
            StorageKey::DistributedAccounts => "distributed_accounts".as_bytes_vec(),
            StorageKey::LockedWithdraw => "locked_withdraw".as_bytes_vec(),
            StorageKey::DiscountPhasesState => "discount_phases_state".as_bytes_vec(),
            StorageKey::LinkedPhases => "linked_phases".as_bytes_vec(),
            StorageKey::DiscountWhitelist { id } => to_vec("whitelist", id),
            StorageKey::SaleTokensPerUser { id } => to_vec("tokens_per_user", id),
        }
    }
}

} // verus!
