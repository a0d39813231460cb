//! The clock record the host supplies, and the fixed address it lives at.
use crate::codec::{read_u64, u64_at, SolPubkey};
use vstd::prelude::*;

verus! {

/// The host's clock: the current slot.
pub struct ClockData {
    pub slot: u64,
}

impl ClockData {
    /// Reads the slot from the start of the clock record.
    pub fn from_bytes(data: &[u8]) -> (r: ClockData)
        requires
            data@.len() >= 8,
        ensures
            r.slot == u64_at(data@, 0),
    {
        ClockData { slot: read_u64(data, 0) }
    }
}

/// The address of the clock sysvar, whose base58 form is
/// `SysvarC1ock11111111111111111111111111111111`.
pub open spec fn clock_sysvar_key() -> Seq<u8> {
    seq![
        6u8, 167, 213, 23, 24, 199, 116, 201, 40, 86, 99, 152, 105, 29, 94, 182, 139, 94, 184, 163,
        155, 75, 109, 92, 115, 85, 91, 33, 0, 0, 0, 0,
    ]
}

/// Relies on `solana_sdk::sysvar::clock::id`, declared in solana-program
/// from the base58 address `SysvarC1ock11111111111111111111111111111111`,
/// and on `Pubkey::to_bytes`, which hands back the address's 32 bytes.
#[verifier::external_body]
pub(crate) fn clock_sysvar_id() -> (r: SolPubkey)
    ensures
        r@ == clock_sysvar_key(),
{
    solana_sdk::sysvar::clock::id().to_bytes()
}

} // verus!
