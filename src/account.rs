//! The accounts a call is given, and the checks made on them before any
//! record is touched.
use crate::codec::{data_type_of, same_key, DataType, SolPubkey};
use crate::error::PollError;
use vstd::prelude::*;

verus! {

/// An account handed to the program: its address, whether it signed, its
/// balance, its data buffer and the program that owns it.
pub struct SolKeyedAccount {
    pub key: SolPubkey,
    pub is_signer: bool,
    pub lamports: u64,
    pub data: Vec<u8>,
    pub owner: SolPubkey,
}

/// What an account holds.
pub struct AccountView {
    pub key: Seq<u8>,
    pub is_signer: bool,
    pub lamports: u64,
    pub data: Seq<u8>,
    pub owner: Seq<u8>,
}

impl View for SolKeyedAccount {
    type V = AccountView;

    open spec fn view(&self) -> AccountView {
        AccountView {
            key: self.key@,
            is_signer: self.is_signer,
            lamports: self.lamports,
            data: self.data@,
            owner: self.owner@,
        }
    }
}

/// What a list of accounts holds.
pub open spec fn accounts_view(a: Seq<SolKeyedAccount>) -> Seq<AccountView> {
    a.map_values(|x: SolKeyedAccount| x@)
}

/// The lamports held by a list of accounts together.
pub open spec fn total_lamports(s: Seq<AccountView>) -> int
    decreases s.len(),
{
    if s.len() == 0 {
        0
    } else {
        total_lamports(s.drop_last()) + s.last().lamports
    }
}

/// The record type that a buffer's tag names; an empty buffer names none.
pub open spec fn tag_type(data: Seq<u8>) -> Option<DataType> {
    if data.len() == 0 {
        None
    } else {
        Some(data_type_of(data[0]))
    }
}

/// The account signed the transaction.
pub fn expect_signed(account: &SolKeyedAccount) -> (r: Result<(), PollError>)
    ensures
        r == if account.is_signer {
            Ok::<(), PollError>(())
        } else {
            Err(PollError::MissingSigner)
        },
{
    if !account.is_signer {
        return Err(PollError::MissingSigner);
    }
    Ok(())
}

/// The account belongs to the program `key`.
pub fn expect_owned_by(account: &SolKeyedAccount, key: &SolPubkey) -> (r: Result<(), PollError>)
    ensures
        r == if account.owner@ == key@ {
            Ok::<(), PollError>(())
        } else {
            Err(PollError::InvalidAccount)
        },
{
    if !same_key(&account.owner, key) {
        return Err(PollError::InvalidAccount);
    }
    Ok(())
}

/// The account's buffer is tagged as a `data_type` record.
pub fn expect_data_type(account: &SolKeyedAccount, data_type: DataType) -> (r: Result<(), PollError>)
    ensures
        r == if tag_type(account.data@) == Some(data_type) {
            Ok::<(), PollError>(())
        } else {
            Err(PollError::InvalidDataType)
        },
{
    if account.data.len() == 0 || DataType::from(account.data[0]).to_u8() != data_type.to_u8() {
        return Err(PollError::InvalidDataType);
    }
    Ok(())
}

/// The account's buffer holds no record yet.
pub fn expect_new_account(account: &SolKeyedAccount) -> (r: Result<(), PollError>)
    ensures
        r == if tag_type(account.data@) == Some(DataType::Unset) {
            Ok::<(), PollError>(())
        } else {
            Err(PollError::AccountNotNew)
        },
{
    match expect_data_type(account, DataType::Unset) {
        Ok(()) => Ok(()),
        Err(_) => Err(PollError::AccountNotNew),
    }
}

/// The account is at the address `key`.
pub fn expect_key(account: &SolKeyedAccount, key: &SolPubkey) -> (r: Result<(), PollError>)
    ensures
        r == if account.key@ == key@ {
            Ok::<(), PollError>(())
        } else {
            Err(PollError::InvalidKey)
        },
{
    if !same_key(&account.key, key) {
        return Err(PollError::InvalidKey);
    }
    Ok(())
}

/// The buffer holds at least `min_size` bytes.
pub fn expect_min_size(data: &[u8], min_size: usize) -> (r: Result<(), PollError>)
    ensures
        r == if data@.len() >= min_size {
            Ok::<(), PollError>(())
        } else {
            Err(PollError::AccountDataTooSmall)
        },
{
    if data.len() < min_size {
        return Err(PollError::AccountDataTooSmall);
    }
    Ok(())
}

/// A payload field exceeds its bound.
pub fn expect_gt(left: u32, right: u32) -> (r: Result<(), PollError>)
    ensures
        r == if left > right {
            Ok::<(), PollError>(())
        } else {
            Err(PollError::InvalidInput)
        },
{
    if left <= right {
        return Err(PollError::InvalidInput);
    }
    Ok(())
}

/// At least `n` accounts were passed.
pub fn expect_n_accounts(accounts: &[SolKeyedAccount], n: usize) -> (r: Result<(), PollError>)
    ensures
        r == if accounts@.len() >= n {
            Ok::<(), PollError>(())
        } else {
            Err(PollError::InvalidInput)
        },
{
    if accounts.len() < n {
        return Err(PollError::InvalidInput);
    }
    Ok(())
}

} // verus!
