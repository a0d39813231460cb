//! The instruction dispatcher: reads the command byte, checks every
//! precondition of the command in a fixed order, and only then writes the
//! records and moves lamports. A refused instruction changes nothing.
use crate::account::{
    accounts_view, expect_data_type, expect_gt, expect_key, expect_min_size, expect_n_accounts,
    expect_new_account, expect_owned_by, expect_signed, tag_type, total_lamports, AccountView,
    SolKeyedAccount,
};
use crate::clock::{clock_sysvar_id, clock_sysvar_key, ClockData};
use crate::codec::{data_type_of, splice, u32_at, u64_at, DataType, SolPubkey};
use crate::collection::{
    add_poll, add_poll_outcome, collection_capacity, collection_count, collection_polls,
    collection_wf, CollectionData, MIN_COLLECTION_SIZE,
};
use crate::command::{command_of, CommandData};
use crate::error::PollError;
use crate::instruction::{parse_init_poll, InitPollData};
use crate::poll::{
    check_winning_tally, lemma_parse_poll_fits, lemma_poll_bytes_len, lemma_with_quantities_len,
    new_poll, parse_poll, poll_bytes, poll_record_outcome, record_wager as record_poll_wager,
    winning_outcome, PollData,
};
use crate::tally::{
    credited, lemma_credited_total, payout, payout_outcome, record_wager as record_tally_wager,
    tally_count, tally_record_outcome, tally_wagers, tally_wf, TallyData, MIN_TALLY_SIZE,
};
use vstd::prelude::*;
use vstd::slice::{slice_subrange, slice_to_vec};

verus! {

/// `a` with its data replaced by `data`.
pub open spec fn with_data(a: AccountView, data: Seq<u8>) -> AccountView {
    AccountView { data, ..a }
}

/// `a` with its balance replaced by `lamports`.
pub open spec fn with_lamports(a: AccountView, lamports: u64) -> AccountView {
    AccountView { lamports, ..a }
}

/// InitCollection, over accounts `[collection]`: the collection must sign,
/// belong to the program, be large enough for one poll, and be fresh; it is
/// then tagged as a collection.
pub open spec fn init_collection_outcome(program_id: Seq<u8>, s: Seq<AccountView>) -> Result<Seq<AccountView>, PollError> {
    if s.len() < 1 {
        Err(PollError::InvalidInput)
    } else if !s[0].is_signer {
        Err(PollError::MissingSigner)
    } else if s[0].owner != program_id {
        Err(PollError::InvalidAccount)
    } else if s[0].data.len() < MIN_COLLECTION_SIZE {
        Err(PollError::AccountDataTooSmall)
    } else if tag_type(s[0].data) != Some(DataType::Unset) {
        Err(PollError::AccountNotNew)
    } else {
        Ok(s.update(0, with_data(s[0], s[0].data.update(0, 1u8))))
    }
}

/// Runs InitCollection; see `init_collection_outcome`.
pub fn init_collection(program_id: &SolPubkey, accounts: &mut Vec<SolKeyedAccount>) -> (r: Result<(), PollError>)
    ensures
        match init_collection_outcome(program_id@, accounts_view(old(accounts)@)) {
            Ok(v) => r is Ok && accounts_view(final(accounts)@) == v,
            Err(e) => r == Err::<(), PollError>(e) && final(accounts)@ == old(accounts)@,
        },
{
    expect_n_accounts(accounts.as_slice(), 1)?;
    expect_signed(&accounts[0])?;
    expect_owned_by(&accounts[0], program_id)?;
    expect_min_size(accounts[0].data.as_slice(), MIN_COLLECTION_SIZE)?;
    expect_new_account(&accounts[0])?;
    let ghost s = accounts_view(accounts@);
    accounts[0].data.set(0, DataType::Collection.to_u8());
    assert(accounts_view(accounts@) =~= s.update(0, with_data(s[0], s[0].data.update(0, 1u8))));
    Ok(())
}

} // verus!

verus! {

/// The checks on a tally account that InitPoll is about to tag: it must
/// sign, belong to the program, be large enough for one entry, and be fresh.
pub open spec fn fresh_tally_outcome(program_id: Seq<u8>, a: AccountView) -> Result<(), PollError> {
    if !a.is_signer {
        Err(PollError::MissingSigner)
    } else if a.owner != program_id {
        Err(PollError::InvalidAccount)
    } else if a.data.len() < MIN_TALLY_SIZE {
        Err(PollError::AccountDataTooSmall)
    } else if tag_type(a.data) != Some(DataType::Unset) {
        Err(PollError::AccountNotNew)
    } else {
        Ok(())
    }
}

fn expect_fresh_tally(program_id: &SolPubkey, account: &SolKeyedAccount) -> (r: Result<(), PollError>)
    ensures
        r == fresh_tally_outcome(program_id@, account@),
{
    expect_signed(account)?;
    expect_owned_by(account, program_id)?;
    expect_min_size(account.data.as_slice(), MIN_TALLY_SIZE)?;
    expect_new_account(account)
}

/// The account checks of InitPoll, over accounts
/// `[creator, poll, collection, tally_a, tally_b, clock]`, in order.
pub open spec fn init_poll_account_checks(program_id: Seq<u8>, clock_key: Seq<u8>, s: Seq<AccountView>) -> Result<(), PollError> {
    if s.len() < 6 {
        Err(PollError::InvalidInput)
    } else if !s[0].is_signer || !s[1].is_signer {
        Err(PollError::MissingSigner)
    } else if s[1].owner != program_id {
        Err(PollError::InvalidAccount)
    } else if tag_type(s[1].data) != Some(DataType::Unset) {
        Err(PollError::AccountNotNew)
    } else if s[2].owner != program_id {
        Err(PollError::InvalidAccount)
    } else if tag_type(s[2].data) != Some(DataType::Collection) {
        Err(PollError::InvalidDataType)
    } else if fresh_tally_outcome(program_id, s[3]) is Err {
        fresh_tally_outcome(program_id, s[3])
    } else if fresh_tally_outcome(program_id, s[4]) is Err {
        fresh_tally_outcome(program_id, s[4])
    } else if s[5].key != clock_key {
        Err(PollError::InvalidKey)
    } else {
        Ok(())
    }
}

/// InitPoll: after the account checks, the collection record and the clock
/// are read and the payload decoded, whose three texts must not be empty;
/// the poll is registered in the collection, and must fit its buffer. Then
/// the poll record is written, open until the clock's slot plus the
/// timeout, and both tallies are tagged.
pub open spec fn init_poll_outcome(program_id: Seq<u8>, clock_key: Seq<u8>, s: Seq<AccountView>, payload: Seq<u8>) -> Result<Seq<AccountView>, PollError> {
    if init_poll_account_checks(program_id, clock_key, s) is Err {
        Err(init_poll_account_checks(program_id, clock_key, s)->Err_0)
    } else if !collection_wf(s[2].data) {
        Err(PollError::InvalidDataType)
    } else if s[5].data.len() < 8 {
        Err(PollError::AccountDataTooSmall)
    } else {
        match parse_init_poll(payload) {
            None => Err(PollError::InvalidInput),
            Some(i) => if i.header.len() == 0 || i.option_a.len() == 0 || i.option_b.len() == 0 {
                Err(PollError::InvalidInput)
            } else {
                match add_poll_outcome(s[2].data, s[1].key) {
                    Err(e) => Err(e),
                    Ok(c) => {
                        let slot = u64_at(s[5].data, 0);
                        let p = new_poll(i, s[0].key, s[3].key, s[4].key, slot);
                        if slot + i.timeout > u64::MAX {
                            Err(PollError::InvalidInput)
                        } else if poll_bytes(p).len() > s[1].data.len() {
                            Err(PollError::AccountDataTooSmall)
                        } else {
                            Ok(
                                s.update(1, with_data(s[1], splice(s[1].data, 0, poll_bytes(p)))).update(
                                    2,
                                    with_data(s[2], c),
                                ).update(3, with_data(s[3], s[3].data.update(0, 3u8))).update(
                                    4,
                                    with_data(s[4], s[4].data.update(0, 3u8)),
                                ),
                            )
                        }
                    },
                }
            },
        }
    }
}

/// Runs InitPoll with `init_data` as its payload; see `init_poll_outcome`.
pub fn init_poll(
    program_id: &SolPubkey,
    clock_key: &SolPubkey,
    accounts: &mut Vec<SolKeyedAccount>,
    init_data: &[u8],
) -> (r: Result<(), PollError>)
    ensures
        match init_poll_outcome(program_id@, clock_key@, accounts_view(old(accounts)@), init_data@) {
            Ok(v) => r is Ok && accounts_view(final(accounts)@) == v,
            Err(e) => r == Err::<(), PollError>(e) && final(accounts)@ == old(accounts)@,
        },
{
    let ghost s = accounts_view(accounts@);
    expect_n_accounts(accounts.as_slice(), 6)?;
    expect_signed(&accounts[0])?;
    expect_signed(&accounts[1])?;
    expect_owned_by(&accounts[1], program_id)?;
    expect_new_account(&accounts[1])?;
    expect_owned_by(&accounts[2], program_id)?;
    expect_data_type(&accounts[2], DataType::Collection)?;
    expect_fresh_tally(program_id, &accounts[3])?;
    expect_fresh_tally(program_id, &accounts[4])?;
    expect_key(&accounts[5], clock_key)?;
    assert(init_poll_account_checks(program_id@, clock_key@, s) is Ok);
    let mut collection = CollectionData::from_bytes(slice_to_vec(accounts[2].data.as_slice()))?;
    expect_min_size(accounts[5].data.as_slice(), 8)?;
    let clock = ClockData::from_bytes(accounts[5].data.as_slice());
    let init = match InitPollData::from_bytes(init_data) {
        Some(i) => i,
        None => return Err(PollError::InvalidInput),
    };
    expect_gt(init.header_len, 0)?;
    expect_gt(init.option_a_len, 0)?;
    expect_gt(init.option_b_len, 0)?;
    let poll_key = accounts[1].key;
    add_poll(&mut collection, &poll_key)?;
    if clock.slot > u64::MAX - init.timeout as u64 {
        return Err(PollError::InvalidInput);
    }
    let creator = accounts[0].key;
    let tally_a = accounts[3].key;
    let tally_b = accounts[4].key;
    let ghost p = new_poll(init@, creator@, tally_a@, tally_b@, clock.slot);
    proof {
        lemma_poll_bytes_len(p);
    }
    let needed: u64 = 133 + init.header_len as u64 + init.option_a_len as u64
        + init.option_b_len as u64;
    if (accounts[1].data.len() as u64) < needed {
        return Err(PollError::AccountDataTooSmall);
    }
    PollData::copy_to_bytes(&mut accounts[1].data, &init, &creator, &tally_a, &tally_b, clock.slot);
    accounts[2].data = collection.into_bytes();
    accounts[3].data.set(0, DataType::Tally.to_u8());
    accounts[4].data.set(0, DataType::Tally.to_u8());
    assert(accounts_view(accounts@) =~= init_poll_outcome(
        program_id@,
        clock_key@,
        s,
        init_data@,
    )->Ok_0);
    Ok(())
}

} // verus!

verus! {

/// The account checks of SubmitVote, over accounts
/// `[voter, poll, tally, payout, clock]`, in order.
pub open spec fn submit_vote_account_checks(program_id: Seq<u8>, clock_key: Seq<u8>, s: Seq<AccountView>) -> Result<(), PollError> {
    if s.len() < 5 {
        Err(PollError::InvalidInput)
    } else if !s[0].is_signer {
        Err(PollError::MissingSigner)
    } else if s[0].owner != program_id || s[1].owner != program_id {
        Err(PollError::InvalidAccount)
    } else if tag_type(s[1].data) != Some(DataType::Poll) {
        Err(PollError::InvalidDataType)
    } else if s[2].owner != program_id {
        Err(PollError::InvalidAccount)
    } else if tag_type(s[2].data) != Some(DataType::Tally) {
        Err(PollError::InvalidDataType)
    } else if s[4].key != clock_key {
        Err(PollError::InvalidKey)
    } else {
        Ok(())
    }
}

/// SubmitVote: after the account checks, the clock, poll and tally records
/// are read. The poll must still be open at the clock's slot and the voter
/// must hold lamports; its whole balance is the wager, recorded on the
/// poll's option for this tally and in the tally under the payout account.
/// Then the wager moves from the voter to the poll.
pub open spec fn submit_vote_outcome(program_id: Seq<u8>, clock_key: Seq<u8>, s: Seq<AccountView>) -> Result<Seq<AccountView>, PollError> {
    if submit_vote_account_checks(program_id, clock_key, s) is Err {
        Err(submit_vote_account_checks(program_id, clock_key, s)->Err_0)
    } else if s[4].data.len() < 8 {
        Err(PollError::AccountDataTooSmall)
    } else if parse_poll(s[1].data) is None || !tally_wf(s[2].data) {
        Err(PollError::InvalidDataType)
    } else {
        let slot = u64_at(s[4].data, 0);
        let p = parse_poll(s[1].data)->Some_0;
        let w = s[0].lamports;
        if p.last_block < slot {
            Err(PollError::PollAlreadyFinished)
        } else if w == 0 {
            Err(PollError::WagerHasNoFunds)
        } else {
            match poll_record_outcome(p, s[2].key, w) {
                Err(e) => Err(e),
                Ok(p2) => match tally_record_outcome(s[2].data, s[3].key, w) {
                    Err(e) => Err(e),
                    Ok(t2) => if s[1].lamports + w > u64::MAX {
                        Err(PollError::InvalidInput)
                    } else {
                        Ok(
                            s.update(
                                1,
                                AccountView {
                                    data: splice(s[1].data, 0, poll_bytes(p2)),
                                    lamports: (s[1].lamports + w) as u64,
                                    ..s[1]
                                },
                            ).update(2, with_data(s[2], t2)).update(0, with_lamports(s[0], 0)),
                        )
                    },
                },
            }
        }
    }
}

/// Runs SubmitVote; see `submit_vote_outcome`.
pub fn submit_vote(program_id: &SolPubkey, clock_key: &SolPubkey, accounts: &mut Vec<SolKeyedAccount>) -> (r: Result<(), PollError>)
    ensures
        match submit_vote_outcome(program_id@, clock_key@, accounts_view(old(accounts)@)) {
            Ok(v) => r is Ok && accounts_view(final(accounts)@) == v,
            Err(e) => r == Err::<(), PollError>(e) && final(accounts)@ == old(accounts)@,
        },
{
    let ghost s = accounts_view(accounts@);
    expect_n_accounts(accounts.as_slice(), 5)?;
    expect_signed(&accounts[0])?;
    expect_owned_by(&accounts[0], program_id)?;
    expect_owned_by(&accounts[1], program_id)?;
    expect_data_type(&accounts[1], DataType::Poll)?;
    expect_owned_by(&accounts[2], program_id)?;
    expect_data_type(&accounts[2], DataType::Tally)?;
    expect_key(&accounts[4], clock_key)?;
    assert(submit_vote_account_checks(program_id@, clock_key@, s) is Ok);
    expect_min_size(accounts[4].data.as_slice(), 8)?;
    let clock = ClockData::from_bytes(accounts[4].data.as_slice());
    let mut poll = match PollData::from_bytes(accounts[1].data.as_slice()) {
        Some(p) => p,
        None => return Err(PollError::InvalidDataType),
    };
    let mut tally = TallyData::from_bytes(slice_to_vec(accounts[2].data.as_slice()))?;
    if poll.last_block < clock.slot {
        return Err(PollError::PollAlreadyFinished);
    }
    if accounts[0].lamports == 0 {
        return Err(PollError::WagerHasNoFunds);
    }
    let wager = accounts[0].lamports;
    let tally_key = accounts[2].key;
    let ghost p = poll@;
    record_poll_wager(&mut poll, &tally_key, wager)?;
    let payout_key = accounts[3].key;
    record_tally_wager(&mut tally, &payout_key, wager)?;
    if accounts[1].lamports > u64::MAX - wager {
        return Err(PollError::InvalidInput);
    }
    proof {
        lemma_parse_poll_fits(s[1].data);
        lemma_with_quantities_len(p, poll.option_a.quantity, poll.option_b.quantity);
    }
    poll.write_to(&mut accounts[1].data);
    let balance = accounts[1].lamports;
    accounts[1].lamports = balance + wager;
    accounts[2].data = tally.into_bytes();
    accounts[0].lamports = 0;
    assert(accounts_view(accounts@) =~= submit_vote_outcome(program_id@, clock_key@, s)->Ok_0);
    Ok(())
}

/// The account checks of SubmitClaim, over accounts
/// `[poll, tally, clock, payout...]`, in order.
pub open spec fn submit_claim_account_checks(program_id: Seq<u8>, clock_key: Seq<u8>, s: Seq<AccountView>) -> Result<(), PollError> {
    if s.len() < 3 {
        Err(PollError::InvalidInput)
    } else if s[0].owner != program_id {
        Err(PollError::InvalidAccount)
    } else if tag_type(s[0].data) != Some(DataType::Poll) {
        Err(PollError::InvalidDataType)
    } else if s[1].owner != program_id {
        Err(PollError::InvalidAccount)
    } else if tag_type(s[1].data) != Some(DataType::Tally) {
        Err(PollError::InvalidDataType)
    } else if s[2].key != clock_key {
        Err(PollError::InvalidKey)
    } else {
        Ok(())
    }
}

/// SubmitClaim: after the account checks, the poll must hold more than one
/// lamport; all but one of them are the pot. The clock, poll and tally
/// records are read; the poll's deadline must have been reached, the
/// payout accounts must cover the tally, and the tally must be the
/// winner's. The pot is then paid out to the payout accounts and the poll
/// is left with one lamport, so that a second claim finds nothing.
pub open spec fn submit_claim_outcome(program_id: Seq<u8>, clock_key: Seq<u8>, s: Seq<AccountView>) -> Result<Seq<AccountView>, PollError> {
    if submit_claim_account_checks(program_id, clock_key, s) is Err {
        Err(submit_claim_account_checks(program_id, clock_key, s)->Err_0)
    } else if s[0].lamports <= 1 {
        Err(PollError::PollHasNoFunds)
    } else if s[2].data.len() < 8 {
        Err(PollError::AccountDataTooSmall)
    } else if parse_poll(s[0].data) is None || !tally_wf(s[1].data) {
        Err(PollError::InvalidDataType)
    } else {
        let slot = u64_at(s[2].data, 0);
        let p = parse_poll(s[0].data)->Some_0;
        let pot = (s[0].lamports - 1) as u64;
        if p.last_block > slot {
            Err(PollError::PollNotFinished)
        } else if s.len() - 3 < tally_count(s[1].data) {
            Err(PollError::InvalidInput)
        } else {
            match winning_outcome(p, s[1].key) {
                Err(e) => Err(e),
                Ok(wq) => match payout_outcome(s[1].data, s.subrange(3, s.len() as int), wq, pot) {
                    Err(e) => Err(e),
                    Ok(v) => Ok(s.subrange(0, 3).update(0, with_lamports(s[0], 1)) + v),
                },
            }
        }
    }
}

/// Runs SubmitClaim; see `submit_claim_outcome`.
pub fn submit_claim(program_id: &SolPubkey, clock_key: &SolPubkey, accounts: &mut Vec<SolKeyedAccount>) -> (r: Result<(), PollError>)
    ensures
        match submit_claim_outcome(program_id@, clock_key@, accounts_view(old(accounts)@)) {
            Ok(v) => r is Ok && accounts_view(final(accounts)@) == v,
            Err(e) => r == Err::<(), PollError>(e) && final(accounts)@ == old(accounts)@,
        },
{
    let ghost s = accounts_view(accounts@);
    let ghost old_accounts = accounts@;
    expect_n_accounts(accounts.as_slice(), 3)?;
    expect_owned_by(&accounts[0], program_id)?;
    expect_data_type(&accounts[0], DataType::Poll)?;
    expect_owned_by(&accounts[1], program_id)?;
    expect_data_type(&accounts[1], DataType::Tally)?;
    expect_key(&accounts[2], clock_key)?;
    assert(submit_claim_account_checks(program_id@, clock_key@, s) is Ok);
    if accounts[0].lamports <= 1 {
        return Err(PollError::PollHasNoFunds);
    }
    let pot = accounts[0].lamports - 1;
    expect_min_size(accounts[2].data.as_slice(), 8)?;
    let clock = ClockData::from_bytes(accounts[2].data.as_slice());
    let poll = match PollData::from_bytes(accounts[0].data.as_slice()) {
        Some(p) => p,
        None => return Err(PollError::InvalidDataType),
    };
    let tally = TallyData::from_bytes(slice_to_vec(accounts[1].data.as_slice()))?;
    if poll.last_block > clock.slot {
        return Err(PollError::PollNotFinished);
    }
    if accounts.len() - 3 < tally.len() {
        return Err(PollError::InvalidInput);
    }
    let tally_key = accounts[1].key;
    let winning_quantity = check_winning_tally(&poll, &tally_key)?;
    let mut payees = accounts.split_off(3);
    assert(accounts_view(payees@) =~= s.subrange(3, s.len() as int));
    let paid = payout(&tally, &mut payees, winning_quantity, pot);
    accounts.append(&mut payees);
    match paid {
        Err(e) => {
            assert(accounts@ =~= old_accounts);
            Err(e)
        },
        Ok(()) => {
            accounts[0].lamports = 1;
            assert(accounts_view(accounts@) =~= submit_claim_outcome(program_id@, clock_key@, s)->Ok_0);
            Ok(())
        },
    }
}

} // verus!

verus! {

/// What an instruction does: its first byte names the command, which runs
/// on the accounts with the rest as its payload; the clock account must be
/// the clock sysvar.
pub open spec fn process_outcome(program_id: Seq<u8>, s: Seq<AccountView>, data: Seq<u8>) -> Result<Seq<AccountView>, PollError> {
    if data.len() == 0 {
        Err(PollError::InvalidCommand)
    } else {
        match command_of(data[0]) {
            None => Err(PollError::InvalidCommand),
            Some(CommandData::InitCollection) => init_collection_outcome(program_id, s),
            Some(CommandData::InitPoll) => init_poll_outcome(
                program_id,
                clock_sysvar_key(),
                s,
                data.subrange(1, data.len() as int),
            ),
            Some(CommandData::SubmitVote) => submit_vote_outcome(program_id, clock_sysvar_key(), s),
            Some(CommandData::SubmitClaim) => submit_claim_outcome(program_id, clock_sysvar_key(), s),
        }
    }
}

/// Changing one account's balance changes the total by the difference.
pub proof fn lemma_total_update(s: Seq<AccountView>, i: int, a: AccountView)
    requires
        0 <= i < s.len(),
    ensures
        total_lamports(s.update(i, a)) == total_lamports(s) - s[i].lamports + a.lamports,
    decreases s.len(),
{
    let t = s.update(i, a);
    if i == s.len() - 1 {
        assert(t.drop_last() =~= s.drop_last());
    } else {
        lemma_total_update(s.drop_last(), i, a);
        assert(t.drop_last() =~= s.drop_last().update(i, a));
    }
}

/// The total of two lists together is the sum of their totals.
pub proof fn lemma_total_concat(a: Seq<AccountView>, b: Seq<AccountView>)
    ensures
        total_lamports(a + b) == total_lamports(a) + total_lamports(b),
    decreases b.len(),
{
    if b.len() == 0 {
        assert(a + b =~= a);
    } else {
        lemma_total_concat(a, b.drop_last());
        assert((a + b).drop_last() =~= a + b.drop_last());
    }
}

/// InitCollection moves no lamports.
pub proof fn lemma_init_collection_conserves(program_id: Seq<u8>, s: Seq<AccountView>)
    requires
        init_collection_outcome(program_id, s) is Ok,
    ensures
        total_lamports(init_collection_outcome(program_id, s)->Ok_0) == total_lamports(s),
{
    lemma_total_update(s, 0, with_data(s[0], s[0].data.update(0, 1u8)));
}

/// InitPoll moves no lamports.
pub proof fn lemma_init_poll_conserves(program_id: Seq<u8>, clock_key: Seq<u8>, s: Seq<AccountView>, payload: Seq<u8>)
    requires
        init_poll_outcome(program_id, clock_key, s, payload) is Ok,
    ensures
        total_lamports(init_poll_outcome(program_id, clock_key, s, payload)->Ok_0) == total_lamports(s),
{
    let i = parse_init_poll(payload)->Some_0;
    let slot = u64_at(s[5].data, 0);
    let p = new_poll(i, s[0].key, s[3].key, s[4].key, slot);
    let cd = add_poll_outcome(s[2].data, s[1].key)->Ok_0;
    let s1 = s.update(1, with_data(s[1], splice(s[1].data, 0, poll_bytes(p))));
    let s2 = s1.update(2, with_data(s1[2], cd));
    let s3 = s2.update(3, with_data(s2[3], s2[3].data.update(0, 3u8)));
    let s4 = s3.update(4, with_data(s3[4], s3[4].data.update(0, 3u8)));
    assert(init_poll_outcome(program_id, clock_key, s, payload)->Ok_0 == s4);
    lemma_total_update(s, 1, with_data(s[1], splice(s[1].data, 0, poll_bytes(p))));
    lemma_total_update(s1, 2, with_data(s1[2], cd));
    lemma_total_update(s2, 3, with_data(s2[3], s2[3].data.update(0, 3u8)));
    lemma_total_update(s3, 4, with_data(s3[4], s3[4].data.update(0, 3u8)));
}

/// SubmitVote moves the wager from the voter to the poll, and nothing else.
pub proof fn lemma_submit_vote_conserves(program_id: Seq<u8>, clock_key: Seq<u8>, s: Seq<AccountView>)
    requires
        submit_vote_outcome(program_id, clock_key, s) is Ok,
    ensures
        total_lamports(submit_vote_outcome(program_id, clock_key, s)->Ok_0) == total_lamports(s),
{
    let p = parse_poll(s[1].data)->Some_0;
    let w = s[0].lamports;
    let p2 = poll_record_outcome(p, s[2].key, w)->Ok_0;
    let t2 = tally_record_outcome(s[2].data, s[3].key, w)->Ok_0;
    let a1 = AccountView {
        data: splice(s[1].data, 0, poll_bytes(p2)),
        lamports: (s[1].lamports + w) as u64,
        ..s[1]
    };
    let s1 = s.update(1, a1);
    let s2 = s1.update(2, with_data(s1[2], t2));
    let s3 = s2.update(0, with_lamports(s2[0], 0));
    assert(submit_vote_outcome(program_id, clock_key, s)->Ok_0 == s3);
    lemma_total_update(s, 1, a1);
    lemma_total_update(s1, 2, with_data(s1[2], t2));
    lemma_total_update(s2, 0, with_lamports(s2[0], 0));
}

/// SubmitClaim moves the pot from the poll to the payout accounts, and nothing else.
pub proof fn lemma_submit_claim_conserves(program_id: Seq<u8>, clock_key: Seq<u8>, s: Seq<AccountView>)
    requires
        submit_claim_outcome(program_id, clock_key, s) is Ok,
    ensures
        total_lamports(submit_claim_outcome(program_id, clock_key, s)->Ok_0) == total_lamports(s),
{
    let p = parse_poll(s[0].data)->Some_0;
    let pot = (s[0].lamports - 1) as u64;
    let wq = winning_outcome(p, s[1].key)->Ok_0;
    let d = s[1].data;
    let payees = s.subrange(3, s.len() as int);
    let head = s.subrange(0, 3);
    let ws = tally_wagers(d);
    let n = tally_count(d) as int;
    let v = credited(payees, pot, ws, wq);
    assert(payout_outcome(d, payees, wq, pot) == Ok::<Seq<AccountView>, PollError>(v));
    assert(ws.len() == n);
    lemma_credited_total(payees, pot, ws, wq, n);
    assert(v.subrange(0, n) =~= v);
    assert(payees.subrange(0, n) =~= payees);
    lemma_total_update(head, 0, with_lamports(s[0], 1));
    lemma_total_concat(head.update(0, with_lamports(s[0], 1)), v);
    lemma_total_concat(head, payees);
    assert(head + payees =~= s);
}

/// No instruction creates or destroys lamports: every successful one leaves
/// the total balance of its accounts as it was.
pub proof fn lemma_instruction_conserves_lamports(program_id: Seq<u8>, s: Seq<AccountView>, data: Seq<u8>)
    requires
        process_outcome(program_id, s, data) is Ok,
    ensures
        total_lamports(process_outcome(program_id, s, data)->Ok_0) == total_lamports(s),
{
    let c = command_of(data[0])->Some_0;
    if c == CommandData::InitCollection {
        lemma_init_collection_conserves(program_id, s);
    } else if c == CommandData::InitPoll {
        lemma_init_poll_conserves(program_id, clock_sysvar_key(), s, data.subrange(1, data.len() as int));
    } else if c == CommandData::SubmitVote {
        lemma_submit_vote_conserves(program_id, clock_sysvar_key(), s);
    } else {
        lemma_submit_claim_conserves(program_id, clock_sysvar_key(), s);
    }
}

/// Runs one instruction: the first byte of `data` names the command, the
/// rest is its payload. On success the accounts hold what the command
/// writes and their total balance is unchanged; on failure they are
/// untouched.
pub fn process_instruction(program_id: &SolPubkey, accounts: &mut Vec<SolKeyedAccount>, data: &[u8]) -> (r: Result<(), PollError>)
    ensures
        match process_outcome(program_id@, accounts_view(old(accounts)@), data@) {
            Ok(v) => r is Ok && accounts_view(final(accounts)@) == v,
            Err(e) => r == Err::<(), PollError>(e) && final(accounts)@ == old(accounts)@,
        },
        r is Ok ==> total_lamports(accounts_view(final(accounts)@)) == total_lamports(
            accounts_view(old(accounts)@),
        ),
{
    proof {
        if process_outcome(program_id@, accounts_view(accounts@), data@) is Ok {
            lemma_instruction_conserves_lamports(program_id@, accounts_view(accounts@), data@);
        }
    }
    if data.len() == 0 {
        return Err(PollError::InvalidCommand);
    }
    let command = match CommandData::try_from(data[0]) {
        Ok(c) => c,
        Err(()) => return Err(PollError::InvalidCommand),
    };
    let clock_key = clock_sysvar_id();
    match command {
        CommandData::InitCollection => init_collection(program_id, accounts),
        CommandData::InitPoll => init_poll(
            program_id,
            &clock_key,
            accounts,
            slice_subrange(data, 1, data.len()),
        ),
        CommandData::SubmitVote => submit_vote(program_id, &clock_key, accounts),
        CommandData::SubmitClaim => submit_claim(program_id, &clock_key, accounts),
    }
}

} // verus!

verus! {

/// InitCollection on a zero-filled buffer leaves an empty collection whose
/// capacity is what the buffer has room for.
pub proof fn lemma_init_collection_empty(program_id: Seq<u8>, s: Seq<AccountView>)
    requires
        init_collection_outcome(program_id, s) is Ok,
        forall|i: int| 0 <= i < s[0].data.len() ==> s[0].data[i] == 0,
    ensures
        ({
            let d = (init_collection_outcome(program_id, s)->Ok_0)[0].data;
            &&& data_type_of(d[0]) == DataType::Collection
            &&& collection_wf(d)
            &&& collection_count(d) == 0
            &&& collection_polls(d) == Seq::<Seq<u8>>::empty()
            &&& collection_capacity(d) == if (d.len() - 5) / 32 > u32::MAX {
                u32::MAX as int
            } else {
                (d.len() - 5) / 32
            }
            &&& collection_capacity(d) >= 1
        }),
{
    let d = (init_collection_outcome(program_id, s)->Ok_0)[0].data;
    assert(d[1] == 0 && d[2] == 0 && d[3] == 0 && d[4] == 0);
    assert(u32_at(d, 1) == 0);
    assert(collection_polls(d) =~= Seq::<Seq<u8>>::empty());
}

/// A claim made while the poll's deadline is still ahead of the clock is
/// refused as not finished, once the checks that come before it pass.
pub proof fn lemma_claim_before_deadline(program_id: Seq<u8>, clock_key: Seq<u8>, s: Seq<AccountView>)
    requires
        submit_claim_account_checks(program_id, clock_key, s) is Ok,
        s[0].lamports > 1,
        s[2].data.len() >= 8,
        parse_poll(s[0].data) is Some,
        tally_wf(s[1].data),
        (parse_poll(s[0].data)->Some_0).last_block > u64_at(s[2].data, 0),
    ensures
        submit_claim_outcome(program_id, clock_key, s) == Err::<Seq<AccountView>, PollError>(
            PollError::PollNotFinished,
        ),
{
}

/// A vote made once the clock has passed the poll's deadline is refused as
/// already finished, once the checks that come before it pass.
pub proof fn lemma_vote_after_deadline(program_id: Seq<u8>, clock_key: Seq<u8>, s: Seq<AccountView>)
    requires
        submit_vote_account_checks(program_id, clock_key, s) is Ok,
        s[4].data.len() >= 8,
        parse_poll(s[1].data) is Some,
        tally_wf(s[2].data),
        (parse_poll(s[1].data)->Some_0).last_block < u64_at(s[4].data, 0),
    ensures
        submit_vote_outcome(program_id, clock_key, s) == Err::<Seq<AccountView>, PollError>(
            PollError::PollAlreadyFinished,
        ),
{
}

/// A claim that succeeded leaves the poll with one lamport, so the same
/// claim made again is refused for want of funds.
pub proof fn lemma_second_claim_fails(program_id: Seq<u8>, clock_key: Seq<u8>, s: Seq<AccountView>)
    requires
        submit_claim_outcome(program_id, clock_key, s) is Ok,
    ensures
        submit_claim_outcome(program_id, clock_key, submit_claim_outcome(program_id, clock_key, s)->Ok_0)
            == Err::<Seq<AccountView>, PollError>(PollError::PollHasNoFunds),
{
    let v = submit_claim_outcome(program_id, clock_key, s)->Ok_0;
    let p = parse_poll(s[0].data)->Some_0;
    let pot = (s[0].lamports - 1) as u64;
    let wq = winning_outcome(p, s[1].key)->Ok_0;
    let payees = s.subrange(3, s.len() as int);
    let c = credited(payees, pot, tally_wagers(s[1].data), wq);
    assert(payout_outcome(s[1].data, payees, wq, pot) == Ok::<Seq<AccountView>, PollError>(c));
    assert(v == s.subrange(0, 3).update(0, with_lamports(s[0], 1)) + c);
    assert(v[0] == with_lamports(s[0], 1));
    assert(v[1] == s[1]);
    assert(v[2] == s[2]);
}

} // verus!
