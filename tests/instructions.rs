use prediction_poll::account::SolKeyedAccount;
use prediction_poll::codec::SolPubkey;
use prediction_poll::collection::CollectionData;
use prediction_poll::command::CommandData;
use prediction_poll::error::PollError;
use prediction_poll::instruction::InitPollData;
use prediction_poll::poll::PollData;
use prediction_poll::processor::process_instruction;
use prediction_poll::tally::TallyData;

const PROGRAM: SolPubkey = [9; 32];
const COLLECTION: SolPubkey = [10; 32];
const CREATOR: SolPubkey = [11; 32];
const POLL: SolPubkey = [12; 32];
const TALLY_A: SolPubkey = [13; 32];
const TALLY_B: SolPubkey = [14; 32];

fn clock_key() -> SolPubkey {
    solana_sdk::sysvar::clock::id().to_bytes()
}

fn account(key: SolPubkey, is_signer: bool, lamports: u64, len: usize) -> SolKeyedAccount {
    SolKeyedAccount { key, is_signer, lamports, data: vec![0; len], owner: PROGRAM }
}

fn clock(slot: u64) -> SolKeyedAccount {
    SolKeyedAccount {
        key: clock_key(),
        is_signer: false,
        lamports: 1,
        data: slot.to_le_bytes().to_vec(),
        owner: [0; 32],
    }
}

fn init_poll_data(timeout: u32, header: &str, a: &str, b: &str) -> Vec<u8> {
    let payload = InitPollData {
        timeout,
        header_len: header.len() as u32,
        header: header.as_bytes().to_vec(),
        option_a_len: a.len() as u32,
        option_a: a.as_bytes().to_vec(),
        option_b_len: b.len() as u32,
        option_b: b.as_bytes().to_vec(),
    };
    let mut data = vec![CommandData::InitPoll.to_u8()];
    data.extend_from_slice(&payload.to_bytes());
    data
}

/// The ledger after InitCollection and InitPoll("H", "A", "B", timeout 10)
/// at slot 100: collection, poll, tally A (room for 3), tally B (room for 1).
struct Ledger {
    collection: SolKeyedAccount,
    poll: SolKeyedAccount,
    tally_a: SolKeyedAccount,
    tally_b: SolKeyedAccount,
}

fn set_up() -> Ledger {
    let mut accounts = vec![account(COLLECTION, true, 1, 5 + 32 * 2)];
    assert_eq!(process_instruction(&PROGRAM, &mut accounts, &[0]), Ok(()));
    let collection = accounts.pop().unwrap();
    let mut accounts = vec![
        account(CREATOR, true, 1, 0),
        account(POLL, true, 1, 136),
        collection,
        account(TALLY_A, true, 1, 5 + 40 * 3),
        account(TALLY_B, true, 1, 5 + 40),
        clock(100),
    ];
    let data = init_poll_data(10, "H", "A", "B");
    assert_eq!(process_instruction(&PROGRAM, &mut accounts, &data), Ok(()));
    accounts.pop();
    let tally_b = accounts.pop().unwrap();
    let tally_a = accounts.pop().unwrap();
    let collection = accounts.pop().unwrap();
    let poll = accounts.pop().unwrap();
    Ledger { collection, poll, tally_a, tally_b }
}

fn vote(ledger: &mut Ledger, on_a: bool, voter: SolPubkey, payout_key: SolPubkey, wager: u64, slot: u64) -> Result<(), PollError> {
    let tally = if on_a { ledger.tally_a.clone_account() } else { ledger.tally_b.clone_account() };
    let mut accounts = vec![
        account(voter, true, wager, 0),
        ledger.poll.clone_account(),
        tally,
        account(payout_key, false, 0, 0),
        clock(slot),
    ];
    let r = process_instruction(&PROGRAM, &mut accounts, &[2]);
    if r.is_ok() {
        assert_eq!(accounts[0].lamports, 0);
    }
    ledger.poll = accounts.remove(1);
    let tally = accounts.remove(1);
    if on_a {
        ledger.tally_a = tally;
    } else {
        ledger.tally_b = tally;
    }
    r
}

trait CloneAccount {
    fn clone_account(&self) -> SolKeyedAccount;
}

impl CloneAccount for SolKeyedAccount {
    fn clone_account(&self) -> SolKeyedAccount {
        SolKeyedAccount {
            key: self.key,
            is_signer: self.is_signer,
            lamports: self.lamports,
            data: self.data.clone(),
            owner: self.owner,
        }
    }
}

fn claim(ledger: &Ledger, on_a: bool, payees: &[SolPubkey], slot: u64) -> (Result<(), PollError>, Vec<SolKeyedAccount>) {
    let tally = if on_a { ledger.tally_a.clone_account() } else { ledger.tally_b.clone_account() };
    let mut accounts = vec![ledger.poll.clone_account(), tally, clock(slot)];
    for k in payees {
        accounts.push(account(*k, false, 0, 0));
    }
    let r = process_instruction(&PROGRAM, &mut accounts, &[3]);
    (r, accounts)
}

#[test]
fn init_collection_leaves_an_empty_collection() {
    let mut accounts = vec![account(COLLECTION, true, 1, 5 + 32 * 4 + 7)];
    assert_eq!(process_instruction(&PROGRAM, &mut accounts, &[0]), Ok(()));
    assert_eq!(accounts[0].data[0], 1);
    let c = CollectionData::from_bytes(accounts[0].data.clone()).unwrap();
    assert_eq!(c.len(), 0);
    assert_eq!(c.capacity(), 4);
    // A second InitCollection finds the account in use.
    assert_eq!(process_instruction(&PROGRAM, &mut accounts, &[0]), Err(PollError::AccountNotNew));
}

#[test]
fn init_collection_checks_its_account() {
    let mut unsigned = vec![account(COLLECTION, false, 1, 37)];
    assert_eq!(process_instruction(&PROGRAM, &mut unsigned, &[0]), Err(PollError::MissingSigner));
    let mut foreign = vec![SolKeyedAccount { owner: [1; 32], ..account(COLLECTION, true, 1, 37) }];
    assert_eq!(process_instruction(&PROGRAM, &mut foreign, &[0]), Err(PollError::InvalidAccount));
    let mut small = vec![account(COLLECTION, true, 1, 36)];
    assert_eq!(process_instruction(&PROGRAM, &mut small, &[0]), Err(PollError::AccountDataTooSmall));
    let mut none: Vec<SolKeyedAccount> = vec![];
    assert_eq!(process_instruction(&PROGRAM, &mut none, &[0]), Err(PollError::InvalidInput));
}

#[test]
fn unknown_commands_are_refused() {
    let mut accounts = vec![account(COLLECTION, true, 1, 37)];
    assert_eq!(process_instruction(&PROGRAM, &mut accounts, &[4]), Err(PollError::InvalidCommand));
    assert_eq!(process_instruction(&PROGRAM, &mut accounts, &[]), Err(PollError::InvalidCommand));
    assert_eq!(accounts[0].data, vec![0; 37]);
}

#[test]
fn init_poll_writes_the_records() {
    let ledger = set_up();
    let c = CollectionData::from_bytes(ledger.collection.data.clone()).unwrap();
    assert_eq!(c.to_vec(), vec![POLL]);
    let p = PollData::from_bytes(&ledger.poll.data).unwrap();
    assert_eq!(p.creator_key, CREATOR);
    assert_eq!(p.last_block, 110);
    assert_eq!(p.header, b"H".to_vec());
    assert_eq!(p.option_a.text, b"A".to_vec());
    assert_eq!(p.option_a.tally_key, TALLY_A);
    assert_eq!(p.option_a.quantity, 0);
    assert_eq!(p.option_b.tally_key, TALLY_B);
    assert_eq!(ledger.tally_a.data[0], 3);
    assert_eq!(ledger.tally_b.data[0], 3);
}

#[test]
fn init_poll_refusals() {
    let base = || {
        vec![
            account(CREATOR, true, 1, 0),
            account(POLL, true, 1, 136),
            SolKeyedAccount { data: { let mut d = vec![0; 37]; d[0] = 1; d }, ..account(COLLECTION, false, 1, 0) },
            account(TALLY_A, true, 1, 45),
            account(TALLY_B, true, 1, 45),
            clock(100),
        ]
    };
    let good = init_poll_data(10, "H", "A", "B");
    let mut a = base();
    a[5] = SolKeyedAccount { key: [0; 32], ..clock(100) };
    assert_eq!(process_instruction(&PROGRAM, &mut a, &good), Err(PollError::InvalidKey));
    let mut a = base();
    assert_eq!(process_instruction(&PROGRAM, &mut a, &init_poll_data(10, "", "A", "B")), Err(PollError::InvalidInput));
    let mut a = base();
    assert_eq!(process_instruction(&PROGRAM, &mut a, &good[..good.len() - 1]), Err(PollError::InvalidInput));
    let mut a = base();
    a[1] = account(POLL, true, 1, 135);
    assert_eq!(process_instruction(&PROGRAM, &mut a, &good), Err(PollError::AccountDataTooSmall));
    let mut a = base();
    a[2].data[0] = 0;
    assert_eq!(process_instruction(&PROGRAM, &mut a, &good), Err(PollError::InvalidDataType));
    let mut a = base();
    a[3] = account(TALLY_A, true, 1, 44);
    assert_eq!(process_instruction(&PROGRAM, &mut a, &good), Err(PollError::AccountDataTooSmall));
    let mut a = base();
    a[4].is_signer = false;
    assert_eq!(process_instruction(&PROGRAM, &mut a, &good), Err(PollError::MissingSigner));
    let mut a = base();
    a[5] = clock(u64::MAX - 5);
    assert_eq!(process_instruction(&PROGRAM, &mut a, &good), Err(PollError::InvalidInput));
    let mut a = base();
    a.pop();
    assert_eq!(process_instruction(&PROGRAM, &mut a, &good), Err(PollError::InvalidInput));
    // The same poll cannot be registered twice.
    let mut a = base();
    assert_eq!(process_instruction(&PROGRAM, &mut a, &good), Ok(()));
    let mut again = base();
    again[2] = a[2].clone_account();
    assert_eq!(process_instruction(&PROGRAM, &mut again, &good), Err(PollError::MaxPollCapacity));
}

#[test]
fn end_to_end_poll() {
    let mut ledger = set_up();
    assert_eq!(vote(&mut ledger, true, [21; 32], [31; 32], 10, 100), Ok(()));
    assert_eq!(vote(&mut ledger, true, [22; 32], [32; 32], 20, 105), Ok(()));
    assert_eq!(vote(&mut ledger, true, [23; 32], [33; 32], 30, 110), Ok(()));
    assert_eq!(vote(&mut ledger, false, [24; 32], [34; 32], 5, 110), Ok(()));
    assert_eq!(ledger.poll.lamports, 66);
    let p = PollData::from_bytes(&ledger.poll.data).unwrap();
    assert_eq!((p.option_a.quantity, p.option_b.quantity), (60, 5));
    let t = TallyData::from_bytes(ledger.tally_a.data.clone()).unwrap();
    assert_eq!(t.iter(), vec![([31u8; 32], 10), ([32u8; 32], 20), ([33u8; 32], 30)]);

    // The losing side's tally gets nothing.
    let (r, _) = claim(&ledger, false, &[[34; 32]], 110);
    assert_eq!(r, Err(PollError::CannotPayoutToLosers));

    let (r, accounts) = claim(&ledger, true, &[[31; 32], [32; 32], [33; 32]], 110);
    assert_eq!(r, Ok(()));
    assert_eq!(accounts[0].lamports, 1);
    let paid: Vec<u64> = accounts[3..].iter().map(|a| a.lamports).collect();
    // floor(65 * 10 / 60), floor(65 * 20 / 60), and the rest of the pot.
    assert_eq!(paid, vec![10, 21, 34]);
    assert_eq!(paid.iter().sum::<u64>(), 65);

    // A second claim finds the poll drained.
    let drained = Ledger {
        collection: ledger.collection.clone_account(),
        poll: accounts[0].clone_account(),
        tally_a: ledger.tally_a.clone_account(),
        tally_b: ledger.tally_b.clone_account(),
    };
    let (r, again) = claim(&drained, true, &[[31; 32], [32; 32], [33; 32]], 120);
    assert_eq!(r, Err(PollError::PollHasNoFunds));
    assert_eq!(again[0].lamports, 1);
}

#[test]
fn deadlines_are_enforced() {
    let mut ledger = set_up();
    assert_eq!(vote(&mut ledger, true, [21; 32], [31; 32], 10, 111), Err(PollError::PollAlreadyFinished));
    assert_eq!(vote(&mut ledger, true, [21; 32], [31; 32], 10, 110), Ok(()));
    let (r, accounts) = claim(&ledger, true, &[[31; 32]], 109);
    assert_eq!(r, Err(PollError::PollNotFinished));
    assert_eq!(accounts[0].lamports, 11);
    let (r, _) = claim(&ledger, true, &[[31; 32]], 110);
    assert_eq!(r, Ok(()));
}

#[test]
fn repeat_vote_keeps_one_entry() {
    let mut ledger = set_up();
    assert_eq!(vote(&mut ledger, true, [21; 32], [31; 32], 10, 100), Ok(()));
    assert_eq!(vote(&mut ledger, true, [21; 32], [31; 32], 15, 100), Ok(()));
    let t = TallyData::from_bytes(ledger.tally_a.data.clone()).unwrap();
    assert_eq!(t.len(), 1);
    assert_eq!(t.get_wager(&[31; 32]), Some(25));
}

#[test]
fn vote_refusals() {
    let mut ledger = set_up();
    assert_eq!(vote(&mut ledger, true, [21; 32], [31; 32], 0, 100), Err(PollError::WagerHasNoFunds));
    assert_eq!(vote(&mut ledger, true, [21; 32], [31; 32], 5, 100), Ok(()));
    assert_eq!(vote(&mut ledger, false, [22; 32], [32; 32], 5, 100), Err(PollError::PollCannotBeEven));
    assert_eq!(vote(&mut ledger, false, [22; 32], [32; 32], 4, 100), Ok(()));
    // Tally B has room for one voter.
    assert_eq!(vote(&mut ledger, false, [23; 32], [33; 32], 9, 100), Err(PollError::MaxTallyCapacity));
    let before = ledger.poll.data.clone();
    let mut accounts = vec![
        account([21; 32], true, 3, 0),
        ledger.poll.clone_account(),
        account([40; 32], false, 0, 45),
        account([31; 32], false, 0, 0),
        clock(100),
    ];
    accounts[2].data[0] = 3;
    assert_eq!(process_instruction(&PROGRAM, &mut accounts, &[2]), Err(PollError::InvalidTallyKey));
    assert_eq!(accounts[1].data, before);
    assert_eq!(accounts[0].lamports, 3);
}

#[test]
fn claim_needs_the_whole_payout_list() {
    let mut ledger = set_up();
    assert_eq!(vote(&mut ledger, true, [21; 32], [31; 32], 10, 100), Ok(()));
    assert_eq!(vote(&mut ledger, true, [22; 32], [32; 32], 20, 100), Ok(()));
    let (r, _) = claim(&ledger, true, &[[31; 32]], 110);
    assert_eq!(r, Err(PollError::InvalidInput));
    let (r, _) = claim(&ledger, true, &[[32; 32], [31; 32]], 110);
    assert_eq!(r, Err(PollError::InvalidPayoutOrder));
    let (r, _) = claim(&ledger, true, &[[31; 32], [32; 32], [33; 32]], 110);
    assert_eq!(r, Err(PollError::InvalidPayoutList));
}
