use prediction_poll::account::SolKeyedAccount;
use prediction_poll::codec::{DataType, SolPubkey};
use prediction_poll::collection::{self, CollectionData, MIN_COLLECTION_SIZE};
use prediction_poll::error::PollError;
use prediction_poll::poll::{check_winning_tally, PollData, PollOptionData};
use prediction_poll::tally::{self, payout, TallyData};

fn empty_collection(capacity: usize) -> CollectionData {
    let mut data = vec![0u8; 5 + 32 * capacity];
    data[0] = 1;
    CollectionData::from_bytes(data).unwrap()
}

fn empty_tally(capacity: usize) -> TallyData {
    let mut data = vec![0u8; 5 + 40 * capacity];
    data[0] = 3;
    TallyData::from_bytes(data).unwrap()
}

fn poll(qa: u64, qb: u64) -> PollData {
    PollData {
        data_type: DataType::Poll,
        creator_key: [0; 32],
        last_block: 10,
        header_len: 1,
        header: vec![b'H'],
        option_a: PollOptionData { text_len: 1, text: vec![b'A'], tally_key: [1; 32], quantity: qa },
        option_b: PollOptionData { text_len: 1, text: vec![b'B'], tally_key: [2; 32], quantity: qb },
    }
}

fn payee(key: SolPubkey, lamports: u64) -> SolKeyedAccount {
    SolKeyedAccount { key, is_signer: false, lamports, data: vec![], owner: [0; 32] }
}

#[test]
fn adding_a_poll_twice_is_refused() {
    let mut c = empty_collection(2);
    assert_eq!(collection::add_poll(&mut c, &[5; 32]), Ok(()));
    assert_eq!(c.len(), 1);
    assert_eq!(collection::add_poll(&mut c, &[5; 32]), Err(PollError::PollAlreadyCreated));
    assert_eq!(c.len(), 1);
    assert_eq!(c.to_vec(), vec![[5u8; 32]]);
}

#[test]
fn adding_to_a_full_collection_is_refused() {
    let mut c = empty_collection(1);
    assert_eq!(collection::add_poll(&mut c, &[5; 32]), Ok(()));
    assert_eq!(collection::add_poll(&mut c, &[6; 32]), Err(PollError::MaxPollCapacity));
    assert_eq!(c.len(), 1);
    assert_eq!(c.capacity(), 1);
    // Full comes first, even for a known address.
    assert_eq!(collection::add_poll(&mut c, &[5; 32]), Err(PollError::MaxPollCapacity));
}

#[test]
fn min_collection_holds_one_poll() {
    let c = CollectionData::from_bytes(vec![0; MIN_COLLECTION_SIZE]).unwrap();
    assert_eq!(c.capacity(), 1);
}

#[test]
fn wagers_never_leave_a_tie() {
    let mut p = poll(0, 0);
    assert_eq!(prediction_poll::poll::record_wager(&mut p, &[1; 32], 0), Err(PollError::PollCannotBeEven));
    assert_eq!(prediction_poll::poll::record_wager(&mut p, &[1; 32], 10), Ok(()));
    assert_eq!((p.option_a.quantity, p.option_b.quantity), (10, 0));
    assert_eq!(prediction_poll::poll::record_wager(&mut p, &[2; 32], 10), Err(PollError::PollCannotBeEven));
    assert_eq!((p.option_a.quantity, p.option_b.quantity), (10, 0));
    assert_eq!(prediction_poll::poll::record_wager(&mut p, &[2; 32], 11), Ok(()));
    assert_eq!((p.option_a.quantity, p.option_b.quantity), (10, 11));
    assert_eq!(prediction_poll::poll::record_wager(&mut p, &[3; 32], 1), Err(PollError::InvalidTallyKey));
    assert_eq!(prediction_poll::poll::record_wager(&mut p, &[1; 32], u64::MAX), Err(PollError::InvalidInput));
    assert_ne!(p.option_a.quantity, p.option_b.quantity);
}

#[test]
fn only_the_larger_option_wins() {
    let p = poll(60, 5);
    assert_eq!(check_winning_tally(&p, &[1; 32]), Ok(60));
    assert_eq!(check_winning_tally(&p, &[2; 32]), Err(PollError::CannotPayoutToLosers));
    assert_eq!(check_winning_tally(&p, &[9; 32]), Err(PollError::InvalidTallyKey));
    let tie = poll(7, 7);
    assert_eq!(check_winning_tally(&tie, &[1; 32]), Err(PollError::CannotPayoutToLosers));
    assert_eq!(check_winning_tally(&tie, &[2; 32]), Err(PollError::CannotPayoutToLosers));
}

#[test]
fn repeat_votes_accumulate() {
    let mut t = empty_tally(2);
    assert_eq!(tally::record_wager(&mut t, &[7; 32], 10), Ok(()));
    assert_eq!(tally::record_wager(&mut t, &[7; 32], 15), Ok(()));
    assert_eq!(t.len(), 1);
    assert_eq!(t.get_wager(&[7; 32]), Some(25));
    assert_eq!(tally::record_wager(&mut t, &[8; 32], 1), Ok(()));
    assert_eq!(t.iter(), vec![([7u8; 32], 25), ([8u8; 32], 1)]);
}

#[test]
fn full_tally_refuses_new_voters_only() {
    let mut t = empty_tally(1);
    assert_eq!(tally::record_wager(&mut t, &[7; 32], 10), Ok(()));
    assert_eq!(tally::record_wager(&mut t, &[8; 32], 10), Err(PollError::MaxTallyCapacity));
    assert_eq!(tally::record_wager(&mut t, &[7; 32], 1), Ok(()));
    assert_eq!(t.get_wager(&[7; 32]), Some(11));
    assert_eq!(tally::record_wager(&mut t, &[7; 32], u64::MAX), Err(PollError::InvalidInput));
    assert_eq!(t.get_wager(&[7; 32]), Some(11));
}

#[test]
fn payout_shares_sum_to_pot() {
    let mut t = empty_tally(3);
    t.add_tally(&[1; 32], 30);
    t.add_tally(&[2; 32], 30);
    t.add_tally(&[3; 32], 40);
    let mut accounts = vec![payee([1; 32], 0), payee([2; 32], 0), payee([3; 32], 0)];
    assert_eq!(payout(&t, &mut accounts, 100, 1000), Ok(()));
    let got: Vec<u64> = accounts.iter().map(|a| a.lamports).collect();
    assert_eq!(got, vec![300, 300, 400]);
    assert_eq!(got.iter().sum::<u64>(), 1000);
}

#[test]
fn payout_gives_the_remainder_to_the_last() {
    let mut t = empty_tally(3);
    t.add_tally(&[1; 32], 1);
    t.add_tally(&[2; 32], 1);
    t.add_tally(&[3; 32], 1);
    let mut accounts = vec![payee([1; 32], 5), payee([2; 32], 0), payee([3; 32], 0)];
    assert_eq!(payout(&t, &mut accounts, 3, 10), Ok(()));
    let got: Vec<u64> = accounts.iter().map(|a| a.lamports).collect();
    assert_eq!(got, vec![8, 3, 4]);
}

#[test]
fn payout_with_large_amounts_does_not_overflow() {
    let mut t = empty_tally(2);
    t.add_tally(&[1; 32], u64::MAX / 2);
    t.add_tally(&[2; 32], u64::MAX / 2);
    let mut accounts = vec![payee([1; 32], 0), payee([2; 32], 0)];
    assert_eq!(payout(&t, &mut accounts, u64::MAX - 1, u64::MAX - 1), Ok(()));
    assert_eq!(accounts[0].lamports, u64::MAX / 2);
    assert_eq!(accounts[1].lamports, u64::MAX / 2);
}

#[test]
fn payout_refuses_bad_lists() {
    let mut t = empty_tally(2);
    t.add_tally(&[1; 32], 30);
    t.add_tally(&[2; 32], 70);
    let mut short = vec![payee([1; 32], 0)];
    assert_eq!(payout(&t, &mut short, 100, 50), Err(PollError::InvalidPayoutList));
    let mut swapped = vec![payee([2; 32], 0), payee([1; 32], 0)];
    assert_eq!(payout(&t, &mut swapped, 100, 50), Err(PollError::InvalidPayoutOrder));
    assert_eq!(swapped[0].lamports, 0);
    // Wagers larger than the winning quantity would overdraw the pot.
    let mut right = vec![payee([1; 32], 0), payee([2; 32], 0)];
    assert_eq!(payout(&t, &mut right, 10, 50), Err(PollError::InvalidPayoutList));
    let mut rich = vec![payee([1; 32], 0), payee([2; 32], u64::MAX)];
    assert_eq!(payout(&t, &mut rich, 100, 50), Err(PollError::InvalidInput));
    assert_eq!(rich[0].lamports, 0);
    let empty = empty_tally(1);
    let mut none: Vec<SolKeyedAccount> = vec![];
    assert_eq!(payout(&empty, &mut none, 1, 50), Err(PollError::InvalidPayoutList));
}
