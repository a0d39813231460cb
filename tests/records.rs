use prediction_poll::codec::{DataType, SolPubkey};
use prediction_poll::collection::{CollectionData, MIN_COLLECTION_SIZE};
use prediction_poll::command::CommandData;
use prediction_poll::error::{PollError, ProgramError};
use prediction_poll::instruction::InitPollData;
use prediction_poll::poll::{PollData, PollOptionData};
use prediction_poll::tally::{TallyData, MIN_TALLY_SIZE};
use prediction_poll::clock::ClockData;

#[test]
fn add_poll() {
    let poll_key: SolPubkey = [0; 32];
    let data = vec![0; MIN_COLLECTION_SIZE];
    let mut collection = CollectionData::from_bytes(data).unwrap();

    assert_eq!(collection.len(), 0);
    assert_eq!(collection.capacity(), 1);
    assert!(!collection.contains(&poll_key));
    assert_eq!(collection.to_vec().len(), 0);

    collection.add_poll(&poll_key);

    assert_eq!(collection.len(), 1);
    assert_eq!(collection.capacity(), 1);
    assert!(collection.contains(&poll_key));
    assert_eq!(collection.to_vec()[0], poll_key);
}

#[test]
fn poll_serialization() {
    let creator_key: SolPubkey = [0; 32];
    let header = "poll".as_bytes();
    let option_a = "first option".as_bytes();
    let option_a_key: SolPubkey = [1; 32];
    let quantity_a = 100;
    let option_b = "second option".as_bytes();
    let option_b_key: SolPubkey = [2; 32];
    let quantity_b = 101;

    let data = PollData {
        data_type: DataType::Poll,
        creator_key,
        last_block: 999,
        header_len: header.len() as u32,
        header: header.to_vec(),
        option_a: PollOptionData {
            text_len: option_a.len() as u32,
            text: option_a.to_vec(),
            tally_key: option_a_key,
            quantity: quantity_a,
        },
        option_b: PollOptionData {
            text_len: option_b.len() as u32,
            text: option_b.to_vec(),
            tally_key: option_b_key,
            quantity: quantity_b,
        },
    };

    let bytes = data.to_bytes();
    let data_copy = PollData::from_bytes(&bytes[..]).unwrap();

    assert_eq!(data, data_copy);
    assert_eq!(data.length(), bytes.len());
}

#[test]
fn option_serialization() {
    let key: SolPubkey = [0; 32];
    let text = "option text".as_bytes();
    let quantity = 100;
    let data = PollOptionData {
        text_len: text.len() as u32,
        text: text.to_vec(),
        tally_key: key,
        quantity,
    };

    let bytes = data.to_bytes();
    let (data_copy, _) = PollOptionData::from_bytes(&bytes[..]).unwrap();

    assert_eq!(data, data_copy);
    assert_eq!(data.length(), bytes.len());
}

#[test]
fn serialization() {
    let header = "poll".as_bytes();
    let option_a = "first option".as_bytes();
    let option_b = "second option".as_bytes();
    let data = InitPollData {
        timeout: 100,
        header_len: header.len() as u32,
        header: header.to_vec(),
        option_a_len: option_a.len() as u32,
        option_a: option_a.to_vec(),
        option_b_len: option_b.len() as u32,
        option_b: option_b.to_vec(),
    };

    let bytes = data.to_bytes();
    let data_copy = InitPollData::from_bytes(&bytes[..]).unwrap();

    assert_eq!(data, data_copy);
    assert_eq!(data.length(), bytes.len());
}

#[test]
fn add_tally() {
    let user_key: SolPubkey = [0; 32];
    let wager = 100;
    let data = vec![0; MIN_TALLY_SIZE];
    let mut tally = TallyData::from_bytes(data).unwrap();

    assert_eq!(tally.len(), 0);
    assert_eq!(tally.capacity(), 1);
    assert_eq!(tally.get_wager(&user_key), None);
    assert_eq!(tally.iter().into_iter().next(), None);

    tally.add_tally(&user_key, wager);

    assert_eq!(tally.len(), 1);
    assert_eq!(tally.capacity(), 1);
    assert_eq!(tally.get_wager(&user_key), Some(wager));

    let mut tally_iter = tally.iter().into_iter();
    assert_eq!(tally_iter.next(), Some((user_key, wager)));
    assert_eq!(tally_iter.next(), None);
}

#[test]
fn poll_layout_is_little_endian() {
    let data = PollData {
        data_type: DataType::Poll,
        creator_key: [7; 32],
        last_block: 0x0102_0304_0506_0708,
        header_len: 1,
        header: vec![b'H'],
        option_a: PollOptionData { text_len: 1, text: vec![b'A'], tally_key: [1; 32], quantity: 5 },
        option_b: PollOptionData { text_len: 1, text: vec![b'B'], tally_key: [2; 32], quantity: 0x0100 },
    };
    let bytes = data.to_bytes();
    assert_eq!(bytes.len(), 136);
    assert_eq!(bytes[0], 2);
    assert_eq!(&bytes[1..33], &[7u8; 32][..]);
    assert_eq!(&bytes[33..41], &[8, 7, 6, 5, 4, 3, 2, 1]);
    assert_eq!(&bytes[41..46], &[1, 0, 0, 0, b'H']);
    assert_eq!(&bytes[46..51], &[1, 0, 0, 0, b'A']);
    assert_eq!(&bytes[51..83], &[1u8; 32][..]);
    assert_eq!(&bytes[83..91], &[5, 0, 0, 0, 0, 0, 0, 0]);
    assert_eq!(&bytes[128..136], &[0, 1, 0, 0, 0, 0, 0, 0]);
    assert_eq!(bytes, data.to_bytes());
}

#[test]
fn truncated_records_do_not_decode() {
    let data = InitPollData {
        timeout: 1,
        header_len: 4,
        header: b"poll".to_vec(),
        option_a_len: 1,
        option_a: b"a".to_vec(),
        option_b_len: 1,
        option_b: b"b".to_vec(),
    };
    let bytes = data.to_bytes();
    assert!(InitPollData::from_bytes(&bytes[..bytes.len() - 1]).is_none());
    assert!(InitPollData::from_bytes(&bytes[..3]).is_none());
    let mut long = bytes.clone();
    long.extend_from_slice(&[9, 9]);
    assert_eq!(InitPollData::from_bytes(&long[..]).unwrap(), data);

    let option = PollOptionData { text_len: 3, text: b"abc".to_vec(), tally_key: [3; 32], quantity: 1 };
    let obytes = option.to_bytes();
    assert!(PollOptionData::from_bytes(&obytes[..obytes.len() - 1]).is_none());
    let (_, used) = PollOptionData::from_bytes(&obytes[..]).unwrap();
    assert_eq!(used, 47);

    let mut header_too_long = vec![0u8; 45];
    header_too_long[41] = 1;
    assert!(PollData::from_bytes(&header_too_long[..]).is_none());
}

#[test]
fn collection_and_tally_refuse_malformed_buffers() {
    assert_eq!(CollectionData::from_bytes(vec![1, 0, 0]).err(), Some(PollError::InvalidDataType));
    let mut over = vec![1u8; MIN_COLLECTION_SIZE];
    over[1] = 2;
    over[2] = 0;
    over[3] = 0;
    over[4] = 0;
    assert_eq!(CollectionData::from_bytes(over).err(), Some(PollError::InvalidDataType));
    assert_eq!(TallyData::from_bytes(vec![3, 0]).err(), Some(PollError::InvalidDataType));
    let mut over = vec![0u8; MIN_TALLY_SIZE];
    over[1] = 2;
    assert_eq!(TallyData::from_bytes(over).err(), Some(PollError::InvalidDataType));
}

#[test]
fn capacity_follows_buffer_size() {
    let c = CollectionData::from_bytes(vec![0; 5 + 32 * 3 + 31]).unwrap();
    assert_eq!(c.capacity(), 3);
    assert!(c.is_empty());
    let t = TallyData::from_bytes(vec![0; 5 + 40 * 2 + 39]).unwrap();
    assert_eq!(t.capacity(), 2);
    assert!(t.is_empty());
    assert_eq!(t.data_type(), DataType::Unset);
}

#[test]
fn tally_entry_bytes() {
    assert_eq!(TallyData::from_bytes(vec![3; MIN_TALLY_SIZE]).err(), Some(PollError::InvalidDataType));
    let mut buf = vec![0u8; MIN_TALLY_SIZE];
    buf[0] = 3;
    let mut tally = TallyData::from_bytes(buf).unwrap();
    tally.add_tally(&[4; 32], 0x0102);
    let bytes = tally.into_bytes();
    assert_eq!(&bytes[0..5], &[3, 1, 0, 0, 0]);
    assert_eq!(&bytes[5..37], &[4u8; 32][..]);
    assert_eq!(&bytes[37..45], &[2, 1, 0, 0, 0, 0, 0, 0]);
}

#[test]
fn data_type_from_tag_byte() {
    assert_eq!(DataType::from(0u8), DataType::Unset);
    assert_eq!(DataType::from(1u8), DataType::Collection);
    assert_eq!(DataType::from(2u8), DataType::Poll);
    assert_eq!(DataType::from(3u8), DataType::Tally);
    assert_eq!(DataType::from(4u8), DataType::Invalid);
    assert_eq!(DataType::from(200u8), DataType::Invalid);
    assert_eq!(DataType::Tally.to_u8(), 3);
}

#[test]
fn command_from_byte() {
    assert_eq!(CommandData::try_from(0), Ok(CommandData::InitCollection));
    assert_eq!(CommandData::try_from(1), Ok(CommandData::InitPoll));
    assert_eq!(CommandData::try_from(2), Ok(CommandData::SubmitVote));
    assert_eq!(CommandData::try_from(3), Ok(CommandData::SubmitClaim));
    assert_eq!(CommandData::try_from(4), Err(()));
    assert_eq!(CommandData::SubmitClaim.to_u8(), 3);
}

#[test]
fn clock_reads_slot() {
    let clock = ClockData::from_bytes(&[0x10, 0x27, 0, 0, 0, 0, 0, 0, 0xff]);
    assert_eq!(clock.slot, 10000);
}

#[test]
fn program_error_codes() {
    assert_eq!(ProgramError::from(PollError::MissingSigner), ProgramError::MissingRequiredSignature);
    assert_eq!(ProgramError::from(PollError::AccountDataTooSmall), ProgramError::AccountDataTooSmall);
    assert_eq!(ProgramError::from(PollError::AccountNotNew), ProgramError::Custom(0));
    assert_eq!(ProgramError::from(PollError::WagerHasNoFunds), ProgramError::Custom(16));
    assert_eq!(PollError::InvalidPayoutOrder.code(), 17);
}
