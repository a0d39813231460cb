//! The poll ledger: a Poll record with its deadline and two options, each
//! naming its tally and the quantity wagered on it.
//!
//! Layout: tag (1 byte), creator address, deadline slot (`u64`), header as a
//! `u32` length and its bytes, then option A and option B, each a `u32`
//! length, its text, its tally's address and its quantity (`u64`).
use crate::codec::{
    append_bytes, data_type_of, le32, le64, lemma_le_lengths, lemma_u32_from, lemma_u64_from,
    lemma_vec_len_fits, read_key, read_u32, read_u64, same_key, splice, tag_of, u32_at,
    u32_le_bytes, u64_at, u64_le_bytes, write_bytes, DataType, SolPubkey,
};
use crate::error::PollError;
use crate::instruction::{InitPollData, InitPollView};
use vstd::prelude::*;
use vstd::slice::{slice_subrange, slice_to_vec};

verus! {

/// What an option of a poll holds.
pub struct OptionView {
    pub text: Seq<u8>,
    pub tally_key: Seq<u8>,
    pub quantity: u64,
}

/// What a Poll record holds.
pub struct PollView {
    pub data_type: DataType,
    pub creator_key: Seq<u8>,
    pub last_block: u64,
    pub header: Seq<u8>,
    pub option_a: OptionView,
    pub option_b: OptionView,
}

/// The encoding of an option.
pub open spec fn option_bytes(o: OptionView) -> Seq<u8> {
    le32(o.text.len() as u32) + o.text + o.tally_key + le64(o.quantity)
}

/// The encoding of a poll.
pub open spec fn poll_bytes(p: PollView) -> Seq<u8> {
    seq![tag_of(p.data_type)] + p.creator_key + le64(p.last_block) + le32(p.header.len() as u32)
        + p.header + option_bytes(p.option_a) + option_bytes(p.option_b)
}

/// The text fits its 32-bit length and the tally is an address.
pub open spec fn option_view_wf(o: OptionView) -> bool {
    &&& o.text.len() <= u32::MAX
    &&& o.tally_key.len() == 32
}

/// The texts fit their 32-bit lengths and the addresses are addresses.
pub open spec fn poll_view_wf(p: PollView) -> bool {
    &&& p.creator_key.len() == 32
    &&& p.header.len() <= u32::MAX
    &&& option_view_wf(p.option_a)
    &&& option_view_wf(p.option_b)
}

/// The option stored at `off`, and the offset just past it; none where its
/// text runs past the end of `d`.
pub open spec fn parse_option(d: Seq<u8>, off: int) -> Option<(OptionView, int)> {
    if off + 4 > d.len() {
        None
    } else {
        let n = u32_at(d, off) as int;
        if off + 4 + n + 40 > d.len() {
            None
        } else {
            Some(
                (
                    OptionView {
                        text: d.subrange(off + 4, off + 4 + n),
                        tally_key: d.subrange(off + 4 + n, off + 4 + n + 32),
                        quantity: u64_at(d, off + 4 + n + 32),
                    },
                    off + 4 + n + 40,
                ),
            )
        }
    }
}

/// The poll that `d` holds; none where the header or an option runs past
/// the end of `d`.
pub open spec fn parse_poll(d: Seq<u8>) -> Option<PollView> {
    if d.len() < 45 {
        None
    } else {
        let h = u32_at(d, 41) as int;
        if 45 + h > d.len() {
            None
        } else {
            match parse_option(d, 45 + h) {
                None => None,
                Some((a, e)) => match parse_option(d, e) {
                    None => None,
                    Some((b, _)) => Some(
                        PollView {
                            data_type: data_type_of(d[0]),
                            creator_key: d.subrange(1, 33),
                            last_block: u64_at(d, 33),
                            header: d.subrange(45, 45 + h),
                            option_a: a,
                            option_b: b,
                        },
                    ),
                },
            }
        }
    }
}

/// An option's encoding is its text and 44 bytes more.
pub proof fn lemma_option_bytes_len(o: OptionView)
    requires
        option_view_wf(o),
    ensures
        option_bytes(o).len() == o.text.len() + 44,
{
    lemma_le_lengths(o.text.len() as u32, o.quantity);
}

/// A poll's encoding is its three texts and 133 bytes more.
pub proof fn lemma_poll_bytes_len(p: PollView)
    requires
        poll_view_wf(p),
    ensures
        poll_bytes(p).len() == 45 + p.header.len() + option_bytes(p.option_a).len() + option_bytes(
            p.option_b,
        ).len(),
        poll_bytes(p).len() == 133 + p.header.len() + p.option_a.text.len()
            + p.option_b.text.len(),
{
    lemma_le_lengths(p.header.len() as u32, p.last_block);
    lemma_option_bytes_len(p.option_a);
    lemma_option_bytes_len(p.option_b);
}

/// An encoded option, found at `off`, decodes to itself.
pub proof fn lemma_parse_option_of(d: Seq<u8>, off: int, o: OptionView)
    requires
        option_view_wf(o),
        0 <= off,
        off + option_bytes(o).len() <= d.len(),
        d.subrange(off, off + option_bytes(o).len()) == option_bytes(o),
    ensures
        parse_option(d, off) == Some((o, off + option_bytes(o).len())),
{
    lemma_option_bytes_len(o);
    lemma_le_lengths(o.text.len() as u32, o.quantity);
    let s = option_bytes(o);
    let n = o.text.len() as int;
    assert(d.subrange(off, off + 4) =~= le32(n as u32));
    lemma_u32_from(d, off, n as u32);
    assert(d.subrange(off + 4, off + 4 + n) =~= o.text) by {
        assert(d.subrange(off + 4, off + 4 + n) =~= s.subrange(4, 4 + n));
    }
    assert(d.subrange(off + 4 + n, off + 4 + n + 32) =~= o.tally_key) by {
        assert(d.subrange(off + 4 + n, off + 4 + n + 32) =~= s.subrange(4 + n, 36 + n));
    }
    assert(d.subrange(off + 4 + n + 32, off + 4 + n + 40) =~= le64(o.quantity)) by {
        assert(d.subrange(off + 4 + n + 32, off + 4 + n + 40) =~= s.subrange(36 + n, 44 + n));
    }
    lemma_u64_from(d, off + 4 + n + 32, o.quantity);
}

/// An encoded poll, followed by anything, decodes to itself.
#[verifier::rlimit(60)]
pub proof fn lemma_poll_round_trip(p: PollView, rest: Seq<u8>)
    requires
        poll_view_wf(p),
    ensures
        parse_poll(poll_bytes(p) + rest) == Some(p),
{
    lemma_poll_bytes_len(p);
    lemma_le_lengths(p.header.len() as u32, p.last_block);
    let d = poll_bytes(p) + rest;
    let h = p.header.len() as int;
    let sa = option_bytes(p.option_a);
    let sb = option_bytes(p.option_b);
    let ea = 45 + h + sa.len();
    let eb = ea + sb.len();
    assert(d.subrange(41, 45) =~= le32(h as u32));
    lemma_u32_from(d, 41, h as u32);
    assert(d.subrange(33, 41) =~= le64(p.last_block));
    lemma_u64_from(d, 33, p.last_block);
    assert(d.subrange(1, 33) =~= p.creator_key);
    assert(d.subrange(45, 45 + h) =~= p.header);
    assert(d.subrange(45 + h, ea) =~= sa);
    lemma_parse_option_of(d, 45 + h, p.option_a);
    assert(d.subrange(ea, eb) =~= sb);
    lemma_parse_option_of(d, ea, p.option_b);
    assert(data_type_of(tag_of(p.data_type)) == p.data_type);
    assert(d[0] == tag_of(p.data_type));
    let q = PollView {
        data_type: data_type_of(d[0]),
        creator_key: d.subrange(1, 33),
        last_block: u64_at(d, 33),
        header: d.subrange(45, 45 + h),
        option_a: p.option_a,
        option_b: p.option_b,
    };
    assert(q == p);
    assert(parse_poll(d) == Some(q));
}

/// One option of a poll.
#[derive(Debug, PartialEq, Eq)]
pub struct PollOptionData {
    pub text_len: u32,
    pub text: Vec<u8>,
    pub tally_key: SolPubkey,
    pub quantity: u64,
}

impl View for PollOptionData {
    type V = OptionView;

    open spec fn view(&self) -> OptionView {
        OptionView { text: self.text@, tally_key: self.tally_key@, quantity: self.quantity }
    }
}

/// Decodes the option at `off`, with the offset just past it.
fn parse_option_at(d: &[u8], off: usize) -> (r: Option<(PollOptionData, usize)>)
    requires
        off <= d@.len(),
    ensures
        match r {
            Some((o, e)) => o.wf() && parse_option(d@, off as int) == Some((o@, e as int)),
            None => parse_option(d@, off as int) is None,
        },
{
    let len = d.len();
    if len - off < 4 {
        return None;
    }
    let text_len = read_u32(d, off);
    let n = text_len as usize;
    if len - off - 4 < n || len - off - 4 - n < 40 {
        return None;
    }
    let text = slice_to_vec(slice_subrange(d, off + 4, off + 4 + n));
    let tally_key = read_key(d, off + 4 + n);
    let quantity = read_u64(d, off + 4 + n + 32);
    let o = PollOptionData { text_len, text, tally_key, quantity };
    Some((o, off + 4 + n + 40))
}

impl PollOptionData {
    /// The length field is the length of the text.
    pub open spec fn wf(&self) -> bool {
        self.text_len == self.text@.len()
    }

    /// Length of the encoding.
    pub fn length(&self) -> (r: usize)
        requires
            self.wf(),
            option_bytes(self@).len() <= usize::MAX,
        ensures
            r == option_bytes(self@).len(),
    {
        proof {
            lemma_option_bytes_len(self@);
        }
        self.text.len() + 44
    }

    /// The encoding.
    pub fn to_bytes(&self) -> (r: Vec<u8>)
        requires
            self.wf(),
        ensures
            r@ == option_bytes(self@),
    {
        let mut bytes: Vec<u8> = Vec::new();
        append_bytes(&mut bytes, u32_le_bytes(self.text_len).as_slice());
        append_bytes(&mut bytes, self.text.as_slice());
        append_bytes(&mut bytes, self.tally_key.as_slice());
        append_bytes(&mut bytes, u64_le_bytes(self.quantity).as_slice());
        assert(bytes@ =~= option_bytes(self@));
        bytes
    }

    /// Writes the option `(text, tally_key, quantity)` into `dst` at `off`,
    /// and gives the offset just past it.
    pub fn copy_to_bytes(
        dst: &mut Vec<u8>,
        off: usize,
        text: &[u8],
        tally_key: &SolPubkey,
        quantity: u64,
    ) -> (r: usize)
        requires
            text@.len() <= u32::MAX,
            off + text@.len() + 44 <= old(dst)@.len(),
        ensures
            final(dst)@ == splice(
                old(dst)@,
                off as int,
                option_bytes(OptionView { text: text@, tally_key: tally_key@, quantity }),
            ),
            r == off + text@.len() + 44,
    {
        proof {
            lemma_vec_len_fits(dst);
        }
        let end = off + text.len() + 44;
        let o = PollOptionData {
            text_len: text.len() as u32,
            text: slice_to_vec(text),
            tally_key: *tally_key,
            quantity,
        };
        let bytes = o.to_bytes();
        proof {
            lemma_option_bytes_len(o@);
        }
        write_bytes(dst, off, bytes.as_slice());
        end
    }

    /// Decodes the option that `data` begins with, and gives the length of
    /// its encoding; `None` where the text runs past the end.
    pub fn from_bytes(data: &[u8]) -> (r: Option<(PollOptionData, usize)>)
        ensures
            match r {
                Some((o, e)) => o.wf() && parse_option(data@, 0) == Some((o@, e as int)),
                None => parse_option(data@, 0) is None,
            },
    {
        parse_option_at(data, 0)
    }
}

/// A poll record, decoded.
#[derive(Debug, PartialEq, Eq)]
pub struct PollData {
    pub data_type: DataType,
    pub creator_key: SolPubkey,
    pub last_block: u64,
    pub header_len: u32,
    pub header: Vec<u8>,
    pub option_a: PollOptionData,
    pub option_b: PollOptionData,
}

impl View for PollData {
    type V = PollView;

    open spec fn view(&self) -> PollView {
        PollView {
            data_type: self.data_type,
            creator_key: self.creator_key@,
            last_block: self.last_block,
            header: self.header@,
            option_a: self.option_a@,
            option_b: self.option_b@,
        }
    }
}

/// The poll that InitPoll writes: made by `creator` at `slot`, open for the
/// payload's timeout, with both options at zero.
pub open spec fn new_poll(
    init: InitPollView,
    creator: Seq<u8>,
    tally_a: Seq<u8>,
    tally_b: Seq<u8>,
    slot: u64,
) -> PollView {
    PollView {
        data_type: DataType::Poll,
        creator_key: creator,
        last_block: (slot + init.timeout) as u64,
        header: init.header,
        option_a: OptionView { text: init.option_a, tally_key: tally_a, quantity: 0 },
        option_b: OptionView { text: init.option_b, tally_key: tally_b, quantity: 0 },
    }
}

impl PollData {
    /// Each length field is the length of its text.
    pub open spec fn wf(&self) -> bool {
        &&& self.header_len == self.header@.len()
        &&& self.option_a.wf()
        &&& self.option_b.wf()
    }

    /// Length of the encoding.
    pub fn length(&self) -> (r: usize)
        requires
            self.wf(),
            poll_bytes(self@).len() <= usize::MAX,
        ensures
            r == poll_bytes(self@).len(),
    {
        proof {
            lemma_poll_bytes_len(self@);
        }
        45 + self.header.len() + self.option_a.length() + self.option_b.length()
    }

    /// The encoding.
    pub fn to_bytes(&self) -> (r: Vec<u8>)
        requires
            self.wf(),
        ensures
            r@ == poll_bytes(self@),
    {
        let mut bytes: Vec<u8> = Vec::new();
        bytes.push(self.data_type.to_u8());
        append_bytes(&mut bytes, self.creator_key.as_slice());
        append_bytes(&mut bytes, u64_le_bytes(self.last_block).as_slice());
        append_bytes(&mut bytes, u32_le_bytes(self.header_len).as_slice());
        append_bytes(&mut bytes, self.header.as_slice());
        append_bytes(&mut bytes, self.option_a.to_bytes().as_slice());
        append_bytes(&mut bytes, self.option_b.to_bytes().as_slice());
        assert(bytes@ =~= poll_bytes(self@));
        bytes
    }

    /// Writes the encoding over the start of `dst`, keeping the bytes after it.
    pub fn write_to(&self, dst: &mut Vec<u8>)
        requires
            self.wf(),
            poll_bytes(self@).len() <= old(dst)@.len(),
        ensures
            final(dst)@ == splice(old(dst)@, 0, poll_bytes(self@)),
    {
        let bytes = self.to_bytes();
        write_bytes(dst, 0, bytes.as_slice());
    }

    /// Writes the poll that `init` describes into `dst`: created by
    /// `creator_key` at `slot`, its options referring to the two tallies with
    /// nothing wagered yet.
    pub fn copy_to_bytes(
        dst: &mut Vec<u8>,
        init: &InitPollData,
        creator_key: &SolPubkey,
        tally_a_key: &SolPubkey,
        tally_b_key: &SolPubkey,
        slot: u64,
    )
        requires
            init.wf(),
            slot + init.timeout <= u64::MAX,
            poll_bytes(new_poll(init@, creator_key@, tally_a_key@, tally_b_key@, slot)).len()
                <= old(dst)@.len(),
        ensures
            final(dst)@ == splice(
                old(dst)@,
                0,
                poll_bytes(new_poll(init@, creator_key@, tally_a_key@, tally_b_key@, slot)),
            ),
    {
        let poll = PollData {
            data_type: DataType::Poll,
            creator_key: *creator_key,
            last_block: slot + init.timeout as u64,
            header_len: init.header_len,
            header: slice_to_vec(init.header.as_slice()),
            option_a: PollOptionData {
                text_len: init.option_a_len,
                text: slice_to_vec(init.option_a.as_slice()),
                tally_key: *tally_a_key,
                quantity: 0,
            },
            option_b: PollOptionData {
                text_len: init.option_b_len,
                text: slice_to_vec(init.option_b.as_slice()),
                tally_key: *tally_b_key,
                quantity: 0,
            },
        };
        assert(poll@ == new_poll(init@, creator_key@, tally_a_key@, tally_b_key@, slot));
        poll.write_to(dst);
    }

    /// Decodes the poll that `data` holds; `None` where the header or an
    /// option runs past the end.
    pub fn from_bytes(data: &[u8]) -> (r: Option<PollData>)
        ensures
            match r {
                Some(p) => p.wf() && parse_poll(data@) == Some(p@),
                None => parse_poll(data@) is None,
            },
    {
        let len = data.len();
        if len < 45 {
            return None;
        }
        let header_len = read_u32(data, 41);
        let h = header_len as usize;
        if len - 45 < h {
            return None;
        }
        let (option_a, e) = match parse_option_at(data, 45 + h) {
            Some(x) => x,
            None => return None,
        };
        let (option_b, _) = match parse_option_at(data, e) {
            Some(x) => x,
            None => return None,
        };
        let p = PollData {
            data_type: DataType::from(data[0]),
            creator_key: read_key(data, 1),
            last_block: read_u64(data, 33),
            header_len,
            header: slice_to_vec(slice_subrange(data, 45, 45 + h)),
            option_a,
            option_b,
        };
        assert(parse_poll(data@) == Some(p@));
        Some(p)
    }
}

} // verus!

verus! {

/// `p` with its options' quantities set to `qa` and `qb`.
pub open spec fn with_quantities(p: PollView, qa: u64, qb: u64) -> PollView {
    PollView {
        option_a: OptionView { quantity: qa, ..p.option_a },
        option_b: OptionView { quantity: qb, ..p.option_b },
        ..p
    }
}

/// What wagering `w` on the option whose tally is `k` gives: the matched
/// option's quantity grows by `w`, unless it would then equal the other's
/// (a tie leaves no winner) or exceed 64 bits; an unknown tally is refused.
pub open spec fn poll_record_outcome(p: PollView, k: Seq<u8>, w: u64) -> Result<PollView, PollError> {
    let qa = p.option_a.quantity;
    let qb = p.option_b.quantity;
    if p.option_a.tally_key == k {
        if qa + w > u64::MAX {
            Err(PollError::InvalidInput)
        } else if qa + w == qb {
            Err(PollError::PollCannotBeEven)
        } else {
            Ok(with_quantities(p, (qa + w) as u64, qb))
        }
    } else if p.option_b.tally_key == k {
        if qb + w > u64::MAX {
            Err(PollError::InvalidInput)
        } else if qb + w == qa {
            Err(PollError::PollCannotBeEven)
        } else {
            Ok(with_quantities(p, qa, (qb + w) as u64))
        }
    } else {
        Err(PollError::InvalidTallyKey)
    }
}

/// The quantity of the option whose tally is `k`, where that option has
/// strictly more than the other.
pub open spec fn winning_outcome(p: PollView, k: Seq<u8>) -> Result<u64, PollError> {
    let qa = p.option_a.quantity;
    let qb = p.option_b.quantity;
    if p.option_a.tally_key == k {
        if qa > qb {
            Ok(qa)
        } else {
            Err(PollError::CannotPayoutToLosers)
        }
    } else if p.option_b.tally_key == k {
        if qb > qa {
            Ok(qb)
        } else {
            Err(PollError::CannotPayoutToLosers)
        }
    } else {
        Err(PollError::InvalidTallyKey)
    }
}

/// Records a wager of `wager` on the option whose tally is `tally_pubkey`.
/// After every wager that is accepted the two quantities differ.
pub fn record_wager(poll: &mut PollData, tally_pubkey: &SolPubkey, wager: u64) -> (r: Result<(), PollError>)
    requires
        old(poll).wf(),
    ensures
        final(poll).wf(),
        match poll_record_outcome(old(poll)@, tally_pubkey@, wager) {
            Ok(p) => r is Ok && final(poll)@ == p,
            Err(e) => r == Err::<(), PollError>(e) && *final(poll) == *old(poll),
        },
        r is Ok ==> final(poll).option_a.quantity != final(poll).option_b.quantity,
{
    let qa = poll.option_a.quantity;
    let qb = poll.option_b.quantity;
    if same_key(&poll.option_a.tally_key, tally_pubkey) {
        if qa > u64::MAX - wager {
            return Err(PollError::InvalidInput);
        }
        if qa + wager == qb {
            return Err(PollError::PollCannotBeEven);
        }
        poll.option_a.quantity = qa + wager;
        Ok(())
    } else if same_key(&poll.option_b.tally_key, tally_pubkey) {
        if qb > u64::MAX - wager {
            return Err(PollError::InvalidInput);
        }
        if qb + wager == qa {
            return Err(PollError::PollCannotBeEven);
        }
        poll.option_b.quantity = qb + wager;
        Ok(())
    } else {
        Err(PollError::InvalidTallyKey)
    }
}

/// The quantity wagered on the option whose tally is `tally_pubkey`, where
/// that option won.
pub fn check_winning_tally(poll: &PollData, tally_pubkey: &SolPubkey) -> (r: Result<u64, PollError>)
    ensures
        r == winning_outcome(poll@, tally_pubkey@),
{
    let qa = poll.option_a.quantity;
    let qb = poll.option_b.quantity;
    if same_key(&poll.option_a.tally_key, tally_pubkey) {
        if qa > qb {
            Ok(qa)
        } else {
            Err(PollError::CannotPayoutToLosers)
        }
    } else if same_key(&poll.option_b.tally_key, tally_pubkey) {
        if qb > qa {
            Ok(qb)
        } else {
            Err(PollError::CannotPayoutToLosers)
        }
    } else {
        Err(PollError::InvalidTallyKey)
    }
}

} // verus!

verus! {

/// A poll that decodes from `d` is well formed, and its encoding fits in `d`.
pub proof fn lemma_parse_poll_fits(d: Seq<u8>)
    requires
        parse_poll(d) is Some,
    ensures
        poll_view_wf(parse_poll(d)->Some_0),
        poll_bytes(parse_poll(d)->Some_0).len() <= d.len(),
{
    let p = parse_poll(d)->Some_0;
    lemma_poll_bytes_len(p);
}

/// Changing the quantities keeps a poll well formed and its encoding's length.
pub proof fn lemma_with_quantities_len(p: PollView, qa: u64, qb: u64)
    requires
        poll_view_wf(p),
    ensures
        poll_view_wf(with_quantities(p, qa, qb)),
        poll_bytes(with_quantities(p, qa, qb)).len() == poll_bytes(p).len(),
{
    lemma_poll_bytes_len(p);
    lemma_poll_bytes_len(with_quantities(p, qa, qb));
}

} // verus!
