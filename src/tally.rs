//! The tally of one poll option: an append-only, fixed-capacity list of
//! (voter, wager) entries kept in a Tally record, where a repeated voter's
//! wagers accumulate in one entry.
//!
//! Layout: tag (1 byte), count (`u32`), then as many entries of a 32-byte
//! address and a `u64` wager as the rest of the buffer holds.
use crate::account::{accounts_view, total_lamports, AccountView, SolKeyedAccount};
use crate::codec::{
    data_type_of, le32, le64, lemma_le_lengths, lemma_splice, lemma_vec_len_fits, read_key,
    read_u32, read_u64, same_key, splice, u32_at, u64_at, write_bytes, write_u32, write_u64,
    DataType, SolPubkey,
};
use crate::error::PollError;
use vstd::prelude::*;
use vstd::slice::axiom_spec_len;

verus! {

/// Smallest buffer that holds a tally: tag, count and one entry.
pub const MIN_TALLY_SIZE: usize = 45;

/// Number of entries recorded.
pub open spec fn tally_count(d: Seq<u8>) -> u32 {
    u32_at(d, 1)
}

/// Number of entries the buffer has room for, within what the 32-bit count
/// can number.
pub open spec fn tally_capacity(d: Seq<u8>) -> int {
    let room = (d.len() - 5) / 40;
    if room > u32::MAX {
        u32::MAX as int
    } else {
        room
    }
}

/// Offset of the `i`-th entry.
pub open spec fn entry_offset(i: int) -> int {
    5 + 40 * i
}

/// The voter address of the `i`-th entry.
pub open spec fn tally_voter(d: Seq<u8>, i: int) -> Seq<u8> {
    d.subrange(entry_offset(i), entry_offset(i) + 32)
}

/// The wager of the `i`-th entry.
pub open spec fn tally_wager(d: Seq<u8>, i: int) -> u64 {
    u64_at(d, entry_offset(i) + 32)
}

/// The voters recorded, in storage order.
pub open spec fn tally_voters(d: Seq<u8>) -> Seq<Seq<u8>> {
    Seq::new(tally_count(d) as nat, |i: int| tally_voter(d, i))
}

/// The wagers recorded, in storage order.
pub open spec fn tally_wagers(d: Seq<u8>) -> Seq<u64> {
    Seq::new(tally_count(d) as nat, |i: int| tally_wager(d, i))
}

/// A buffer that holds a tally: room for the header, and a count within
/// capacity.
pub open spec fn tally_wf(d: Seq<u8>) -> bool {
    &&& d.len() >= 5
    &&& tally_count(d) <= tally_capacity(d)
}

/// `i` is the first entry of voter `k`.
pub open spec fn is_first_entry(d: Seq<u8>, k: Seq<u8>, i: int) -> bool {
    &&& 0 <= i < tally_count(d)
    &&& tally_voter(d, i) == k
    &&& forall|j: int| 0 <= j < i ==> tally_voter(d, j) != k
}

/// The first entry of voter `k`, where there is one.
pub open spec fn first_entry(d: Seq<u8>, k: Seq<u8>) -> int {
    choose|i: int| is_first_entry(d, k, i)
}

/// `d` with the wager of entry `i` set to `w`.
pub open spec fn with_wager(d: Seq<u8>, i: int, w: u64) -> Seq<u8> {
    splice(d, entry_offset(i) + 32, le64(w))
}

/// `d` with the entry `(k, w)` appended.
pub open spec fn with_entry(d: Seq<u8>, k: Seq<u8>, w: u64) -> Seq<u8> {
    let n = tally_count(d);
    splice(splice(d, 1, le32((n + 1) as u32)), entry_offset(n as int), k + le64(w))
}

/// What recording a wager `w` of voter `k` gives: a known voter's entry
/// grows by `w` (refused where the sum exceeds 64 bits); a new voter is
/// appended, unless the tally is full.
pub open spec fn tally_record_outcome(d: Seq<u8>, k: Seq<u8>, w: u64) -> Result<Seq<u8>, PollError> {
    if tally_voters(d).contains(k) {
        let i = first_entry(d, k);
        if tally_wager(d, i) + w > u64::MAX {
            Err(PollError::InvalidInput)
        } else {
            Ok(with_wager(d, i, (tally_wager(d, i) + w) as u64))
        }
    } else if tally_count(d) >= tally_capacity(d) {
        Err(PollError::MaxTallyCapacity)
    } else {
        Ok(with_entry(d, k, w))
    }
}

/// An entry below the room the buffer has lies inside it.
pub proof fn lemma_entry_fits(len: int, i: int)
    requires
        len >= 5,
        0 <= i,
        i < (len - 5) / 40,
    ensures
        entry_offset(i) + 40 <= len,
{
    assert(40 * i + 40 <= len - 5) by (nonlinear_arith)
        requires
            0 <= i < (len - 5) / 40,
            len >= 5,
    ;
}

/// Every recorded entry lies inside the buffer.
pub proof fn lemma_entries_fit(d: Seq<u8>)
    requires
        tally_wf(d),
    ensures
        forall|i: int| 0 <= i < tally_count(d) ==> #[trigger] entry_offset(i) + 40 <= d.len(),
{
    assert forall|i: int| 0 <= i < tally_count(d) implies #[trigger] entry_offset(i) + 40 <= d.len() by {
        lemma_entry_fits(d.len() as int, i);
    }
}

/// The first entry of a recorded voter exists and is the one `choose` names.
pub proof fn lemma_first_entry(d: Seq<u8>, k: Seq<u8>, i: int)
    requires
        is_first_entry(d, k, i),
    ensures
        first_entry(d, k) == i,
{
    let c = first_entry(d, k);
    assert(is_first_entry(d, k, c));
    if c < i {
        assert(tally_voter(d, c) != k);
    } else if c > i {
        assert(tally_voter(d, i) != k);
    }
}

/// Setting one wager keeps the count, the voters and the other wagers.
pub proof fn lemma_with_wager(d: Seq<u8>, i: int, w: u64)
    requires
        tally_wf(d),
        0 <= i < tally_count(d),
    ensures
        with_wager(d, i, w).len() == d.len(),
        with_wager(d, i, w)[0] == d[0],
        tally_wf(with_wager(d, i, w)),
        tally_count(with_wager(d, i, w)) == tally_count(d),
        tally_voters(with_wager(d, i, w)) == tally_voters(d),
        tally_wagers(with_wager(d, i, w)) == tally_wagers(d).update(i, w),
{
    let e = with_wager(d, i, w);
    lemma_le_lengths(0, w);
    lemma_entries_fit(d);
    lemma_splice(d, entry_offset(i) + 32, le64(w));
    assert(e.subrange(1, 5) =~= d.subrange(1, 5));
    assert forall|j: int| 0 <= j < tally_count(d) implies #[trigger] tally_voter(e, j) == tally_voter(d, j) by {
        assert(tally_voter(e, j) =~= tally_voter(d, j));
    }
    assert forall|j: int| 0 <= j < tally_count(d) implies #[trigger] tally_wager(e, j) == tally_wagers(d).update(i, w)[j] by {
        if j == i {
            assert(e.subrange(entry_offset(j) + 32, entry_offset(j) + 40) =~= le64(w));
        } else {
            assert(e.subrange(entry_offset(j) + 32, entry_offset(j) + 40) =~= d.subrange(entry_offset(j) + 32, entry_offset(j) + 40));
        }
    }
    assert(tally_voters(e) =~= tally_voters(d));
    assert(tally_wagers(e) =~= tally_wagers(d).update(i, w));
}

/// Appending an entry adds one to the count and pushes the voter and wager.
pub proof fn lemma_with_entry(d: Seq<u8>, k: Seq<u8>, w: u64)
    requires
        tally_wf(d),
        tally_count(d) < tally_capacity(d),
        k.len() == 32,
    ensures
        with_entry(d, k, w).len() == d.len(),
        with_entry(d, k, w)[0] == d[0],
        tally_wf(with_entry(d, k, w)),
        tally_count(with_entry(d, k, w)) == tally_count(d) + 1,
        tally_voters(with_entry(d, k, w)) == tally_voters(d).push(k),
        tally_wagers(with_entry(d, k, w)) == tally_wagers(d).push(w),
{
    let n = tally_count(d);
    let d1 = splice(d, 1, le32((n + 1) as u32));
    let s = k + le64(w);
    lemma_le_lengths((n + 1) as u32, w);
    lemma_splice(d, 1, le32((n + 1) as u32));
    lemma_entry_fits(d.len() as int, n as int);
    lemma_entries_fit(d);
    lemma_splice(d1, entry_offset(n as int), s);
    let e = with_entry(d, k, w);
    assert(e.subrange(1, 5) =~= d1.subrange(1, 5));
    assert(tally_count(e) == n + 1);
    assert forall|j: int| 0 <= j < n + 1 implies #[trigger] tally_voter(e, j) == tally_voters(d).push(k)[j] by {
        if j < n {
            assert(tally_voter(e, j) =~= tally_voter(d, j));
        } else {
            assert(tally_voter(e, j) =~= k);
        }
    }
    assert forall|j: int| 0 <= j < n + 1 implies #[trigger] tally_wager(e, j) == tally_wagers(d).push(w)[j] by {
        if j < n {
            assert(e.subrange(entry_offset(j) + 32, entry_offset(j) + 40) =~= d.subrange(entry_offset(j) + 32, entry_offset(j) + 40));
        } else {
            assert(e.subrange(entry_offset(j) + 32, entry_offset(j) + 40) =~= le64(w));
        }
    }
    assert(tally_voters(e) =~= tally_voters(d).push(k));
    assert(tally_wagers(e) =~= tally_wagers(d).push(w));
}

/// A tally record held as an owned copy of its buffer.
pub struct TallyData {
    data: Vec<u8>,
}

impl View for TallyData {
    type V = Seq<u8>;

    closed spec fn view(&self) -> Seq<u8> {
        self.data@
    }
}

impl TallyData {
    /// The buffer holds a tally.
    pub open spec fn wf(&self) -> bool {
        tally_wf(self@)
    }

    /// Takes a buffer that holds a tally; one too short for the header, or
    /// whose count exceeds its capacity, is refused.
    pub fn from_bytes(data: Vec<u8>) -> (r: Result<TallyData, PollError>)
        ensures
            match r {
                Ok(t) => tally_wf(data@) && t@ == data@,
                Err(e) => !tally_wf(data@) && e == PollError::InvalidDataType,
            },
    {
        if data.len() < 5 {
            return Err(PollError::InvalidDataType);
        }
        let count = read_u32(data.as_slice(), 1);
        if count as usize > (data.len() - 5) / 40 {
            assert(count > tally_capacity(data@));
            return Err(PollError::InvalidDataType);
        }
        Ok(TallyData { data })
    }

    /// Hands the buffer back.
    pub fn into_bytes(self) -> (r: Vec<u8>)
        ensures
            r@ == self@,
    {
        self.data
    }

    /// The record type that the buffer's tag names.
    pub fn data_type(&self) -> (r: DataType)
        requires
            self.wf(),
        ensures
            r == data_type_of(self@[0]),
    {
        DataType::from(self.data[0])
    }

    /// The first entry of `user_key`, if it has one.
    pub fn find(&self, user_key: &SolPubkey) -> (r: Option<usize>)
        requires
            self.wf(),
        ensures
            match r {
                Some(i) => is_first_entry(self@, user_key@, i as int),
                None => !tally_voters(self@).contains(user_key@),
            },
    {
        let n = self.len();
        let d = self.data.as_slice();
        proof {
            axiom_spec_len(d);
        }
        for i in 0..n
            invariant
                self@.len() <= usize::MAX,
                self.wf(),
                d@ == self@,
                n == tally_count(self@),
                forall|j: int| 0 <= j < i ==> tally_voter(self@, j) != user_key@,
        {
            proof {
                lemma_entry_fits(self@.len() as int, i as int);
            }
            let k = read_key(d, 5 + 40 * i);
            if same_key(&k, user_key) {
                return Some(i);
            }
        }
        proof {
            if tally_voters(self@).contains(user_key@) {
                let j = choose|j: int| 0 <= j < n && tally_voters(self@)[j] == user_key@;
                assert(tally_voter(self@, j) == user_key@);
            }
        }
        None
    }

    /// The wager of `user_key`'s first entry, if it has one.
    pub fn get_wager(&self, user_key: &SolPubkey) -> (r: Option<u64>)
        requires
            self.wf(),
        ensures
            match r {
                Some(w) => tally_voters(self@).contains(user_key@) && w == tally_wager(
                    self@,
                    first_entry(self@, user_key@),
                ),
                None => !tally_voters(self@).contains(user_key@),
            },
    {
        match self.find(user_key) {
            Some(i) => {
                proof {
                    lemma_first_entry(self@, user_key@, i as int);
                    assert(tally_voters(self@)[i as int] == user_key@);
                }
                Some(self.wager_at(i))
            },
            None => None,
        }
    }

    /// The wager of entry `i`.
    pub fn wager_at(&self, i: usize) -> (r: u64)
        requires
            self.wf(),
            i < tally_count(self@),
        ensures
            r == tally_wager(self@, i as int),
    {
        proof {
            lemma_vec_len_fits(&self.data);
            lemma_entry_fits(self@.len() as int, i as int);
        }
        read_u64(self.data.as_slice(), 5 + 40 * i + 32)
    }

    /// The voter of entry `i`.
    pub fn voter_at(&self, i: usize) -> (r: SolPubkey)
        requires
            self.wf(),
            i < tally_count(self@),
        ensures
            r@ == tally_voter(self@, i as int),
    {
        proof {
            lemma_vec_len_fits(&self.data);
            lemma_entry_fits(self@.len() as int, i as int);
        }
        read_key(self.data.as_slice(), 5 + 40 * i)
    }

    /// Sets the wager of entry `i`.
    pub fn set_wager(&mut self, i: usize, wager: u64)
        requires
            old(self).wf(),
            i < tally_count(old(self)@),
        ensures
            final(self).wf(),
            final(self)@ == with_wager(old(self)@, i as int, wager),
    {
        proof {
            lemma_vec_len_fits(&self.data);
            lemma_entry_fits(self@.len() as int, i as int);
            lemma_with_wager(self@, i as int, wager);
        }
        write_u64(&mut self.data, 5 + 40 * i + 32, wager);
    }

    /// Number of entries the buffer has room for.
    pub fn capacity(&self) -> (r: usize)
        requires
            self.wf(),
        ensures
            r == tally_capacity(self@),
    {
        let room = (self.data.len() - 5) / 40;
        if room > u32::MAX as usize {
            u32::MAX as usize
        } else {
            room
        }
    }

    /// Whether no entry is recorded.
    pub fn is_empty(&self) -> (r: bool)
        requires
            self.wf(),
        ensures
            r == (tally_count(self@) == 0),
    {
        self.len() == 0
    }

    /// Number of entries recorded.
    pub fn len(&self) -> (r: usize)
        requires
            self.wf(),
        ensures
            r == tally_count(self@),
    {
        read_u32(self.data.as_slice(), 1) as usize
    }

    /// Appends the entry `(user_key, wager)`.
    pub fn add_tally(&mut self, user_key: &SolPubkey, wager: u64)
        requires
            old(self).wf(),
            tally_count(old(self)@) < tally_capacity(old(self)@),
        ensures
            final(self).wf(),
            final(self)@ == with_entry(old(self)@, user_key@, wager),
    {
        let n = self.len();
        proof {
            lemma_vec_len_fits(&self.data);
            lemma_entry_fits(self@.len() as int, n as int);
            lemma_with_entry(self@, user_key@, wager);
        }
        let ghost d0 = self.data@;
        write_u32(&mut self.data, 1, (n + 1) as u32);
        let ghost d1 = self.data@;
        write_bytes(&mut self.data, 5 + 40 * n, user_key.as_slice());
        write_u64(&mut self.data, 5 + 40 * n + 32, wager);
        proof {
            lemma_le_lengths(0, wager);
            lemma_splice(d1, entry_offset(n as int), user_key@);
            let d2 = splice(d1, entry_offset(n as int), user_key@);
            lemma_splice(d2, entry_offset(n as int) + 32, le64(wager));
            assert(self.data@ =~= with_entry(d0, user_key@, wager));
        }
    }

    /// The entries recorded, in storage order.
    pub fn iter(&self) -> (r: Vec<(SolPubkey, u64)>)
        requires
            self.wf(),
        ensures
            r@.len() == tally_count(self@),
            forall|i: int|
                0 <= i < r@.len() ==> r@[i].0@ == tally_voter(self@, i) && r@[i].1 == tally_wager(
                    self@,
                    i,
                ),
    {
        let n = self.len();
        let mut out: Vec<(SolPubkey, u64)> = Vec::new();
        for i in 0..n
            invariant
                self.wf(),
                n == tally_count(self@),
                out@.len() == i,
                forall|j: int|
                    0 <= j < i ==> out@[j].0@ == tally_voter(self@, j) && out@[j].1 == tally_wager(
                        self@,
                        j,
                    ),
        {
            out.push((self.voter_at(i), self.wager_at(i)));
        }
        out
    }
}

/// Records a wager of `wager` by `user_pubkey`: added to the voter's entry
/// where it has one, else appended as a new entry unless the tally is full.
pub fn record_wager(tally: &mut TallyData, user_pubkey: &SolPubkey, wager: u64) -> (r: Result<(), PollError>)
    requires
        old(tally).wf(),
    ensures
        final(tally).wf(),
        match tally_record_outcome(old(tally)@, user_pubkey@, wager) {
            Ok(d) => r is Ok && final(tally)@ == d,
            Err(e) => r == Err::<(), PollError>(e) && *final(tally) == *old(tally),
        },
{
    match tally.find(user_pubkey) {
        Some(i) => {
            proof {
                lemma_first_entry(tally@, user_pubkey@, i as int);
                assert(tally_voters(tally@)[i as int] == user_pubkey@);
            }
            let value = tally.wager_at(i);
            if value > u64::MAX - wager {
                return Err(PollError::InvalidInput);
            }
            tally.set_wager(i, value + wager);
            Ok(())
        },
        None => {
            if tally.len() >= tally.capacity() {
                Err(PollError::MaxTallyCapacity)
            } else {
                tally.add_tally(user_pubkey, wager);
                Ok(())
            }
        },
    }
}

} // verus!

verus! {

/// The floor share of `pot` that a wager `w` earns out of `winning_quantity`.
pub open spec fn share(pot: u64, w: u64, winning_quantity: u64) -> int {
    (pot as int * w as int) / (winning_quantity as int)
}

/// The floor shares of the first `k` wagers, summed.
pub open spec fn shares_before(pot: u64, ws: Seq<u64>, winning_quantity: u64, k: int) -> int
    decreases k,
{
    if k <= 0 {
        0
    } else {
        shares_before(pot, ws, winning_quantity, k - 1) + share(pot, ws[k - 1], winning_quantity)
    }
}

/// What the `i`-th of the wagers `ws` is paid: its floor share, except the
/// last, which is paid what the others left of the pot.
pub open spec fn payout_amount(pot: u64, ws: Seq<u64>, winning_quantity: u64, i: int) -> int {
    if i == ws.len() - 1 {
        pot - shares_before(pot, ws, winning_quantity, i)
    } else {
        share(pot, ws[i], winning_quantity)
    }
}

/// `accs` with each account credited what its wager is paid.
pub open spec fn credited(accs: Seq<AccountView>, pot: u64, ws: Seq<u64>, winning_quantity: u64) -> Seq<AccountView> {
    Seq::new(
        accs.len(),
        |i: int|
            AccountView {
                lamports: (accs[i].lamports + payout_amount(pot, ws, winning_quantity, i)) as u64,
                ..accs[i]
            },
    )
}

/// What paying `pot` out to the winning tally in `d` does to the payout
/// accounts `accs`: they must be the tally's voters, one for one and in
/// order; the floor shares must fit in the pot, and every credited balance
/// in 64 bits.
pub open spec fn payout_outcome(d: Seq<u8>, accs: Seq<AccountView>, winning_quantity: u64, pot: u64) -> Result<Seq<AccountView>, PollError> {
    let n = tally_count(d) as int;
    let ws = tally_wagers(d);
    if accs.len() != n || n == 0 {
        Err(PollError::InvalidPayoutList)
    } else if exists|i: int| 0 <= i < n && accs[i].key != tally_voter(d, i) {
        Err(PollError::InvalidPayoutOrder)
    } else if shares_before(pot, ws, winning_quantity, n - 1) > pot {
        Err(PollError::InvalidPayoutList)
    } else if exists|i: int|
        0 <= i < n && accs[i].lamports + payout_amount(pot, ws, winning_quantity, i) > u64::MAX {
        Err(PollError::InvalidInput)
    } else {
        Ok(credited(accs, pot, ws, winning_quantity))
    }
}

/// No share is negative.
pub proof fn lemma_share_nonneg(pot: u64, w: u64, winning_quantity: u64)
    requires
        winning_quantity > 0,
    ensures
        share(pot, w, winning_quantity) >= 0,
{
    assert(pot as int * w as int >= 0) by (nonlinear_arith);
}

/// The summed shares grow with the number of wagers summed.
pub proof fn lemma_shares_monotone(pot: u64, ws: Seq<u64>, winning_quantity: u64, j: int, k: int)
    requires
        winning_quantity > 0,
        0 <= j <= k,
    ensures
        shares_before(pot, ws, winning_quantity, j) <= shares_before(pot, ws, winning_quantity, k),
    decreases k - j,
{
    if j < k {
        lemma_shares_monotone(pot, ws, winning_quantity, j, k - 1);
        lemma_share_nonneg(pot, ws[k - 1], winning_quantity);
    }
}

/// Crediting every account what its wager is paid adds exactly the pot to
/// their total balance.
pub proof fn lemma_credited_total(accs: Seq<AccountView>, pot: u64, ws: Seq<u64>, winning_quantity: u64, k: int)
    requires
        winning_quantity > 0,
        accs.len() == ws.len(),
        ws.len() > 0,
        0 <= k <= ws.len(),
        shares_before(pot, ws, winning_quantity, ws.len() - 1) <= pot,
        forall|i: int|
            0 <= i < ws.len() ==> accs[i].lamports + payout_amount(pot, ws, winning_quantity, i)
                <= u64::MAX,
    ensures
        k < ws.len() ==> total_lamports(credited(accs, pot, ws, winning_quantity).subrange(0, k))
            == total_lamports(accs.subrange(0, k)) + shares_before(pot, ws, winning_quantity, k),
        k == ws.len() ==> total_lamports(credited(accs, pot, ws, winning_quantity).subrange(0, k))
            == total_lamports(accs.subrange(0, k)) + pot,
    decreases k,
{
    let c = credited(accs, pot, ws, winning_quantity);
    if k > 0 {
        lemma_credited_total(accs, pot, ws, winning_quantity, k - 1);
        assert(c.subrange(0, k).drop_last() =~= c.subrange(0, k - 1));
        assert(accs.subrange(0, k).drop_last() =~= accs.subrange(0, k - 1));
        lemma_share_nonneg(pot, ws[k - 1], winning_quantity);
        lemma_shares_monotone(pot, ws, winning_quantity, k - 1, ws.len() - 1);
    } else {
        assert(c.subrange(0, 0) =~= Seq::<AccountView>::empty());
        assert(accs.subrange(0, 0) =~= Seq::<AccountView>::empty());
    }
}

/// The floor share of `pot` that `w` earns, where it is at most `bound`.
fn floor_share(pot: u64, w: u64, winning_quantity: u64, bound: u64) -> (r: Option<u64>)
    requires
        winning_quantity > 0,
    ensures
        match r {
            Some(s) => s == share(pot, w, winning_quantity) && s <= bound,
            None => share(pot, w, winning_quantity) > bound,
        },
{
    assert(pot as int * w as int <= u64::MAX as int * u64::MAX as int) by (nonlinear_arith);
    let product: u128 = (pot as u128) * (w as u128);
    let s: u128 = product / (winning_quantity as u128);
    if s > bound as u128 {
        None
    } else {
        Some(s as u64)
    }
}

/// Pays `pot` out to the voters of a winning tally: each payout account,
/// which must be the voter at its position, is credited the floor of its
/// proportional share, and the last is credited what remains, so that the
/// credits sum to the pot exactly. Nothing is credited unless all of them
/// can be.
pub fn payout(tally: &TallyData, accounts: &mut Vec<SolKeyedAccount>, winning_quantity: u64, pot: u64) -> (r: Result<(), PollError>)
    requires
        tally.wf(),
        winning_quantity > 0,
    ensures
        match payout_outcome(tally@, accounts_view(old(accounts)@), winning_quantity, pot) {
            Ok(v) => r is Ok && accounts_view(final(accounts)@) == v,
            Err(e) => r == Err::<(), PollError>(e) && final(accounts)@ == old(accounts)@,
        },
        r is Ok ==> total_lamports(accounts_view(final(accounts)@)) == total_lamports(
            accounts_view(old(accounts)@),
        ) + pot,
{
    let ghost d = tally@;
    let ghost ws = tally_wagers(d);
    let ghost olds = accounts_view(accounts@);
    let n = tally.len();
    if accounts.len() != n || n == 0 {
        return Err(PollError::InvalidPayoutList);
    }
    for i in 0..n
        invariant
            tally.wf(),
            tally@ == d,
            n == tally_count(d),
            accounts@.len() == n,
            olds == accounts_view(accounts@),
            forall|j: int| 0 <= j < i ==> olds[j].key == tally_voter(d, j),
    {
        let voter = tally.voter_at(i);
        if !same_key(&voter, &accounts[i].key) {
            assert(olds[i as int].key != tally_voter(d, i as int));
            return Err(PollError::InvalidPayoutOrder);
        }
    }
    // The floor shares of all but the last, within what the pot holds.
    let mut amounts: Vec<u64> = Vec::new();
    let mut disbursed: u64 = 0;
    for i in 0..n - 1
        invariant
            tally.wf(),
            tally@ == d,
            ws == tally_wagers(d),
            n == tally_count(d),
            n > 0,
            winning_quantity > 0,
            accounts@.len() == n,
            olds == accounts_view(accounts@),
            forall|j: int| 0 <= j < n ==> olds[j].key == tally_voter(d, j),
            disbursed == shares_before(pot, ws, winning_quantity, i as int),
            disbursed <= pot,
            amounts@.len() == i,
            forall|j: int| 0 <= j < i ==> amounts@[j] == payout_amount(pot, ws, winning_quantity, j),
    {
        let w = tally.wager_at(i);
        match floor_share(pot, w, winning_quantity, pot - disbursed) {
            Some(s) => {
                amounts.push(s);
                disbursed = disbursed + s;
            },
            None => {
                proof {
                    lemma_shares_monotone(pot, ws, winning_quantity, i + 1, n - 1);
                }
                return Err(PollError::InvalidPayoutList);
            },
        }
    }
    amounts.push(pot - disbursed);
    for i in 0..n
        invariant
            tally@ == d,
            ws == tally_wagers(d),
            n == tally_count(d),
            winning_quantity > 0,
            forall|j: int| 0 <= j < n ==> olds[j].key == tally_voter(d, j),
            shares_before(pot, ws, winning_quantity, n - 1) <= pot,
            n == accounts@.len(),
            amounts@.len() == n,
            olds == accounts_view(accounts@),
            forall|j: int|
                0 <= j < n ==> amounts@[j] == payout_amount(pot, ws, winning_quantity, j),
            forall|j: int|
                0 <= j < i ==> olds[j].lamports + payout_amount(pot, ws, winning_quantity, j)
                    <= u64::MAX,
    {
        if accounts[i].lamports > u64::MAX - amounts[i] {
            return Err(PollError::InvalidInput);
        }
    }
    let ghost target = credited(olds, pot, ws, winning_quantity);
    for i in 0..n
        invariant
            n == accounts@.len(),
            n == olds.len(),
            amounts@.len() == n,
            target == credited(olds, pot, ws, winning_quantity),
            forall|j: int|
                0 <= j < n ==> amounts@[j] == payout_amount(pot, ws, winning_quantity, j),
            forall|j: int|
                0 <= j < n ==> olds[j].lamports + payout_amount(pot, ws, winning_quantity, j)
                    <= u64::MAX,
            forall|j: int| 0 <= j < i ==> #[trigger] accounts@[j]@ == target[j],
            forall|j: int| i <= j < n ==> #[trigger] accounts@[j]@ == olds[j],
    {
        proof {
            assert(accounts@[i as int]@ == olds[i as int]);
        }
        let cur = accounts[i].lamports;
        accounts[i].lamports = cur + amounts[i];
        proof {
            assert(accounts@[i as int]@ == target[i as int]);
        }
    }
    proof {
        assert(accounts_view(accounts@) =~= target);
        lemma_credited_total(olds, pot, ws, winning_quantity, n as int);
        assert(target.subrange(0, n as int) =~= target);
        assert(olds.subrange(0, n as int) =~= olds);
    }
    Ok(())
}

} // verus!

verus! {

/// Two wagers by the same voter, new to the tally, make one entry holding
/// their sum: the count grows by one, not two.
pub proof fn lemma_repeat_vote_accumulates(d: Seq<u8>, k: Seq<u8>, w1: u64, w2: u64)
    requires
        tally_wf(d),
        k.len() == 32,
        !tally_voters(d).contains(k),
        tally_record_outcome(d, k, w1) is Ok,
        tally_record_outcome(tally_record_outcome(d, k, w1)->Ok_0, k, w2) is Ok,
    ensures
        ({
            let d2 = tally_record_outcome(tally_record_outcome(d, k, w1)->Ok_0, k, w2)->Ok_0;
            &&& tally_count(d2) == tally_count(d) + 1
            &&& tally_voters(d2) == tally_voters(d).push(k)
            &&& tally_wagers(d2) == tally_wagers(d).push((w1 + w2) as u64)
        }),
{
    let d1 = tally_record_outcome(d, k, w1)->Ok_0;
    lemma_with_entry(d, k, w1);
    let n = tally_count(d) as int;
    assert(tally_voters(d1)[n] == k);
    assert(tally_voters(d1).contains(k));
    assert(is_first_entry(d1, k, n)) by {
        assert forall|j: int| 0 <= j < n implies tally_voter(d1, j) != k by {
            assert(tally_voters(d1)[j] == tally_voters(d)[j]);
            if tally_voter(d1, j) == k {
                assert(tally_voters(d).contains(k));
            }
        }
    }
    lemma_first_entry(d1, k, n);
    assert(tally_wager(d1, n) == tally_wagers(d1)[n]);
    lemma_with_wager(d1, n, (w1 + w2) as u64);
    assert(tally_wagers(d).push(w1).update(n, (w1 + w2) as u64) =~= tally_wagers(d).push(
        (w1 + w2) as u64,
    ));
}

} // verus!
