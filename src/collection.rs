//! The registry of polls: an append-only, fixed-capacity set of poll
//! addresses kept in a Collection record.
//!
//! Layout: tag (1 byte), count (`u32`), then as many 32-byte addresses as
//! the rest of the buffer holds.
use crate::codec::{
    data_type_of, le32, lemma_le_lengths, lemma_splice, lemma_vec_len_fits, read_key, read_u32,
    same_key, splice, u32_at, write_bytes, write_u32, DataType, SolPubkey,
};
use crate::error::PollError;
use vstd::prelude::*;
use vstd::slice::axiom_spec_len;

verus! {

/// Smallest buffer that holds a collection: tag, count and one address.
pub const MIN_COLLECTION_SIZE: usize = 37;

/// Number of polls recorded.
pub open spec fn collection_count(d: Seq<u8>) -> u32 {
    u32_at(d, 1)
}

/// Number of addresses the buffer has room for, within what the 32-bit
/// count can number.
pub open spec fn collection_capacity(d: Seq<u8>) -> int {
    let room = (d.len() - 5) / 32;
    if room > u32::MAX {
        u32::MAX as int
    } else {
        room
    }
}

/// Offset of the `i`-th address.
pub open spec fn poll_offset(i: int) -> int {
    5 + 32 * i
}

/// The `i`-th address slot.
pub open spec fn poll_slot(d: Seq<u8>, i: int) -> Seq<u8> {
    d.subrange(poll_offset(i), poll_offset(i) + 32)
}

/// The addresses recorded, in the order they were added.
pub open spec fn collection_polls(d: Seq<u8>) -> Seq<Seq<u8>> {
    Seq::new(collection_count(d) as nat, |i: int| poll_slot(d, i))
}

/// A buffer that holds a collection: room for the header, and a count
/// within capacity.
pub open spec fn collection_wf(d: Seq<u8>) -> bool {
    &&& d.len() >= 5
    &&& collection_count(d) <= collection_capacity(d)
}

/// `d` with `k` appended after the recorded addresses.
pub open spec fn with_poll(d: Seq<u8>, k: Seq<u8>) -> Seq<u8> {
    let n = collection_count(d);
    splice(splice(d, 1, le32((n + 1) as u32)), poll_offset(n as int), k)
}

/// What adding `k` to the collection in `d` gives: the full collection and a
/// known address are refused, in that order.
pub open spec fn add_poll_outcome(d: Seq<u8>, k: Seq<u8>) -> Result<Seq<u8>, PollError> {
    if collection_count(d) >= collection_capacity(d) {
        Err(PollError::MaxPollCapacity)
    } else if collection_polls(d).contains(k) {
        Err(PollError::PollAlreadyCreated)
    } else {
        Ok(with_poll(d, k))
    }
}

/// A slot below the room the buffer has lies inside it.
pub proof fn lemma_slot_fits(len: int, i: int)
    requires
        len >= 5,
        0 <= i,
        i < (len - 5) / 32,
    ensures
        poll_offset(i) + 32 <= len,
{
    assert(32 * i + 32 <= len - 5) by (nonlinear_arith)
        requires
            0 <= i < (len - 5) / 32,
            len >= 5,
    ;
}

/// Appending keeps the collection well formed, records one more address,
/// and keeps the earlier ones.
pub proof fn lemma_with_poll(d: Seq<u8>, k: Seq<u8>)
    requires
        collection_wf(d),
        collection_count(d) < collection_capacity(d),
        k.len() == 32,
    ensures
        with_poll(d, k).len() == d.len(),
        with_poll(d, k)[0] == d[0],
        collection_count(with_poll(d, k)) == collection_count(d) + 1,
        collection_capacity(with_poll(d, k)) == collection_capacity(d),
        collection_wf(with_poll(d, k)),
        collection_polls(with_poll(d, k)) == collection_polls(d).push(k),
{
    let n = collection_count(d);
    let d1 = splice(d, 1, le32((n + 1) as u32));
    lemma_le_lengths((n + 1) as u32, 0);
    lemma_splice(d, 1, le32((n + 1) as u32));
    lemma_slot_fits(d.len() as int, n as int);
    lemma_splice(d1, poll_offset(n as int), k);
    let d2 = with_poll(d, k);
    assert(d2.subrange(1, 5) =~= d1.subrange(1, 5));
    assert(collection_count(d2) == n + 1);
    let p = collection_polls(d2);
    let q = collection_polls(d).push(k);
    assert forall|i: int| 0 <= i < p.len() implies p[i] == q[i] by {
        if i < n {
            lemma_slot_fits(d.len() as int, i);
            assert(poll_slot(d2, i) =~= poll_slot(d, i));
        } else {
            assert(poll_slot(d2, i) =~= k);
        }
    }
    assert(p =~= q);
}

/// A collection record held as an owned copy of its buffer.
pub struct CollectionData {
    data: Vec<u8>,
}

impl View for CollectionData {
    type V = Seq<u8>;

    closed spec fn view(&self) -> Seq<u8> {
        self.data@
    }
}

impl CollectionData {
    /// The buffer holds a collection.
    pub open spec fn wf(&self) -> bool {
        collection_wf(self@)
    }

    /// The record type that the buffer's tag names.
    pub fn data_type(&self) -> (r: DataType)
        requires
            self.wf(),
        ensures
            r == data_type_of(self@[0]),
    {
        DataType::from(self.data[0])
    }

    /// Takes a buffer that holds a collection; one too short for the header,
    /// or whose count exceeds its capacity, is refused.
    pub fn from_bytes(data: Vec<u8>) -> (r: Result<CollectionData, PollError>)
        ensures
            match r {
                Ok(c) => collection_wf(data@) && c@ == data@ && c.wf(),
                Err(e) => !collection_wf(data@) && e == PollError::InvalidDataType,
            },
    {
        if data.len() < 5 {
            return Err(PollError::InvalidDataType);
        }
        let count = read_u32(data.as_slice(), 1);
        if count as usize > (data.len() - 5) / 32 {
            assert(count > collection_capacity(data@));
            return Err(PollError::InvalidDataType);
        }
        Ok(CollectionData { data })
    }

    /// Hands the buffer back.
    pub fn into_bytes(self) -> (r: Vec<u8>)
        ensures
            r@ == self@,
    {
        self.data
    }

    /// Whether `poll` is recorded.
    pub fn contains(&self, poll: &SolPubkey) -> (r: bool)
        requires
            self.wf(),
        ensures
            r == collection_polls(self@).contains(poll@),
    {
        let n = self.len();
        let d = self.data.as_slice();
        proof {
            axiom_spec_len(d);
        }
        for i in 0..n
            invariant
                self@.len() <= usize::MAX,
                self.wf(),
                d@ == self@,
                n == collection_count(self@),
                forall|j: int| 0 <= j < i ==> collection_polls(self@)[j] != poll@,
        {
            proof {
                lemma_slot_fits(self@.len() as int, i as int);
            }
            let k = read_key(d, 5 + 32 * i);
            if same_key(&k, poll) {
                assert(collection_polls(self@)[i as int] == poll@);
                return true;
            }
        }
        false
    }

    /// Number of addresses the buffer has room for.
    pub fn capacity(&self) -> (r: usize)
        requires
            self.wf(),
        ensures
            r == collection_capacity(self@),
    {
        let room = (self.data.len() - 5) / 32;
        if room > u32::MAX as usize {
            u32::MAX as usize
        } else {
            room
        }
    }

    /// Whether no poll is recorded.
    pub fn is_empty(&self) -> (r: bool)
        requires
            self.wf(),
        ensures
            r == (collection_count(self@) == 0),
    {
        self.len() == 0
    }

    /// Number of polls recorded.
    pub fn len(&self) -> (r: usize)
        requires
            self.wf(),
        ensures
            r == collection_count(self@),
    {
        read_u32(self.data.as_slice(), 1) as usize
    }

    /// Appends `poll` after the recorded addresses.
    pub fn add_poll(&mut self, poll: &SolPubkey)
        requires
            old(self).wf(),
            collection_count(old(self)@) < collection_capacity(old(self)@),
        ensures
            final(self).wf(),
            final(self)@ == with_poll(old(self)@, poll@),
    {
        let n = self.len();
        proof {
            lemma_vec_len_fits(&self.data);
            lemma_slot_fits(self@.len() as int, n as int);
            lemma_with_poll(self@, poll@);
        }
        write_u32(&mut self.data, 1, (n + 1) as u32);
        write_bytes(&mut self.data, 5 + 32 * n, poll.as_slice());
    }

    /// The addresses recorded, in the order they were added.
    pub fn to_vec(&self) -> (r: Vec<SolPubkey>)
        requires
            self.wf(),
        ensures
            r@.len() == collection_count(self@),
            forall|i: int| 0 <= i < r@.len() ==> r@[i]@ == collection_polls(self@)[i],
    {
        let n = self.len();
        let d = self.data.as_slice();
        proof {
            axiom_spec_len(d);
        }
        let mut out: Vec<SolPubkey> = Vec::new();
        for i in 0..n
            invariant
                self@.len() <= usize::MAX,
                self.wf(),
                d@ == self@,
                n == collection_count(self@),
                out@.len() == i,
                forall|j: int| 0 <= j < i ==> out@[j]@ == collection_polls(self@)[j],
        {
            proof {
                lemma_slot_fits(self@.len() as int, i as int);
            }
            out.push(read_key(d, 5 + 32 * i));
        }
        out
    }
}

/// Registers `poll` in the collection: refused when the collection is full,
/// then when the address is already there; otherwise appended.
pub fn add_poll(collection: &mut CollectionData, poll: &SolPubkey) -> (r: Result<(), PollError>)
    requires
        old(collection).wf(),
    ensures
        final(collection).wf(),
        collection_count(old(collection)@) >= collection_capacity(old(collection)@) ==> r
            == Err::<(), PollError>(PollError::MaxPollCapacity) && *final(collection)
            == *old(collection),
        match add_poll_outcome(old(collection)@, poll@) {
            Ok(d) => r is Ok && final(collection)@ == d,
            Err(e) => r == Err::<(), PollError>(e) && *final(collection) == *old(collection),
        },
{
    if collection.len() >= collection.capacity() {
        Err(PollError::MaxPollCapacity)
    } else if collection.contains(poll) {
        Err(PollError::PollAlreadyCreated)
    } else {
        collection.add_poll(poll);
        Ok(())
    }
}

} // verus!

verus! {

/// Adding a poll that was just added is refused as already created, and so
/// leaves the count as it was; this holds wherever the first addition left
/// room for another.
pub proof fn lemma_add_same_poll_twice(d: Seq<u8>, k: Seq<u8>)
    requires
        collection_wf(d),
        k.len() == 32,
        add_poll_outcome(d, k) is Ok,
        collection_count(add_poll_outcome(d, k)->Ok_0) < collection_capacity(
            add_poll_outcome(d, k)->Ok_0,
        ),
    ensures
        add_poll_outcome(add_poll_outcome(d, k)->Ok_0, k) == Err::<Seq<u8>, PollError>(
            PollError::PollAlreadyCreated,
        ),
{
    let d1 = add_poll_outcome(d, k)->Ok_0;
    lemma_with_poll(d, k);
    let n = collection_count(d) as int;
    assert(collection_polls(d1)[n] == k);
}

} // verus!
