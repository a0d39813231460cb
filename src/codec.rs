use vstd::prelude::*;
use vstd::slice::axiom_spec_len;

verus! {

/// The leading byte of every record buffer, naming the record it holds.
#[derive(Clone, Copy, Debug, PartialEq, Eq, Structural)]
pub enum DataType {
    Unset,
    Collection,
    Poll,
    Tally,
    Invalid,
}

/// The record type that a tag byte names; bytes past `3` name none.
pub open spec fn data_type_of(b: u8) -> DataType {
    if b == 0 {
        DataType::Unset
    } else if b == 1 {
        DataType::Collection
    } else if b == 2 {
        DataType::Poll
    } else if b == 3 {
        DataType::Tally
    } else {
        DataType::Invalid
    }
}

/// The tag byte written for a record type.
pub open spec fn tag_of(t: DataType) -> u8 {
    match t {
        DataType::Unset => 0,
        DataType::Collection => 1,
        DataType::Poll => 2,
        DataType::Tally => 3,
        DataType::Invalid => 4,
    }
}

impl DataType {
    /// The tag byte of this record type.
    pub fn to_u8(&self) -> (r: u8)
        ensures
            r == tag_of(*self),
    {
        match self {
            DataType::Unset => 0,
            DataType::Collection => 1,
            DataType::Poll => 2,
            DataType::Tally => 3,
            DataType::Invalid => 4,
        }
    }
}

impl From<u8> for DataType {
    fn from(value: u8) -> (r: DataType) {
        if value == 0 {
            DataType::Unset
        } else if value == 1 {
            DataType::Collection
        } else if value == 2 {
            DataType::Poll
        } else if value == 3 {
            DataType::Tally
        } else {
            DataType::Invalid
        }
    }
}

impl vstd::std_specs::convert::FromSpecImpl<u8> for DataType {
    open spec fn obeys_from_spec() -> bool {
        true
    }

    open spec fn from_spec(v: u8) -> DataType {
        data_type_of(v)
    }
}

} // verus!

verus! {

/// The 32-byte address of an account.
pub type SolPubkey = [u8; 32];

/// The little-endian `u32` stored at `off`.
pub open spec fn u32_at(d: Seq<u8>, off: int) -> u32 {
    (d[off] + 0x100 * d[off + 1] + 0x10000 * d[off + 2] + 0x1000000 * d[off + 3]) as u32
}

/// The little-endian `u64` stored at `off`: two `u32` halves, low first.
pub open spec fn u64_at(d: Seq<u8>, off: int) -> u64 {
    (u32_at(d, off) + 0x100000000 * u32_at(d, off + 4)) as u64
}

/// The little-endian encoding of a `u32`.
pub open spec fn le32(x: u32) -> Seq<u8> {
    seq![
        (x % 0x100) as u8,
        ((x / 0x100) % 0x100) as u8,
        ((x / 0x10000) % 0x100) as u8,
        (x / 0x1000000) as u8,
    ]
}

/// The little-endian encoding of a `u64`: its two `u32` halves, low first.
pub open spec fn le64(x: u64) -> Seq<u8> {
    le32((x % 0x100000000) as u32) + le32((x / 0x100000000) as u32)
}

/// `d` with the bytes from `off` on replaced by `s`; its length is kept.
pub open spec fn splice(d: Seq<u8>, off: int, s: Seq<u8>) -> Seq<u8> {
    d.subrange(0, off) + s + d.subrange(off + s.len(), d.len() as int)
}

proof fn lemma_le32(x: u32)
    ensures
        le32(x).len() == 4,
        u32_at(le32(x), 0) == x,
{
}

/// The encodings have their widths and read back as the values encoded.
pub proof fn lemma_le_lengths(x: u32, y: u64)
    ensures
        le32(x).len() == 4,
        le64(y).len() == 8,
        u32_at(le32(x), 0) == x,
        u64_at(le64(y), 0) == y,
{
    let lo = (y % 0x100000000) as u32;
    let hi = (y / 0x100000000) as u32;
    lemma_le32(x);
    lemma_le32(lo);
    lemma_le32(hi);
    assert(lo + 0x100000000 * hi == y);
    let s = le64(y);
    assert(s.subrange(0, 4) =~= le32(lo));
    assert(s.subrange(4, 8) =~= le32(hi));
    assert(u32_at(s, 0) == u32_at(le32(lo), 0));
    assert(u32_at(s, 4) == u32_at(le32(hi), 0));
}

/// A `u32` encoded at `off` reads back.
pub proof fn lemma_u32_from(d: Seq<u8>, off: int, x: u32)
    requires
        0 <= off,
        off + 4 <= d.len(),
        d.subrange(off, off + 4) == le32(x),
    ensures
        u32_at(d, off) == x,
{
    lemma_le_lengths(x, 0);
    let s = d.subrange(off, off + 4);
    assert(d[off] == s[0] && d[off + 1] == s[1] && d[off + 2] == s[2] && d[off + 3] == s[3]);
}

/// A `u64` encoded at `off` reads back.
pub proof fn lemma_u64_from(d: Seq<u8>, off: int, y: u64)
    requires
        0 <= off,
        off + 8 <= d.len(),
        d.subrange(off, off + 8) == le64(y),
    ensures
        u64_at(d, off) == y,
{
    lemma_le_lengths(0, y);
    let s = d.subrange(off, off + 8);
    assert(forall|i: int| 0 <= i < 8 ==> d[off + i] == #[trigger] s[i]);
    assert(u32_at(d, off) == u32_at(s, 0));
    assert(u32_at(d, off + 4) == u32_at(s, 4));
}

/// Reading back what `splice` wrote, and reading around it.
pub proof fn lemma_splice(d: Seq<u8>, off: int, s: Seq<u8>)
    requires
        0 <= off,
        off + s.len() <= d.len(),
    ensures
        splice(d, off, s).len() == d.len(),
        splice(d, off, s).subrange(off, off + s.len()) == s,
        forall|i: int| 0 <= i < off ==> #[trigger] splice(d, off, s)[i] == d[i],
        forall|i: int| off + s.len() <= i < d.len() ==> #[trigger] splice(d, off, s)[i] == d[i],
        forall|i: int| off <= i < off + s.len() ==> #[trigger] splice(d, off, s)[i] == s[i - off],
{
    assert(splice(d, off, s).subrange(off, off + s.len()) =~= s);
}

/// A vector's length is a `usize`.
pub proof fn lemma_vec_len_fits(v: &Vec<u8>)
    ensures
        v@.len() <= usize::MAX,
{
    vstd::std_specs::vec::axiom_spec_len(v);
}

/// Reads the little-endian `u32` at `off`.
pub fn read_u32(d: &[u8], off: usize) -> (r: u32)
    requires
        off + 4 <= d@.len(),
    ensures
        r == u32_at(d@, off as int),
{
    proof {
        axiom_spec_len(d);
    }
    d[off] as u32 + 0x100 * (d[off + 1] as u32) + 0x10000 * (d[off + 2] as u32) + 0x1000000 * (
    d[off + 3] as u32)
}

/// Reads the little-endian `u64` at `off`.
pub fn read_u64(d: &[u8], off: usize) -> (r: u64)
    requires
        off + 8 <= d@.len(),
    ensures
        r == u64_at(d@, off as int),
{
    proof {
        axiom_spec_len(d);
    }
    let lo = read_u32(d, off);
    let hi = read_u32(d, off + 4);
    lo as u64 + 0x100000000 * (hi as u64)
}

/// Copies the address stored at `off`.
pub fn read_key(d: &[u8], off: usize) -> (r: SolPubkey)
    requires
        off + 32 <= d@.len(),
    ensures
        r@ == d@.subrange(off as int, off + 32),
{
    proof {
        axiom_spec_len(d);
    }
    let mut k: SolPubkey = [0u8; 32];
    for i in 0..32
        invariant
            d@.len() <= usize::MAX,
            off + 32 <= d@.len(),
            k@.len() == 32,
            forall|j: int| 0 <= j < i ==> k@[j] == d@[off + j],
    {
        k[i] = d[off + i];
    }
    assert(k@ =~= d@.subrange(off as int, off + 32));
    k
}

/// Whether two addresses are the same.
pub fn same_key(a: &SolPubkey, b: &SolPubkey) -> (r: bool)
    ensures
        r == (a@ == b@),
{
    for i in 0..32
        invariant
            forall|j: int| 0 <= j < i ==> a@[j] == b@[j],
    {
        if a[i] != b[i] {
            return false;
        }
    }
    assert(a@ =~= b@);
    true
}

/// Writes `s` into `d` at `off`.
pub fn write_bytes(d: &mut Vec<u8>, off: usize, s: &[u8])
    requires
        off + s@.len() <= old(d)@.len(),
    ensures
        final(d)@ == splice(old(d)@, off as int, s@),
{
    let n = s.len();
    proof {
        lemma_vec_len_fits(d);
    }
    for i in 0..n
        invariant
            old(d)@.len() <= usize::MAX,
            n == s@.len(),
            off + n <= old(d)@.len(),
            d@.len() == old(d)@.len(),
            forall|j: int| 0 <= j < off ==> d@[j] == old(d)@[j],
            forall|j: int| off + n <= j < d@.len() ==> d@[j] == old(d)@[j],
            forall|j: int| off <= j < off + i ==> d@[j] == s@[j - off],
    {
        d.set(off + i, s[i]);
    }
    assert(d@ =~= splice(old(d)@, off as int, s@));
}

/// The little-endian encoding of `x`.
pub fn u32_le_bytes(x: u32) -> (r: Vec<u8>)
    ensures
        r@ == le32(x),
{
    let mut v: Vec<u8> = Vec::new();
    v.push((x % 0x100) as u8);
    v.push(((x / 0x100) % 0x100) as u8);
    v.push(((x / 0x10000) % 0x100) as u8);
    v.push((x / 0x1000000) as u8);
    assert(v@ =~= le32(x));
    v
}

/// The little-endian encoding of `x`.
pub fn u64_le_bytes(x: u64) -> (r: Vec<u8>)
    ensures
        r@ == le64(x),
{
    let mut v = u32_le_bytes((x % 0x100000000) as u32);
    let hi = u32_le_bytes((x / 0x100000000) as u32);
    append_bytes(&mut v, hi.as_slice());
    v
}

/// Writes `x` in little-endian order at `off`.
pub fn write_u32(d: &mut Vec<u8>, off: usize, x: u32)
    requires
        off + 4 <= old(d)@.len(),
    ensures
        final(d)@ == splice(old(d)@, off as int, le32(x)),
{
    let b = u32_le_bytes(x);
    write_bytes(d, off, b.as_slice());
}

/// Writes `x` in little-endian order at `off`.
pub fn write_u64(d: &mut Vec<u8>, off: usize, x: u64)
    requires
        off + 8 <= old(d)@.len(),
    ensures
        final(d)@ == splice(old(d)@, off as int, le64(x)),
{
    let b = u64_le_bytes(x);
    write_bytes(d, off, b.as_slice());
}

} // verus!

verus! {

/// Appends `s` to `v`.
pub fn append_bytes(v: &mut Vec<u8>, s: &[u8])
    ensures
        final(v)@ == old(v)@ + s@,
{
    let n = s.len();
    for i in 0..n
        invariant
            n == s@.len(),
            v@ == old(v)@ + s@.subrange(0, i as int),
    {
        v.push(s[i]);
        assert(s@.subrange(0, i + 1) =~= s@.subrange(0, i as int).push(s@[i as int]));
    }
    assert(s@.subrange(0, n as int) =~= s@);
}

} // verus!
