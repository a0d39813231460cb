//! The payload of the InitPoll instruction.
//!
//! Layout: timeout (`u32`), then the header, option A and option B, each as a
//! `u32` length followed by that many bytes.
use crate::codec::{append_bytes, le32, lemma_le_lengths, read_u32, u32_at, u32_le_bytes};
use vstd::prelude::*;
use vstd::slice::{slice_subrange, slice_to_vec};

verus! {

/// What an InitPoll payload says.
pub struct InitPollView {
    pub timeout: u32,
    pub header: Seq<u8>,
    pub option_a: Seq<u8>,
    pub option_b: Seq<u8>,
}

/// The encoding of an InitPoll payload.
pub open spec fn init_poll_bytes(i: InitPollView) -> Seq<u8> {
    le32(i.timeout) + le32(i.header.len() as u32) + i.header + le32(i.option_a.len() as u32)
        + i.option_a + le32(i.option_b.len() as u32) + i.option_b
}

/// The texts of a payload fit their 32-bit lengths.
pub open spec fn init_poll_view_wf(i: InitPollView) -> bool {
    &&& i.header.len() <= u32::MAX
    &&& i.option_a.len() <= u32::MAX
    &&& i.option_b.len() <= u32::MAX
}

/// The payload that `d` begins with; bytes after it are ignored, and a
/// length that runs past the end of `d` leaves none.
pub open spec fn parse_init_poll(d: Seq<u8>) -> Option<InitPollView> {
    if d.len() < 8 {
        None
    } else {
        let h = u32_at(d, 4) as int;
        if 8 + h + 4 > d.len() {
            None
        } else {
            let a = u32_at(d, 8 + h) as int;
            if 12 + h + a + 4 > d.len() {
                None
            } else {
                let b = u32_at(d, 12 + h + a) as int;
                if 16 + h + a + b > d.len() {
                    None
                } else {
                    Some(
                        InitPollView {
                            timeout: u32_at(d, 0),
                            header: d.subrange(8, 8 + h),
                            option_a: d.subrange(12 + h, 12 + h + a),
                            option_b: d.subrange(16 + h + a, 16 + h + a + b),
                        },
                    )
                }
            }
        }
    }
}

/// Decoding an encoded payload, with anything after it, gives it back.
pub proof fn lemma_init_poll_round_trip(i: InitPollView, rest: Seq<u8>)
    requires
        init_poll_view_wf(i),
    ensures
        parse_init_poll(init_poll_bytes(i) + rest) == Some(i),
{
    lemma_le_lengths(i.timeout, 0);
    lemma_le_lengths(i.header.len() as u32, 0);
    lemma_le_lengths(i.option_a.len() as u32, 0);
    lemma_le_lengths(i.option_b.len() as u32, 0);
    let d = init_poll_bytes(i) + rest;
    let h = i.header.len() as int;
    let a = i.option_a.len() as int;
    let b = i.option_b.len() as int;
    assert(d.subrange(0, 4) =~= le32(i.timeout));
    assert(d.subrange(4, 8) =~= le32(h as u32));
    assert(d.subrange(8 + h, 12 + h) =~= le32(a as u32));
    assert(d.subrange(12 + h + a, 16 + h + a) =~= le32(b as u32));
    assert(d.subrange(8, 8 + h) =~= i.header);
    assert(d.subrange(12 + h, 12 + h + a) =~= i.option_a);
    assert(d.subrange(16 + h + a, 16 + h + a + b) =~= i.option_b);
}

/// The InitPoll payload: a timeout in slots and the three texts of a poll.
#[derive(Debug, PartialEq, Eq)]
pub struct InitPollData {
    pub timeout: u32,
    pub header_len: u32,
    pub header: Vec<u8>,
    pub option_a_len: u32,
    pub option_a: Vec<u8>,
    pub option_b_len: u32,
    pub option_b: Vec<u8>,
}

impl View for InitPollData {
    type V = InitPollView;

    open spec fn view(&self) -> InitPollView {
        InitPollView {
            timeout: self.timeout,
            header: self.header@,
            option_a: self.option_a@,
            option_b: self.option_b@,
        }
    }
}

impl InitPollData {
    /// Each length field is the length of its text.
    pub open spec fn wf(&self) -> bool {
        &&& self.header_len == self.header@.len()
        &&& self.option_a_len == self.option_a@.len()
        &&& self.option_b_len == self.option_b@.len()
    }

    /// Length of the encoding.
    pub fn length(&self) -> (r: usize)
        requires
            self.wf(),
            init_poll_bytes(self@).len() <= usize::MAX,
        ensures
            r == init_poll_bytes(self@).len(),
    {
        proof {
            lemma_le_lengths(self.timeout, 0);
            lemma_le_lengths(self.header_len, 0);
            lemma_le_lengths(self.option_a_len, 0);
            lemma_le_lengths(self.option_b_len, 0);
        }
        (4 + 4 + self.header_len as u64 + 4 + self.option_a_len as u64 + 4
            + self.option_b_len as u64) as usize
    }

    /// The encoding.
    pub fn to_bytes(&self) -> (r: Vec<u8>)
        requires
            self.wf(),
        ensures
            r@ == init_poll_bytes(self@),
    {
        let mut bytes: Vec<u8> = Vec::new();
        append_bytes(&mut bytes, u32_le_bytes(self.timeout).as_slice());
        append_bytes(&mut bytes, u32_le_bytes(self.header_len).as_slice());
        append_bytes(&mut bytes, self.header.as_slice());
        append_bytes(&mut bytes, u32_le_bytes(self.option_a_len).as_slice());
        append_bytes(&mut bytes, self.option_a.as_slice());
        append_bytes(&mut bytes, u32_le_bytes(self.option_b_len).as_slice());
        append_bytes(&mut bytes, self.option_b.as_slice());
        assert(bytes@ =~= init_poll_bytes(self@));
        bytes
    }

    /// Decodes the payload that `data` begins with; `None` where a length
    /// runs past the end.
    pub fn from_bytes(data: &[u8]) -> (r: Option<InitPollData>)
        ensures
            match r {
                Some(i) => i.wf() && parse_init_poll(data@) == Some(i@),
                None => parse_init_poll(data@) is None,
            },
    {
        let len = data.len();
        if len < 8 {
            return None;
        }
        let timeout = read_u32(data, 0);
        let header_len = read_u32(data, 4);
        let h = header_len as usize;
        if len - 8 < h || len - 8 - h < 4 {
            return None;
        }
        let option_a_len = read_u32(data, 8 + h);
        let a = option_a_len as usize;
        if len - 12 - h < a || len - 12 - h - a < 4 {
            return None;
        }
        let option_b_len = read_u32(data, 12 + h + a);
        let b = option_b_len as usize;
        if len - 16 - h - a < b {
            return None;
        }
        let header = slice_to_vec(slice_subrange(data, 8, 8 + h));
        let option_a = slice_to_vec(slice_subrange(data, 12 + h, 12 + h + a));
        let option_b = slice_to_vec(slice_subrange(data, 16 + h + a, 16 + h + a + b));
        let r = InitPollData {
            timeout,
            header_len,
            header,
            option_a_len,
            option_a,
            option_b_len,
            option_b,
        };
        assert(parse_init_poll(data@) == Some(r@));
        Some(r)
    }
}

} // verus!
