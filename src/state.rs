//! The stored memo record, its byte layout and the size ceiling on its content.

use vstd::prelude::*;
use vstd::utf8::*;
use crate::codec::{
    announced_len, le_bytes, le_value, leading_string, lemma_le_bytes_len, lemma_le_round_trip,
    lemma_pow256_eight, lemma_string_round_trip, push_le, push_string, read_le, read_string,
    starts_with_string, string_bytes,
};

verus! {

/// The ceiling on the number of bytes of a memo's content.
pub const MAX_MEMO_SIZE: usize = 200;

/// The largest number of bytes a stored memo takes: owner, length prefix,
/// content at the ceiling, timestamp.
pub const MAX_MEMO_ACCOUNT_SIZE: usize = 32 + 4 + MAX_MEMO_SIZE + 8;

/// The 32-byte identity of an account.
#[derive(Clone, Copy, Debug, Eq)]
pub struct Pubkey(pub [u8; 32]);

impl PartialEq for Pubkey {
    fn eq(&self, other: &Pubkey) -> (r: bool) {
        let mut i: usize = 0;
        while i < 32
            invariant
                i <= 32,
                forall|j: int| 0 <= j < i ==> self@[j] == other@[j],
            decreases 32 - i,
        {
            if self.0[i] != other.0[i] {
                return false;
            }
            i = i + 1;
        }
        assert(self@ =~= other@);
        true
    }
}

impl vstd::std_specs::cmp::PartialEqSpecImpl for Pubkey {
    open spec fn obeys_eq_spec() -> bool {
        true
    }

    open spec fn eq_spec(&self, other: &Pubkey) -> bool {
        self@ == other@
    }
}

impl View for Pubkey {
    type V = Seq<u8>;

    open spec fn view(&self) -> Seq<u8> {
        self.0@
    }
}

/// What a memo record holds, as values.
pub ghost struct MemoModel {
    pub owner: Seq<u8>,
    pub content: Seq<char>,
    pub timestamp: i64,
}

/// The record kept in a memo account.
#[derive(Clone, Debug)]
pub struct Memo {
    /// The identity allowed to change or delete the memo.
    pub owner: Pubkey,
    /// The text of the memo.
    pub content: String,
    /// Seconds since the Unix epoch, set on creation and on each update.
    pub timestamp: i64,
}

impl View for Memo {
    type V = MemoModel;

    open spec fn view(&self) -> MemoModel {
        MemoModel { owner: self.owner@, content: self.content@, timestamp: self.timestamp }
    }
}

/// The two's-complement bits of `t` as an unsigned number.
pub open spec fn i64_bits(t: i64) -> nat {
    if t >= 0 {
        t as nat
    } else {
        (t + 0x1_0000_0000_0000_0000) as nat
    }
}

/// The signed number whose two's-complement bits are `v`.
pub open spec fn i64_of_bits(v: nat) -> i64 {
    if v < 0x8000_0000_0000_0000 {
        v as i64
    } else {
        (v - 0x1_0000_0000_0000_0000) as i64
    }
}

fn to_bits(t: i64) -> (r: u64)
    ensures
        r as nat == i64_bits(t),
{
    if t >= 0 {
        t as u64
    } else {
        (t + i64::MAX + 1) as u64 + 0x8000_0000_0000_0000
    }
}

fn from_bits(v: u64) -> (r: i64)
    ensures
        r == i64_of_bits(v as nat),
{
    if v < 0x8000_0000_0000_0000 {
        v as i64
    } else {
        (v - 0x8000_0000_0000_0000) as i64 - i64::MAX - 1
    }
}

/// The number of bytes that content `c` takes when stored.
pub open spec fn content_len(c: Seq<char>) -> nat {
    encode_utf8(c).len()
}

/// The stored bytes of a memo: the owner, the content as a length-prefixed
/// string, and the timestamp as eight little-endian bytes.
pub open spec fn memo_bytes(m: MemoModel) -> Seq<u8> {
    m.owner + string_bytes(m.content) + le_bytes(i64_bits(m.timestamp), 8)
}

/// The memo that the bytes `s` hold, if they hold exactly one.
pub open spec fn parse_memo(s: Seq<u8>) -> Option<MemoModel> {
    let rest = s.subrange(32, s.len() as int);
    if s.len() >= 32 && starts_with_string(rest) && s.len() == 32 + 4 + announced_len(rest) + 8 {
        Some(
            MemoModel {
                owner: s.subrange(0, 32),
                content: leading_string(rest),
                timestamp: i64_of_bits(le_value(s.subrange(s.len() - 8, s.len() as int))),
            },
        )
    } else {
        None
    }
}

/// Decoding the stored bytes of a memo gives back that memo, for every owner
/// of 32 bytes, every timestamp and every content whose length fits the
/// four-byte length prefix (so every content within the ceiling).
pub proof fn lemma_memo_round_trip(m: MemoModel)
    requires
        m.owner.len() == 32,
        content_len(m.content) <= u32::MAX,
    ensures
        parse_memo(memo_bytes(m)) == Some(m),
{
    let ts = le_bytes(i64_bits(m.timestamp), 8);
    let s = memo_bytes(m);
    let rest = s.subrange(32, s.len() as int);
    lemma_le_bytes_len(encode_utf8(m.content).len(), 4);
    lemma_le_bytes_len(i64_bits(m.timestamp), 8);
    assert(rest =~= string_bytes(m.content) + ts);
    lemma_string_round_trip(m.content, ts);
    assert(s.subrange(0, 32) =~= m.owner);
    assert(s.subrange(s.len() - 8, s.len() as int) =~= ts);
    lemma_pow256_eight();
    lemma_le_round_trip(i64_bits(m.timestamp), 8);
}

impl Memo {
    /// The stored bytes of this memo.
    pub fn encode(&self) -> (r: Vec<u8>)
        requires
            content_len(self.content@) <= u32::MAX,
        ensures
            r@ == memo_bytes(self@),
    {
        let mut out: Vec<u8> = Vec::new();
        let mut i: usize = 0;
        while i < 32
            invariant
                i <= 32,
                out@ == self.owner@.subrange(0, i as int),
            decreases 32 - i,
        {
            out.push(self.owner.0[i]);
            assert(out@ =~= self.owner@.subrange(0, i + 1));
            i = i + 1;
        }
        push_string(&mut out, &self.content);
        push_le(&mut out, to_bits(self.timestamp), 8);
        out
    }

    /// The memo that `data` holds, or `None` where the bytes are not exactly
    /// one stored memo.
    pub fn decode(data: &[u8]) -> (r: Option<Memo>)
        ensures
            match r {
                Some(m) => parse_memo(data@) == Some(m@),
                None => parse_memo(data@) is None,
            },
    {
        let len: usize = data.len();
        if len < 32 {
            return None;
        }
        let (content, end) = match read_string(data, 32) {
            Some(found) => found,
            None => return None,
        };
        if len - end != 8 {
            return None;
        }
        let timestamp = from_bits(read_le(data, end, 8));
        let mut owner = [0u8; 32];
        let mut i: usize = 0;
        while i < 32
            invariant
                i <= 32,
                32 <= data@.len(),
                forall|j: int| 0 <= j < i ==> owner@[j] == data@[j],
            decreases 32 - i,
        {
            owner[i] = data[i];
            i = i + 1;
        }
        assert(owner@ =~= data@.subrange(0, 32));
        Some(Memo { owner: Pubkey(owner), content, timestamp })
    }
}

} // verus!
