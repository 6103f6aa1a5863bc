//! Little-endian integers and length-prefixed strings, the field encodings
//! that instructions and stored records are framed from.

use vstd::prelude::*;
use vstd::utf8::*;

verus! {

/// `256` raised to the power `k`.
pub open spec fn pow256(k: nat) -> nat
    decreases k,
{
    if k == 0 {
        1
    } else {
        256 * pow256((k - 1) as nat)
    }
}

/// The unsigned value of `s` read as a little-endian number.
pub open spec fn le_value(s: Seq<u8>) -> nat
    decreases s.len(),
{
    if s.len() == 0 {
        0
    } else {
        s[0] as nat + 256 * le_value(s.subrange(1, s.len() as int))
    }
}

/// The `n` low bytes of `x`, least significant first.
pub open spec fn le_bytes(x: nat, n: nat) -> Seq<u8>
    decreases n,
{
    if n == 0 {
        Seq::empty()
    } else {
        seq![(x % 256) as u8] + le_bytes(x / 256, (n - 1) as nat)
    }
}

pub proof fn lemma_pow256_pos(k: nat)
    ensures
        pow256(k) >= 1,
    decreases k,
{
    if k > 0 {
        lemma_pow256_pos((k - 1) as nat);
    }
}

pub proof fn lemma_pow256_mono(a: nat, b: nat)
    requires
        a <= b,
    ensures
        pow256(a) <= pow256(b),
    decreases b,
{
    if a < b {
        lemma_pow256_mono(a, (b - 1) as nat);
        lemma_pow256_pos((b - 1) as nat);
    }
}

pub proof fn lemma_pow256_eight()
    ensures
        pow256(8) == 0x1_0000_0000_0000_0000,
        pow256(4) == 0x1_0000_0000,
{
    reveal_with_fuel(pow256, 9);
}

pub proof fn lemma_le_bytes_len(x: nat, n: nat)
    ensures
        le_bytes(x, n).len() == n,
    decreases n,
{
    if n > 0 {
        lemma_le_bytes_len(x / 256, (n - 1) as nat);
    }
}

/// A little-endian number is below `256` to the power of its length.
pub proof fn lemma_le_value_bound(s: Seq<u8>)
    ensures
        le_value(s) < pow256(s.len()),
    decreases s.len(),
{
    if s.len() > 0 {
        lemma_le_value_bound(s.subrange(1, s.len() as int));
    }
}

/// Reading back the `n` low bytes of a number that fits in them gives the number.
pub proof fn lemma_le_round_trip(x: nat, n: nat)
    requires
        x < pow256(n),
    ensures
        le_value(le_bytes(x, n)) == x,
    decreases n,
{
    if n > 0 {
        let s = le_bytes(x, n);
        lemma_le_bytes_len(x, n);
        assert(x / 256 < pow256((n - 1) as nat)) by (nonlinear_arith)
            requires
                x < 256 * pow256((n - 1) as nat),
        ;
        lemma_le_round_trip(x / 256, (n - 1) as nat);
        assert(s.subrange(1, s.len() as int) =~= le_bytes(x / 256, (n - 1) as nat));
    }
}


/// The bytes of a length-prefixed string: the length of its UTF-8 encoding as
/// four little-endian bytes, then that encoding.
pub open spec fn string_bytes(s: Seq<char>) -> Seq<u8> {
    le_bytes(encode_utf8(s).len(), 4) + encode_utf8(s)
}

/// Reads the `n` bytes of `b` from `pos` on as a little-endian number.
pub fn read_le(b: &[u8], pos: usize, n: usize) -> (r: u64)
    requires
        n <= 8,
        pos + n <= b@.len(),
    ensures
        r as nat == le_value(b@.subrange(pos as int, pos + n)),
{
    let len: usize = b.len();
    let mut acc: u64 = 0;
    let mut i: usize = n;
    proof {
        assert(b@.subrange(pos + n, pos + n) =~= Seq::<u8>::empty());
    }
    while i > 0
        invariant
            n <= 8,
            pos + n <= len,
            len == b@.len(),
            i <= n,
            acc as nat == le_value(b@.subrange(pos + i, pos + n)),
        decreases i,
    {
        let ghost tail = b@.subrange(pos + i, pos + n);
        i = i - 1;
        let ghost cur = b@.subrange(pos + i, pos + n);
        proof {
            assert(cur.subrange(1, cur.len() as int) =~= tail);
            lemma_le_value_bound(tail);
            lemma_pow256_mono((n - i - 1) as nat, 7);
            lemma_pow256_eight();
            assert(pow256(8) == 256 * pow256(7));
            assert(acc * 256 + 255 < 0x1_0000_0000_0000_0000) by (nonlinear_arith)
                requires
                    acc < pow256(7),
                    pow256(8) == 256 * pow256(7),
                    pow256(8) == 0x1_0000_0000_0000_0000,
            ;
        }
        acc = acc * 256 + b[pos + i] as u64;
    }
    acc
}

/// Appends the `n` low bytes of `x`, least significant first.
pub fn push_le(out: &mut Vec<u8>, x: u64, n: usize)
    requires
        n <= 8,
    ensures
        final(out)@ == old(out)@ + le_bytes(x as nat, n as nat),
{
    let mut rest: u64 = x;
    let mut i: usize = 0;
    proof {
        assert(old(out)@ =~= old(out)@ + le_bytes(x as nat, 0));
    }
    while i < n
        invariant
            i <= n,
            old(out)@ + le_bytes(x as nat, n as nat) == out@ + le_bytes(rest as nat, (n - i) as nat),
        decreases n - i,
    {
        let ghost before = out@;
        out.push((rest % 256) as u8);
        proof {
            let k = (n - i) as nat;
            assert(le_bytes(rest as nat, k) =~= seq![(rest % 256) as u8] + le_bytes(
                (rest / 256) as nat,
                (k - 1) as nat,
            ));
            assert(out@ =~= before + seq![(rest % 256) as u8]);
            assert(before + le_bytes(rest as nat, k) =~= out@ + le_bytes(
                (rest / 256) as nat,
                (k - 1) as nat,
            ));
        }
        rest = rest / 256;
        i = i + 1;
    }
    assert(out@ =~= out@ + le_bytes(rest as nat, 0));
}

/// Appends `s` as a length-prefixed string.
pub fn push_string(out: &mut Vec<u8>, s: &String)
    requires
        encode_utf8(s@).len() <= u32::MAX,
    ensures
        final(out)@ == old(out)@ + string_bytes(s@),
{
    let bytes = s.as_str().as_bytes();
    push_le(out, bytes.len() as u64, 4);
    out.extend_from_slice(bytes);
    assert(out@ =~= old(out)@ + string_bytes(s@));
}

/// The error type of std's I/O traits, which borsh's decoders report.
#[verifier::external_type_specification]
#[verifier::external_body]
pub struct ExIoError(std::io::Error);

/// The length that the first four bytes of `v` announce.
pub open spec fn announced_len(v: Seq<u8>) -> int {
    le_value(v.subrange(0, 4)) as int
}

/// `v` starts with a length-prefixed string: four length bytes, and that many
/// bytes after them that are UTF-8.
pub open spec fn starts_with_string(v: Seq<u8>) -> bool {
    &&& v.len() >= 4
    &&& 4 + announced_len(v) <= v.len()
    &&& valid_utf8(v.subrange(4, 4 + announced_len(v)))
}

/// The string that `v` starts with, where `starts_with_string(v)`.
pub open spec fn leading_string(v: Seq<u8>) -> Seq<char> {
    decode_utf8(v.subrange(4, 4 + announced_len(v)))
}

/// Relies on borsh's decoder for `String` (`BorshDeserialize::deserialize` on a
/// byte cursor), which reads a `u32` little-endian length, then that many bytes,
/// and turns them into a string with `String::from_utf8`. It fails when the
/// input is too short or the bytes are not UTF-8. Returns the string and the
/// number of bytes of `v` after it.
#[verifier::external_body]
fn borsh_read_string(v: &[u8]) -> (r: Result<(String, usize), std::io::Error>)
    ensures
        r is Ok <==> starts_with_string(v@),
        r matches Ok((s, rest)) ==> s@ == leading_string(v@) && rest == v@.len() - 4
            - announced_len(v@),
{
    let mut cursor: &[u8] = v;
    match <String as borsh::BorshDeserialize>::deserialize(&mut cursor) {
        Ok(s) => Ok((s, cursor.len())),
        Err(e) => Err(e),
    }
}

/// Reads the length-prefixed string that starts at `pos`; returns it and the
/// position just after it.
pub fn read_string(b: &[u8], pos: usize) -> (r: Option<(String, usize)>)
    requires
        pos <= b@.len(),
    ensures
        r is Some <==> starts_with_string(b@.subrange(pos as int, b@.len() as int)),
        r matches Some((s, end)) ==> {
            let v = b@.subrange(pos as int, b@.len() as int);
            &&& s@ == leading_string(v)
            &&& end == pos + 4 + announced_len(v)
        },
{
    let tail = &b[pos..b.len()];
    match borsh_read_string(tail) {
        Ok((s, rest)) => Some((s, b.len() - rest)),
        Err(_) => None,
    }
}

/// The string bytes of `s` are read back as `s`, wherever they start a buffer.
pub proof fn lemma_string_round_trip(s: Seq<char>, rest: Seq<u8>)
    requires
        encode_utf8(s).len() <= u32::MAX,
    ensures
        starts_with_string(string_bytes(s) + rest),
        leading_string(string_bytes(s) + rest) == s,
        announced_len(string_bytes(s) + rest) == encode_utf8(s).len(),
{
    let e = encode_utf8(s);
    let v = string_bytes(s) + rest;
    lemma_le_bytes_len(e.len(), 4);
    lemma_pow256_eight();
    lemma_le_round_trip(e.len(), 4);
    assert(v.subrange(0, 4) =~= le_bytes(e.len(), 4));
    assert(v.subrange(4, 4 + e.len() as int) =~= e);
    encode_utf8_valid_utf8(s);
    encode_utf8_decode_utf8(s);
}

} // verus!
