//! Variable-length integers: seven data bits per byte, least significant
//! group first, bit `0x80` set on every byte but the last.

use mc_varint::{VarInt, VarIntRead, VarIntWrite, VarLong, VarLongRead, VarLongWrite};
use vstd::prelude::*;

verus! {

/// The two's-complement image of a 32-bit signed integer, `0 ..= 2^32 - 1`.
pub open spec fn unsigned32(v: i32) -> nat {
    if v < 0 {
        (v + 0x1_0000_0000) as nat
    } else {
        v as nat
    }
}

/// The 32-bit signed integer whose two's-complement image is `u % 2^32`.
pub open spec fn signed32(u: nat) -> i32 {
    let low = u % 0x1_0000_0000;
    if low >= 0x8000_0000 {
        (low - 0x1_0000_0000) as i32
    } else {
        low as i32
    }
}

/// The two's-complement image of a 64-bit signed integer, `0 ..= 2^64 - 1`.
pub open spec fn unsigned64(v: i64) -> nat {
    if v < 0 {
        (v + 0x1_0000_0000_0000_0000) as nat
    } else {
        v as nat
    }
}

/// The 64-bit signed integer whose two's-complement image is `u % 2^64`.
pub open spec fn signed64(u: nat) -> i64 {
    let low = u % 0x1_0000_0000_0000_0000;
    if low >= 0x8000_0000_0000_0000 {
        (low - 0x1_0000_0000_0000_0000) as i64
    } else {
        low as i64
    }
}

/// The groups of `u`: its base-128 digits, least significant first, each
/// but the last with the continuation bit added.
pub open spec fn groups(u: nat) -> Seq<u8>
    decreases u,
{
    if u < 128 {
        seq![u as u8]
    } else {
        seq![(128 + u % 128) as u8] + groups(u / 128)
    }
}

/// Reads groups from the front of `bytes` up to the first byte without a
/// continuation bit, looking at no more than `limit` bytes. Gives the
/// number that the groups spell and how many bytes they took.
pub open spec fn read_groups(bytes: Seq<u8>, limit: nat) -> Option<(nat, nat)>
    decreases limit,
{
    if limit == 0 || bytes.len() == 0 {
        None
    } else if bytes[0] < 128 {
        Some((bytes[0] as nat, 1nat))
    } else {
        match read_groups(bytes.drop_first(), (limit - 1) as nat) {
            Some((v, n)) => Some((((bytes[0] - 128) + 128 * v) as nat, n + 1)),
            None => None,
        }
    }
}

/// The wire form of a 32-bit variable-length integer: one to five bytes.
pub open spec fn var_i32_bytes(v: i32) -> Seq<u8> {
    groups(unsigned32(v))
}

/// The wire form of a 64-bit variable-length integer: one to ten bytes.
pub open spec fn var_i64_bytes(v: i64) -> Seq<u8> {
    groups(unsigned64(v))
}

/// What the front of `bytes` decodes to as a 32-bit variable-length
/// integer, with the number of bytes used; `None` where the first five
/// bytes, or all of them if there are fewer, carry a continuation bit.
pub open spec fn parse_var_i32(bytes: Seq<u8>) -> Option<(i32, nat)> {
    match read_groups(bytes, 5) {
        Some((u, n)) => Some((signed32(u), n)),
        None => None,
    }
}

/// As [`parse_var_i32`], for 64 bits and up to ten bytes.
pub open spec fn parse_var_i64(bytes: Seq<u8>) -> Option<(i64, nat)> {
    match read_groups(bytes, 10) {
        Some((u, n)) => Some((signed64(u), n)),
        None => None,
    }
}

/// `128^k`.
pub open spec fn pow128(k: nat) -> nat
    decreases k,
{
    if k == 0 {
        1
    } else {
        128 * pow128((k - 1) as nat)
    }
}

/// A number below `128^k` has at most `k` groups (and at least one), and
/// reading them back gives the number and their count, whatever follows.
pub proof fn lemma_read_groups_of_groups(u: nat, k: nat, limit: nat, rest: Seq<u8>)
    requires
        1 <= k <= limit,
        u < pow128(k),
    ensures
        1 <= groups(u).len() <= k,
        read_groups(groups(u) + rest, limit) == Some((u, groups(u).len())),
    decreases k,
{
    reveal_with_fuel(pow128, 2);
    if u < 128 {
        assert((groups(u) + rest)[0] == u as u8);
    } else {
        let head = (128 + u % 128) as u8;
        let tail = groups(u / 128);
        assert(k >= 2);
        assert(u / 128 < pow128((k - 1) as nat));
        lemma_read_groups_of_groups(u / 128, (k - 1) as nat, (limit - 1) as nat, rest);
        let all = groups(u) + rest;
        assert(all[0] == head);
        assert(all.drop_first() =~= tail + rest);
        assert((head - 128) + 128 * (u / 128) == u);
    }
}

/// Every 32-bit integer survives encoding and decoding: the decoder gives
/// the integer back, and the length of its encoding, which is one to five
/// bytes, whatever bytes follow it.
pub proof fn lemma_var_i32_round_trip(v: i32, rest: Seq<u8>)
    ensures
        1 <= var_i32_bytes(v).len() <= 5,
        parse_var_i32(var_i32_bytes(v) + rest) == Some((v, var_i32_bytes(v).len())),
{
    reveal_with_fuel(pow128, 6);
    lemma_read_groups_of_groups(unsigned32(v), 5, 5, rest);
}

/// Every 64-bit integer survives encoding and decoding, with one to ten
/// bytes.
pub proof fn lemma_var_i64_round_trip(v: i64, rest: Seq<u8>)
    ensures
        1 <= var_i64_bytes(v).len() <= 10,
        parse_var_i64(var_i64_bytes(v) + rest) == Some((v, var_i64_bytes(v).len())),
{
    reveal_with_fuel(pow128, 11);
    lemma_read_groups_of_groups(unsigned64(v), 10, 10, rest);
}

/// A successful read used between one byte and `limit` bytes, all of them
/// present, and does not depend on what follows them.
pub proof fn lemma_read_groups_bounds(bytes: Seq<u8>, limit: nat)
    ensures
        match read_groups(bytes, limit) {
            Some((u, n)) => 1 <= n <= limit && n <= bytes.len() && u < pow128(n)
                && read_groups(bytes.take(n as int), limit) == Some((u, n)),
            None => true,
        },
    decreases limit,
{
    reveal_with_fuel(pow128, 2);
    if limit == 0 || bytes.len() == 0 {
    } else if bytes[0] < 128 {
        assert(bytes.take(1)[0] == bytes[0]);
    } else {
        lemma_read_groups_bounds(bytes.drop_first(), (limit - 1) as nat);
        match read_groups(bytes.drop_first(), (limit - 1) as nat) {
            Some((v, n)) => {
                let front = bytes.take(n as int + 1);
                assert(front[0] == bytes[0]);
                assert(front.drop_first() =~= bytes.drop_first().take(n as int));
            },
            None => {},
        }
    }
}

/// mc_varint's `VarIntWrite::write_var_int` on a `Vec<u8>`, fed by
/// `VarInt::from(i32)`: the groups of the integer's two's-complement image
/// are appended to the buffer, and nothing else changes.
#[verifier::external_body]
fn put_var_int(buf: &mut Vec<u8>, v: i32)
    ensures
        final(buf)@ == old(buf)@ + var_i32_bytes(v),
{
    buf.write_var_int(VarInt::from(v)).unwrap_or(());
}

/// mc_varint's `VarLongWrite::write_var_long` on a `Vec<u8>`, fed by
/// `VarLong::from(i64)`: as [`put_var_int`], for 64 bits.
#[verifier::external_body]
fn put_var_long(buf: &mut Vec<u8>, v: i64)
    ensures
        final(buf)@ == old(buf)@ + var_i64_bytes(v),
{
    buf.write_var_long(VarLong::from(v)).unwrap_or(());
}

/// mc_varint's `VarIntRead::read_var_int` on a cursor over `bytes`,
/// followed by `i32::from(VarInt)`: the value of the groups at the front,
/// cut to 32 bits, and the cursor's position after them; it fails where
/// none of the first five bytes ends the sequence or the bytes run out.
#[verifier::external_body]
fn take_var_int(bytes: &[u8]) -> (r: Option<(i32, usize)>)
    ensures
        match r {
            Some((v, n)) => parse_var_i32(bytes@) == Some((v, n as nat)),
            None => parse_var_i32(bytes@) is None,
        },
{
    let mut cursor = std::io::Cursor::new(bytes);
    match cursor.read_var_int() {
        Ok(v) => Some((i32::from(v), cursor.position() as usize)),
        Err(_) => None,
    }
}

/// mc_varint's `VarLongRead::read_var_long` on a cursor over `bytes`,
/// followed by `i64::from(VarLong)`: as [`take_var_int`], for 64 bits and
/// ten bytes.
#[verifier::external_body]
fn take_var_long(bytes: &[u8]) -> (r: Option<(i64, usize)>)
    ensures
        match r {
            Some((v, n)) => parse_var_i64(bytes@) == Some((v, n as nat)),
            None => parse_var_i64(bytes@) is None,
        },
{
    let mut cursor = std::io::Cursor::new(bytes);
    match cursor.read_var_long() {
        Ok(v) => Some((i64::from(v), cursor.position() as usize)),
        Err(_) => None,
    }
}

/// Appends the encoding of `v` to `buf`.
pub fn write_var_i32(buf: &mut Vec<u8>, v: i32)
    ensures
        final(buf)@ == old(buf)@ + var_i32_bytes(v),
        final(buf)@.len() == old(buf)@.len() + var_i32_bytes(v).len(),
        1 <= var_i32_bytes(v).len() <= 5,
{
    proof {
        lemma_var_i32_round_trip(v, Seq::empty());
    }
    put_var_int(buf, v);
}

/// Appends the encoding of `v` to `buf`.
pub fn write_var_i64(buf: &mut Vec<u8>, v: i64)
    ensures
        final(buf)@ == old(buf)@ + var_i64_bytes(v),
        final(buf)@.len() == old(buf)@.len() + var_i64_bytes(v).len(),
        1 <= var_i64_bytes(v).len() <= 10,
{
    proof {
        lemma_var_i64_round_trip(v, Seq::empty());
    }
    put_var_long(buf, v);
}

/// Why no variable-length integer could be read: none of the bytes looked
/// at ends the sequence, because five of them (ten for 64 bits) carry a
/// continuation bit or because the bytes end before one without it comes.
#[derive(Debug, Copy, Clone, PartialEq, Eq, Structural)]
pub struct MalformedVarInt;

/// Decodes one 32-bit variable-length integer from the front of `bytes`
/// and says how many bytes it took.
pub fn read_var_i32(bytes: &[u8]) -> (r: Result<(i32, usize), MalformedVarInt>)
    ensures
        match r {
            Ok((v, n)) => parse_var_i32(bytes@) == Some((v, n as nat)) && 1 <= n <= 5 && n
                <= bytes@.len(),
            Err(_) => parse_var_i32(bytes@) is None,
        },
{
    proof {
        lemma_read_groups_bounds(bytes@, 5);
    }
    match take_var_int(bytes) {
        Some(found) => Ok(found),
        None => Err(MalformedVarInt),
    }
}

/// Decodes one 64-bit variable-length integer from the front of `bytes`
/// and says how many bytes it took.
pub fn read_var_i64(bytes: &[u8]) -> (r: Result<(i64, usize), MalformedVarInt>)
    ensures
        match r {
            Ok((v, n)) => parse_var_i64(bytes@) == Some((v, n as nat)) && 1 <= n <= 10 && n
                <= bytes@.len(),
            Err(_) => parse_var_i64(bytes@) is None,
        },
{
    proof {
        lemma_read_groups_bounds(bytes@, 10);
    }
    match take_var_long(bytes) {
        Some(found) => Ok(found),
        None => Err(MalformedVarInt),
    }
}

} // verus!
