//! Fixed-width integers in network byte order.

use byteorder::{BigEndian, ByteOrder};
use vstd::prelude::*;

verus! {

/// `256^k`.
pub open spec fn pow256(k: nat) -> nat
    decreases k,
{
    if k == 0 {
        1
    } else {
        256 * pow256((k - 1) as nat)
    }
}

/// The number that `bytes` spell, most significant byte first.
pub open spec fn be_value(bytes: Seq<u8>) -> nat
    decreases bytes.len(),
{
    if bytes.len() == 0 {
        0
    } else {
        256 * be_value(bytes.drop_last()) + bytes.last() as nat
    }
}

/// The `width` low base-256 digits of `n`, most significant first.
pub open spec fn be_bytes(n: nat, width: nat) -> Seq<u8>
    decreases width,
{
    if width == 0 {
        Seq::empty()
    } else {
        be_bytes(n / 256, (width - 1) as nat).push((n % 256) as u8)
    }
}

/// The two's-complement image of `v` among `modulus` values.
pub open spec fn to_unsigned(v: int, modulus: int) -> int {
    if v < 0 {
        v + modulus
    } else {
        v
    }
}

/// The signed number whose two's-complement image among `modulus` values
/// is `u`.
pub open spec fn to_signed(u: int, modulus: int) -> int {
    if 2 * u >= modulus {
        u - modulus
    } else {
        u
    }
}

pub proof fn lemma_be_bytes_len(n: nat, width: nat)
    ensures
        be_bytes(n, width).len() == width,
    decreases width,
{
    if width > 0 {
        lemma_be_bytes_len(n / 256, (width - 1) as nat);
    }
}

/// Bytes spell a number below `256^len`.
pub proof fn lemma_be_value_bound(bytes: Seq<u8>)
    ensures
        be_value(bytes) < pow256(bytes.len()),
    decreases bytes.len(),
{
    if bytes.len() > 0 {
        lemma_be_value_bound(bytes.drop_last());
    }
}

/// The digits of a number that fits spell that number.
pub proof fn lemma_be_value_of_bytes(n: nat, width: nat)
    requires
        n < pow256(width),
    ensures
        be_value(be_bytes(n, width)) == n,
    decreases width,
{
    if width > 0 {
        let front = be_bytes(n / 256, (width - 1) as nat);
        lemma_be_value_of_bytes(n / 256, (width - 1) as nat);
        assert(be_bytes(n, width).drop_last() =~= front);
    }
}

/// Bytes are the digits of the number they spell.
pub proof fn lemma_be_bytes_of_value(bytes: Seq<u8>)
    ensures
        be_bytes(be_value(bytes), bytes.len()) == bytes,
    decreases bytes.len(),
{
    if bytes.len() > 0 {
        let front = bytes.drop_last();
        lemma_be_bytes_of_value(front);
        let n = be_value(bytes);
        assert(n / 256 == be_value(front));
        assert(n % 256 == bytes.last());
        assert(be_bytes(n, bytes.len()) =~= bytes);
    }
}

/// A byte in front of a run counts for `256^len` times its value.
pub proof fn lemma_be_value_prepend(b: u8, run: Seq<u8>)
    ensures
        be_value(seq![b] + run) == b * pow256(run.len()) + be_value(run),
    decreases run.len(),
{
    let all = seq![b] + run;
    if run.len() == 0 {
        assert(all.drop_last() =~= Seq::<u8>::empty());
        assert(be_value(all.drop_last()) == 0);
        assert(all.last() == b);
        assert(be_value(all) == b);
        assert(pow256(0) == 1);
        assert(be_value(run) == 0);
    } else {
        let front = run.drop_last();
        let unit = pow256(front.len());
        assert(all.drop_last() =~= seq![b] + front);
        assert(all.last() == run.last());
        lemma_be_value_prepend(b, front);
        assert(pow256(run.len()) == 256 * unit);
        assert(b * (256 * unit) == 256 * (b * unit)) by (nonlinear_arith);
        assert(be_value(all) == 256 * (b * unit + be_value(front)) + run.last());
        assert(be_value(run) == 256 * be_value(front) + run.last());
    }
}

/// byteorder's `BigEndian::read_uint128`: the number that the first
/// `nbytes` bytes of the slice spell. It panics on the widths and lengths
/// that `requires` leaves out.
#[verifier::external_body]
fn read_uint(bytes: &[u8], nbytes: usize) -> (r: u128)
    requires
        1 <= nbytes <= 16,
        nbytes <= bytes@.len(),
    ensures
        r == be_value(bytes@.take(nbytes as int)),
{
    BigEndian::read_uint128(bytes, nbytes)
}

/// byteorder's `BigEndian::write_uint128` into a fresh buffer of `nbytes`
/// zero bytes: the `nbytes` digits of `n`. It panics where `n` does not
/// fit in `nbytes` bytes, which `requires` leaves out.
#[verifier::external_body]
fn write_uint(n: u128, nbytes: usize) -> (r: Vec<u8>)
    requires
        1 <= nbytes <= 16,
        n < pow256(nbytes as nat),
    ensures
        r@ == be_bytes(n as nat, nbytes as nat),
{
    let mut out = vec![0u8; nbytes];
    BigEndian::write_uint128(&mut out, n, nbytes);
    out
}

/// Appends `src` to `buf`.
pub fn append_bytes(buf: &mut Vec<u8>, src: &[u8])
    ensures
        final(buf)@ == old(buf)@ + src@,
{
    buf.extend_from_slice(src);
    assert(buf@ =~= old(buf)@ + src@);
}

/// Appends the `nbytes` low bytes of `n`, most significant first.
pub fn put_uint(buf: &mut Vec<u8>, n: u128, nbytes: usize)
    requires
        1 <= nbytes <= 16,
        n < pow256(nbytes as nat),
    ensures
        final(buf)@ == old(buf)@ + be_bytes(n as nat, nbytes as nat),
{
    let digits = write_uint(n, nbytes);
    append_bytes(buf, digits.as_slice());
}

/// The number that the first `nbytes` bytes of the slice spell.
pub fn get_uint(bytes: &[u8], nbytes: usize) -> (r: u128)
    requires
        1 <= nbytes <= 16,
        nbytes <= bytes@.len(),
    ensures
        r == be_value(bytes@.take(nbytes as int)),
        r < pow256(nbytes as nat),
{
    proof {
        lemma_be_value_bound(bytes@.take(nbytes as int));
    }
    read_uint(bytes, nbytes)
}

/// Appends an unsigned 16-bit integer, most significant byte first.
pub fn put_u16(buf: &mut Vec<u8>, v: u16)
    ensures
        final(buf)@ == old(buf)@ + be_bytes(v as nat, 2),
{
    proof {
        reveal_with_fuel(pow256, 3);
    }
    put_uint(buf, v as u128, 2);
}

/// The unsigned 16-bit integer at the front of the slice.
pub fn get_u16(bytes: &[u8]) -> (r: u16)
    requires
        2 <= bytes@.len(),
    ensures
        r == be_value(bytes@.take(2)),
{
    proof {
        reveal_with_fuel(pow256, 3);
    }
    get_uint(bytes, 2) as u16
}

/// Appends a signed 16-bit integer in two's complement, most
/// significant byte first.
pub fn put_i16(buf: &mut Vec<u8>, v: i16)
    ensures
        final(buf)@ == old(buf)@ + be_bytes(to_unsigned(v as int, 0x1_0000) as nat, 2),
{
    proof {
        assert(v as u16 == to_unsigned(v as int, 0x1_0000)) by (bit_vector);
    }
    put_u16(buf, v as u16);
}

/// The signed 16-bit integer at the front of the slice.
pub fn get_i16(bytes: &[u8]) -> (r: i16)
    requires
        2 <= bytes@.len(),
    ensures
        r == to_signed(be_value(bytes@.take(2)) as int, 0x1_0000),
{
    let u = get_u16(bytes);
    assert(u as i16 == to_signed(u as int, 0x1_0000)) by (bit_vector);
    u as i16
}

/// Appends an unsigned 32-bit integer, most significant byte first.
pub fn put_u32(buf: &mut Vec<u8>, v: u32)
    ensures
        final(buf)@ == old(buf)@ + be_bytes(v as nat, 4),
{
    proof {
        reveal_with_fuel(pow256, 5);
    }
    put_uint(buf, v as u128, 4);
}

/// The unsigned 32-bit integer at the front of the slice.
pub fn get_u32(bytes: &[u8]) -> (r: u32)
    requires
        4 <= bytes@.len(),
    ensures
        r == be_value(bytes@.take(4)),
{
    proof {
        reveal_with_fuel(pow256, 5);
    }
    get_uint(bytes, 4) as u32
}

/// Appends a signed 32-bit integer in two's complement, most
/// significant byte first.
pub fn put_i32(buf: &mut Vec<u8>, v: i32)
    ensures
        final(buf)@ == old(buf)@ + be_bytes(to_unsigned(v as int, 0x1_0000_0000) as nat, 4),
{
    proof {
        assert(v as u32 == to_unsigned(v as int, 0x1_0000_0000)) by (bit_vector);
    }
    put_u32(buf, v as u32);
}

/// The signed 32-bit integer at the front of the slice.
pub fn get_i32(bytes: &[u8]) -> (r: i32)
    requires
        4 <= bytes@.len(),
    ensures
        r == to_signed(be_value(bytes@.take(4)) as int, 0x1_0000_0000),
{
    let u = get_u32(bytes);
    assert(u as i32 == to_signed(u as int, 0x1_0000_0000)) by (bit_vector);
    u as i32
}

/// Appends an unsigned 64-bit integer, most significant byte first.
pub fn put_u64(buf: &mut Vec<u8>, v: u64)
    ensures
        final(buf)@ == old(buf)@ + be_bytes(v as nat, 8),
{
    proof {
        reveal_with_fuel(pow256, 9);
    }
    put_uint(buf, v as u128, 8);
}

/// The unsigned 64-bit integer at the front of the slice.
pub fn get_u64(bytes: &[u8]) -> (r: u64)
    requires
        8 <= bytes@.len(),
    ensures
        r == be_value(bytes@.take(8)),
{
    proof {
        reveal_with_fuel(pow256, 9);
    }
    get_uint(bytes, 8) as u64
}

/// Appends a signed 64-bit integer in two's complement, most
/// significant byte first.
pub fn put_i64(buf: &mut Vec<u8>, v: i64)
    ensures
        final(buf)@ == old(buf)@ + be_bytes(
            to_unsigned(v as int, 0x1_0000_0000_0000_0000) as nat,
            8,
        ),
{
    proof {
        assert(v as u64 == to_unsigned(v as int, 0x1_0000_0000_0000_0000)) by (bit_vector);
    }
    put_u64(buf, v as u64);
}

/// The signed 64-bit integer at the front of the slice.
pub fn get_i64(bytes: &[u8]) -> (r: i64)
    requires
        8 <= bytes@.len(),
    ensures
        r == to_signed(be_value(bytes@.take(8)) as int, 0x1_0000_0000_0000_0000),
{
    let u = get_u64(bytes);
    assert(u as i64 == to_signed(u as int, 0x1_0000_0000_0000_0000)) by (bit_vector);
    u as i64
}

/// Appends an unsigned 128-bit integer, most significant byte first.
pub fn put_u128(buf: &mut Vec<u8>, v: u128)
    ensures
        final(buf)@ == old(buf)@ + be_bytes(v as nat, 16),
{
    proof {
        reveal_with_fuel(pow256, 17);
    }
    put_uint(buf, v, 16);
}

/// The unsigned 128-bit integer at the front of the slice.
pub fn get_u128(bytes: &[u8]) -> (r: u128)
    requires
        16 <= bytes@.len(),
    ensures
        r == be_value(bytes@.take(16)),
{
    proof {
        reveal_with_fuel(pow256, 17);
    }
    get_uint(bytes, 16)
}

/// Appends a signed 128-bit integer in two's complement, most
/// significant byte first.
pub fn put_i128(buf: &mut Vec<u8>, v: i128)
    ensures
        final(buf)@ == old(buf)@ + be_bytes(
            to_unsigned(v as int, 0x1_0000_0000_0000_0000_0000_0000_0000_0000int) as nat,
            16,
        ),
{
    proof {
        assert(v as u128 == to_unsigned(v as int, 0x1_0000_0000_0000_0000_0000_0000_0000_0000int))
            by (bit_vector);
    }
    put_u128(buf, v as u128);
}

/// The signed 128-bit integer at the front of the slice.
pub fn get_i128(bytes: &[u8]) -> (r: i128)
    requires
        16 <= bytes@.len(),
    ensures
        r == to_signed(
            be_value(bytes@.take(16)) as int,
            0x1_0000_0000_0000_0000_0000_0000_0000_0000int,
        ),
{
    let u = get_u128(bytes);
    assert(u as i128 == to_signed(u as int, 0x1_0000_0000_0000_0000_0000_0000_0000_0000int))
        by (bit_vector);
    u as i128
}

/// A signed number survives the passage through its two's-complement
/// image.
pub proof fn lemma_signed_round_trip(v: int, modulus: int)
    requires
        modulus > 0,
        modulus % 2 == 0,
        -modulus <= 2 * v < modulus,
    ensures
        0 <= to_unsigned(v, modulus) < modulus,
        to_signed(to_unsigned(v, modulus), modulus) == v,
{
}

} // verus!
