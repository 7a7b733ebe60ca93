//! The hash of a name as a signed hexadecimal number, and arithmetic on
//! digests taken as big-endian numbers.

use crate::endian::{be_value, lemma_be_value_bound, lemma_be_value_prepend, pow256};
use crate::text::{all_ascii, ascii_string, ascii_text};
use sha1::{Digest, Sha1};
use vstd::prelude::*;
use vstd::utf8::encode_utf8;

verus! {

/// The number that negates `n` among the numbers of `width` bytes:
/// `256^width - n`, and zero for zero.
pub open spec fn negated(n: nat, width: nat) -> nat {
    ((pow256(width) - n) % (pow256(width) as int)) as nat
}

/// Negates, in two's complement, the number that `bytes` spell with the
/// most significant byte first: every bit is flipped and one is added,
/// the carry out of the first byte being dropped.
pub fn two_complement(bytes: &mut Vec<u8>)
    ensures
        final(bytes)@.len() == old(bytes)@.len(),
        be_value(final(bytes)@) == negated(be_value(old(bytes)@), old(bytes)@.len()),
{
    let n = bytes.len();
    let mut carry = true;
    let mut i = n;
    proof {
        assert(bytes@.subrange(n as int, n as int) =~= Seq::<u8>::empty());
    }
    while i > 0
        invariant
            i <= n,
            n == bytes@.len(),
            n == old(bytes)@.len(),
            forall|j: int| 0 <= j < i ==> bytes@[j] == old(bytes)@[j],
            carry ==> be_value(old(bytes)@.subrange(i as int, n as int)) == 0 && be_value(
                bytes@.subrange(i as int, n as int),
            ) == 0,
            !carry ==> be_value(bytes@.subrange(i as int, n as int)) == pow256((n - i) as nat)
                - be_value(old(bytes)@.subrange(i as int, n as int)),
        decreases i,
    {
        i -= 1;
        let ghost done_old = old(bytes)@.subrange(i + 1, n as int);
        let ghost done_new = bytes@.subrange(i + 1, n as int);
        let b = bytes[i];
        let flipped = !b;
        assert(flipped == 255 - b) by (bit_vector)
            requires
                flipped == !b,
        ;
        let out = if carry {
            if flipped == 0xff {
                0
            } else {
                carry = false;
                flipped + 1
            }
        } else {
            flipped
        };
        bytes.set(i, out);
        proof {
            lemma_be_value_prepend(b, done_old);
            lemma_be_value_prepend(out, done_new);
            lemma_be_value_bound(done_old);
            assert(old(bytes)@.subrange(i as int, n as int) =~= seq![b] + done_old);
            assert(bytes@.subrange(i as int, n as int) =~= seq![out] + done_new);
            assert(pow256((n - i) as nat) == 256 * pow256((n - i - 1) as nat));
            let unit = pow256((n - i - 1) as nat);
            assert(256 * unit - (b * unit + be_value(done_old)) == (255 - b) * unit + (unit
                - be_value(done_old))) by (nonlinear_arith);
            assert((flipped + 1) * unit == flipped * unit + unit) by (nonlinear_arith);
        }
    }
    proof {
        assert(bytes@.subrange(0, n as int) =~= bytes@);
        assert(old(bytes)@.subrange(0, n as int) =~= old(bytes)@);
        lemma_be_value_bound(old(bytes)@);
        lemma_be_value_bound(bytes@);
        let m = pow256(n as nat) as int;
        let v = be_value(old(bytes)@) as int;
        if v == 0 {
            assert((m - v) % m == 0) by (nonlinear_arith)
                requires
                    v == 0,
                    m > 0,
            ;
        } else {
            assert((m - v) % m == m - v) by (nonlinear_arith)
                requires
                    0 < v < m,
            ;
        }
    }
}

/// The SHA-1 digest of `data`.
pub uninterp spec fn sha1_digest(data: Seq<u8>) -> Seq<u8>;

/// sha1's `Sha1::digest`: the SHA-1 digest of `data`, which is twenty
/// bytes long.
#[verifier::external_body]
fn sha1(data: &[u8]) -> (r: Vec<u8>)
    ensures
        r@ == sha1_digest(data@),
        r@.len() == 20,
{
    Sha1::digest(data).to_vec()
}

/// The ASCII character of a hexadecimal digit, in lower case.
pub open spec fn hex_digit(n: int) -> u8 {
    if n < 10 {
        (48 + n) as u8
    } else {
        (87 + n) as u8
    }
}

/// Bytes in hexadecimal: two digits for each byte, in lower case.
pub open spec fn hex_digits(bytes: Seq<u8>) -> Seq<u8>
    decreases bytes.len(),
{
    if bytes.len() == 0 {
        Seq::empty()
    } else {
        hex_digits(bytes.drop_last()) + seq![
            hex_digit(bytes.last() as int / 16),
            hex_digit(bytes.last() as int % 16),
        ]
    }
}

/// How many zero digits lead a run of digits.
pub open spec fn leading_zeros(digits: Seq<u8>) -> nat
    decreases digits.len(),
{
    if digits.len() == 0 || digits[0] != 48 {
        0
    } else {
        1 + leading_zeros(digits.drop_first())
    }
}

/// Whether a digest, taken as a signed number, is negative: its first bit
/// is set.
pub open spec fn is_negative(digest: Seq<u8>) -> bool {
    digest.len() > 0 && digest[0] >= 0x80
}

/// The hash text of a digest in ASCII: a minus sign where the digest is
/// negative, then the digest in hexadecimal without its leading zeros.
pub open spec fn hash_digits(digest: Seq<u8>) -> Seq<u8> {
    let digits = hex_digits(digest);
    let stripped = digits.skip(leading_zeros(digits) as int);
    if is_negative(digest) {
        seq![45u8] + stripped
    } else {
        stripped
    }
}

/// The ASCII character of the hexadecimal digit `n`.
fn hex_char(n: u8) -> (c: u8)
    requires
        n < 16,
    ensures
        c == hex_digit(n as int),
        c < 128,
{
    if n < 10 {
        48 + n
    } else {
        87 + n
    }
}

/// Hexadecimal digits are ASCII, two for each byte.
proof fn lemma_hex_digits_ascii(bytes: Seq<u8>)
    ensures
        hex_digits(bytes).len() == 2 * bytes.len(),
        all_ascii(hex_digits(bytes)),
    decreases bytes.len(),
{
    if bytes.len() > 0 {
        lemma_hex_digits_ascii(bytes.drop_last());
    }
}

/// A run of digits that starts with `k` zeros, followed by no zero, has
/// `k` leading zeros.
proof fn lemma_leading_zeros_found(digits: Seq<u8>, k: nat)
    requires
        k <= digits.len(),
        forall|i: int| 0 <= i < k ==> digits[i] == 48,
        k < digits.len() ==> digits[k as int] != 48,
    ensures
        leading_zeros(digits) == k,
    decreases digits.len(),
{
    if k > 0 {
        let tail = digits.drop_first();
        assert(digits[0] == 48);
        assert forall|i: int| 0 <= i < k - 1 implies tail[i] == 48 by {
            assert(tail[i] == digits[i + 1]);
        }
        lemma_leading_zeros_found(tail, (k - 1) as nat);
    }
}

/// The hash text of a digest: a minus sign where the digest's first bit
/// is set, then the digest in lower-case hexadecimal without its leading
/// zeros.
pub fn hash_text(digest: &[u8]) -> (r: String)
    ensures
        r@ == ascii_text(hash_digits(digest@)),
{
    let mut digits: Vec<u8> = Vec::new();
    let mut i: usize = 0;
    while i < digest.len()
        invariant
            i <= digest.len(),
            digits@ == hex_digits(digest@.take(i as int)),
        decreases digest.len() - i,
    {
        let b = digest[i];
        digits.push(hex_char(b / 16));
        digits.push(hex_char(b % 16));
        proof {
            let next = digest@.take(i + 1);
            assert(next.drop_last() =~= digest@.take(i as int));
            assert(next.last() == b);
            assert(digits@ =~= hex_digits(next));
        }
        i += 1;
    }
    proof {
        assert(digest@.take(i as int) =~= digest@);
        lemma_hex_digits_ascii(digest@);
    }
    let mut zeros: usize = 0;
    while zeros < digits.len() && digits[zeros] == 48
        invariant
            zeros <= digits.len(),
            forall|j: int| 0 <= j < zeros ==> digits@[j] == 48,
        decreases digits.len() - zeros,
    {
        zeros += 1;
    }
    proof {
        lemma_leading_zeros_found(digits@, zeros as nat);
    }
    let mut text: Vec<u8> = Vec::new();
    if digest.len() > 0 && digest[0] >= 0x80 {
        text.push(45);
    }
    let ghost sign = text@;
    let mut k: usize = zeros;
    while k < digits.len()
        invariant
            zeros <= k <= digits.len(),
            text@ == sign + digits@.subrange(zeros as int, k as int),
        decreases digits.len() - k,
    {
        text.push(digits[k]);
        assert(text@ =~= sign + digits@.subrange(zeros as int, k + 1));
        k += 1;
    }
    proof {
        assert(digits@.subrange(zeros as int, k as int) =~= digits@.skip(zeros as int));
        assert(text@ =~= hash_digits(digest@));
        assert(all_ascii(text@)) by {
            assert forall|j: int| 0 <= j < text@.len() implies #[trigger] text@[j] < 128 by {
                if j >= sign.len() {
                    assert(text@[j] == digits@[zeros + j - sign.len()]);
                }
            }
        }
    }
    ascii_string(text)
}

/// The hash of a name: the SHA-1 digest of its UTF-8 bytes as hash text.
pub fn calc_hash(name: &str) -> (r: String)
    ensures
        r@ == ascii_text(hash_digits(sha1_digest(encode_utf8(name@)))),
{
    let digest = sha1(name.as_bytes());
    hash_text(digest.as_slice())
}

} // verus!
