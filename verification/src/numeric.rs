//! Integers as little-endian byte strings, and their wrapping sum.

use vstd::arithmetic::div_mod::lemma_fundamental_div_mod_converse;
use vstd::prelude::*;
use vstd::slice::{slice_subrange, slice_to_vec};

verus! {

/// 256 to the power of `width`: the number of values that `width` bytes can
/// hold.
pub open spec fn pow256(width: nat) -> nat
    decreases width,
{
    if width == 0 {
        1
    } else {
        256 * pow256((width - 1) as nat)
    }
}

/// The number that the bytes stand for, least significant byte first.
pub open spec fn le_value(bytes: Seq<u8>) -> nat
    decreases bytes.len(),
{
    if bytes.len() == 0 {
        0
    } else {
        bytes[0] as nat + 256 * le_value(bytes.drop_first())
    }
}

/// The `width` bytes that stand for `value`, least significant byte first.
/// Where `value` needs more bytes, its upper part is left out.
pub open spec fn le_bytes(value: nat, width: nat) -> Seq<u8>
    decreases width,
{
    if width == 0 {
        Seq::empty()
    } else {
        seq![(value % 256) as u8] + le_bytes(value / 256, (width - 1) as nat)
    }
}

/// The sum of two integers of `width` bytes, as `width` bytes: the sum of the
/// two numbers modulo 256 to the power of `width`. For integers in two's
/// complement this is the wrapping sum.
pub open spec fn wrapping_sum(a: Seq<u8>, b: Seq<u8>) -> Seq<u8> {
    le_bytes((le_value(a) + le_value(b)) % pow256(a.len()), a.len())
}

/// `pow256` is positive.
pub proof fn lemma_pow256_positive(width: nat)
    ensures
        pow256(width) > 0,
    decreases width,
{
    if width > 0 {
        lemma_pow256_positive((width - 1) as nat);
    }
}

/// A byte more at the upper end adds the byte times the weight of its place.
pub proof fn lemma_le_value_push(bytes: Seq<u8>, byte: u8)
    ensures
        le_value(bytes.push(byte)) == le_value(bytes) + byte as nat * pow256(bytes.len()),
    decreases bytes.len(),
{
    let longer = bytes.push(byte);
    if bytes.len() == 0 {
        assert(le_value(longer) == byte as nat + 256 * le_value(longer.drop_first()));
    } else {
        let rest = bytes.drop_first();
        assert(longer.drop_first() =~= rest.push(byte));
        lemma_le_value_push(rest, byte);
        assert(pow256(bytes.len()) == 256 * pow256(rest.len()));
        assert(256 * (byte as nat * pow256(rest.len())) == byte as nat * pow256(bytes.len()))
            by (nonlinear_arith)
            requires
                pow256(bytes.len()) == 256 * pow256(rest.len()),
        ;
        assert(256 * (le_value(rest) + byte as nat * pow256(rest.len())) == 256 * le_value(rest)
            + 256 * (byte as nat * pow256(rest.len()))) by (nonlinear_arith);
    }
}

/// Bytes stand for a number below 256 to the power of their count.
pub proof fn lemma_le_value_bound(bytes: Seq<u8>)
    ensures
        le_value(bytes) < pow256(bytes.len()),
    decreases bytes.len(),
{
    if bytes.len() > 0 {
        lemma_le_value_bound(bytes.drop_first());
    }
}

/// Bytes are the bytes of the number that they stand for.
pub proof fn lemma_le_bytes_of_le_value(bytes: Seq<u8>)
    ensures
        le_bytes(le_value(bytes), bytes.len()) == bytes,
    decreases bytes.len(),
{
    if bytes.len() > 0 {
        let rest = bytes.drop_first();
        lemma_le_bytes_of_le_value(rest);
        let value = le_value(bytes);
        assert(value % 256 == bytes[0] as nat && value / 256 == le_value(rest)) by {
            lemma_fundamental_div_mod_converse(
                value as int,
                256,
                le_value(rest) as int,
                bytes[0] as int,
            );
        }
    }
}

/// The number that `width` bytes of a value stand for is the value, where
/// the value fits.
pub proof fn lemma_le_value_of_le_bytes(value: nat, width: nat)
    requires
        value < pow256(width),
    ensures
        le_value(le_bytes(value, width)) == value,
    decreases width,
{
    if width > 0 {
        let rest = le_bytes(value / 256, (width - 1) as nat);
        assert(value / 256 < pow256((width - 1) as nat)) by (nonlinear_arith)
            requires
                value < 256 * pow256((width - 1) as nat),
        ;
        lemma_le_value_of_le_bytes(value / 256, (width - 1) as nat);
        assert(le_bytes(value, width).drop_first() =~= rest);
    }
}

/// Adds two integers of the same number of bytes, byte by byte from the
/// least significant, and drops the carry out of the last byte.
pub fn add_wrapping(a: &[u8], b: &[u8]) -> (sum: Vec<u8>)
    requires
        a@.len() == b@.len(),
    ensures
        sum@ == wrapping_sum(a@, b@),
        sum@.len() == a@.len(),
{
    let mut sum: Vec<u8> = Vec::new();
    let mut carry: u16 = 0;
    let mut i: usize = 0;
    while i < a.len()
        invariant
            a@.len() == b@.len(),
            i <= a@.len(),
            sum@.len() == i,
            carry <= 1,
            le_value(sum@) + carry as nat * pow256(i as nat) == le_value(a@.take(i as int))
                + le_value(b@.take(i as int)),
        decreases a@.len() - i,
    {
        let total: u16 = a[i] as u16 + b[i] as u16 + carry;
        let low: u8 = (total % 256) as u8;
        let high: u16 = total / 256;
        proof {
            lemma_le_value_push(sum@, low);
            lemma_le_value_push(a@.take(i as int), a@[i as int]);
            lemma_le_value_push(b@.take(i as int), b@[i as int]);
            assert(a@.take(i as int).push(a@[i as int]) =~= a@.take(i + 1));
            assert(b@.take(i as int).push(b@[i as int]) =~= b@.take(i + 1));
            let weight = pow256(i as nat);
            assert(low as nat * weight + high as nat * (256 * weight) == (a@[i as int] as nat
                + b@[i as int] as nat + carry as nat) * weight) by (nonlinear_arith)
                requires
                    low as nat + 256 * high as nat == a@[i as int] as nat + b@[i as int] as nat
                        + carry as nat,
            ;
            assert((a@[i as int] as nat + b@[i as int] as nat + carry as nat) * weight
                == a@[i as int] as nat * weight + b@[i as int] as nat * weight + carry as nat
                * weight) by (nonlinear_arith);
        }
        sum.push(low);
        carry = high;
        i += 1;
    }
    proof {
        assert(a@.take(i as int) =~= a@);
        assert(b@.take(i as int) =~= b@);
        let modulus = pow256(a@.len());
        lemma_le_value_bound(sum@);
        lemma_pow256_positive(a@.len());
        lemma_fundamental_div_mod_converse(
            (le_value(a@) + le_value(b@)) as int,
            modulus as int,
            carry as int,
            le_value(sum@) as int,
        );
        lemma_le_bytes_of_le_value(sum@);
    }
    sum
}

/// The least number of bytes that can hold `value`.
pub open spec fn minimal_len(value: nat) -> nat
    decreases value,
{
    if value == 0 {
        0
    } else {
        1 + minimal_len(value / 256)
    }
}

/// The compact form of `value`: the least number of bytes that can hold it,
/// as one byte, and then those bytes, least significant byte first.
pub open spec fn compact(value: nat) -> Seq<u8> {
    seq![minimal_len(value) as u8] + le_bytes(value, minimal_len(value))
}

/// Whether `bytes` is a compact form, minimal or not, of an integer of at
/// most `width` bytes: a count, and as many bytes as it says.
pub open spec fn is_compact(bytes: Seq<u8>, width: nat) -> bool {
    &&& bytes.len() >= 1
    &&& bytes[0] as nat == bytes.len() - 1
    &&& bytes.len() - 1 <= width
}

/// The number that a compact form stands for.
pub open spec fn compact_value(bytes: Seq<u8>) -> nat {
    le_value(bytes.skip(1))
}

/// The sum of two integers of at most `width` bytes in compact form, in
/// compact form: the sum of the two numbers modulo 256 to the power of
/// `width`.
pub open spec fn compact_sum(a: Seq<u8>, b: Seq<u8>, width: nat) -> Seq<u8> {
    compact((compact_value(a) + compact_value(b)) % pow256(width))
}

/// Bytes whose most significant byte is not zero are the least that can hold
/// their number.
pub proof fn lemma_minimal_len_of_le_value(bytes: Seq<u8>)
    requires
        bytes.len() > 0 ==> bytes.last() != 0,
    ensures
        minimal_len(le_value(bytes)) == bytes.len(),
    decreases bytes.len(),
{
    if bytes.len() > 0 {
        let rest = bytes.drop_first();
        let value = le_value(bytes);
        lemma_fundamental_div_mod_converse(
            value as int,
            256,
            le_value(rest) as int,
            bytes[0] as int,
        );
        if rest.len() > 0 {
            lemma_minimal_len_of_le_value(rest);
        }
        assert(minimal_len(value) == 1 + minimal_len(value / 256));
    }
}

/// A zero byte at the upper end does not change the number.
pub proof fn lemma_le_value_push_zero(bytes: Seq<u8>)
    ensures
        le_value(bytes.push(0)) == le_value(bytes),
{
    lemma_le_value_push(bytes, 0);
}

/// The bytes with zero bytes added at the upper end up to `width` bytes.
pub fn padded(bytes: &[u8], width: usize) -> (wide: Vec<u8>)
    requires
        bytes@.len() <= width,
    ensures
        wide@.len() == width,
        le_value(wide@) == le_value(bytes@),
{
    let mut wide = slice_to_vec(bytes);
    while wide.len() < width
        invariant
            wide@.len() <= width,
            le_value(wide@) == le_value(bytes@),
        decreases width - wide@.len(),
    {
        proof {
            lemma_le_value_push_zero(wide@);
        }
        wide.push(0);
    }
    wide
}

/// The bytes without the zero bytes at the upper end.
pub fn trimmed(bytes: Vec<u8>) -> (short: Vec<u8>)
    ensures
        short@.len() <= bytes@.len(),
        short@.len() > 0 ==> short@.last() != 0,
        le_value(short@) == le_value(bytes@),
{
    let mut short = bytes;
    while short.len() > 0 && short[short.len() - 1] == 0
        invariant
            short@.len() <= bytes@.len(),
            le_value(short@) == le_value(bytes@),
        decreases short@.len(),
    {
        proof {
            lemma_le_value_push_zero(short@.drop_last());
            assert(short@.drop_last().push(0) =~= short@);
        }
        short.pop();
    }
    short
}

/// Adds two integers of at most `width` bytes in compact form and drops what
/// goes beyond `width` bytes.
pub fn add_compact(a: &[u8], b: &[u8], width: usize) -> (sum: Vec<u8>)
    requires
        is_compact(a@, width as nat),
        is_compact(b@, width as nat),
        width <= 255,
    ensures
        sum@ == compact_sum(a@, b@, width as nat),
{
    let wide_a = padded(slice_subrange(a, 1, a.len()), width);
    let wide_b = padded(slice_subrange(b, 1, b.len()), width);
    let wide_sum = add_wrapping(wide_a.as_slice(), wide_b.as_slice());
    let short = trimmed(wide_sum);
    proof {
        let modulus = pow256(width as nat);
        let total = (compact_value(a@) + compact_value(b@)) % modulus;
        lemma_pow256_positive(width as nat);
        assert(total < modulus) by (nonlinear_arith)
            requires
                total == (compact_value(a@) + compact_value(b@)) % modulus,
                modulus > 0,
        ;
        lemma_le_value_of_le_bytes(total, width as nat);
        lemma_minimal_len_of_le_value(short@);
        lemma_le_bytes_of_le_value(short@);
    }
    let mut sum: Vec<u8> = Vec::new();
    sum.push(short.len() as u8);
    sum.extend_from_slice(short.as_slice());
    sum
}

} // verus!
