//! Little-endian integers: what their bytes are, and how they are written and read back.

use byteorder::{LittleEndian, WriteBytesExt};
use vstd::arithmetic::div_mod;
use vstd::arithmetic::power;
use vstd::prelude::*;

verus! {

/// The `n` low bytes of `v`, the least significant first.
pub open spec fn le_bytes(v: nat, n: nat) -> Seq<u8>
    decreases n,
{
    if n == 0 {
        Seq::empty()
    } else {
        seq![(v % 256) as u8] + le_bytes(v / 256, (n - 1) as nat)
    }
}

/// The number whose bytes, the least significant first, are `s`.
pub open spec fn le_value(s: Seq<u8>) -> nat
    decreases s.len(),
{
    if s.len() == 0 {
        0
    } else {
        (s[0] as nat) + 256 * le_value(s.drop_first())
    }
}

/// How many values `n` bytes can hold.
pub open spec fn byte_range(n: nat) -> nat
    decreases n,
{
    if n == 0 {
        1
    } else {
        256 * byte_range((n - 1) as nat)
    }
}

/// The unsigned number with the same `n` bytes as the signed number `v` in two's complement.
pub open spec fn twos_complement(v: int, n: nat) -> nat {
    (v % (byte_range(n) as int)) as nat
}

/// `n` bytes are written for an `n`-byte integer.
pub proof fn lemma_le_bytes_len(v: nat, n: nat)
    ensures
        le_bytes(v, n).len() == n,
    decreases n,
{
    if n > 0 {
        lemma_le_bytes_len(v / 256, (n - 1) as nat);
    }
}

/// Reading back the bytes of an integer that fits gives that integer.
pub proof fn law_le_read_after_write(v: nat, n: nat)
    requires
        v < byte_range(n),
    ensures
        le_value(le_bytes(v, n)) == v,
    decreases n,
{
    if n > 0 {
        let b = le_bytes(v, n);
        law_le_read_after_write(v / 256, (n - 1) as nat);
        assert(b.drop_first() =~= le_bytes(v / 256, (n - 1) as nat));
    }
}

/// The sizes that the format uses.
pub proof fn lemma_byte_ranges()
    ensures
        byte_range(1) == 0x100,
        byte_range(2) == 0x1_0000,
        byte_range(4) == 0x1_0000_0000,
        byte_range(8) == 0x1_0000_0000_0000_0000,
{
    reveal_with_fuel(byte_range, 9);
}

/// The bytes of a number are its digits to the base 256, the lowest first.
pub proof fn law_bytes_are_digits(v: nat, n: nat, i: int)
    requires
        0 <= i < n,
    ensures
        le_bytes(v, n).len() == n,
        le_bytes(v, n)[i] == (v as int / power::pow(256, i as nat)) % 256,
    decreases n,
{
    lemma_le_bytes_len(v, n);
    if i == 0 {
        power::lemma_pow0(256);
    } else {
        let m = (n - 1) as nat;
        let p = power::pow(256, (i - 1) as nat);
        law_bytes_are_digits(v / 256, m, i - 1);
        lemma_le_bytes_len(v / 256, m);
        power::lemma_pow_positive(256, (i - 1) as nat);
        power::lemma_pow_adds(256, 1, (i - 1) as nat);
        power::lemma_pow1(256);
        div_mod::lemma_div_denominator(v as int, 256, p);
        assert(le_bytes(v, n)[i] == le_bytes(v / 256, m)[i - 1]);
    }
}

/// A further byte counts for as much as all the values that the bytes before it can have.
pub proof fn law_value_of_digits(s: Seq<u8>, b: u8)
    ensures
        le_value(Seq::empty()) == 0,
        le_value(s.push(b)) == le_value(s) + b * power::pow(256, s.len()),
    decreases s.len(),
{
    if s.len() == 0 {
        power::lemma_pow0(256);
        assert(s.push(b).drop_first() =~= Seq::empty());
        assert(s =~= Seq::empty());
    } else {
        let rest = s.drop_first();
        let p = power::pow(256, rest.len());
        law_value_of_digits(rest, b);
        assert(s.push(b).drop_first() =~= rest.push(b));
        power::lemma_pow_adds(256, 1, rest.len());
        power::lemma_pow1(256);
        assert(256 * (b * p) == b * (256 * p)) by (nonlinear_arith);
    }
}

/// As many values as the digits allow for.
pub proof fn law_byte_range(n: nat)
    ensures
        byte_range(n) == power::pow(256, n),
    decreases n,
{
    if n == 0 {
        power::lemma_pow0(256);
    } else {
        law_byte_range((n - 1) as nat);
        power::lemma_pow_adds(256, 1, (n - 1) as nat);
        power::lemma_pow1(256);
    }
}

/// A number that is not negative stands for itself, and a negative one for the number that is
/// larger by 256 to the number of bytes.
pub proof fn law_twos_complement(v: int, n: nat)
    requires
        -power::pow(256, n) <= 2 * v < power::pow(256, n),
    ensures
        twos_complement(v, n) == if v >= 0 {
            v
        } else {
            v + power::pow(256, n)
        },
{
    law_byte_range(n);
    power::lemma_pow_positive(256, n);
    let p = power::pow(256, n);
    if v >= 0 {
        div_mod::lemma_small_mod(v as nat, p as nat);
    } else {
        div_mod::lemma_small_mod((v + p) as nat, p as nat);
        div_mod::lemma_mod_add_multiples_vanish(v, p);
    }
}

/// `byteorder`'s `WriteBytesExt::write_u8`: appends the byte itself. Writing to a `Vec` cannot
/// fail.
#[verifier::external_body]
pub(crate) fn put_u8(out: &mut Vec<u8>, v: u8)
    ensures
        final(out)@ == old(out)@ + le_bytes(v as nat, 1),
{
    out.write_u8(v).unwrap()
}

/// `byteorder`'s `WriteBytesExt::write_i8`: appends the two's complement byte. Writing to a
/// `Vec` cannot fail.
#[verifier::external_body]
pub(crate) fn put_i8(out: &mut Vec<u8>, v: i8)
    ensures
        final(out)@ == old(out)@ + le_bytes(twos_complement(v as int, 1), 1),
{
    out.write_i8(v).unwrap()
}

/// `byteorder`'s `WriteBytesExt::write_u16` in little-endian order: appends the two bytes of
/// `v`, the low one first. Writing to a `Vec` cannot fail.
#[verifier::external_body]
pub(crate) fn put_u16(out: &mut Vec<u8>, v: u16)
    ensures
        final(out)@ == old(out)@ + le_bytes(v as nat, 2),
{
    out.write_u16::<LittleEndian>(v).unwrap()
}

/// `byteorder`'s `WriteBytesExt::write_i16` in little-endian order: appends the two bytes of
/// `v` in two's complement, the low one first. Writing to a `Vec` cannot fail.
#[verifier::external_body]
pub(crate) fn put_i16(out: &mut Vec<u8>, v: i16)
    ensures
        final(out)@ == old(out)@ + le_bytes(twos_complement(v as int, 2), 2),
{
    out.write_i16::<LittleEndian>(v).unwrap()
}

/// `byteorder`'s `WriteBytesExt::write_u32` in little-endian order: appends the four bytes of
/// `v`, the low one first. Writing to a `Vec` cannot fail.
#[verifier::external_body]
pub(crate) fn put_u32(out: &mut Vec<u8>, v: u32)
    ensures
        final(out)@ == old(out)@ + le_bytes(v as nat, 4),
{
    out.write_u32::<LittleEndian>(v).unwrap()
}

/// `byteorder`'s `WriteBytesExt::write_i32` in little-endian order: appends the four bytes of
/// `v` in two's complement, the low one first. Writing to a `Vec` cannot fail.
#[verifier::external_body]
pub(crate) fn put_i32(out: &mut Vec<u8>, v: i32)
    ensures
        final(out)@ == old(out)@ + le_bytes(twos_complement(v as int, 4), 4),
{
    out.write_i32::<LittleEndian>(v).unwrap()
}

/// `byteorder`'s `WriteBytesExt::write_u64` in little-endian order: appends the eight bytes of
/// `v`, the low one first. Writing to a `Vec` cannot fail.
#[verifier::external_body]
pub(crate) fn put_u64(out: &mut Vec<u8>, v: u64)
    ensures
        final(out)@ == old(out)@ + le_bytes(v as nat, 8),
{
    out.write_u64::<LittleEndian>(v).unwrap()
}

/// `byteorder`'s `WriteBytesExt::write_i64` in little-endian order: appends the eight bytes of
/// `v` in two's complement, the low one first. Writing to a `Vec` cannot fail.
#[verifier::external_body]
pub(crate) fn put_i64(out: &mut Vec<u8>, v: i64)
    ensures
        final(out)@ == old(out)@ + le_bytes(twos_complement(v as int, 8), 8),
{
    out.write_i64::<LittleEndian>(v).unwrap()
}

/// The number that eight bytes stand for.
pub fn get_u64(bytes: &[u8]) -> (r: u64)
    requires
        bytes@.len() == 8,
    ensures
        r == le_value(bytes@),
{
    let mut value: u64 = 0;
    let mut i: usize = 8;
    proof {
        lemma_byte_ranges();
        reveal_with_fuel(byte_range, 9);
    }
    while i > 0
        invariant
            i <= 8,
            bytes@.len() == 8,
            value == le_value(bytes@.skip(i as int)),
            value < byte_range((8 - i) as nat),
            byte_range(8) == 0x1_0000_0000_0000_0000,
        decreases i,
    {
        let ghost rest = bytes@.skip(i as int);
        proof {
            assert(bytes@.skip(i - 1)[0] == bytes@[i - 1]);
            assert(bytes@.skip(i - 1).drop_first() =~= rest);
            reveal_with_fuel(byte_range, 9);
        }
        i = i - 1;
        value = value * 256 + bytes[i] as u64;
    }
    assert(bytes@.skip(0) =~= bytes@);
    value
}

} // verus!
