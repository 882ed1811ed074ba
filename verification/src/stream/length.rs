//! The unsigned integers that can announce the length of a frame.
use vstd::arithmetic::div_mod::lemma_small_mod;
use vstd::prelude::*;

use crate::bytes::{
    copy_at, le_bytes, le_value, lemma_le_bytes_of_value, lemma_le_bytes_take,
    lemma_le_value_zero_extend, pow256,
};

verus! {

/// Room for the widest length field.
pub const MAX_LENGTH_BYTES: usize = 16;

/// How many values a `usize` can take.
pub open spec fn usize_range() -> nat {
    (usize::MAX + 1) as nat
}

/// An unsigned integer that stands in front of a frame, least significant byte
/// first, and says how many bytes the frame has.
pub trait FrameLength: Copy {
    /// How many bytes the integer takes.
    spec fn width() -> nat;

    /// The number itself.
    spec fn value(self) -> nat;

    /// The integer takes some bytes, and no more than the widest length field.
    proof fn lemma_width()
        ensures
            0 < Self::width() <= MAX_LENGTH_BYTES,
    ;

    /// The number is one that its bytes can spell.
    proof fn lemma_value_fits(self)
        ensures
            self.value() < pow256(Self::width()),
    ;

    /// How many bytes the integer takes.
    fn byte_count() -> (r: usize)
        ensures
            r == Self::width(),
            0 < r <= MAX_LENGTH_BYTES,
    ;

    /// The integer for `n`, without the bits that it has no room for.
    fn from_usize(n: usize) -> (r: Self)
        ensures
            r.value() == (n as nat) % pow256(Self::width()),
    ;

    /// The number as a `usize`, without the bits that a `usize` has no room for.
    fn to_usize(self) -> (r: usize)
        ensures
            r as nat == self.value() % usize_range(),
    ;

    /// Whether the number is greater than that of `limit`.
    fn exceeds(self, limit: Self) -> (r: bool)
        ensures
            r <==> self.value() > limit.value(),
    ;

    /// The bytes of the number at the front of a buffer.
    fn to_le_bytes(self) -> (r: [u8; 16])
        ensures
            r@.take(Self::width() as int) == le_bytes(self.value(), Self::width()),
    ;

    /// The number that the bytes at the front of a buffer spell.
    fn from_le_bytes(bytes: &[u8; 16]) -> (r: Self)
        ensures
            r.value() == le_value(bytes@.take(Self::width() as int)),
    ;
}

/// The powers of 256 that the integers here reach.
proof fn lemma_pow256_widths()
    ensures
        pow256(1) == 0x100,
        pow256(2) == 0x1_0000,
        pow256(4) == 0x1_0000_0000,
        pow256(8) == 0x1_0000_0000_0000_0000,
        pow256(16) == 0x1_0000_0000_0000_0000_0000_0000_0000_0000,
{
    reveal_with_fuel(pow256, 17);
}

/// How wide each length field is, and that an integer announces itself.
pub proof fn law_length_fields(a: u8, b: u16, c: u32, d: u64, e: u128, f: usize)
    ensures
        <u8 as FrameLength>::width() == 1 && a.value() == a,
        <u16 as FrameLength>::width() == 2 && b.value() == b,
        <u32 as FrameLength>::width() == 4 && c.value() == c,
        <u64 as FrameLength>::width() == 8 && d.value() == d,
        <u128 as FrameLength>::width() == 16 && e.value() == e,
        <usize as FrameLength>::width() * 8 == usize::BITS && f.value() == f,
        usize_range() == usize::MAX + 1,
{
}

/// `num`'s `ToBytes::to_le_bytes` on a `u8`: the bytes of the number, least
/// significant first.
#[verifier::external_body]
fn u8_to_le_bytes(v: u8) -> (r: [u8; 1])
    ensures
        r@ == le_bytes(v as nat, 1),
{
    num::traits::ToBytes::to_le_bytes(&v)
}

/// `num`'s `FromBytes::from_le_bytes` for a `u8`: the number that the bytes
/// spell, least significant first.
#[verifier::external_body]
fn u8_from_le_bytes(b: &[u8; 1]) -> (r: u8)
    ensures
        r as nat == le_value(b@),
{
    num::traits::FromBytes::from_le_bytes(b)
}

impl FrameLength for u8 {
    open spec fn width() -> nat {
        1
    }

    open spec fn value(self) -> nat {
        self as nat
    }

    proof fn lemma_width() {
    }

    proof fn lemma_value_fits(self) {
        lemma_pow256_widths();
    }

    fn byte_count() -> (r: usize) {
        1
    }

    fn from_usize(n: usize) -> (r: Self) {
        proof {
            lemma_pow256_widths();
        }
        assert((n as u8) == n % 0x100) by (bit_vector);
        n as u8
    }

    fn to_usize(self) -> (r: usize) {
        proof {
            lemma_small_mod(self as nat, usize_range());
        }
        self as usize
    }

    fn exceeds(self, limit: Self) -> (r: bool) {
        self > limit
    }

    fn to_le_bytes(self) -> (r: [u8; 16]) {
        let bytes: [u8; 1] = u8_to_le_bytes(self);
        let mut r: [u8; 16] = [0; 16];
        copy_at(&mut r, 0, &bytes);
        assert(r@.take(1) =~= bytes@);
        r
    }

    fn from_le_bytes(bytes: &[u8; 16]) -> (r: Self) {
        let mut b: [u8; 1] = [0; 1];
        copy_at(&mut b, 0, vstd::slice::slice_subrange(bytes, 0, 1));
        assert(b@ =~= bytes@.take(1));
        u8_from_le_bytes(&b)
    }
}

/// `num`'s `ToBytes::to_le_bytes` on a `u16`: the bytes of the number, least
/// significant first.
#[verifier::external_body]
fn u16_to_le_bytes(v: u16) -> (r: [u8; 2])
    ensures
        r@ == le_bytes(v as nat, 2),
{
    num::traits::ToBytes::to_le_bytes(&v)
}

/// `num`'s `FromBytes::from_le_bytes` for a `u16`: the number that the bytes
/// spell, least significant first.
#[verifier::external_body]
fn u16_from_le_bytes(b: &[u8; 2]) -> (r: u16)
    ensures
        r as nat == le_value(b@),
{
    num::traits::FromBytes::from_le_bytes(b)
}

impl FrameLength for u16 {
    open spec fn width() -> nat {
        2
    }

    open spec fn value(self) -> nat {
        self as nat
    }

    proof fn lemma_width() {
    }

    proof fn lemma_value_fits(self) {
        lemma_pow256_widths();
    }

    fn byte_count() -> (r: usize) {
        2
    }

    fn from_usize(n: usize) -> (r: Self) {
        proof {
            lemma_pow256_widths();
        }
        assert((n as u16) == n % 0x1_0000) by (bit_vector);
        n as u16
    }

    fn to_usize(self) -> (r: usize) {
        proof {
            lemma_small_mod(self as nat, usize_range());
        }
        self as usize
    }

    fn exceeds(self, limit: Self) -> (r: bool) {
        self > limit
    }

    fn to_le_bytes(self) -> (r: [u8; 16]) {
        let bytes: [u8; 2] = u16_to_le_bytes(self);
        let mut r: [u8; 16] = [0; 16];
        copy_at(&mut r, 0, &bytes);
        assert(r@.take(2) =~= bytes@);
        r
    }

    fn from_le_bytes(bytes: &[u8; 16]) -> (r: Self) {
        let mut b: [u8; 2] = [0; 2];
        copy_at(&mut b, 0, vstd::slice::slice_subrange(bytes, 0, 2));
        assert(b@ =~= bytes@.take(2));
        u16_from_le_bytes(&b)
    }
}

/// `num`'s `ToBytes::to_le_bytes` on a `u32`: the bytes of the number, least
/// significant first.
#[verifier::external_body]
fn u32_to_le_bytes(v: u32) -> (r: [u8; 4])
    ensures
        r@ == le_bytes(v as nat, 4),
{
    num::traits::ToBytes::to_le_bytes(&v)
}

/// `num`'s `FromBytes::from_le_bytes` for a `u32`: the number that the bytes
/// spell, least significant first.
#[verifier::external_body]
fn u32_from_le_bytes(b: &[u8; 4]) -> (r: u32)
    ensures
        r as nat == le_value(b@),
{
    num::traits::FromBytes::from_le_bytes(b)
}

impl FrameLength for u32 {
    open spec fn width() -> nat {
        4
    }

    open spec fn value(self) -> nat {
        self as nat
    }

    proof fn lemma_width() {
    }

    proof fn lemma_value_fits(self) {
        lemma_pow256_widths();
    }

    fn byte_count() -> (r: usize) {
        4
    }

    fn from_usize(n: usize) -> (r: Self) {
        proof {
            lemma_pow256_widths();
        }
        assert((n as u32) == n as u64 % 0x1_0000_0000) by (bit_vector);
        n as u32
    }

    fn to_usize(self) -> (r: usize) {
        proof {
            lemma_small_mod(self as nat, usize_range());
        }
        self as usize
    }

    fn exceeds(self, limit: Self) -> (r: bool) {
        self > limit
    }

    fn to_le_bytes(self) -> (r: [u8; 16]) {
        let bytes: [u8; 4] = u32_to_le_bytes(self);
        let mut r: [u8; 16] = [0; 16];
        copy_at(&mut r, 0, &bytes);
        assert(r@.take(4) =~= bytes@);
        r
    }

    fn from_le_bytes(bytes: &[u8; 16]) -> (r: Self) {
        let mut b: [u8; 4] = [0; 4];
        copy_at(&mut b, 0, vstd::slice::slice_subrange(bytes, 0, 4));
        assert(b@ =~= bytes@.take(4));
        u32_from_le_bytes(&b)
    }
}

/// `num`'s `ToBytes::to_le_bytes` on a `u64`: the bytes of the number, least
/// significant first.
#[verifier::external_body]
fn u64_to_le_bytes(v: u64) -> (r: [u8; 8])
    ensures
        r@ == le_bytes(v as nat, 8),
{
    num::traits::ToBytes::to_le_bytes(&v)
}

/// `num`'s `FromBytes::from_le_bytes` for a `u64`: the number that the bytes
/// spell, least significant first.
#[verifier::external_body]
fn u64_from_le_bytes(b: &[u8; 8]) -> (r: u64)
    ensures
        r as nat == le_value(b@),
{
    num::traits::FromBytes::from_le_bytes(b)
}

impl FrameLength for u64 {
    open spec fn width() -> nat {
        8
    }

    open spec fn value(self) -> nat {
        self as nat
    }

    proof fn lemma_width() {
    }

    proof fn lemma_value_fits(self) {
        lemma_pow256_widths();
    }

    fn byte_count() -> (r: usize) {
        8
    }

    fn from_usize(n: usize) -> (r: Self) {
        proof {
            lemma_pow256_widths();
            lemma_small_mod(n as nat, pow256(8));
        }
        n as u64
    }

    fn to_usize(self) -> (r: usize) {
        assert(usize::BITS == 32 ==> (self as usize) == self % 0x1_0000_0000) by (bit_vector);
        assert(usize::BITS == 64 ==> (self as usize) == self) by (bit_vector);
        proof {
            if usize::BITS == 64 {
                lemma_small_mod(self as nat, usize_range());
            }
        }
        self as usize
    }

    fn exceeds(self, limit: Self) -> (r: bool) {
        self > limit
    }

    fn to_le_bytes(self) -> (r: [u8; 16]) {
        let bytes: [u8; 8] = u64_to_le_bytes(self);
        let mut r: [u8; 16] = [0; 16];
        copy_at(&mut r, 0, &bytes);
        assert(r@.take(8) =~= bytes@);
        r
    }

    fn from_le_bytes(bytes: &[u8; 16]) -> (r: Self) {
        let mut b: [u8; 8] = [0; 8];
        copy_at(&mut b, 0, vstd::slice::slice_subrange(bytes, 0, 8));
        assert(b@ =~= bytes@.take(8));
        u64_from_le_bytes(&b)
    }
}

/// `num`'s `ToBytes::to_le_bytes` on a `u128`: the bytes of the number, least
/// significant first.
#[verifier::external_body]
fn u128_to_le_bytes(v: u128) -> (r: [u8; 16])
    ensures
        r@ == le_bytes(v as nat, 16),
{
    num::traits::ToBytes::to_le_bytes(&v)
}

/// `num`'s `FromBytes::from_le_bytes` for a `u128`: the number that the bytes
/// spell, least significant first.
#[verifier::external_body]
fn u128_from_le_bytes(b: &[u8; 16]) -> (r: u128)
    ensures
        r as nat == le_value(b@),
{
    num::traits::FromBytes::from_le_bytes(b)
}

impl FrameLength for u128 {
    open spec fn width() -> nat {
        16
    }

    open spec fn value(self) -> nat {
        self as nat
    }

    proof fn lemma_width() {
    }

    proof fn lemma_value_fits(self) {
        lemma_pow256_widths();
    }

    fn byte_count() -> (r: usize) {
        16
    }

    fn from_usize(n: usize) -> (r: Self) {
        proof {
            lemma_pow256_widths();
            lemma_small_mod(n as nat, pow256(16));
        }
        n as u128
    }

    fn to_usize(self) -> (r: usize) {
        assert(usize::BITS == 32 ==> (self as usize) == self % 0x1_0000_0000) by (bit_vector);
        assert(usize::BITS == 64 ==> (self as usize) == self % 0x1_0000_0000_0000_0000)
            by (bit_vector);
        self as usize
    }

    fn exceeds(self, limit: Self) -> (r: bool) {
        self > limit
    }

    fn to_le_bytes(self) -> (r: [u8; 16]) {
        let bytes: [u8; 16] = u128_to_le_bytes(self);
        let mut r: [u8; 16] = [0; 16];
        copy_at(&mut r, 0, &bytes);
        assert(r@.take(16) =~= bytes@);
        r
    }

    fn from_le_bytes(bytes: &[u8; 16]) -> (r: Self) {
        let mut b: [u8; 16] = [0; 16];
        copy_at(&mut b, 0, vstd::slice::slice_subrange(bytes, 0, 16));
        assert(b@ =~= bytes@.take(16));
        u128_from_le_bytes(&b)
    }
}

impl FrameLength for usize {
    open spec fn width() -> nat {
        usize::BITS as nat / 8
    }

    open spec fn value(self) -> nat {
        self as nat
    }

    proof fn lemma_width() {
    }

    proof fn lemma_value_fits(self) {
        lemma_pow256_widths();
    }

    fn byte_count() -> (r: usize) {
        (usize::BITS / 8) as usize
    }

    fn from_usize(n: usize) -> (r: Self) {
        proof {
            lemma_pow256_widths();
            lemma_small_mod(n as nat, pow256(Self::width()));
        }
        n
    }

    fn to_usize(self) -> (r: usize) {
        proof {
            lemma_small_mod(self as nat, usize_range());
        }
        self
    }

    fn exceeds(self, limit: Self) -> (r: bool) {
        self > limit
    }

    fn to_le_bytes(self) -> (r: [u8; 16]) {
        let r: [u8; 16] = <u64 as FrameLength>::to_le_bytes(self as u64);
        proof {
            lemma_le_bytes_take(self as nat, Self::width(), 8);
            assert(r@.take(8).take(Self::width() as int) =~= r@.take(Self::width() as int));
        }
        r
    }

    fn from_le_bytes(bytes: &[u8; 16]) -> (r: Self) {
        let w: usize = Self::byte_count();
        let mut wide: [u8; 16] = [0; 16];
        copy_at(&mut wide, 0, vstd::slice::slice_subrange(bytes, 0, w));
        let ghost field = bytes@.take(w as int);
        proof {
            assert(wide@.take(8).take(w as int) =~= field);
            lemma_le_value_zero_extend(field, wide@.take(8));
            lemma_le_bytes_of_value(field);
            lemma_pow256_widths();
        }
        <u64 as FrameLength>::from_le_bytes(&wide) as usize
    }
}

} // verus!
