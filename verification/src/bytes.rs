//! Byte sequence helpers shared by the other modules.
use vstd::arithmetic::div_mod::lemma_div_denominator;
use vstd::arithmetic::power::{lemma_pow_positive, pow};
use vstd::prelude::*;

verus! {

/// The sequence `s` with the bytes from `at` on replaced by `b`.
pub open spec fn splice(s: Seq<u8>, at: int, b: Seq<u8>) -> Seq<u8> {
    Seq::new(
        s.len(),
        |i: int|
            if at <= i < at + b.len() {
                b[i - at]
            } else {
                s[i]
            },
    )
}

/// Copies all of `src` into `dst`, starting at `at`.
pub fn copy_at(dst: &mut [u8], at: usize, src: &[u8])
    requires
        at + src@.len() <= old(dst)@.len(),
    ensures
        final(dst)@ == splice(old(dst)@, at as int, src@),
{
    let ghost before = dst@;
    let n: usize = src.len();
    let room: usize = dst.len();
    let mut i: usize = 0;
    while i < n
        invariant
            n == src@.len(),
            i <= n,
            at + n <= before.len(),
            before.len() == room,
            dst@.len() == before.len(),
            dst@ =~= splice(before, at as int, src@.take(i as int)),
        decreases n - i,
    {
        dst[at + i] = src[i];
        i = i + 1;
    }
    assert(src@.take(n as int) =~= src@);
}

/// `256` to the power of `w`: how many values `w` bytes can tell apart.
pub open spec fn pow256(w: nat) -> nat
    decreases w,
{
    if w == 0 {
        1
    } else {
        256 * pow256((w - 1) as nat)
    }
}

/// The low `w` bytes of `v`, least significant first.
pub open spec fn le_bytes(v: nat, w: nat) -> Seq<u8>
    decreases w,
{
    if w == 0 {
        Seq::empty()
    } else {
        seq![(v % 256) as u8] + le_bytes(v / 256, (w - 1) as nat)
    }
}

/// The number that `b` spells, least significant byte first.
pub open spec fn le_value(b: Seq<u8>) -> nat
    decreases b.len(),
{
    if b.len() == 0 {
        0
    } else {
        b[0] as nat + 256 * le_value(b.skip(1))
    }
}

/// `le_bytes` gives as many bytes as asked for.
pub proof fn lemma_le_bytes_len(v: nat, w: nat)
    ensures
        le_bytes(v, w).len() == w,
    decreases w,
{
    if w > 0 {
        lemma_le_bytes_len(v / 256, (w - 1) as nat);
    }
}

/// A number that `w` bytes can hold is spelled by its low `w` bytes.
pub proof fn lemma_le_value_of_bytes(v: nat, w: nat)
    requires
        v < pow256(w),
    ensures
        le_bytes(v, w).len() == w,
        le_value(le_bytes(v, w)) == v,
    decreases w,
{
    lemma_le_bytes_len(v, w);
    if w > 0 {
        lemma_le_value_of_bytes(v / 256, (w - 1) as nat);
        assert(le_bytes(v, w).skip(1) =~= le_bytes(v / 256, (w - 1) as nat));
    }
}

/// Bytes spell a number that as many bytes can hold, and are that number's
/// bytes again.
pub proof fn lemma_le_bytes_of_value(b: Seq<u8>)
    ensures
        le_value(b) < pow256(b.len()),
        le_bytes(le_value(b), b.len()) == b,
    decreases b.len(),
{
    if b.len() > 0 {
        let rest = b.skip(1);
        lemma_le_bytes_of_value(rest);
        assert(le_value(b) % 256 == b[0] && le_value(b) / 256 == le_value(rest));
        assert(le_bytes(le_value(b), b.len()) =~= b);
    } else {
        assert(le_bytes(le_value(b), b.len()) =~= b);
    }
}

/// The low bytes of a number are a beginning of any longer run of them.
pub proof fn lemma_le_bytes_take(v: nat, w: nat, long: nat)
    requires
        w <= long,
    ensures
        le_bytes(v, long).take(w as int) == le_bytes(v, w),
    decreases w,
{
    lemma_le_bytes_len(v, long);
    lemma_le_bytes_len(v, w);
    if w > 0 {
        lemma_le_bytes_take(v / 256, (w - 1) as nat, (long - 1) as nat);
        lemma_le_bytes_len(v / 256, (long - 1) as nat);
        lemma_le_bytes_len(v / 256, (w - 1) as nat);
        assert forall|i: int| 0 <= i < w implies le_bytes(v, long).take(w as int)[i] == le_bytes(
            v,
            w,
        )[i] by {
            if i > 0 {
                assert(le_bytes(v / 256, (long - 1) as nat).take(w - 1)[i - 1] == le_bytes(
                    v / 256,
                    (w - 1) as nat,
                )[i - 1]);
            }
        }
        assert(le_bytes(v, long).take(w as int) =~= le_bytes(v, w));
    } else {
        assert(le_bytes(v, long).take(0) =~= le_bytes(v, 0));
    }
}

/// Zero bytes at the high end do not change the number that bytes spell.
pub proof fn lemma_le_value_zero_extend(b: Seq<u8>, long: Seq<u8>)
    requires
        b.len() <= long.len(),
        long.take(b.len() as int) == b,
        forall|i: int| b.len() <= i < long.len() ==> long[i] == 0,
    ensures
        le_value(long) == le_value(b),
    decreases long.len(),
{
    if long.len() > 0 {
        if b.len() > 0 {
            assert(long.skip(1).take(b.len() - 1) =~= b.skip(1)) by {
                assert forall|i: int| 0 <= i < b.len() - 1 implies long.skip(1).take(
                    b.len() - 1,
                )[i] == b.skip(1)[i] by {
                    assert(long.take(b.len() as int)[i + 1] == b[i + 1]);
                }
            }
            assert(long[0] == b[0]) by {
                assert(long.take(b.len() as int)[0] == b[0]);
            }
            lemma_le_value_zero_extend(b.skip(1), long.skip(1));
        } else {
            assert(long.skip(1).take(0) =~= b);
            lemma_le_value_zero_extend(b, long.skip(1));
        }
    }
}

/// Overwriting replaces exactly the bytes from `at` on, as many as there are new
/// ones, and keeps every other byte and the length.
pub proof fn law_splice_overwrites(s: Seq<u8>, at: int, b: Seq<u8>)
    requires
        0 <= at,
        at + b.len() <= s.len(),
    ensures
        splice(s, at, b) == s.take(at) + b + s.skip(at + b.len()),
{
    assert(splice(s, at, b) =~= s.take(at) + b + s.skip(at + b.len()));
}

/// `pow256` is the power of 256.
pub proof fn law_pow256_is_the_power(w: nat)
    ensures
        pow256(w) == pow(256, w),
    decreases w,
{
    reveal(pow);
    if w > 0 {
        law_pow256_is_the_power((w - 1) as nat);
    }
}

/// Byte number `i` of a number is its digit number `i` to the base 256, so the
/// lowest byte comes first.
pub proof fn law_bytes_are_digits(v: nat, w: nat, i: int)
    requires
        0 <= i < w,
    ensures
        le_bytes(v, w).len() == w,
        le_bytes(v, w)[i] == (v as int / pow(256, i as nat)) % 256,
    decreases w,
{
    reveal(pow);
    lemma_le_bytes_len(v, w);
    if i > 0 {
        law_bytes_are_digits(v / 256, (w - 1) as nat, i - 1);
        lemma_pow_positive(256, (i - 1) as nat);
        lemma_div_denominator(v as int, 256, pow(256, (i - 1) as nat));
        assert(le_bytes(v, w)[i] == le_bytes(v / 256, (w - 1) as nat)[i - 1]);
    } else {
        assert(v as int / 1 == v);
    }
}

/// No bytes spell zero, and a byte behind `b.len()` others counts as many times
/// 256 to the power of `b.len()`.
pub proof fn law_bytes_have_their_weight(b: Seq<u8>, high: u8)
    ensures
        le_value(Seq::empty()) == 0,
        le_value(b.push(high)) == le_value(b) + high * pow(256, b.len()),
    decreases b.len(),
{
    reveal(pow);
    let long = b.push(high);
    if b.len() > 0 {
        law_bytes_have_their_weight(b.skip(1), high);
        assert(long.skip(1) =~= b.skip(1).push(high));
        let weight = pow(256, (b.len() - 1) as nat);
        assert(256 * (high * weight) == high * (256 * weight)) by (nonlinear_arith);
    } else {
        assert(long.skip(1) =~= Seq::<u8>::empty());
        assert(b =~= Seq::<u8>::empty());
    }
}

/// The number that two bytes spell, and that four do.
pub proof fn law_short_numbers(a: u8, b: u8, c: u8, d: u8)
    ensures
        le_value(seq![a]) == a,
        le_value(seq![a, b]) == a + 0x100 * b,
        le_value(seq![a, b, c, d]) == a + 0x100 * b + 0x1_0000 * c + 0x100_0000 * d,
{
    reveal_with_fuel(le_value, 5);
    assert(seq![a].skip(1) =~= Seq::<u8>::empty());
    assert(seq![a, b].skip(1) =~= seq![b]);
    assert(seq![b].skip(1) =~= Seq::<u8>::empty());
    assert(seq![a, b, c, d].skip(1) =~= seq![b, c, d]);
    assert(seq![b, c, d].skip(1) =~= seq![c, d]);
    assert(seq![c, d].skip(1) =~= seq![d]);
    assert(seq![d].skip(1) =~= Seq::<u8>::empty());
}

/// The bytes of a `u32`, least significant first.
pub fn u32_le(v: u32) -> (r: [u8; 4])
    ensures
        r@ == le_bytes(v as nat, 4),
{
    let q1: u32 = v / 256;
    let q2: u32 = q1 / 256;
    let q3: u32 = q2 / 256;
    let r: [u8; 4] = [(v % 256) as u8, (q1 % 256) as u8, (q2 % 256) as u8, (q3 % 256) as u8];
    proof {
        reveal_with_fuel(le_bytes, 5);
        assert(r@ =~= le_bytes(v as nat, 4));
    }
    r
}

/// The bytes of a `u64`, least significant first.
pub fn u64_le(v: u64) -> (r: [u8; 8])
    ensures
        r@ == le_bytes(v as nat, 8),
{
    let q1: u64 = v / 256;
    let q2: u64 = q1 / 256;
    let q3: u64 = q2 / 256;
    let q4: u64 = q3 / 256;
    let q5: u64 = q4 / 256;
    let q6: u64 = q5 / 256;
    let q7: u64 = q6 / 256;
    let r: [u8; 8] = [
        (v % 256) as u8,
        (q1 % 256) as u8,
        (q2 % 256) as u8,
        (q3 % 256) as u8,
        (q4 % 256) as u8,
        (q5 % 256) as u8,
        (q6 % 256) as u8,
        (q7 % 256) as u8,
    ];
    proof {
        reveal_with_fuel(le_bytes, 9);
        assert(r@ =~= le_bytes(v as nat, 8));
    }
    r
}

/// The `u32` that four bytes spell, least significant first.
pub fn u32_from_le(b: [u8; 4]) -> (r: u32)
    ensures
        r as nat == le_value(b@),
{
    proof {
        reveal_with_fuel(le_value, 5);
        let s = b@;
        assert(s.skip(1).skip(1)[0] == s[2] && s.skip(1).skip(1).skip(1)[0] == s[3]);
    }
    b[0] as u32 + 256 * (b[1] as u32 + 256 * (b[2] as u32 + 256 * (b[3] as u32)))
}

} // verus!
