//! Bit order on the SPI lines.
//!
//! The NAND controller takes and gives the least significant bit of each byte
//! first, while the state machines shift the most significant bit first. So the
//! bits of every byte that goes out or came in are put in the opposite order.
use vstd::prelude::*;

verus! {

/// The byte with its bits in the opposite order.
pub open spec fn mirrored(b: u8) -> u8 {
    ((b & 0x01) << 7) | ((b & 0x02) << 5) | ((b & 0x04) << 3) | ((b & 0x08) << 1) | ((b & 0x10)
        >> 1) | ((b & 0x20) >> 3) | ((b & 0x40) >> 5) | ((b & 0x80) >> 7)
}

/// The bytes, each with its bits in the opposite order.
pub open spec fn swapped(s: Seq<u8>) -> Seq<u8> {
    s.map_values(|b: u8| mirrored(b))
}

/// The byte with its bits in the opposite order.
fn mirror(b: u8) -> (r: u8)
    ensures
        r == mirrored(b),
{
    let halves: u8 = (b >> 4) | (b << 4);
    let pairs: u8 = ((halves & 0xcc) >> 2) | ((halves & 0x33) << 2);
    let bits: u8 = ((pairs & 0xaa) >> 1) | ((pairs & 0x55) << 1);
    assert(bits == mirrored(b)) by (bit_vector)
        requires
            halves == (b >> 4) | (b << 4),
            pairs == ((halves & 0xcc) >> 2) | ((halves & 0x33) << 2),
            bits == ((pairs & 0xaa) >> 1) | ((pairs & 0x55) << 1),
    ;
    bits
}

/// Puts the bits of every byte in the opposite order.
pub fn byte_swap(data: &mut [u8])
    ensures
        final(data)@ == swapped(old(data)@),
{
    let n: usize = data.len();
    let mut i: usize = 0;
    while i < n
        invariant
            n == old(data)@.len(),
            i <= n,
            data@ =~= Seq::new(
                n as nat,
                |j: int|
                    if j < i {
                        mirrored(old(data)@[j])
                    } else {
                        old(data)@[j]
                    },
            ),
        decreases n - i,
    {
        data[i] = mirror(data[i]);
        i = i + 1;
    }
    assert(data@ =~= swapped(old(data)@));
}

/// Bit `i` of a mirrored byte is bit `7 - i` of the byte.
pub proof fn law_bits_trade_places(b: u8, i: u8)
    requires
        i < 8,
    ensures
        (mirrored(b) >> i) & 1 == (b >> ((7 - i) as u8)) & 1,
{
    assert((mirrored(b) >> i) & 1 == (b >> ((7 - i) as u8)) & 1) by (bit_vector)
        requires
            i < 8,
    ;
}

/// Swapping twice changes nothing.
pub proof fn law_swap_undoes_itself(s: Seq<u8>)
    ensures
        swapped(swapped(s)) == s,
{
    assert forall|b: u8| mirrored(#[trigger] mirrored(b)) == b by {
        assert(mirrored(mirrored(b)) == b) by (bit_vector);
    }
    assert(swapped(swapped(s)) =~= s);
}

/// Every byte of a swapped sequence is the byte at its place with its bits in the
/// opposite order: bit `bit` comes from bit `7 - bit`.
pub proof fn law_swap_mirrors_every_byte(s: Seq<u8>, i: int, bit: u8)
    requires
        0 <= i < s.len(),
        bit < 8,
    ensures
        swapped(s).len() == s.len(),
        (swapped(s)[i] >> bit) & 1 == (s[i] >> ((7 - bit) as u8)) & 1,
{
    law_bits_trade_places(s[i], bit);
}

} // verus!
