//! Numbers as the serial bus carries them: one bit to a word, the highest bit first.
//!
//! Of each word only the lowest bit counts.

use vstd::prelude::*;

verus! {

/// The bit that the word `i` places behind `from` carries.
pub open spec fn bit_of(bits: Seq<u16>, from: int, i: int) -> u16 {
    bits[from + i] & 1
}

/// The number that the `count` words from `from` on spell, the highest bit first.
pub open spec fn bits_value(bits: Seq<u16>, from: int, count: nat) -> nat
    decreases count,
{
    if count == 0 {
        0
    } else {
        2 * bits_value(bits, from, (count - 1) as nat) + (bits[from + count - 1] & 1) as nat
    }
}

/// The byte that the eight words from `from` on spell.
pub open spec fn byte_at(bits: Seq<u16>, from: int) -> u8 {
    bits_value(bits, from, 8) as u8
}

/// The bytes that the words from `from` on spell, eight words to a byte, `count` bytes in all.
pub open spec fn bytes_at(bits: Seq<u16>, from: int, count: nat) -> Seq<u8> {
    Seq::new(count, |k: int| byte_at(bits, from + 8 * k))
}

/// Two to the power of `count`.
pub open spec fn two_to(count: nat) -> nat
    decreases count,
{
    if count == 0 {
        1
    } else {
        2 * two_to((count - 1) as nat)
    }
}

/// Words that have the same lowest bits spell the same number.
pub proof fn lemma_bits_value_agree(
    first: Seq<u16>,
    from: int,
    second: Seq<u16>,
    at: int,
    count: nat,
)
    requires
        forall|i: int| 0 <= i < count ==> #[trigger] bit_of(first, from, i) == bit_of(second, at, i),
    ensures
        bits_value(first, from, count) == bits_value(second, at, count),
    decreases count,
{
    if count > 0 {
        lemma_bits_value_agree(first, from, second, at, (count - 1) as nat);
        assert(bit_of(first, from, count - 1) == bit_of(second, at, count - 1));
    }
}

/// Bytes that are spelt by words with the same lowest bits are the same.
pub proof fn lemma_bytes_agree(
    first: Seq<u16>,
    from: int,
    second: Seq<u16>,
    at: int,
    count: nat,
)
    requires
        forall|i: int|
            0 <= i < 8 * count ==> #[trigger] bit_of(first, from, i) == bit_of(second, at, i),
    ensures
        bytes_at(first, from, count) == bytes_at(second, at, count),
{
    assert forall|k: int| 0 <= k < count implies #[trigger] bytes_at(first, from, count)[k]
        == bytes_at(second, at, count)[k] by {
        assert forall|i: int| 0 <= i < 8 implies #[trigger] bit_of(first, from + 8 * k, i)
            == bit_of(second, at + 8 * k, i) by {
            assert(bit_of(first, from, 8 * k + i) == bit_of(second, at, 8 * k + i));
        }
        lemma_bits_value_agree(first, from + 8 * k, second, at + 8 * k, 8);
    }
    assert(bytes_at(first, from, count) =~= bytes_at(second, at, count));
}

/// Reads the byte that the eight words from `from` on spell.
pub fn decode_byte(bits: &[u16], from: usize) -> (byte: u8)
    requires
        from + 8 <= bits@.len(),
    ensures
        byte == byte_at(bits@, from as int),
{
    let size = bits.len();
    let mut value: u16 = 0;
    let mut i: usize = 0;
    while i < 8
        invariant
            i <= 8,
            from + 8 <= size,
            size == bits@.len(),
            value == bits_value(bits@, from as int, i as nat),
            value < two_to(i as nat),
            two_to(i as nat) <= 256,
        decreases 8 - i,
    {
        let word = bits[from + i];
        let bit = word & 1;
        assert(bit == 0 || bit == 1) by (bit_vector)
            requires
                bit == word & 1,
        ;
        assert(two_to((i + 1) as nat) <= 256) by {
            reveal_with_fuel(two_to, 10);
        }
        value = value * 2 + bit;
        i += 1;
    }
    assert(two_to(8) == 256) by {
        reveal_with_fuel(two_to, 9);
    }
    value as u8
}

/// Spells `byte` with the eight words from `from` on. The other words stay as they are.
pub fn encode_byte(bits: &mut [u16], from: usize, byte: u8)
    requires
        from + 8 <= old(bits)@.len(),
    ensures
        final(bits)@.len() == old(bits)@.len(),
        byte_at(final(bits)@, from as int) == byte,
        forall|i: int|
            0 <= i < old(bits)@.len() && !(from <= i < from + 8) ==> final(bits)@[i] == old(
                bits,
            )@[i],
{
    let size = bits.len();
    let value = byte as u16;
    let mut i: usize = 0;
    assert(value >> 8u16 == 0) by (bit_vector)
        requires
            value < 256,
    ;
    while i < 8
        invariant
            i <= 8,
            value == byte,
            from + 8 <= size,
            size == bits@.len(),
            bits@.len() == old(bits)@.len(),
            bits_value(bits@, from as int, i as nat) == value >> ((8 - i) as u16),
            forall|j: int|
                0 <= j < bits@.len() && !(from <= j < from + i) ==> bits@[j] == old(bits)@[j],
        decreases 8 - i,
    {
        let shift = (7 - i) as u16;
        let bit = (value >> shift) & 1;
        let ghost previous = bits@;
        bits[from + i] = bit;
        proof {
            assert forall|j: int| 0 <= j < i implies #[trigger] bit_of(previous, from as int, j)
                == bit_of(bits@, from as int, j) by {}
            lemma_bits_value_agree(previous, from as int, bits@, from as int, i as nat);
            assert(bit & 1 == bit && 2 * (value >> ((shift + 1) as u16)) + bit == value >> shift)
                by (bit_vector)
                requires
                    bit == (value >> shift) & 1,
                    shift < 8,
                    value < 256,
            ;
        }
        i += 1;
    }
    assert(value >> 0u16 == value) by (bit_vector);
}

} // verus!
