//! The frame checksum: CRC-8, most significant bit first, polynomial 0x07.
//!
//! The checksum is computed by the `crc8` crate from a lookup table. What is
//! taken on trust about that crate is how it fills the table and how it walks
//! a buffer through it; that the result is the bitwise CRC defined here is
//! proved from those two statements.

use vstd::prelude::*;

verus! {

/// The generator polynomial x^8 + x^2 + x + 1, without its leading term.
pub const POLYNOMIAL: u8 = 0x07;

/// One shift of the checksum register, most significant bit first.
pub open spec fn shift_bit(polynomial: u8, register: u8) -> u8 {
    if register & 0x80 != 0 {
        (register << 1) ^ polynomial
    } else {
        register << 1
    }
}

/// `count` shifts of the checksum register.
pub open spec fn shift_bits(polynomial: u8, register: u8, count: nat) -> u8
    decreases count,
{
    if count == 0 {
        register
    } else {
        shift_bit(polynomial, shift_bits(polynomial, register, (count - 1) as nat))
    }
}

/// The checksum register after `bytes` have been fed into `register`: each
/// byte is added to the register, which is then shifted eight times.
pub open spec fn register_after(polynomial: u8, register: u8, bytes: Seq<u8>) -> u8
    decreases bytes.len(),
{
    if bytes.len() == 0 {
        register
    } else {
        shift_bits(
            polynomial,
            register_after(polynomial, register, bytes.drop_last()) ^ bytes.last(),
            8,
        )
    }
}

/// The checksum of a frame's command and data bytes.
pub open spec fn checksum_of(bytes: Seq<u8>) -> u8 {
    register_after(POLYNOMIAL, 0, bytes)
}

/// The lookup table of the `crc8` crate.
#[verifier::external_type_specification]
#[verifier::external_body]
pub struct ExCrc8(crc8::Crc8);

/// The 256 entries of a lookup table of the `crc8` crate, in index order.
pub uninterp spec fn table_entries(table: crc8::Crc8) -> Seq<u8>;

/// Two to the power `k`.
pub open spec fn bit(k: nat) -> nat
    decreases k,
{
    if k == 0 {
        1
    } else {
        2 * bit((k - 1) as nat)
    }
}

/// The index that lies `j` entries above the power of two `bit(k)`.
pub open spec fn slot(k: nat, j: nat) -> int {
    (bit(k) + j) as int
}

/// The value that the table builder holds in round `k`: the top bit of the
/// register, shifted once per round up to and including this one.
pub open spec fn generator(polynomial: u8, k: nat) -> u8 {
    shift_bits(polynomial, 0x80, k + 1)
}

/// A table filled by doubling: entry 0 is zero, and round `k` derives the
/// entries from `bit(k)` up to twice that from the entries below `bit(k)`.
pub open spec fn is_msb_table(polynomial: u8, table: Seq<u8>) -> bool {
    &&& table.len() == 256
    &&& table[0] == 0
    &&& forall|k: nat, j: nat|
        k < 8 && j < bit(k) ==> #[trigger] table[slot(k, j)] == table[j as int] ^ generator(
            polynomial,
            k,
        )
}

/// The register after `bytes` have been looked up one by one: each byte is
/// added to the register and the sum is replaced by its table entry.
pub open spec fn table_fold(table: Seq<u8>, register: u8, bytes: Seq<u8>) -> u8
    decreases bytes.len(),
{
    if bytes.len() == 0 {
        register
    } else {
        table[(table_fold(table, register, bytes.drop_last()) ^ bytes.last()) as int]
    }
}

/// `Crc8::create_msb` of the `crc8` crate. Its loop starts from the value
/// 0x80, shifts it once at the start of each of eight rounds, and in round
/// `k` stores at every index `bit(k) + j`, for `j` below `bit(k)`, the entry
/// at `j` combined with that value. Entry 0 keeps its initial zero.
pub assume_specification[ crc8::Crc8::create_msb ](polynomial: u8) -> (table: crc8::Crc8)
    ensures
        is_msb_table(polynomial, table_entries(table)),
;

/// `Crc8::calc` of the `crc8` crate. It reads the first `length` bytes of the
/// buffer, replaces the running value by the table entry at the running value
/// combined with each byte in turn, and leaves the table as it was. It indexes
/// the buffer without a check of its own, so `length` must not exceed it.
pub assume_specification[ crc8::Crc8::calc ](
    table: &mut crc8::Crc8,
    buffer: &[u8],
    length: i32,
    crc: u8,
) -> (sum: u8)
    requires
        0 <= length <= buffer@.len(),
    ensures
        table_entries(*final(table)) == table_entries(*old(table)),
        sum == table_fold(table_entries(*old(table)), crc, buffer@.take(length as int)),
;

/// Computes the checksum of a frame's command and data bytes.
pub fn checksum(bytes: &[u8]) -> (sum: u8)
    requires
        bytes@.len() <= i32::MAX,
    ensures
        sum == checksum_of(bytes@),
{
    let mut table = crc8::Crc8::create_msb(POLYNOMIAL);
    proof {
        lemma_table_fold(POLYNOMIAL, table_entries(table), 0, bytes@);
        assert(bytes@.take(bytes@.len() as int) =~= bytes@);
    }
    table.calc(bytes, bytes.len() as i32, 0)
}

/// A sum of two registers shifts to the sum of the shifted registers.
proof fn lemma_shift_bit_linear(polynomial: u8, a: u8, b: u8)
    ensures
        shift_bit(polynomial, a ^ b) == shift_bit(polynomial, a) ^ shift_bit(polynomial, b),
{
    assert(shift_bit(polynomial, a ^ b) == shift_bit(polynomial, a) ^ shift_bit(polynomial, b))
        by (bit_vector);
}

proof fn lemma_shift_bits_linear(polynomial: u8, a: u8, b: u8, count: nat)
    ensures
        shift_bits(polynomial, a ^ b, count) == shift_bits(polynomial, a, count) ^ shift_bits(
            polynomial,
            b,
            count,
        ),
    decreases count,
{
    if count > 0 {
        let before = (count - 1) as nat;
        lemma_shift_bits_linear(polynomial, a, b, before);
        lemma_shift_bit_linear(
            polynomial,
            shift_bits(polynomial, a, before),
            shift_bits(polynomial, b, before),
        );
    }
}

/// Shifting `first + then` times is shifting `first` times and then `then` times.
proof fn lemma_shift_bits_split(polynomial: u8, register: u8, first: nat, then: nat)
    ensures
        shift_bits(polynomial, register, first + then) == shift_bits(
            polynomial,
            shift_bits(polynomial, register, first),
            then,
        ),
    decreases then,
{
    if then > 0 {
        lemma_shift_bits_split(polynomial, register, first, (then - 1) as nat);
        assert((first + then - 1) as nat == first + (then - 1) as nat);
    }
}

proof fn lemma_bit_values()
    ensures
        bit(0) == 1,
        bit(1) == 2,
        bit(2) == 4,
        bit(3) == 8,
        bit(4) == 16,
        bit(5) == 32,
        bit(6) == 64,
        bit(7) == 128,
{
    reveal_with_fuel(bit, 9);
}

/// A single set bit reaches the top of the register untouched by the polynomial.
proof fn lemma_bit_reaches_top(polynomial: u8, k: nat)
    requires
        k < 8,
    ensures
        shift_bits(polynomial, bit(k) as u8, (7 - k) as nat) == 0x80,
    decreases 7 - k,
{
    lemma_bit_values();
    if k < 7 {
        let low = bit(k) as u8;
        let high = bit(k + 1) as u8;
        assert(bit(k + 1) == 2 * bit(k));
        assert(low < 128 && high == 2 * low) by {
            if k == 0 {
            } else if k == 1 {
            } else if k == 2 {
            } else if k == 3 {
            } else if k == 4 {
            } else if k == 5 {
            } else {
            }
        }
        assert(shift_bit(polynomial, low) == high) by (bit_vector)
            requires
                low < 128,
                high == 2 * low,
        ;
        lemma_bit_reaches_top(polynomial, k + 1);
        lemma_shift_bits_split(polynomial, low, 1, (6 - k) as nat);
        assert(shift_bits(polynomial, low, 1) == shift_bit(polynomial, low)) by {
            reveal_with_fuel(shift_bits, 2);
        }
    }
}

/// The value of round `k` is what eight shifts make of the single bit `bit(k)`.
proof fn lemma_generator(polynomial: u8, k: nat)
    requires
        k < 8,
    ensures
        generator(polynomial, k) == shift_bits(polynomial, bit(k) as u8, 8),
{
    lemma_bit_reaches_top(polynomial, k);
    lemma_shift_bits_split(polynomial, bit(k) as u8, (7 - k) as nat, k + 1);
    assert((7 - k) as nat + (k + 1) == 8);
}

proof fn lemma_shift_zero(polynomial: u8, count: nat)
    ensures
        shift_bits(polynomial, 0, count) == 0,
    decreases count,
{
    if count > 0 {
        lemma_shift_zero(polynomial, (count - 1) as nat);
        assert(shift_bit(polynomial, 0) == 0) by (bit_vector);
    }
}

/// Every entry of a table filled by doubling is its index shifted eight times.
proof fn lemma_table_entry(polynomial: u8, table: Seq<u8>, index: nat)
    requires
        is_msb_table(polynomial, table),
        index < 256,
    ensures
        table[index as int] == shift_bits(polynomial, index as u8, 8),
    decreases index,
{
    lemma_bit_values();
    if index == 0 {
        lemma_shift_zero(polynomial, 8);
    } else {
        let k: nat = if index >= 128 {
            7
        } else if index >= 64 {
            6
        } else if index >= 32 {
            5
        } else if index >= 16 {
            4
        } else if index >= 8 {
            3
        } else if index >= 4 {
            2
        } else if index >= 2 {
            1
        } else {
            0
        };
        let below = (index - bit(k)) as nat;
        assert(below < bit(k));
        assert(slot(k, below) == index);
        assert(table[slot(k, below)] == table[below as int] ^ generator(polynomial, k));
        lemma_table_entry(polynomial, table, below);
        lemma_generator(polynomial, k);
        let low = below as u8;
        let top = bit(k) as u8;
        let whole = index as u8;
        lemma_shift_bits_linear(polynomial, low, top, 8);
        assert(low ^ top == whole) by (bit_vector)
            requires
                low < top,
                top == 1 || top == 2 || top == 4 || top == 8 || top == 16 || top == 32 || top == 64
                    || top == 128,
                whole == low + top,
        ;
    }
}

/// Walking bytes through a table filled by doubling computes the bitwise checksum.
proof fn lemma_table_fold(polynomial: u8, table: Seq<u8>, register: u8, bytes: Seq<u8>)
    requires
        is_msb_table(polynomial, table),
    ensures
        table_fold(table, register, bytes) == register_after(polynomial, register, bytes),
    decreases bytes.len(),
{
    if bytes.len() > 0 {
        lemma_table_fold(polynomial, table, register, bytes.drop_last());
        let sum = register_after(polynomial, register, bytes.drop_last()) ^ bytes.last();
        lemma_table_entry(polynomial, table, sum as nat);
    }
}

/// Two different registers stay different when shifted.
proof fn lemma_shift_bits_injective(a: u8, b: u8, count: nat)
    requires
        a != b,
    ensures
        shift_bits(POLYNOMIAL, a, count) != shift_bits(POLYNOMIAL, b, count),
    decreases count,
{
    if count > 0 {
        let before = (count - 1) as nat;
        lemma_shift_bits_injective(a, b, before);
        let x = shift_bits(POLYNOMIAL, a, before);
        let y = shift_bits(POLYNOMIAL, b, before);
        assert(shift_bit(0x07, x) != shift_bit(0x07, y)) by (bit_vector)
            requires
                x != y,
        ;
    }
}

/// Two different registers stay different when the same bytes are fed into both.
proof fn lemma_register_after_injective(a: u8, b: u8, bytes: Seq<u8>)
    requires
        a != b,
    ensures
        register_after(POLYNOMIAL, a, bytes) != register_after(POLYNOMIAL, b, bytes),
    decreases bytes.len(),
{
    if bytes.len() > 0 {
        lemma_register_after_injective(a, b, bytes.drop_last());
        let x = register_after(POLYNOMIAL, a, bytes.drop_last());
        let y = register_after(POLYNOMIAL, b, bytes.drop_last());
        let last = bytes.last();
        assert(x ^ last != y ^ last) by (bit_vector)
            requires
                x != y,
        ;
        lemma_shift_bits_injective(x ^ last, y ^ last, 8);
    }
}

/// Feeding `head + tail` is feeding `head` and then `tail`.
pub proof fn lemma_register_after_concat(
    polynomial: u8,
    register: u8,
    head: Seq<u8>,
    tail: Seq<u8>,
)
    ensures
        register_after(polynomial, register, head + tail) == register_after(
            polynomial,
            register_after(polynomial, register, head),
            tail,
        ),
    decreases tail.len(),
{
    if tail.len() == 0 {
        assert(head + tail =~= head);
    } else {
        lemma_register_after_concat(polynomial, register, head, tail.drop_last());
        assert((head + tail).drop_last() =~= head + tail.drop_last());
        assert((head + tail).last() == tail.last());
    }
}

/// The checksum notices every change of a single byte: two byte sequences
/// that differ at exactly one position never have the same checksum.
pub proof fn lemma_checksum_detects_changed_byte(bytes: Seq<u8>, position: int, byte: u8)
    requires
        0 <= position < bytes.len(),
        byte != bytes[position],
    ensures
        checksum_of(bytes.update(position, byte)) != checksum_of(bytes),
{
    let head = bytes.take(position);
    let tail = bytes.skip(position + 1);
    let before = register_after(POLYNOMIAL, 0, head);
    assert(bytes =~= head.push(bytes[position]) + tail);
    assert(bytes.update(position, byte) =~= head.push(byte) + tail);
    lemma_register_after_concat(POLYNOMIAL, 0, head.push(bytes[position]), tail);
    lemma_register_after_concat(POLYNOMIAL, 0, head.push(byte), tail);
    assert(head.push(byte).drop_last() =~= head);
    assert(head.push(bytes[position]).drop_last() =~= head);
    let old_byte = bytes[position];
    assert(before ^ byte != before ^ old_byte) by (bit_vector)
        requires
            byte != old_byte,
    ;
    lemma_shift_bits_injective(before ^ byte, before ^ old_byte, 8);
    lemma_register_after_injective(
        register_after(POLYNOMIAL, 0, head.push(byte)),
        register_after(POLYNOMIAL, 0, head.push(old_byte)),
        tail,
    );
}

/// The checksum notices every flip of a single bit of its input.
pub proof fn lemma_checksum_detects_flipped_bit(bytes: Seq<u8>, position: int, k: u8)
    requires
        0 <= position < bytes.len(),
        k < 8,
    ensures
        checksum_of(bytes.update(position, bytes[position] ^ (1u8 << k))) != checksum_of(bytes),
{
    let byte = bytes[position];
    assert(byte ^ (1u8 << k) != byte) by (bit_vector)
        requires
            k < 8,
    ;
    lemma_checksum_detects_changed_byte(bytes, position, byte ^ (1u8 << k));
}

} // verus!
