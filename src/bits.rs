//! Single-byte bit fields: LSB-first flag bits, MSB-first enemy slot bits and
//! the two nibbles of a camera byte.
use vstd::prelude::*;

verus! {

/// Bit `bit` (0 = least significant) of `byte` is set.
pub open spec fn flag_set(byte: u8, bit: u8) -> bool {
    byte & (1u8 << bit) != 0
}

/// The byte with only bit `bit` set when `on`, else zero.
pub open spec fn flag_bit(on: bool, bit: u8) -> u8 {
    if on {
        1u8 << bit
    } else {
        0u8
    }
}

/// Enemy slot `slot` is set in `mask`: slot 0 is the most significant bit.
pub open spec fn slot_set(mask: u8, slot: u8) -> bool {
    mask & (0x80u8 >> slot) != 0
}

/// The byte with only the bit of slot `slot` set when `on`, else zero.
pub open spec fn slot_bit(on: bool, slot: u8) -> u8 {
    if on {
        0x80u8 >> slot
    } else {
        0u8
    }
}

/// The mask byte whose slot `i` is set exactly when `slots[i]`, for the eight slots.
pub open spec fn mask_byte(slots: Seq<bool>) -> u8 {
    slot_bit(slots[0], 0) | slot_bit(slots[1], 1) | slot_bit(slots[2], 2) | slot_bit(slots[3], 3)
        | slot_bit(slots[4], 4) | slot_bit(slots[5], 5) | slot_bit(slots[6], 6)
        | slot_bit(slots[7], 7)
}

/// Setting the bit of slot `i` leaves every other slot as it was.
pub proof fn lemma_slot_update(acc: u8, on: bool, i: u8, j: u8)
    requires
        i < 8,
        j < 8,
    ensures
        slot_set(acc | slot_bit(on, i), j) == (if j == i {
            on || slot_set(acc, j)
        } else {
            slot_set(acc, j)
        }),
{
    assert(slot_set(acc | slot_bit(on, i), j) == (if j == i {
        on || slot_set(acc, j)
    } else {
        slot_set(acc, j)
    })) by (bit_vector)
        requires
            i < 8,
            j < 8,
    ;
}

/// Setting the bit of slot `i` sets slot `i` when `on` and leaves the other slots.
pub proof fn lemma_slot_update_all(acc: u8, on: bool, i: u8)
    requires
        i < 8,
    ensures
        forall|j: u8|
            j < 8 ==> #[trigger] slot_set(acc | slot_bit(on, i), j) == (if j == i {
                on || slot_set(acc, j)
            } else {
                slot_set(acc, j)
            }),
{
    assert forall|j: u8| j < 8 implies #[trigger] slot_set(acc | slot_bit(on, i), j) == (if j == i {
        on || slot_set(acc, j)
    } else {
        slot_set(acc, j)
    }) by {
        lemma_slot_update(acc, on, i, j);
    }
}

/// No slot of the zero byte is set.
pub proof fn lemma_slot_zero(j: u8)
    requires
        j < 8,
    ensures
        !slot_set(0u8, j),
{
    assert(!slot_set(0u8, j)) by (bit_vector)
        requires
            j < 8,
    ;
}

/// Two mask bytes that agree on all eight slots are equal.
pub proof fn lemma_slots_determine_mask(a: u8, b: u8)
    requires
        forall|j: u8| j < 8 ==> slot_set(a, j) == slot_set(b, j),
    ensures
        a == b,
{
    assert(slot_set(a, 0) == slot_set(b, 0));
    assert(slot_set(a, 1) == slot_set(b, 1));
    assert(slot_set(a, 2) == slot_set(b, 2));
    assert(slot_set(a, 3) == slot_set(b, 3));
    assert(slot_set(a, 4) == slot_set(b, 4));
    assert(slot_set(a, 5) == slot_set(b, 5));
    assert(slot_set(a, 6) == slot_set(b, 6));
    assert(slot_set(a, 7) == slot_set(b, 7));
    assert(a == b) by (bit_vector)
        requires
            slot_set(a, 0) == slot_set(b, 0),
            slot_set(a, 1) == slot_set(b, 1),
            slot_set(a, 2) == slot_set(b, 2),
            slot_set(a, 3) == slot_set(b, 3),
            slot_set(a, 4) == slot_set(b, 4),
            slot_set(a, 5) == slot_set(b, 5),
            slot_set(a, 6) == slot_set(b, 6),
            slot_set(a, 7) == slot_set(b, 7),
    ;
}

/// Slot `j` of the mask built from `slots` is set exactly when `slots[j]`.
pub proof fn lemma_mask_byte_slots(slots: Seq<bool>)
    requires
        slots.len() == 8,
    ensures
        forall|j: u8| j < 8 ==> #[trigger] slot_set(mask_byte(slots), j) == slots[j as int],
{
    let (b0, b1, b2, b3) = (slots[0], slots[1], slots[2], slots[3]);
    let (b4, b5, b6, b7) = (slots[4], slots[5], slots[6], slots[7]);
    let m = mask_byte(slots);
    assert(m == slot_bit(b0, 0) | slot_bit(b1, 1) | slot_bit(b2, 2) | slot_bit(b3, 3) | slot_bit(
        b4,
        4,
    ) | slot_bit(b5, 5) | slot_bit(b6, 6) | slot_bit(b7, 7));
    assert({
        &&& slot_set(m, 0) == b0
        &&& slot_set(m, 1) == b1
        &&& slot_set(m, 2) == b2
        &&& slot_set(m, 3) == b3
        &&& slot_set(m, 4) == b4
        &&& slot_set(m, 5) == b5
        &&& slot_set(m, 6) == b6
        &&& slot_set(m, 7) == b7
    }) by (bit_vector)
        requires
            m == slot_bit(b0, 0) | slot_bit(b1, 1) | slot_bit(b2, 2) | slot_bit(b3, 3) | slot_bit(
                b4,
                4,
            ) | slot_bit(b5, 5) | slot_bit(b6, 6) | slot_bit(b7, 7),
    ;
    assert forall|j: u8| j < 8 implies #[trigger] slot_set(m, j) == slots[j as int] by {
        if j == 0 {
        } else if j == 1 {
        } else if j == 2 {
        } else if j == 3 {
        } else if j == 4 {
        } else if j == 5 {
        } else if j == 6 {
        } else {
        }
    }
}

/// The byte made of eight flag bits, bit 0 first.
pub open spec fn flags_of_bits(
    c0: bool,
    c1: bool,
    c2: bool,
    c3: bool,
    c4: bool,
    c5: bool,
    c6: bool,
    c7: bool,
) -> u8 {
    flag_bit(c0, 0) | flag_bit(c1, 1) | flag_bit(c2, 2) | flag_bit(c3, 3) | flag_bit(c4, 4)
        | flag_bit(c5, 5) | flag_bit(c6, 6) | flag_bit(c7, 7)
}

/// A byte is rebuilt from its eight flag bits.
pub proof fn lemma_byte_from_flag_bits(b: u8)
    ensures
        b == flags_of_bits(
            flag_set(b, 0),
            flag_set(b, 1),
            flag_set(b, 2),
            flag_set(b, 3),
            flag_set(b, 4),
            flag_set(b, 5),
            flag_set(b, 6),
            flag_set(b, 7),
        ),
{
    assert(b == flags_of_bits(
        flag_set(b, 0),
        flag_set(b, 1),
        flag_set(b, 2),
        flag_set(b, 3),
        flag_set(b, 4),
        flag_set(b, 5),
        flag_set(b, 6),
        flag_set(b, 7),
    )) by (bit_vector);
}

/// Each flag bit of the byte built from eight flags is that flag.
pub proof fn lemma_flag_bits_of_byte(
    c0: bool,
    c1: bool,
    c2: bool,
    c3: bool,
    c4: bool,
    c5: bool,
    c6: bool,
    c7: bool,
)
    ensures
        flag_set(flags_of_bits(c0, c1, c2, c3, c4, c5, c6, c7), 0) == c0,
        flag_set(flags_of_bits(c0, c1, c2, c3, c4, c5, c6, c7), 1) == c1,
        flag_set(flags_of_bits(c0, c1, c2, c3, c4, c5, c6, c7), 2) == c2,
        flag_set(flags_of_bits(c0, c1, c2, c3, c4, c5, c6, c7), 3) == c3,
        flag_set(flags_of_bits(c0, c1, c2, c3, c4, c5, c6, c7), 4) == c4,
        flag_set(flags_of_bits(c0, c1, c2, c3, c4, c5, c6, c7), 5) == c5,
        flag_set(flags_of_bits(c0, c1, c2, c3, c4, c5, c6, c7), 6) == c6,
        flag_set(flags_of_bits(c0, c1, c2, c3, c4, c5, c6, c7), 7) == c7,
{
    let b = flags_of_bits(c0, c1, c2, c3, c4, c5, c6, c7);
    assert({
        &&& flag_set(b, 0) == c0
        &&& flag_set(b, 1) == c1
        &&& flag_set(b, 2) == c2
        &&& flag_set(b, 3) == c3
        &&& flag_set(b, 4) == c4
        &&& flag_set(b, 5) == c5
        &&& flag_set(b, 6) == c6
        &&& flag_set(b, 7) == c7
    }) by (bit_vector)
        requires
            b == flags_of_bits(c0, c1, c2, c3, c4, c5, c6, c7),
    ;
}

/// The high nibble of a byte.
pub open spec fn high_nibble(b: u8) -> u8 {
    b >> 4
}

/// The low nibble of a byte.
pub open spec fn low_nibble(b: u8) -> u8 {
    b & 0x0f
}

/// The byte with `high` in its high nibble and `low` in its low nibble; bits
/// of `high` and `low` beyond the fourth are dropped.
pub open spec fn nibbles_byte(high: u8, low: u8) -> u8 {
    (high << 4) | (low & 0x0f)
}

/// A byte is rebuilt from its two nibbles, each below 16.
pub proof fn lemma_byte_from_nibbles(b: u8)
    ensures
        nibbles_byte(high_nibble(b), low_nibble(b)) == b,
        high_nibble(b) < 16,
        low_nibble(b) < 16,
{
    assert(nibbles_byte(high_nibble(b), low_nibble(b)) == b) by (bit_vector);
    assert(high_nibble(b) < 16 && low_nibble(b) < 16) by (bit_vector);
}

/// Two values below 16 are read back from the byte built of them.
pub proof fn lemma_nibbles_of_byte(high: u8, low: u8)
    requires
        high < 16,
        low < 16,
    ensures
        high_nibble(nibbles_byte(high, low)) == high,
        low_nibble(nibbles_byte(high, low)) == low,
{
    assert(high_nibble(nibbles_byte(high, low)) == high && low_nibble(nibbles_byte(high, low))
        == low) by (bit_vector)
        requires
            high < 16,
            low < 16,
    ;
}


/// The byte with only bit `bit` set when `on`, else zero.
pub fn flag_bit_of(on: bool, bit: u8) -> (r: u8)
    requires
        bit < 8,
    ensures
        r == flag_bit(on, bit),
{
    if on {
        1u8 << bit
    } else {
        0u8
    }
}

/// The byte with only the bit of slot `slot` set when `on`, else zero.
pub fn slot_bit_of(on: bool, slot: u8) -> (r: u8)
    requires
        slot < 8,
    ensures
        r == slot_bit(on, slot),
{
    if on {
        0x80u8 >> slot
    } else {
        0u8
    }
}

} // verus!
