//! Decoding and encoding a record undo each other, on the packed form and on
//! the semantic form.
use vstd::prelude::*;

use crate::battle_structure::{
    coordinate_at, coordinate_bytes, Coordinate, coords_bytes, enemy_at, ids_decodable_at, structure_of,
    u16s_bytes, camera_byte, flags_byte, BattleStructure, PackedBattleStructure, EnemyFlag, RECORD_SIZE,
};
use crate::bits::{
    lemma_byte_from_flag_bits, lemma_byte_from_nibbles, lemma_flag_bits_of_byte,
    lemma_mask_byte_slots, lemma_nibbles_of_byte, lemma_slots_determine_mask, mask_byte, slot_set,
};
use crate::le::{i16_le_bytes, lemma_bytes_of_le, lemma_le_of_bytes, le_u16, u16_le_bytes};

verus! {

/// Slot `i` of the decoded structure is the enemy of slot `i` of the record.
proof fn lemma_structure_of_enemies(b: Seq<u8>)
    ensures
        forall|i: int| 0 <= i < 8 ==> #[trigger] structure_of(b).enemies[i] == enemy_at(b, i),
{
    assert forall|i: int| 0 <= i < 8 implies #[trigger] structure_of(b).enemies[i] == enemy_at(b, i) by {
        if i == 0 {
        } else if i == 1 {
        } else if i == 2 {
        } else if i == 3 {
        } else if i == 4 {
        } else if i == 5 {
        } else if i == 6 {
        } else {
        }
    }
}

/// Writing the coordinate read at `at` gives back the six bytes at `at`.
proof fn lemma_coordinate_bytes_at(b: Seq<u8>, at: int)
    requires
        0 <= at,
        at + 6 <= b.len(),
    ensures
        coordinate_bytes(coordinate_at(b, at)) == b.subrange(at, at + 6),
{
    lemma_bytes_of_le(b, at);
    lemma_bytes_of_le(b, at + 2);
    lemma_bytes_of_le(b, at + 4);
    assert(coordinate_bytes(coordinate_at(b, at)) =~= b.subrange(at, at + 6));
}

/// The mask built from the slots of mask byte `m` is `m`.
proof fn lemma_mask_of_slots(m: u8, slots: Seq<bool>)
    requires
        slots.len() == 8,
        forall|j: int| 0 <= j < 8 ==> #[trigger] slots[j] == slot_set(m, j as u8),
    ensures
        mask_byte(slots) == m,
{
    lemma_mask_byte_slots(slots);
    assert forall|j: u8| j < 8 implies slot_set(mask_byte(slots), j) == slot_set(m, j) by {
        assert(slots[j as int] == slot_set(m, j as u8));
    }
    lemma_slots_determine_mask(mask_byte(slots), m);
}

/// Writing the values read from the sixteen bytes at `at` gives back those bytes.
proof fn lemma_u16s_read_back(b: Seq<u8>, at: int, vs: Seq<u16>)
    requires
        vs.len() == 8,
        0 <= at,
        at + 16 <= b.len(),
        forall|i: int| 0 <= i < 8 ==> #[trigger] vs[i] == le_u16(b, at + 2 * i),
    ensures
        u16s_bytes(vs) == b.subrange(at, at + 16),
{
    assert forall|k: int| 0 <= k < 16 implies #[trigger] u16s_bytes(vs)[k] == b[at + k] by {
        let i = k / 2;
        assert(vs[i] == le_u16(b, at + 2 * i));
        lemma_bytes_of_le(b, at + 2 * i);
        assert(b.subrange(at + 2 * i, at + 2 * i + 2)[k % 2] == b[at + k]);
    }
    assert(u16s_bytes(vs) =~= b.subrange(at, at + 16));
}

/// Writing the coordinates read from the forty-eight bytes at 8 gives back those bytes.
proof fn lemma_coords_read_back(b: Seq<u8>, cs: Seq<Coordinate>)
    requires
        cs.len() == 8,
        b.len() >= 56,
        forall|i: int| 0 <= i < 8 ==> #[trigger] cs[i] == coordinate_at(b, 8 + 6 * i),
    ensures
        coords_bytes(cs) == b.subrange(8, 56),
{
    assert forall|k: int| 0 <= k < 48 implies #[trigger] coords_bytes(cs)[k] == b[8 + k] by {
        let i = k / 6;
        assert(cs[i] == coordinate_at(b, 8 + 6 * i));
        lemma_coordinate_bytes_at(b, 8 + 6 * i);
        assert(b.subrange(8 + 6 * i, 8 + 6 * i + 6)[k % 6] == b[8 + k]);
    }
    assert(coords_bytes(cs) =~= b.subrange(8, 56));
}

/// Decoding a 128-byte record whose id bytes are all at least the id offset,
/// then encoding the result, gives back the same bytes.
pub proof fn lemma_record_round_trip(b: Seq<u8>)
    requires
        b.len() == RECORD_SIZE,
        ids_decodable_at(b),
    ensures
        structure_of(b).ids_encodable(),
        structure_of(b).spec_bytes() == b,
{
    let s = structure_of(b);
    lemma_structure_of_enemies(b);
    assert forall|i: int| 0 <= i < 8 implies #[trigger] s.enemies[i].id + 0x10 <= 0xFF by {
        assert(b[56 + i] >= 0x10);
    }
    lemma_byte_from_flag_bits(b[1]);
    lemma_byte_from_nibbles(b[2]);
    lemma_byte_from_nibbles(b[3]);
    lemma_mask_of_slots(b[4], s.slot_flags(EnemyFlag::Invisible));
    lemma_mask_of_slots(b[5], s.slot_flags(EnemyFlag::NotLoaded));
    lemma_mask_of_slots(b[6], s.slot_flags(EnemyFlag::Untargetable));
    lemma_mask_of_slots(b[7], s.slot_flags(EnemyFlag::Enabled));
    lemma_coords_read_back(b, s.coordinates());
    lemma_u16s_read_back(b, 64, s.unknown_1s());
    lemma_u16s_read_back(b, 80, s.unknown_2s());
    lemma_u16s_read_back(b, 96, s.unknown_3s());
    assert(s.raw_ids() =~= b.subrange(56, 64));
    assert(s.unknown_4s() =~= b.subrange(112, 120));
    assert(s.levels() =~= b.subrange(120, 128));
    assert(s.spec_bytes() =~= b);
}

/// Reading back the coordinate written at `at` gives the coordinate.
proof fn lemma_coordinate_at_bytes(b: Seq<u8>, at: int, c: Coordinate)
    requires
        0 <= at,
        at + 6 <= b.len(),
        b.subrange(at, at + 6) == coordinate_bytes(c),
    ensures
        coordinate_at(b, at) == c,
{
    let cb = coordinate_bytes(c);
    lemma_le_of_bytes(0, c.x);
    lemma_le_of_bytes(0, c.y);
    lemma_le_of_bytes(0, c.z);
    assert(b[at] == cb[0] && b[at + 1] == cb[1]);
    assert(b[at + 2] == cb[2] && b[at + 3] == cb[3]);
    assert(b[at + 4] == cb[4] && b[at + 5] == cb[5]);
    assert(cb.subrange(0, 2) =~= i16_le_bytes(c.x));
    assert(cb.subrange(2, 4) =~= i16_le_bytes(c.y));
    assert(cb.subrange(4, 6) =~= i16_le_bytes(c.z));
}

/// The sections of a structure's bytes.
proof fn lemma_spec_bytes_sections(s: BattleStructure)
    ensures
        s.spec_bytes().len() == RECORD_SIZE,
        s.spec_bytes()[0] == s.stage_id,
        s.spec_bytes()[1] == flags_byte(s.flags),
        s.spec_bytes()[2] == camera_byte(s.main_camera),
        s.spec_bytes()[3] == camera_byte(s.secondary_camera),
        s.spec_bytes()[4] == mask_byte(s.slot_flags(EnemyFlag::Invisible)),
        s.spec_bytes()[5] == mask_byte(s.slot_flags(EnemyFlag::NotLoaded)),
        s.spec_bytes()[6] == mask_byte(s.slot_flags(EnemyFlag::Untargetable)),
        s.spec_bytes()[7] == mask_byte(s.slot_flags(EnemyFlag::Enabled)),
        s.spec_bytes().subrange(8, 56) == coords_bytes(s.coordinates()),
        s.spec_bytes().subrange(56, 64) == s.raw_ids(),
        s.spec_bytes().subrange(64, 80) == u16s_bytes(s.unknown_1s()),
        s.spec_bytes().subrange(80, 96) == u16s_bytes(s.unknown_2s()),
        s.spec_bytes().subrange(96, 112) == u16s_bytes(s.unknown_3s()),
        s.spec_bytes().subrange(112, 120) == s.unknown_4s(),
        s.spec_bytes().subrange(120, 128) == s.levels(),
{
    let b = s.spec_bytes();
    assert(b.subrange(8, 56) =~= coords_bytes(s.coordinates()));
    assert(b.subrange(56, 64) =~= s.raw_ids());
    assert(b.subrange(64, 80) =~= u16s_bytes(s.unknown_1s()));
    assert(b.subrange(80, 96) =~= u16s_bytes(s.unknown_2s()));
    assert(b.subrange(96, 112) =~= u16s_bytes(s.unknown_3s()));
    assert(b.subrange(112, 120) =~= s.unknown_4s());
    assert(b.subrange(120, 128) =~= s.levels());
}

/// Slot `i` of the bytes written for `s` reads back as the enemy of slot `i`.
proof fn lemma_enemy_read_back(s: BattleStructure, b: Seq<u8>, i: int)
    requires
        b == s.spec_bytes(),
        s.ids_encodable(),
        0 <= i < 8,
    ensures
        b[56 + i] >= 0x10,
        enemy_at(b, i) == s.enemies[i],
{
    lemma_spec_bytes_sections(s);
    let e = s.enemies[i];
    assert(e.id + 0x10 <= 0xFF);
    assert(b[56 + i] == b.subrange(56, 64)[i]);
    assert(b[112 + i] == b.subrange(112, 120)[i]);
    assert(b[120 + i] == b.subrange(120, 128)[i]);
    lemma_mask_byte_slots(s.slot_flags(EnemyFlag::Invisible));
    lemma_mask_byte_slots(s.slot_flags(EnemyFlag::NotLoaded));
    lemma_mask_byte_slots(s.slot_flags(EnemyFlag::Untargetable));
    lemma_mask_byte_slots(s.slot_flags(EnemyFlag::Enabled));
    assert(slot_set(b[4], i as u8) == s.slot_flags(EnemyFlag::Invisible)[i]);
    assert(slot_set(b[5], i as u8) == s.slot_flags(EnemyFlag::NotLoaded)[i]);
    assert(slot_set(b[6], i as u8) == s.slot_flags(EnemyFlag::Untargetable)[i]);
    assert(slot_set(b[7], i as u8) == s.slot_flags(EnemyFlag::Enabled)[i]);
    let cs = coords_bytes(s.coordinates());
    assert forall|j: int| 0 <= j < 6 implies #[trigger] b.subrange(8 + 6 * i, 14 + 6 * i)[j]
        == coordinate_bytes(e.coordinate)[j] by {
        assert((6 * i + j) / 6 == i && (6 * i + j) % 6 == j);
        assert(b[8 + 6 * i + j] == b.subrange(8, 56)[6 * i + j]);
        assert(b[8 + 6 * i + j] == cs[6 * i + j]);
    }
    assert(b.subrange(8 + 6 * i, 14 + 6 * i) =~= coordinate_bytes(e.coordinate));
    lemma_coordinate_at_bytes(b, 8 + 6 * i, e.coordinate);
    lemma_u16_at(b, 64, s.unknown_1s(), i);
    lemma_u16_at(b, 80, s.unknown_2s(), i);
    lemma_u16_at(b, 96, s.unknown_3s(), i);
}

/// Bytes that hold each part of `s` decode to `s`.
proof fn lemma_decode_parts(s: BattleStructure, b: Seq<u8>)
    requires
        s.cameras_fit(),
        b.len() == RECORD_SIZE,
        b[0] == s.stage_id,
        b[1] == flags_byte(s.flags),
        b[2] == camera_byte(s.main_camera),
        b[3] == camera_byte(s.secondary_camera),
        forall|i: int| 0 <= i < 8 ==> #[trigger] enemy_at(b, i) == s.enemies[i],
    ensures
        structure_of(b) == s,
{
    let d = structure_of(b);
    lemma_structure_of_enemies(b);
    lemma_flag_bits_of_byte(
        s.flags.cannot_escape,
        s.flags.disable_win_fanfare,
        s.flags.show_timer,
        s.flags.no_exp,
        s.flags.disable_exp_screen,
        s.flags.force_surprise_attack,
        s.flags.force_back_attack,
        s.flags.scripted_battle,
    );
    lemma_nibbles_of_byte(s.main_camera.number, s.main_camera.animation);
    lemma_nibbles_of_byte(s.secondary_camera.number, s.secondary_camera.animation);
    assert forall|i: int| 0 <= i < 8 implies #[trigger] d.enemies[i] == s.enemies[i] by {
        assert(enemy_at(b, i) == s.enemies[i]);
    }
    assert(d.enemies@ =~= s.enemies@);
    assert(d.enemies == s.enemies);
    assert(d.flags == s.flags);
    assert(d.main_camera == s.main_camera);
    assert(d.secondary_camera == s.secondary_camera);
}

/// Encoding a structure whose enemy ids are at most 0xEF and whose camera
/// values fit in four bits, then decoding the bytes, gives back the structure.
pub proof fn lemma_structure_round_trip(s: BattleStructure)
    requires
        s.ids_encodable(),
        s.cameras_fit(),
    ensures
        s.spec_bytes().len() == RECORD_SIZE,
        ids_decodable_at(s.spec_bytes()),
        structure_of(s.spec_bytes()) == s,
{
    let b = s.spec_bytes();
    lemma_spec_bytes_sections(s);
    assert forall|i: int| 0 <= i < 8 implies #[trigger] b[56 + i] >= 0x10 by {
        lemma_enemy_read_back(s, b, i);
    }
    assert forall|i: int| 0 <= i < 8 implies #[trigger] enemy_at(b, i) == s.enemies[i] by {
        lemma_enemy_read_back(s, b, i);
    }
    lemma_decode_parts(s, b);
}

/// The value written at slot `i` of a run of 16-bit values placed at `at`
/// reads back as that value.
proof fn lemma_u16_at(b: Seq<u8>, at: int, vs: Seq<u16>, i: int)
    requires
        vs.len() == 8,
        0 <= at,
        at + 16 <= b.len(),
        0 <= i < 8,
        b.subrange(at, at + 16) == u16s_bytes(vs),
    ensures
        le_u16(b, at + 2 * i) as u16 == vs[i],
        le_u16(b, at + 2 * i) == vs[i],
{
    let w = u16s_bytes(vs);
    assert((2 * i) / 2 == i && (2 * i) % 2 == 0);
    assert((2 * i + 1) / 2 == i && (2 * i + 1) % 2 == 1);
    assert(b[at + 2 * i] == w[2 * i]);
    assert(b[at + 2 * i + 1] == w[2 * i + 1]);
    lemma_le_of_bytes(vs[i], 0);
}

/// Writing a packed record read from 128 bytes gives back those bytes.
pub proof fn lemma_packed_round_trip(p: PackedBattleStructure, b: Seq<u8>)
    requires
        b.len() == RECORD_SIZE,
        p.read_from(b),
    ensures
        p.spec_bytes() == b,
{
    lemma_coords_read_back(b, p.enemies_coords@);
    lemma_u16s_read_back(b, 64, p.unknown_1@);
    lemma_u16s_read_back(b, 80, p.unknown_2@);
    lemma_u16s_read_back(b, 96, p.unknown_3@);
    assert(p.id_enemies@ =~= b.subrange(56, 64));
    assert(p.unknown_4@ =~= b.subrange(112, 120));
    assert(p.enemy_level@ =~= b.subrange(120, 128));
    assert(p.spec_bytes() =~= b);
}

/// Reading a packed record back from its own bytes gives the record.
pub proof fn lemma_packed_read_back(p: PackedBattleStructure)
    ensures
        p.spec_bytes().len() == RECORD_SIZE,
        p.read_from(p.spec_bytes()),
{
    let b = p.spec_bytes();
    assert(b.subrange(8, 56) =~= coords_bytes(p.enemies_coords@));
    assert(b.subrange(64, 80) =~= u16s_bytes(p.unknown_1@));
    assert(b.subrange(80, 96) =~= u16s_bytes(p.unknown_2@));
    assert(b.subrange(96, 112) =~= u16s_bytes(p.unknown_3@));
    assert forall|i: int| 0 <= i < 8 implies #[trigger] p.enemies_coords[i] == coordinate_at(
        b,
        8 + 6 * i,
    ) by {
        let cs = coords_bytes(p.enemies_coords@);
        let c = p.enemies_coords[i];
        assert forall|j: int| 0 <= j < 6 implies #[trigger] b.subrange(8 + 6 * i, 14 + 6 * i)[j]
            == coordinate_bytes(c)[j] by {
            assert((6 * i + j) / 6 == i && (6 * i + j) % 6 == j);
            assert(b[8 + 6 * i + j] == b.subrange(8, 56)[6 * i + j]);
            assert(b[8 + 6 * i + j] == cs[6 * i + j]);
        }
        assert(b.subrange(8 + 6 * i, 14 + 6 * i) =~= coordinate_bytes(c));
        lemma_coordinate_at_bytes(b, 8 + 6 * i, c);
    }
    assert forall|i: int| 0 <= i < 8 implies #[trigger] p.unknown_1[i] == le_u16(b, 64 + 2 * i) by {
        lemma_u16_at(b, 64, p.unknown_1@, i);
    }
    assert forall|i: int| 0 <= i < 8 implies #[trigger] p.unknown_2[i] == le_u16(b, 80 + 2 * i) by {
        lemma_u16_at(b, 80, p.unknown_2@, i);
    }
    assert forall|i: int| 0 <= i < 8 implies #[trigger] p.unknown_3[i] == le_u16(b, 96 + 2 * i) by {
        lemma_u16_at(b, 96, p.unknown_3@, i);
    }
    assert forall|i: int| 0 <= i < 8 implies #[trigger] p.id_enemies[i] == b[56 + i] by {
        assert(b[56 + i] == b.subrange(56, 64)[i]);
    }
    assert forall|i: int| 0 <= i < 8 implies #[trigger] p.unknown_4[i] == b[112 + i] by {
        assert(b[112 + i] == b.subrange(112, 120)[i]);
    }
    assert forall|i: int| 0 <= i < 8 implies #[trigger] p.enemy_level[i] == b[120 + i] by {
        assert(b[120 + i] == b.subrange(120, 128)[i]);
    }
}

} // verus!
