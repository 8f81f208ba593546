//! The packed 128-byte battle record and its semantic form.
use vstd::prelude::*;

use crate::bits::{
    flag_bit_of, flag_set, flags_of_bits, high_nibble, low_nibble, mask_byte, nibbles_byte,
    slot_bit_of, slot_set, lemma_mask_byte_slots, lemma_slot_update_all, lemma_slot_zero,
    lemma_slots_determine_mask,
};
use crate::error::CodecError;
use crate::le::{
    i16_le_bytes, le_i16, le_u16, push_i16_le, push_u16_le, read_i16_le, read_u16_le, u16_le_bytes,
};

verus! {

/// Bytes of one packed record.
pub const RECORD_SIZE: usize = 128;

/// Enemy slots of one record.
pub const ENEMY_SLOTS: usize = 8;

/// What is added to an enemy id to give the id byte of the record.
pub const ID_OFFSET: u8 = 0x10;

/// Offset of the enemy coordinates within a record.
pub const COORDS_AT: usize = 8;

/// Offset of the enemy id bytes within a record.
pub const IDS_AT: usize = 56;

/// Offset of the first opaque 16-bit values within a record.
pub const UNKNOWN_1_AT: usize = 64;

/// Offset of the second opaque 16-bit values within a record.
pub const UNKNOWN_2_AT: usize = 80;

/// Offset of the third opaque 16-bit values within a record.
pub const UNKNOWN_3_AT: usize = 96;

/// Offset of the opaque per-enemy bytes within a record.
pub const UNKNOWN_4_AT: usize = 112;

/// Offset of the enemy levels within a record.
pub const LEVELS_AT: usize = 120;

/// A position in the battle stage; six bytes on the wire.
#[derive(Clone, Copy, Debug, PartialEq, Eq, Structural)]
pub struct Coordinate {
    pub x: i16,
    pub y: i16,
    pub z: i16,
}

/// The record as laid out in the file: every field in raw form.
#[derive(Clone, Copy, Debug, PartialEq, Eq)]
pub struct PackedBattleStructure {
    pub stage_id: u8,
    pub flags: u8,
    pub main_camera: u8,
    pub secondary_camera: u8,
    pub not_visible_enemies: u8,
    pub not_loaded_enemies: u8,
    pub not_targetable_enemies: u8,
    pub enabled_enemies: u8,
    pub enemies_coords: [Coordinate; 8],
    pub id_enemies: [u8; 8],
    pub unknown_1: [u16; 8],
    pub unknown_2: [u16; 8],
    pub unknown_3: [u16; 8],
    pub unknown_4: [u8; 8],
    pub enemy_level: [u8; 8],
}

/// The record with its bit fields unpacked and its enemies gathered per slot.
#[derive(Clone, Copy, Debug, PartialEq, Eq)]
pub struct BattleStructure {
    pub stage_id: u8,
    pub flags: BattleFlags,
    pub main_camera: CameraAttributes,
    pub secondary_camera: CameraAttributes,
    pub enemies: [Enemy; 8],
}

/// Flags ordered from LSB to MSB
#[derive(Clone, Copy, Debug, PartialEq, Eq, Structural)]
pub struct BattleFlags {
    pub cannot_escape: bool,
    pub disable_win_fanfare: bool,
    pub show_timer: bool,
    pub no_exp: bool,
    pub disable_exp_screen: bool,
    pub force_surprise_attack: bool,
    pub force_back_attack: bool,
    pub scripted_battle: bool,
}

/// A camera byte split into its two nibbles.
#[derive(Clone, Copy, Debug, PartialEq, Eq, Structural)]
pub struct CameraAttributes {
    /// camera number of size u4
    pub number: u8,
    /// camera animation of size u4
    pub animation: u8,
}

/// Enemy information where id is equal to PackedBattleStructure.id_enemies[idx] - 0x10
#[derive(Clone, Copy, Debug, PartialEq, Eq, Structural)]
pub struct Enemy {
    pub id: u8,
    pub level: u8,
    pub enabled: bool,
    pub invisible: bool,
    pub not_loaded: bool,
    pub untargetable: bool,
    pub coordinate: Coordinate,
    pub unknown_1: u16,
    pub unknown_2: u16,
    pub unknown_3: u16,
    pub unknown_4: u8,
}

/// One of the four per-slot enemy flags, each packed into a mask byte.
#[derive(Clone, Copy, Debug, PartialEq, Eq, Structural)]
pub enum EnemyFlag {
    Enabled,
    Invisible,
    NotLoaded,
    Untargetable,
}

impl EnemyFlag {
    /// The value of this flag for `e`.
    pub open spec fn of(self, e: Enemy) -> bool {
        match self {
            EnemyFlag::Enabled => e.enabled,
            EnemyFlag::Invisible => e.invisible,
            EnemyFlag::NotLoaded => e.not_loaded,
            EnemyFlag::Untargetable => e.untargetable,
        }
    }

    /// The value of this flag for `e`.
    pub fn get(self, e: &Enemy) -> (r: bool)
        ensures
            r == self.of(*e),
    {
        match self {
            EnemyFlag::Enabled => e.enabled,
            EnemyFlag::Invisible => e.invisible,
            EnemyFlag::NotLoaded => e.not_loaded,
            EnemyFlag::Untargetable => e.untargetable,
        }
    }
}

/// The flags held by a flags byte: flag `i` in declaration order is bit `i`.
pub open spec fn flags_of_byte(b: u8) -> BattleFlags {
    BattleFlags {
        cannot_escape: flag_set(b, 0),
        disable_win_fanfare: flag_set(b, 1),
        show_timer: flag_set(b, 2),
        no_exp: flag_set(b, 3),
        disable_exp_screen: flag_set(b, 4),
        force_surprise_attack: flag_set(b, 5),
        force_back_attack: flag_set(b, 6),
        scripted_battle: flag_set(b, 7),
    }
}

/// The flags byte of `f`.
pub open spec fn flags_byte(f: BattleFlags) -> u8 {
    flags_of_bits(
        f.cannot_escape,
        f.disable_win_fanfare,
        f.show_timer,
        f.no_exp,
        f.disable_exp_screen,
        f.force_surprise_attack,
        f.force_back_attack,
        f.scripted_battle,
    )
}

/// The flags byte and the enemy mask bytes count bits in opposite orders:
/// flag `i` is bit `i` of the flags byte (the first flag, `cannot_escape`, in
/// the least significant bit), while slot `i` is bit `7 - i` of a mask byte
/// (slot 0 in the most significant bit).
pub proof fn lemma_bit_orders(flags: u8, mask: u8)
    ensures
        forall|i: u8| i < 8 ==> (#[trigger] flag_set(flags, i) <==> (flags >> i) & 1 == 1),
        forall|i: u8| i < 8 ==> (#[trigger] slot_set(mask, i) <==> (mask >> (7 - i) as u8) & 1 == 1),
        flags_of_byte(flags).cannot_escape <==> flags & 0x01 != 0,
        flags_of_byte(flags).scripted_battle <==> flags & 0x80 != 0,
        slot_set(mask, 0) <==> mask & 0x80 != 0,
        slot_set(mask, 7) <==> mask & 0x01 != 0,
{
    assert forall|i: u8| i < 8 implies (#[trigger] flag_set(flags, i) <==> (flags >> i) & 1 == 1) by {
        assert(flag_set(flags, i) <==> (flags >> i) & 1 == 1) by (bit_vector)
            requires
                i < 8,
        ;
    }
    assert forall|i: u8| i < 8 implies (#[trigger] slot_set(mask, i) <==> (mask >> (7 - i) as u8) & 1
        == 1) by {
        assert(slot_set(mask, i) <==> (mask >> (7 - i) as u8) & 1 == 1) by (bit_vector)
            requires
                i < 8,
        ;
    }
    assert(flag_set(flags, 0) <==> flags & 0x01 != 0) by (bit_vector);
    assert(flag_set(flags, 7) <==> flags & 0x80 != 0) by (bit_vector);
    assert(slot_set(mask, 0) <==> mask & 0x80 != 0) by (bit_vector);
    assert(slot_set(mask, 7) <==> mask & 0x01 != 0) by (bit_vector);
}

/// The camera held by a camera byte: number in the high nibble, animation in the low one.
pub open spec fn camera_of_byte(b: u8) -> CameraAttributes {
    CameraAttributes { number: high_nibble(b), animation: low_nibble(b) }
}

/// The camera byte of `c`; number and animation are cut to four bits.
pub open spec fn camera_byte(c: CameraAttributes) -> u8 {
    nibbles_byte(c.number, c.animation)
}

/// The coordinate held by the six bytes at `at`.
pub open spec fn coordinate_at(b: Seq<u8>, at: int) -> Coordinate {
    Coordinate {
        x: le_i16(b, at) as i16,
        y: le_i16(b, at + 2) as i16,
        z: le_i16(b, at + 4) as i16,
    }
}

/// The six bytes of a coordinate: x, y, z, each little-endian.
pub open spec fn coordinate_bytes(c: Coordinate) -> Seq<u8> {
    i16_le_bytes(c.x) + i16_le_bytes(c.y) + i16_le_bytes(c.z)
}

/// The bytes of a run of coordinates, one after another.
pub open spec fn coords_bytes(cs: Seq<Coordinate>) -> Seq<u8> {
    Seq::new(6 * cs.len(), |k: int| coordinate_bytes(cs[k / 6])[k % 6])
}

/// The bytes of a run of unsigned 16-bit values, each little-endian.
pub open spec fn u16s_bytes(vs: Seq<u16>) -> Seq<u8> {
    Seq::new(2 * vs.len(), |k: int| u16_le_bytes(vs[k / 2])[k % 2])
}

/// Every id byte of the record in `b` is at least the id offset.
pub open spec fn ids_decodable_at(b: Seq<u8>) -> bool {
    forall|i: int| 0 <= i < 8 ==> #[trigger] b[56 + i] >= ID_OFFSET
}

/// The enemy of slot `i` of the record in `b`.
pub open spec fn enemy_at(b: Seq<u8>, i: int) -> Enemy {
    Enemy {
        id: (b[56 + i] - ID_OFFSET) as u8,
        level: b[120 + i],
        enabled: slot_set(b[7], i as u8),
        invisible: slot_set(b[4], i as u8),
        not_loaded: slot_set(b[5], i as u8),
        untargetable: slot_set(b[6], i as u8),
        coordinate: coordinate_at(b, 8 + 6 * i),
        unknown_1: le_u16(b, 64 + 2 * i) as u16,
        unknown_2: le_u16(b, 80 + 2 * i) as u16,
        unknown_3: le_u16(b, 96 + 2 * i) as u16,
        unknown_4: b[112 + i],
    }
}

/// The structure that the record in the first 128 bytes of `b` holds.
pub open spec fn structure_of(b: Seq<u8>) -> BattleStructure {
    BattleStructure {
        stage_id: b[0],
        flags: flags_of_byte(b[1]),
        main_camera: camera_of_byte(b[2]),
        secondary_camera: camera_of_byte(b[3]),
        enemies: [
            enemy_at(b, 0),
            enemy_at(b, 1),
            enemy_at(b, 2),
            enemy_at(b, 3),
            enemy_at(b, 4),
            enemy_at(b, 5),
            enemy_at(b, 6),
            enemy_at(b, 7),
        ],
    }
}

impl PackedBattleStructure {
    /// The record's bytes: fields in declaration order, arrays slot 0 first,
    /// multi-byte values little-endian, no padding.
    pub open spec fn spec_bytes(self) -> Seq<u8> {
        seq![
            self.stage_id,
            self.flags,
            self.main_camera,
            self.secondary_camera,
            self.not_visible_enemies,
            self.not_loaded_enemies,
            self.not_targetable_enemies,
            self.enabled_enemies,
        ] + coords_bytes(self.enemies_coords@) + self.id_enemies@ + u16s_bytes(self.unknown_1@)
            + u16s_bytes(self.unknown_2@) + u16s_bytes(self.unknown_3@) + self.unknown_4@
            + self.enemy_level@
    }

    /// This record is the one held by the first 128 bytes of `b`.
    pub open spec fn read_from(self, b: Seq<u8>) -> bool {
        &&& b.len() >= RECORD_SIZE
        &&& self.stage_id == b[0]
        &&& self.flags == b[1]
        &&& self.main_camera == b[2]
        &&& self.secondary_camera == b[3]
        &&& self.not_visible_enemies == b[4]
        &&& self.not_loaded_enemies == b[5]
        &&& self.not_targetable_enemies == b[6]
        &&& self.enabled_enemies == b[7]
        &&& forall|i: int|
            0 <= i < 8 ==> #[trigger] self.enemies_coords[i] == coordinate_at(b, 8 + 6 * i)
        &&& forall|i: int| 0 <= i < 8 ==> #[trigger] self.id_enemies[i] == b[56 + i]
        &&& forall|i: int| 0 <= i < 8 ==> #[trigger] self.unknown_1[i] == le_u16(b, 64 + 2 * i)
        &&& forall|i: int| 0 <= i < 8 ==> #[trigger] self.unknown_2[i] == le_u16(b, 80 + 2 * i)
        &&& forall|i: int| 0 <= i < 8 ==> #[trigger] self.unknown_3[i] == le_u16(b, 96 + 2 * i)
        &&& forall|i: int| 0 <= i < 8 ==> #[trigger] self.unknown_4[i] == b[112 + i]
        &&& forall|i: int| 0 <= i < 8 ==> #[trigger] self.enemy_level[i] == b[120 + i]
    }

    /// Every id byte is at least the id offset, so every enemy id can be recovered.
    pub open spec fn ids_decodable(self) -> bool {
        forall|i: int| 0 <= i < 8 ==> #[trigger] self.id_enemies[i] >= ID_OFFSET
    }

    /// The enemy of slot `i`.
    pub open spec fn enemy_of(self, i: int) -> Enemy {
        Enemy {
            id: (self.id_enemies[i] - ID_OFFSET) as u8,
            level: self.enemy_level[i],
            enabled: slot_set(self.enabled_enemies, i as u8),
            invisible: slot_set(self.not_visible_enemies, i as u8),
            not_loaded: slot_set(self.not_loaded_enemies, i as u8),
            untargetable: slot_set(self.not_targetable_enemies, i as u8),
            coordinate: self.enemies_coords[i],
            unknown_1: self.unknown_1[i],
            unknown_2: self.unknown_2[i],
            unknown_3: self.unknown_3[i],
            unknown_4: self.unknown_4[i],
        }
    }

    /// The semantic form of this record.
    pub open spec fn expand(self) -> BattleStructure {
        BattleStructure {
            stage_id: self.stage_id,
            flags: flags_of_byte(self.flags),
            main_camera: camera_of_byte(self.main_camera),
            secondary_camera: camera_of_byte(self.secondary_camera),
            enemies: [
                self.enemy_of(0),
                self.enemy_of(1),
                self.enemy_of(2),
                self.enemy_of(3),
                self.enemy_of(4),
                self.enemy_of(5),
                self.enemy_of(6),
                self.enemy_of(7),
            ],
        }
    }
}

/// Reads the coordinate at `at`.
fn read_coordinate(b: &[u8], at: usize) -> (r: Coordinate)
    requires
        at + 6 <= b@.len(),
    ensures
        r == coordinate_at(b@, at as int),
{
    // the slice's length bounds the offsets below
    let _len = b.len();
    Coordinate { x: read_i16_le(b, at), y: read_i16_le(b, at + 2), z: read_i16_le(b, at + 4) }
}

/// Appending one coordinate appends its six bytes.
proof fn lemma_coords_bytes_push(cs: Seq<Coordinate>, c: Coordinate)
    ensures
        coords_bytes(cs.push(c)) == coords_bytes(cs) + coordinate_bytes(c),
{
    let l = coords_bytes(cs.push(c));
    let r = coords_bytes(cs) + coordinate_bytes(c);
    assert forall|k: int| 0 <= k < l.len() implies l[k] == r[k] by {
        if k >= 6 * cs.len() {
            assert(k / 6 == cs.len());
        }
    }
    assert(l =~= r);
}

/// Appending one value appends its two bytes.
proof fn lemma_u16s_bytes_push(vs: Seq<u16>, v: u16)
    ensures
        u16s_bytes(vs.push(v)) == u16s_bytes(vs) + u16_le_bytes(v),
{
    let l = u16s_bytes(vs.push(v));
    let r = u16s_bytes(vs) + u16_le_bytes(v);
    assert forall|k: int| 0 <= k < l.len() implies l[k] == r[k] by {
        if k >= 2 * vs.len() {
            assert(k / 2 == vs.len());
        }
    }
    assert(l =~= r);
}

/// Appends the six bytes of a coordinate.
fn push_coordinate(out: &mut Vec<u8>, c: Coordinate)
    ensures
        final(out)@ == old(out)@ + coordinate_bytes(c),
{
    push_i16_le(out, c.x);
    push_i16_le(out, c.y);
    push_i16_le(out, c.z);
    assert(out@ =~= old(out)@ + coordinate_bytes(c));
}

/// Appends the eight bytes of `src`.
fn push_bytes(out: &mut Vec<u8>, src: &[u8; 8])
    ensures
        final(out)@ == old(out)@ + src@,
{
    let mut i: usize = 0;
    while i < 8
        invariant
            i <= 8,
            out@ == old(out)@ + src@.subrange(0, i as int),
        decreases 8 - i,
    {
        out.push(src[i]);
        assert(src@.subrange(0, i + 1) =~= src@.subrange(0, i as int).push(src@[i as int]));
        i = i + 1;
    }
    assert(src@.subrange(0, 8) =~= src@);
}

/// Appends the sixteen little-endian bytes of `src`.
fn push_u16s(out: &mut Vec<u8>, src: &[u16; 8])
    ensures
        final(out)@ == old(out)@ + u16s_bytes(src@),
{
    let mut i: usize = 0;
    assert(u16s_bytes(src@.subrange(0, 0)) =~= Seq::<u8>::empty());
    assert(out@ =~= old(out)@ + u16s_bytes(src@.subrange(0, 0)));
    while i < 8
        invariant
            i <= 8,
            out@ == old(out)@ + u16s_bytes(src@.subrange(0, i as int)),
        decreases 8 - i,
    {
        push_u16_le(out, src[i]);
        assert(src@.subrange(0, i + 1) =~= src@.subrange(0, i as int).push(src@[i as int]));
        proof {
            lemma_u16s_bytes_push(src@.subrange(0, i as int), src@[i as int]);
        }
        assert(out@ =~= old(out)@ + u16s_bytes(src@.subrange(0, i + 1)));
        i = i + 1;
    }
    assert(src@.subrange(0, 8) =~= src@);
}

/// Appends the forty-eight bytes of `src`.
fn push_coords(out: &mut Vec<u8>, src: &[Coordinate; 8])
    ensures
        final(out)@ == old(out)@ + coords_bytes(src@),
{
    let mut i: usize = 0;
    assert(coords_bytes(src@.subrange(0, 0)) =~= Seq::<u8>::empty());
    assert(out@ =~= old(out)@ + coords_bytes(src@.subrange(0, 0)));
    while i < 8
        invariant
            i <= 8,
            out@ == old(out)@ + coords_bytes(src@.subrange(0, i as int)),
        decreases 8 - i,
    {
        push_coordinate(out, src[i]);
        assert(src@.subrange(0, i + 1) =~= src@.subrange(0, i as int).push(src@[i as int]));
        proof {
            lemma_coords_bytes_push(src@.subrange(0, i as int), src@[i as int]);
        }
        assert(out@ =~= old(out)@ + coords_bytes(src@.subrange(0, i + 1)));
        i = i + 1;
    }
    assert(src@.subrange(0, 8) =~= src@);
}

impl PackedBattleStructure {
    /// Reads the record from the first 128 bytes of `bytes`; the rest is not read.
    pub fn try_from_bytes(bytes: &[u8]) -> (r: Result<PackedBattleStructure, CodecError>)
        ensures
            match r {
                Ok(p) => p.read_from(bytes@),
                Err(e) => bytes@.len() < RECORD_SIZE && e == (CodecError::SizeMismatch {
                    expected: RECORD_SIZE,
                    actual: bytes@.len() as usize,
                }),
            },
    {
        if bytes.len() < RECORD_SIZE {
            return Err(CodecError::SizeMismatch { expected: RECORD_SIZE, actual: bytes.len() });
        }
        let mut enemies_coords = [Coordinate { x: 0, y: 0, z: 0 };8];
        let mut id_enemies = [0u8;8];
        let mut unknown_1 = [0u16;8];
        let mut unknown_2 = [0u16;8];
        let mut unknown_3 = [0u16;8];
        let mut unknown_4 = [0u8;8];
        let mut enemy_level = [0u8;8];
        let mut i: usize = 0;
        while i < ENEMY_SLOTS
            invariant
                i <= 8,
                bytes@.len() >= RECORD_SIZE,
                forall|j: int| 0 <= j < i ==> #[trigger] enemies_coords[j] == coordinate_at(bytes@, 8 + 6 * j),
                forall|j: int| 0 <= j < i ==> #[trigger] id_enemies[j] == bytes@[56 + j],
                forall|j: int| 0 <= j < i ==> #[trigger] unknown_1[j] == le_u16(bytes@, 64 + 2 * j),
                forall|j: int| 0 <= j < i ==> #[trigger] unknown_2[j] == le_u16(bytes@, 80 + 2 * j),
                forall|j: int| 0 <= j < i ==> #[trigger] unknown_3[j] == le_u16(bytes@, 96 + 2 * j),
                forall|j: int| 0 <= j < i ==> #[trigger] unknown_4[j] == bytes@[112 + j],
                forall|j: int| 0 <= j < i ==> #[trigger] enemy_level[j] == bytes@[120 + j],
            decreases 8 - i,
        {
            enemies_coords[i] = read_coordinate(bytes, COORDS_AT + 6 * i);
            id_enemies[i] = bytes[IDS_AT + i];
            unknown_1[i] = read_u16_le(bytes, UNKNOWN_1_AT + 2 * i);
            unknown_2[i] = read_u16_le(bytes, UNKNOWN_2_AT + 2 * i);
            unknown_3[i] = read_u16_le(bytes, UNKNOWN_3_AT + 2 * i);
            unknown_4[i] = bytes[UNKNOWN_4_AT + i];
            enemy_level[i] = bytes[LEVELS_AT + i];
            i = i + 1;
        }
        Ok(PackedBattleStructure {
            stage_id: bytes[0],
            flags: bytes[1],
            main_camera: bytes[2],
            secondary_camera: bytes[3],
            not_visible_enemies: bytes[4],
            not_loaded_enemies: bytes[5],
            not_targetable_enemies: bytes[6],
            enabled_enemies: bytes[7],
            enemies_coords,
            id_enemies,
            unknown_1,
            unknown_2,
            unknown_3,
            unknown_4,
            enemy_level,
        })
    }

    /// Expands the record into its semantic form; fails when an id byte is
    /// below the id offset.
    pub fn into_battle_structure(self) -> (r: Result<BattleStructure, CodecError>)
        ensures
            match r {
                Ok(s) => self.ids_decodable() && s == self.expand(),
                Err(e) => !self.ids_decodable() && e == CodecError::ValueOutOfRange,
            },
    {
        let enemies = [
            self.enemy(0)?,
            self.enemy(1)?,
            self.enemy(2)?,
            self.enemy(3)?,
            self.enemy(4)?,
            self.enemy(5)?,
            self.enemy(6)?,
            self.enemy(7)?,
        ];
        let r = BattleStructure {
            stage_id: self.stage_id,
            flags: self.battle_flags(),
            main_camera: self.main_camera(),
            secondary_camera: self.secondary_camera(),
            enemies,
        };
        assert forall|i: int| 0 <= i < 8 implies #[trigger] self.id_enemies[i] >= ID_OFFSET by {
            if i == 0 {
            } else if i == 1 {
            } else if i == 2 {
            } else if i == 3 {
            } else if i == 4 {
            } else if i == 5 {
            } else if i == 6 {
            } else {
            }
        }
        assert(r.enemies@ =~= self.expand().enemies@);
        assert(r.enemies == self.expand().enemies);
        Ok(r)
    }

    /// The main camera: number from the high nibble, animation from the low one.
    pub fn main_camera(&self) -> (r: CameraAttributes)
        ensures
            r == camera_of_byte(self.main_camera),
    {
        CameraAttributes { number: self.main_camera >> 4, animation: self.main_camera & 0xF }
    }

    /// The secondary camera: number from the high nibble, animation from the low one.
    pub fn secondary_camera(&self) -> (r: CameraAttributes)
        ensures
            r == camera_of_byte(self.secondary_camera),
    {
        CameraAttributes {
            number: self.secondary_camera >> 4,
            animation: self.secondary_camera & 0xF,
        }
    }

    /// The flags: bit 0 of the flags byte is the first flag.
    pub fn battle_flags(&self) -> (r: BattleFlags)
        ensures
            r == flags_of_byte(self.flags),
    {
        BattleFlags {
            cannot_escape: (self.flags & (1 << 0)) != 0,
            disable_win_fanfare: (self.flags & (1 << 1)) != 0,
            show_timer: (self.flags & (1 << 2)) != 0,
            no_exp: (self.flags & (1 << 3)) != 0,
            disable_exp_screen: (self.flags & (1 << 4)) != 0,
            force_surprise_attack: (self.flags & (1 << 5)) != 0,
            force_back_attack: (self.flags & (1 << 6)) != 0,
            scripted_battle: (self.flags & (1 << 7)) != 0,
        }
    }

    /// The enemy of slot `index`; fails when its id byte is below the id offset.
    pub fn enemy(&self, index: usize) -> (r: Result<Enemy, CodecError>)
        requires
            index < ENEMY_SLOTS,
        ensures
            match r {
                Ok(e) => self.id_enemies[index as int] >= ID_OFFSET && e == self.enemy_of(index as int),
                Err(e) => self.id_enemies[index as int] < ID_OFFSET && e == CodecError::ValueOutOfRange,
            },
    {
        if self.id_enemies[index] < ID_OFFSET {
            return Err(CodecError::ValueOutOfRange);
        }
        let mask: u8 = 0x80 >> index;
        Ok(Enemy {
            id: self.id_enemies[index] - ID_OFFSET,
            level: self.enemy_level[index],
            enabled: (self.enabled_enemies & mask) != 0,
            not_loaded: (self.not_loaded_enemies & mask) != 0,
            invisible: (self.not_visible_enemies & mask) != 0,
            untargetable: (self.not_targetable_enemies & mask) != 0,
            coordinate: self.enemies_coords[index],
            unknown_1: self.unknown_1[index],
            unknown_2: self.unknown_2[index],
            unknown_3: self.unknown_3[index],
            unknown_4: self.unknown_4[index],
        })
    }

    /// The record's 128 bytes.
    pub fn to_bytes(&self) -> (r: Vec<u8>)
        ensures
            r@ == self.spec_bytes(),
            r@.len() == RECORD_SIZE,
    {
        let mut out: Vec<u8> = Vec::with_capacity(RECORD_SIZE);
        out.push(self.stage_id);
        out.push(self.flags);
        out.push(self.main_camera);
        out.push(self.secondary_camera);
        out.push(self.not_visible_enemies);
        out.push(self.not_loaded_enemies);
        out.push(self.not_targetable_enemies);
        out.push(self.enabled_enemies);
        push_coords(&mut out, &self.enemies_coords);
        push_bytes(&mut out, &self.id_enemies);
        push_u16s(&mut out, &self.unknown_1);
        push_u16s(&mut out, &self.unknown_2);
        push_u16s(&mut out, &self.unknown_3);
        push_bytes(&mut out, &self.unknown_4);
        push_bytes(&mut out, &self.enemy_level);
        assert(out@ =~= self.spec_bytes());
        out
    }
}

impl BattleStructure {
    /// `f` of each enemy, slot 0 first.
    pub open spec fn slot_flags(self, f: EnemyFlag) -> Seq<bool> {
        Seq::new(8, |i: int| f.of(self.enemies[i]))
    }

    /// The coordinate of each enemy, slot 0 first.
    pub open spec fn coordinates(self) -> Seq<Coordinate> {
        Seq::new(8, |i: int| self.enemies[i].coordinate)
    }

    /// The id byte of each enemy: its id plus the id offset.
    pub open spec fn raw_ids(self) -> Seq<u8> {
        Seq::new(8, |i: int| (self.enemies[i].id + ID_OFFSET) as u8)
    }

    /// The level of each enemy.
    pub open spec fn levels(self) -> Seq<u8> {
        Seq::new(8, |i: int| self.enemies[i].level)
    }

    /// The first opaque value of each enemy.
    pub open spec fn unknown_1s(self) -> Seq<u16> {
        Seq::new(8, |i: int| self.enemies[i].unknown_1)
    }

    /// The second opaque value of each enemy.
    pub open spec fn unknown_2s(self) -> Seq<u16> {
        Seq::new(8, |i: int| self.enemies[i].unknown_2)
    }

    /// The third opaque value of each enemy.
    pub open spec fn unknown_3s(self) -> Seq<u16> {
        Seq::new(8, |i: int| self.enemies[i].unknown_3)
    }

    /// The fourth opaque value of each enemy.
    pub open spec fn unknown_4s(self) -> Seq<u8> {
        Seq::new(8, |i: int| self.enemies[i].unknown_4)
    }

    /// Both cameras' numbers and animations fit in four bits.
    pub open spec fn cameras_fit(self) -> bool {
        &&& self.main_camera.number < 16
        &&& self.main_camera.animation < 16
        &&& self.secondary_camera.number < 16
        &&& self.secondary_camera.animation < 16
    }

    /// Every enemy id plus the id offset fits in the id byte.
    pub open spec fn ids_encodable(self) -> bool {
        forall|i: int| 0 <= i < 8 ==> #[trigger] self.enemies[i].id + ID_OFFSET <= 0xFF
    }

    /// `p` is the packed form of this structure.
    pub open spec fn packs_into(self, p: PackedBattleStructure) -> bool {
        &&& p.stage_id == self.stage_id
        &&& p.flags == flags_byte(self.flags)
        &&& p.main_camera == camera_byte(self.main_camera)
        &&& p.secondary_camera == camera_byte(self.secondary_camera)
        &&& p.not_visible_enemies == mask_byte(self.slot_flags(EnemyFlag::Invisible))
        &&& p.not_loaded_enemies == mask_byte(self.slot_flags(EnemyFlag::NotLoaded))
        &&& p.not_targetable_enemies == mask_byte(self.slot_flags(EnemyFlag::Untargetable))
        &&& p.enabled_enemies == mask_byte(self.slot_flags(EnemyFlag::Enabled))
        &&& p.enemies_coords@ == self.coordinates()
        &&& p.id_enemies@ == self.raw_ids()
        &&& p.unknown_1@ == self.unknown_1s()
        &&& p.unknown_2@ == self.unknown_2s()
        &&& p.unknown_3@ == self.unknown_3s()
        &&& p.unknown_4@ == self.unknown_4s()
        &&& p.enemy_level@ == self.levels()
    }

    /// The 128 bytes of this structure's record.
    pub open spec fn spec_bytes(self) -> Seq<u8> {
        seq![
            self.stage_id,
            flags_byte(self.flags),
            camera_byte(self.main_camera),
            camera_byte(self.secondary_camera),
            mask_byte(self.slot_flags(EnemyFlag::Invisible)),
            mask_byte(self.slot_flags(EnemyFlag::NotLoaded)),
            mask_byte(self.slot_flags(EnemyFlag::Untargetable)),
            mask_byte(self.slot_flags(EnemyFlag::Enabled)),
        ] + coords_bytes(self.coordinates()) + self.raw_ids() + u16s_bytes(self.unknown_1s())
            + u16s_bytes(self.unknown_2s()) + u16s_bytes(self.unknown_3s()) + self.unknown_4s()
            + self.levels()
    }

    /// The flags byte: the first flag in bit 0.
    pub fn packed_battle_flags(&self) -> (r: u8)
        ensures
            r == flags_byte(self.flags),
    {
        flag_bit_of(self.flags.cannot_escape, 0) | flag_bit_of(self.flags.disable_win_fanfare, 1)
            | flag_bit_of(self.flags.show_timer, 2) | flag_bit_of(self.flags.no_exp, 3)
            | flag_bit_of(self.flags.disable_exp_screen, 4) | flag_bit_of(
            self.flags.force_surprise_attack,
            5,
        ) | flag_bit_of(self.flags.force_back_attack, 6) | flag_bit_of(
            self.flags.scripted_battle,
            7,
        )
    }

    /// The mask byte of flag `f`: slot 0 in the most significant bit.
    fn packed_slots(&self, f: EnemyFlag) -> (r: u8)
        ensures
            r == mask_byte(self.slot_flags(f)),
    {
        let mut mask: u8 = 0;
        let mut i: usize = 0;
        proof {
            assert forall|j: u8| j < 8 implies !#[trigger] slot_set(mask, j) by {
                lemma_slot_zero(j);
            }
        }
        while i < ENEMY_SLOTS
            invariant
                i <= 8,
                forall|j: u8| j < i ==> #[trigger] slot_set(mask, j) == self.slot_flags(f)[j as int],
                forall|j: u8| i <= j < 8 ==> !#[trigger] slot_set(mask, j),
            decreases 8 - i,
        {
            let on = f.get(&self.enemies[i]);
            proof {
                lemma_slot_update_all(mask, on, i as u8);
            }
            mask = mask | slot_bit_of(on, i as u8);
            i = i + 1;
        }
        proof {
            lemma_mask_byte_slots(self.slot_flags(f));
            lemma_slots_determine_mask(mask, mask_byte(self.slot_flags(f)));
        }
        mask
    }

    /// The mask byte of invisible enemies.
    pub fn packed_not_visible_enemies(&self) -> (r: u8)
        ensures
            r == mask_byte(self.slot_flags(EnemyFlag::Invisible)),
    {
        self.packed_slots(EnemyFlag::Invisible)
    }

    /// The mask byte of enemies that are not loaded.
    pub fn packed_not_loaded_enemies(&self) -> (r: u8)
        ensures
            r == mask_byte(self.slot_flags(EnemyFlag::NotLoaded)),
    {
        self.packed_slots(EnemyFlag::NotLoaded)
    }

    /// The mask byte of enabled enemies.
    pub fn packed_enabled_enemies(&self) -> (r: u8)
        ensures
            r == mask_byte(self.slot_flags(EnemyFlag::Enabled)),
    {
        self.packed_slots(EnemyFlag::Enabled)
    }

    /// The mask byte of enemies that cannot be targeted.
    pub fn packed_untargetable_enemies(&self) -> (r: u8)
        ensures
            r == mask_byte(self.slot_flags(EnemyFlag::Untargetable)),
    {
        self.packed_slots(EnemyFlag::Untargetable)
    }
    /// Collapses the structure into its packed record; fails when an enemy id
    /// plus the id offset does not fit in a byte. Camera numbers and
    /// animations are cut to four bits.
    pub fn to_packed(&self) -> (r: Result<PackedBattleStructure, CodecError>)
        ensures
            match r {
                Ok(p) => self.ids_encodable() && self.packs_into(p),
                Err(e) => !self.ids_encodable() && e == CodecError::ValueOutOfRange,
            },
    {
        let mut enemies_coords = [Coordinate { x: 0, y: 0, z: 0 };8];
        let mut id_enemies = [0u8;8];
        let mut unknown_1 = [0u16;8];
        let mut unknown_2 = [0u16;8];
        let mut unknown_3 = [0u16;8];
        let mut unknown_4 = [0u8;8];
        let mut enemy_level = [0u8;8];
        let mut i: usize = 0;
        while i < ENEMY_SLOTS
            invariant
                i <= 8,
                forall|j: int| 0 <= j < i ==> #[trigger] self.enemies[j].id + ID_OFFSET <= 0xFF,
                forall|j: int| 0 <= j < i ==> #[trigger] enemies_coords[j] == self.coordinates()[j],
                forall|j: int| 0 <= j < i ==> #[trigger] id_enemies[j] == self.raw_ids()[j],
                forall|j: int| 0 <= j < i ==> #[trigger] unknown_1[j] == self.unknown_1s()[j],
                forall|j: int| 0 <= j < i ==> #[trigger] unknown_2[j] == self.unknown_2s()[j],
                forall|j: int| 0 <= j < i ==> #[trigger] unknown_3[j] == self.unknown_3s()[j],
                forall|j: int| 0 <= j < i ==> #[trigger] unknown_4[j] == self.unknown_4s()[j],
                forall|j: int| 0 <= j < i ==> #[trigger] enemy_level[j] == self.levels()[j],
            decreases 8 - i,
        {
            let enemy = &self.enemies[i];
            if enemy.id > 0xFF - ID_OFFSET {
                return Err(CodecError::ValueOutOfRange);
            }
            enemies_coords[i] = enemy.coordinate;
            id_enemies[i] = enemy.id + ID_OFFSET;
            unknown_1[i] = enemy.unknown_1;
            unknown_2[i] = enemy.unknown_2;
            unknown_3[i] = enemy.unknown_3;
            unknown_4[i] = enemy.unknown_4;
            enemy_level[i] = enemy.level;
            i = i + 1;
        }
        let p = PackedBattleStructure {
            stage_id: self.stage_id,
            flags: self.packed_battle_flags(),
            main_camera: (self.main_camera.number << 4) | (self.main_camera.animation & 0xF),
            secondary_camera: (self.secondary_camera.number << 4) | (self.secondary_camera.animation
                & 0xF),
            not_visible_enemies: self.packed_not_visible_enemies(),
            not_loaded_enemies: self.packed_not_loaded_enemies(),
            not_targetable_enemies: self.packed_untargetable_enemies(),
            enabled_enemies: self.packed_enabled_enemies(),
            enemies_coords,
            id_enemies,
            unknown_1,
            unknown_2,
            unknown_3,
            unknown_4,
            enemy_level,
        };
        assert(p.enemies_coords@ =~= self.coordinates());
        assert(p.id_enemies@ =~= self.raw_ids());
        assert(p.unknown_1@ =~= self.unknown_1s());
        assert(p.unknown_2@ =~= self.unknown_2s());
        assert(p.unknown_3@ =~= self.unknown_3s());
        assert(p.unknown_4@ =~= self.unknown_4s());
        assert(p.enemy_level@ =~= self.levels());
        Ok(p)
    }

    /// The structure's 128-byte record; fails when an enemy id plus the id
    /// offset does not fit in a byte.
    pub fn as_packed_bytes(&self) -> (r: Result<Vec<u8>, CodecError>)
        ensures
            match r {
                Ok(bytes) => {
                    &&& self.ids_encodable()
                    &&& bytes@ == self.spec_bytes()
                    &&& bytes@.len() == RECORD_SIZE
                },
                Err(e) => !self.ids_encodable() && e == CodecError::ValueOutOfRange,
            },
    {
        let packed = self.to_packed()?;
        let bytes = packed.to_bytes();
        assert(packed.spec_bytes() =~= self.spec_bytes());
        Ok(bytes)
    }
    /// Decodes the record in the first 128 bytes of `bytes`.
    pub fn try_from_bytes(bytes: &[u8]) -> (r: Result<BattleStructure, CodecError>)
        ensures
            match r {
                Ok(s) => {
                    &&& bytes@.len() >= RECORD_SIZE
                    &&& ids_decodable_at(bytes@)
                    &&& s == structure_of(bytes@)
                },
                Err(e) => if bytes@.len() < RECORD_SIZE {
                    e == (CodecError::SizeMismatch {
                        expected: RECORD_SIZE,
                        actual: bytes@.len() as usize,
                    })
                } else {
                    !ids_decodable_at(bytes@) && e == CodecError::ValueOutOfRange
                },
            },
    {
        let packed = PackedBattleStructure::try_from_bytes(bytes)?;
        let ghost b = bytes@;
        assert(packed.ids_decodable() <==> ids_decodable_at(b)) by {
            if packed.ids_decodable() {
                assert forall|i: int| 0 <= i < 8 implies #[trigger] b[56 + i] >= ID_OFFSET by {
                    assert(packed.id_enemies[i] >= ID_OFFSET);
                }
            }
            if ids_decodable_at(b) {
                assert forall|i: int| 0 <= i < 8 implies #[trigger] packed.id_enemies[i]
                    >= ID_OFFSET by {
                    assert(b[56 + i] >= ID_OFFSET);
                }
            }
        }
        let s = packed.into_battle_structure()?;
        assert forall|i: int| 0 <= i < 8 implies #[trigger] packed.enemy_of(i) == enemy_at(b, i) by {
            assert(packed.enemies_coords[i] == coordinate_at(b, 8 + 6 * i));
            assert(packed.unknown_1[i] == le_u16(b, 64 + 2 * i));
            assert(packed.unknown_2[i] == le_u16(b, 80 + 2 * i));
            assert(packed.unknown_3[i] == le_u16(b, 96 + 2 * i));
            assert(packed.id_enemies[i] == b[56 + i]);
            assert(packed.unknown_4[i] == b[112 + i]);
            assert(packed.enemy_level[i] == b[120 + i]);
        }
        assert(s.enemies@ =~= structure_of(b).enemies@);
        Ok(s)
    }
}

} // verus!
