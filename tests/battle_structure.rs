use kyactus_ff8::{
    BattleFlags, BattleStructure, CameraAttributes, CodecError, Coordinate, Enemy,
    PackedBattleStructure,
};

const BYTES: [u8; 128] = [
    0x06, 0x81, 0x00, 0x13, 0x00, 0x00, 0x00, 0x80, 0x4c, 0x04, 0x00, 0x00, 0x1c, 0xf3, 0x9c, 0xff,
    0x00, 0x00, 0xbc, 0xe9, 0x90, 0x01, 0x00, 0x00, 0xbc, 0xe9, 0x74, 0xf5, 0x00, 0x00, 0xbc, 0xe9,
    0x5c, 0xf9, 0x00, 0x00, 0xbc, 0xe9, 0xa8, 0xfd, 0x00, 0x00, 0xbc, 0xe9, 0x68, 0xf7, 0x00, 0x00,
    0xbc, 0xe9, 0x50, 0xfb, 0x00, 0x00, 0xbc, 0xe9, 0x57, 0x10, 0x10, 0x10, 0x10, 0x10, 0x10, 0x10,
    0x70, 0x7f, 0xc8, 0x00, 0xc8, 0x00, 0xc8, 0x00, 0xc8, 0x00, 0xc8, 0x00, 0xc8, 0x00, 0xc8, 0x00,
    0x17, 0x01, 0xc8, 0x00, 0xc8, 0x00, 0xc8, 0x00, 0xc8, 0x00, 0xc8, 0x00, 0xc8, 0x00, 0xc8, 0x00,
    0x90, 0x04, 0x60, 0xea, 0x60, 0xea, 0x60, 0xea, 0x60, 0xea, 0x60, 0xea, 0x60, 0xea, 0x60, 0xea,
    0x01, 0x02, 0x02, 0x02, 0x02, 0x02, 0x02, 0x02, 0xff, 0xff, 0xff, 0xff, 0xff, 0xff, 0xff, 0xff,
];

fn sample_enemy(id: u8) -> Enemy {
    Enemy {
        id,
        level: 12,
        enabled: false,
        invisible: false,
        not_loaded: false,
        untargetable: false,
        coordinate: Coordinate { x: -1, y: 300, z: -32768 },
        unknown_1: 0x1234,
        unknown_2: 0xffff,
        unknown_3: 0,
        unknown_4: 0x7f,
    }
}

fn sample_structure() -> BattleStructure {
    let mut enemies = [sample_enemy(0); 8];
    for (i, enemy) in enemies.iter_mut().enumerate() {
        enemy.id = (i as u8) * 30;
        enemy.level = i as u8 + 1;
        enemy.coordinate.x = (i as i16) * -1000;
    }
    enemies[0].enabled = true;
    enemies[2].invisible = true;
    enemies[5].not_loaded = true;
    enemies[7].untargetable = true;
    BattleStructure {
        stage_id: 0xa3,
        flags: BattleFlags {
            cannot_escape: false,
            disable_win_fanfare: true,
            show_timer: false,
            no_exp: true,
            disable_exp_screen: false,
            force_surprise_attack: false,
            force_back_attack: true,
            scripted_battle: false,
        },
        main_camera: CameraAttributes { number: 3, animation: 7 },
        secondary_camera: CameraAttributes { number: 15, animation: 0 },
        enemies,
    }
}

#[test]
fn verify_pattle_battle_structure_layout() {
    assert_eq!(std::mem::size_of::<PackedBattleStructure>(), 128);
}

#[test]
fn verify_coordinate_layout() {
    assert_eq!(std::mem::size_of::<Coordinate>(), 6);
}

#[test]
fn test_parser() {
    let packed_battle_structure = PackedBattleStructure::try_from_bytes(&BYTES).unwrap();
    println!("{:?}", packed_battle_structure);
    assert_eq!(packed_battle_structure.stage_id, 6);
}

#[test]
fn test_parse_battle_structure() {
    let packed_battle_structure = PackedBattleStructure::try_from_bytes(&BYTES).unwrap();
    let battle_structure = packed_battle_structure.into_battle_structure().unwrap();
    println!("{:?}", battle_structure);
    assert_eq!(battle_structure.stage_id, 6);

    assert!(battle_structure.flags.cannot_escape);
    assert!(battle_structure.flags.scripted_battle);
    assert!(!battle_structure.flags.no_exp);
    assert!(!battle_structure.flags.force_back_attack);
    assert!(!battle_structure.flags.force_surprise_attack);
    assert!(!battle_structure.flags.show_timer);
    assert!(!battle_structure.flags.disable_exp_screen);
    assert!(!battle_structure.flags.disable_win_fanfare);

    assert_eq!(battle_structure.main_camera.number, 0);
    assert_eq!(battle_structure.main_camera.animation, 0);
    assert_eq!(battle_structure.secondary_camera.number, 1);
    assert_eq!(battle_structure.secondary_camera.animation, 3);

    assert_eq!(battle_structure.enemies[0].id, 71);
    assert_eq!(battle_structure.enemies[0].level, 255);
    assert!(battle_structure.enemies[0].enabled);
    assert!(!battle_structure.enemies[0].invisible);
    assert!(!battle_structure.enemies[0].untargetable);
    assert!(!battle_structure.enemies[0].not_loaded);
    assert_eq!(battle_structure.enemies[0].coordinate.x, 1100);
    assert_eq!(battle_structure.enemies[0].coordinate.y, 0);
    assert_eq!(battle_structure.enemies[0].coordinate.z, -3300);
    assert_eq!(battle_structure.enemies[0].unknown_1, 0x7f70);
    assert_eq!(battle_structure.enemies[0].unknown_2, 0x117);
    assert_eq!(battle_structure.enemies[0].unknown_3, 0x490);
    assert_eq!(battle_structure.enemies[0].unknown_4, 0x1);

    assert_eq!(battle_structure.enemies[4].id, 0);
    assert_eq!(battle_structure.enemies[4].level, 255);
    assert!(!battle_structure.enemies[4].enabled);
    assert!(!battle_structure.enemies[4].invisible);
    assert!(!battle_structure.enemies[4].untargetable);
    assert!(!battle_structure.enemies[4].not_loaded);
    assert_eq!(battle_structure.enemies[4].coordinate.x, -1700);
    assert_eq!(battle_structure.enemies[4].coordinate.y, 0);
    assert_eq!(battle_structure.enemies[4].coordinate.z, -5700);
    assert_eq!(battle_structure.enemies[4].unknown_1, 0xc8);
    assert_eq!(battle_structure.enemies[4].unknown_2, 0xc8);
    assert_eq!(battle_structure.enemies[4].unknown_3, 0xea60);
    assert_eq!(battle_structure.enemies[4].unknown_4, 0x2);
}

#[test]
fn test_parser_and_writer() {
    let packed_battle_structure = PackedBattleStructure::try_from_bytes(&BYTES).unwrap();
    let battle_structure = packed_battle_structure.into_battle_structure().unwrap();
    assert_eq!(battle_structure.as_packed_bytes().unwrap(), BYTES);
}

#[test]
fn packed_record_bytes_round_trip() {
    let packed = PackedBattleStructure::try_from_bytes(&BYTES).unwrap();
    assert_eq!(packed.to_bytes(), BYTES.to_vec());
    assert_eq!(packed.id_enemies, [0x57, 0x10, 0x10, 0x10, 0x10, 0x10, 0x10, 0x10]);
    assert_eq!(packed.unknown_3[1], 0xea60);
    assert_eq!(packed.enemies_coords[1], Coordinate { x: -100, y: 0, z: -5700 });
}

#[test]
fn decoding_reads_only_the_first_record() {
    let mut longer = BYTES.to_vec();
    longer.extend_from_slice(&[0xaa; 10]);
    let structure = BattleStructure::try_from_bytes(&longer).unwrap();
    assert_eq!(structure.enemies[0].id, 71);
    assert_eq!(structure.as_packed_bytes().unwrap(), BYTES.to_vec());
}

#[test]
fn short_buffer_is_a_size_mismatch() {
    assert_eq!(
        PackedBattleStructure::try_from_bytes(&BYTES[..127]).unwrap_err(),
        CodecError::SizeMismatch { expected: 128, actual: 127 }
    );
    assert_eq!(
        BattleStructure::try_from_bytes(&[]).unwrap_err(),
        CodecError::SizeMismatch { expected: 128, actual: 0 }
    );
}

#[test]
fn structure_round_trip() {
    let structure = sample_structure();
    let bytes = structure.as_packed_bytes().unwrap();
    assert_eq!(bytes.len(), 128);
    assert_eq!(BattleStructure::try_from_bytes(&bytes).unwrap(), structure);
}

#[test]
fn flags_byte_is_lsb_first() {
    let mut bytes = BYTES;
    bytes[1] = 0x01;
    let flags = BattleStructure::try_from_bytes(&bytes).unwrap().flags;
    assert!(flags.cannot_escape);
    assert!(!flags.scripted_battle);
    assert!(!flags.disable_win_fanfare);

    bytes[1] = 0x80;
    let flags = BattleStructure::try_from_bytes(&bytes).unwrap().flags;
    assert!(!flags.cannot_escape);
    assert!(flags.scripted_battle);

    let mut structure = sample_structure();
    structure.flags = BattleFlags {
        cannot_escape: true,
        disable_win_fanfare: false,
        show_timer: false,
        no_exp: false,
        disable_exp_screen: false,
        force_surprise_attack: false,
        force_back_attack: false,
        scripted_battle: false,
    };
    assert_eq!(structure.packed_battle_flags(), 0x01);
    structure.flags.show_timer = true;
    assert_eq!(structure.packed_battle_flags(), 0x05);
}

#[test]
fn enemy_masks_are_msb_first() {
    let mut bytes = BYTES;
    bytes[7] = 0x80;
    bytes[4] = 0x01;
    let structure = BattleStructure::try_from_bytes(&bytes).unwrap();
    assert!(structure.enemies[0].enabled);
    assert!(!structure.enemies[7].enabled);
    assert!(structure.enemies[7].invisible);
    assert!(!structure.enemies[0].invisible);

    let structure = sample_structure();
    assert_eq!(structure.packed_enabled_enemies(), 0x80);
    assert_eq!(structure.packed_not_visible_enemies(), 0x20);
    assert_eq!(structure.packed_not_loaded_enemies(), 0x04);
    assert_eq!(structure.packed_untargetable_enemies(), 0x01);
}

#[test]
fn camera_nibbles_split_and_join() {
    let mut packed = PackedBattleStructure::try_from_bytes(&BYTES).unwrap();
    packed.main_camera = 0x13;
    assert_eq!(packed.main_camera(), CameraAttributes { number: 1, animation: 3 });
    let structure = packed.into_battle_structure().unwrap();
    assert_eq!(structure.as_packed_bytes().unwrap()[2], 0x13);
    assert_eq!(structure.to_packed().unwrap().main_camera, 0x13);
}

#[test]
fn camera_values_are_cut_to_four_bits() {
    let mut structure = sample_structure();
    structure.main_camera = CameraAttributes { number: 0x1f, animation: 0x13 };
    let bytes = structure.as_packed_bytes().unwrap();
    assert_eq!(bytes[2], 0xf3);
    let back = BattleStructure::try_from_bytes(&bytes).unwrap();
    assert_eq!(back.main_camera, CameraAttributes { number: 0x0f, animation: 0x03 });
}

#[test]
fn enemy_id_is_offset_by_sixteen() {
    let mut packed = PackedBattleStructure::try_from_bytes(&BYTES).unwrap();
    packed.id_enemies[0] = 0x47;
    assert_eq!(packed.enemy(0).unwrap().id, 0x37);
    assert_eq!(packed.enemy(0).unwrap().id, 55);

    let mut structure = sample_structure();
    structure.enemies[0].id = 55;
    assert_eq!(structure.as_packed_bytes().unwrap()[56], 0x47);
    assert_eq!(structure.to_packed().unwrap().id_enemies[0], 0x47);
}

#[test]
fn low_raw_id_is_out_of_range() {
    let mut packed = PackedBattleStructure::try_from_bytes(&BYTES).unwrap();
    packed.id_enemies[6] = 0x0f;
    assert_eq!(packed.enemy(6).unwrap_err(), CodecError::ValueOutOfRange);
    assert!(packed.enemy(5).is_ok());
    assert_eq!(packed.into_battle_structure().unwrap_err(), CodecError::ValueOutOfRange);

    let mut bytes = BYTES;
    bytes[56 + 3] = 0x00;
    assert_eq!(BattleStructure::try_from_bytes(&bytes).unwrap_err(), CodecError::ValueOutOfRange);
}

#[test]
fn high_id_is_out_of_range() {
    let mut structure = sample_structure();
    structure.enemies[3].id = 0xef;
    assert_eq!(structure.as_packed_bytes().unwrap()[56 + 3], 0xff);
    structure.enemies[3].id = 0xf0;
    assert_eq!(structure.as_packed_bytes().unwrap_err(), CodecError::ValueOutOfRange);
    assert_eq!(structure.to_packed().unwrap_err(), CodecError::ValueOutOfRange);
}

#[test]
fn end_to_end_record() {
    let mut bytes = [0u8; 128];
    bytes[0] = 0x06;
    bytes[1] = 0x81;
    bytes[2] = 0x00;
    bytes[7] = 0x80;
    for id in bytes[56..64].iter_mut() {
        *id = 0x10;
    }
    bytes[56] = 0x47 + 0x10;
    let structure = BattleStructure::try_from_bytes(&bytes).unwrap();
    assert_eq!(structure.stage_id, 6);
    assert!(structure.flags.cannot_escape);
    assert!(structure.flags.scripted_battle);
    assert!(!structure.flags.disable_win_fanfare);
    assert!(!structure.flags.show_timer);
    assert!(!structure.flags.no_exp);
    assert!(!structure.flags.disable_exp_screen);
    assert!(!structure.flags.force_surprise_attack);
    assert!(!structure.flags.force_back_attack);
    assert_eq!(structure.main_camera, CameraAttributes { number: 0, animation: 0 });
    assert_eq!(structure.enemies[0].id, 71);
    assert!(structure.enemies[0].enabled);
    assert!(!structure.enemies[1].enabled);
    assert_eq!(structure.as_packed_bytes().unwrap(), bytes.to_vec());
}

#[test]
fn little_endian_fields_are_exact() {
    let mut structure = sample_structure();
    structure.enemies[1].coordinate = Coordinate { x: -2, y: 0x0102, z: i16::MAX };
    structure.enemies[1].unknown_2 = 0xabcd;
    let bytes = structure.as_packed_bytes().unwrap();
    assert_eq!(&bytes[14..20], &[0xfe, 0xff, 0x02, 0x01, 0xff, 0x7f]);
    assert_eq!(&bytes[82..84], &[0xcd, 0xab]);
    assert_eq!(bytes[121], 2);
    assert_eq!(bytes[113], 0x7f);
}
