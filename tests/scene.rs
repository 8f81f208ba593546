use kyactus_ff8::scene::{read_battle_structures, write_packed_battle_structure};
use kyactus_ff8::{BattleStructure, CodecError};

fn record(stage_id: u8, first_raw_id: u8) -> Vec<u8> {
    let mut bytes = vec![0u8; 128];
    bytes[0] = stage_id;
    for id in bytes[56..64].iter_mut() {
        *id = 0x10;
    }
    bytes[56] = first_raw_id;
    bytes
}

#[test]
fn scene_round_trip() {
    let mut scene = record(1, 0x20);
    scene.extend(record(2, 0x30));
    scene.extend(record(3, 0x40));
    let list = read_battle_structures(&scene, 3).unwrap();
    assert_eq!(list.len(), 3);
    assert_eq!(list[1].stage_id, 2);
    assert_eq!(list[2].enemies[0].id, 0x30);
    assert_eq!(write_packed_battle_structure(&list, 3).unwrap(), scene);
}

#[test]
fn scene_of_wrong_size_is_rejected() {
    let scene = record(1, 0x20);
    assert_eq!(
        read_battle_structures(&scene, 2).unwrap_err(),
        CodecError::SizeMismatch { expected: 256, actual: 128 }
    );
    let mut longer = scene.clone();
    longer.push(0);
    assert_eq!(
        read_battle_structures(&longer, 1).unwrap_err(),
        CodecError::SizeMismatch { expected: 128, actual: 129 }
    );
    assert_eq!(read_battle_structures(&[], 0).unwrap(), Vec::<BattleStructure>::new());
}

#[test]
fn scene_with_bad_record_fails_whole() {
    let mut scene = record(1, 0x20);
    scene.extend(record(2, 0x05));
    assert_eq!(read_battle_structures(&scene, 2).unwrap_err(), CodecError::ValueOutOfRange);
}

#[test]
fn scene_write_checks_count() {
    let list = read_battle_structures(&record(9, 0x11), 1).unwrap();
    assert_eq!(
        write_packed_battle_structure(&list, 2).unwrap_err(),
        CodecError::CountMismatch { expected: 2, actual: 1 }
    );
    let mut bad = list.clone();
    bad[0].enemies[4].id = 0xf5;
    assert_eq!(write_packed_battle_structure(&bad, 1).unwrap_err(), CodecError::ValueOutOfRange);
}
