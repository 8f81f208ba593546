//! A scene buffer: a fixed number of records back to back, with no header,
//! footer or separator.
use vstd::prelude::*;

use crate::battle_structure::{ids_decodable_at, structure_of, BattleStructure, RECORD_SIZE};
use crate::error::CodecError;

verus! {

/// The `j`-th record of the scene buffer `b`.
pub open spec fn record_window(b: Seq<u8>, j: int) -> Seq<u8> {
    b.subrange(RECORD_SIZE * j, RECORD_SIZE * j + RECORD_SIZE)
}

/// Decodes the `count` records of a scene buffer, in order. Fails when the
/// buffer is not exactly `count` records long, or when a record cannot be
/// decoded; no structure is returned then.
pub fn read_battle_structures(
    bytes: &[u8],
    count: usize,
) -> (r: Result<Vec<BattleStructure>, CodecError>)
    requires
        count * RECORD_SIZE <= usize::MAX,
    ensures
        match r {
            Ok(v) => {
                &&& bytes@.len() == count * RECORD_SIZE
                &&& v@.len() == count
                &&& forall|j: int|
                    0 <= j < count ==> ids_decodable_at(#[trigger] record_window(bytes@, j))
                &&& forall|j: int|
                    0 <= j < count ==> #[trigger] v@[j] == structure_of(record_window(bytes@, j))
            },
            Err(e) => if bytes@.len() != count * RECORD_SIZE {
                e == (CodecError::SizeMismatch {
                    expected: (count * RECORD_SIZE) as usize,
                    actual: bytes@.len() as usize,
                })
            } else {
                &&& exists|j: int|
                    0 <= j < count && !ids_decodable_at(#[trigger] record_window(bytes@, j))
                &&& e == CodecError::ValueOutOfRange
            },
        },
{
    let expected = count * RECORD_SIZE;
    if bytes.len() != expected {
        return Err(CodecError::SizeMismatch { expected, actual: bytes.len() });
    }
    let mut list: Vec<BattleStructure> = Vec::with_capacity(count);
    let mut i: usize = 0;
    while i < count
        invariant
            i <= count,
            count * RECORD_SIZE <= usize::MAX,
            bytes@.len() == count * RECORD_SIZE,
            list@.len() == i,
            forall|j: int| 0 <= j < i ==> ids_decodable_at(#[trigger] record_window(bytes@, j)),
            forall|j: int| 0 <= j < i ==> #[trigger] list@[j] == structure_of(record_window(bytes@, j)),
        decreases count - i,
    {
        let offset = i * RECORD_SIZE;
        let window = vstd::slice::slice_subrange(bytes, offset, offset + RECORD_SIZE);
        assert(window@ == record_window(bytes@, i as int));
        match BattleStructure::try_from_bytes(window) {
            Ok(s) => list.push(s),
            Err(e) => {
                return Err(e);
            },
        }
        i = i + 1;
    }
    Ok(list)
}

/// Encodes exactly `count` structures into one buffer, their records back to
/// back in order. Fails when the list does not hold `count` structures, or
/// when one of them cannot be encoded; no buffer is returned then.
pub fn write_packed_battle_structure(
    battle_structure_list: &Vec<BattleStructure>,
    count: usize,
) -> (r: Result<Vec<u8>, CodecError>)
    requires
        count * RECORD_SIZE <= usize::MAX,
    ensures
        match r {
            Ok(bytes) => {
                &&& battle_structure_list@.len() == count
                &&& bytes@.len() == count * RECORD_SIZE
                &&& forall|j: int| 0 <= j < count ==> #[trigger] battle_structure_list@[j].ids_encodable()
                &&& forall|j: int|
                    0 <= j < count ==> #[trigger] record_window(bytes@, j)
                        == battle_structure_list@[j].spec_bytes()
            },
            Err(e) => if battle_structure_list@.len() != count {
                e == (CodecError::CountMismatch {
                    expected: count,
                    actual: battle_structure_list@.len() as usize,
                })
            } else {
                &&& exists|j: int|
                    0 <= j < count && !#[trigger] battle_structure_list@[j].ids_encodable()
                &&& e == CodecError::ValueOutOfRange
            },
        },
{
    if battle_structure_list.len() != count {
        return Err(
            CodecError::CountMismatch { expected: count, actual: battle_structure_list.len() },
        );
    }
    let mut bytes: Vec<u8> = Vec::with_capacity(count * RECORD_SIZE);
    let mut i: usize = 0;
    while i < count
        invariant
            i <= count,
            count * RECORD_SIZE <= usize::MAX,
            battle_structure_list@.len() == count,
            bytes@.len() == i * RECORD_SIZE,
            forall|j: int| 0 <= j < i ==> #[trigger] battle_structure_list@[j].ids_encodable(),
            forall|j: int|
                0 <= j < i ==> #[trigger] record_window(bytes@, j)
                    == battle_structure_list@[j].spec_bytes(),
        decreases count - i,
    {
        let mut record = match battle_structure_list[i].as_packed_bytes() {
            Ok(record) => record,
            Err(e) => {
                return Err(e);
            },
        };
        let ghost before = bytes@;
        bytes.append(&mut record);
        assert forall|j: int| 0 <= j <= i implies #[trigger] record_window(bytes@, j)
            == battle_structure_list@[j].spec_bytes() by {
            if j < i {
                assert(record_window(bytes@, j) =~= record_window(before, j));
            } else {
                assert(record_window(bytes@, j) =~= battle_structure_list@[j].spec_bytes());
            }
        }
        i = i + 1;
    }
    Ok(bytes)
}

} // verus!
