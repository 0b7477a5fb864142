use wmb_scene::bone_table::BoneIndexTranslateTable;
use wmb_scene::byte_stream::ByteReader;

fn push_i16(v: &mut Vec<u8>, x: i16) {
    v.extend_from_slice(&x.to_le_bytes());
}

#[test]
fn second_level_sixteen_entries_per_non_sentinel() {
    // first level: all -1 except index 3
    let mut bytes = Vec::new();
    for i in 0..16 {
        push_i16(&mut bytes, if i == 3 { 7 } else { -1 });
    }
    // second level: 16 entries, all sentinels
    for _ in 0..16 {
        push_i16(&mut bytes, -1);
    }
    let mut rd = ByteReader::new(bytes);
    let t = BoneIndexTranslateTable::read(&mut rd).unwrap();
    assert_eq!(t.first_level.len(), 16);
    assert_eq!(t.second_level.len(), 16);
    assert_eq!(t.third_level.len(), 0);
}

#[test]
fn third_level_sixteen_entries_per_non_sentinel() {
    // two non-sentinel first-level entries -> 32 second-level entries;
    // three non-sentinel second-level entries -> 48 third-level entries
    let mut bytes = Vec::new();
    for i in 0..16 {
        push_i16(&mut bytes, if i == 0 || i == 5 { 1 } else { -1 });
    }
    for i in 0..32 {
        push_i16(&mut bytes, if i < 3 { 2 } else { -1 });
    }
    for _ in 0..48 {
        push_i16(&mut bytes, 4);
    }
    let mut rd = ByteReader::new(bytes);
    let t = BoneIndexTranslateTable::read(&mut rd).unwrap();
    assert_eq!(t.second_level.len(), 32);
    assert_eq!(t.third_level.len(), 48);
    assert_eq!(t.third_level[0], 4);
}

#[test]
fn truncated_second_level_fails() {
    let mut bytes = Vec::new();
    for _ in 0..16 {
        push_i16(&mut bytes, 0); // all non-sentinel: wants 256 more entries
    }
    let mut rd = ByteReader::new(bytes);
    assert!(BoneIndexTranslateTable::read(&mut rd).is_err());
}
