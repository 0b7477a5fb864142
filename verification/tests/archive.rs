use wmb_scene::error::DecodeError;
use wmb_scene::wta_wtp::ArchiveChoice;
use wmb_scene::wta_wtp::ArchivePresence;
use wmb_scene::wta_wtp::ArchiveResolution;
use wmb_scene::wta_wtp::WtaWtp;
use wmb_scene::wta_wtp::derive_archive_paths;
use wmb_scene::wta_wtp::resolve_archive_plan;

fn index_with(entries: &[(u32, u32, u32)]) -> Vec<u8> {
    // (id, offset, size) triples behind the fixed 8-byte prefix
    let n = entries.len() as u32;
    let mut wta = vec![0u8; 8];
    let offsets_at = 28u32;
    let sizes_at = offsets_at + 4 * n;
    let ids_at = sizes_at + 4 * n;
    wta.extend_from_slice(&(n as i32).to_le_bytes());
    wta.extend_from_slice(&(offsets_at as i32).to_le_bytes());
    wta.extend_from_slice(&(sizes_at as i32).to_le_bytes());
    wta.extend_from_slice(&0i32.to_le_bytes());
    wta.extend_from_slice(&(ids_at as i32).to_le_bytes());
    for e in entries {
        wta.extend_from_slice(&e.1.to_le_bytes());
    }
    for e in entries {
        wta.extend_from_slice(&e.2.to_le_bytes());
    }
    for e in entries {
        wta.extend_from_slice(&e.0.to_le_bytes());
    }
    wta
}

#[test]
fn archive_serves_recorded_ranges() {
    let wta = index_with(&[(42, 2, 3), (7, 0, 2)]);
    let wtp = vec![0xAAu8, 0xBB, 0xCC, 0xDD, 0xEE, 0xFF];
    let a = WtaWtp::from_bytes(Some(&wta), Some(&wtp)).unwrap();
    assert!(a.has_id(42));
    assert!(a.has_id(7));
    assert!(!a.has_id(1));
    assert_eq!(a.get_texture(42), Some(vec![0xCC, 0xDD, 0xEE]));
    assert_eq!(a.get_texture(7), Some(vec![0xAA, 0xBB]));
    assert_eq!(a.get_texture(1), None);
}

#[test]
fn out_of_range_payload_is_absent() {
    let wta = index_with(&[(9, 100, 50)]);
    let wtp = vec![0u8; 10];
    let a = WtaWtp::from_bytes(Some(&wta), Some(&wtp)).unwrap();
    assert!(a.has_id(9));
    assert_eq!(a.get_texture(9), None);
}

#[test]
fn combined_buffer_serves_both_roles() {
    // index and data in one buffer: the entry points back into it
    let mut wtb = index_with(&[(5, 40, 2)]);
    while wtb.len() < 40 {
        wtb.push(0);
    }
    wtb.push(0x11);
    wtb.push(0x22);
    let a = WtaWtp::from_bytes(Some(&wtb), None).unwrap();
    assert_eq!(a.get_texture(5), Some(vec![0x11, 0x22]));
}

#[test]
fn missing_buffers_fail() {
    assert_eq!(
        WtaWtp::from_bytes(None, Some(&[1, 2, 3])).err(),
        Some(DecodeError::ArchiveNotFound)
    );
}

#[test]
fn duplicate_id_keeps_later_entry() {
    let wta = index_with(&[(5, 0, 1), (5, 1, 1)]);
    let wtp = vec![0x10u8, 0x20];
    let a = WtaWtp::from_bytes(Some(&wta), Some(&wtp)).unwrap();
    assert_eq!(a.get_texture(5), Some(vec![0x20]));
}

#[test]
fn primary_files_win_without_retry() {
    let primary = ArchivePresence { wta: true, wtp: true, wtb: false };
    let alt = Some(ArchivePresence { wta: false, wtp: false, wtb: true });
    assert_eq!(
        resolve_archive_plan(primary, alt),
        ArchiveResolution::Primary(ArchiveChoice::WtaWtp)
    );
}

#[test]
fn alternate_basename_used_exactly_once() {
    // primary basename absent, alternate-suffix basename present
    let primary = ArchivePresence { wta: false, wtp: false, wtb: false };
    let alt = Some(ArchivePresence { wta: false, wtp: false, wtb: true });
    assert_eq!(
        resolve_archive_plan(primary, alt),
        ArchiveResolution::Fallback(ArchiveChoice::Wtb)
    );
    // nothing found anywhere: no further retries, resolution fails
    let alt_missing = Some(ArchivePresence { wta: false, wtp: false, wtb: false });
    assert_eq!(
        resolve_archive_plan(primary, alt_missing),
        ArchiveResolution::NotFound
    );
    assert_eq!(resolve_archive_plan(primary, None), ArchiveResolution::NotFound);
}

#[test]
fn combined_file_without_index_pair() {
    let p = ArchivePresence { wta: false, wtp: true, wtb: true };
    assert_eq!(
        resolve_archive_plan(p, None),
        ArchiveResolution::Primary(ArchiveChoice::Wtb)
    );
}

#[test]
fn sibling_paths_derived_from_dat_tree() {
    let p = derive_archive_paths(b"base/em0010.dat/em0010.wmb", None).unwrap();
    assert_eq!(p.wta, b"base/em0010.dat/em0010.wta".to_vec());
    assert_eq!(p.wtp, b"base/em0010.dtt/em0010.wtp".to_vec());
    assert_eq!(p.wtb, b"base/em0010.dtt/em0010.wtb".to_vec());
}

#[test]
fn sibling_paths_derived_from_dtt_tree_with_suffix() {
    let p = derive_archive_paths(b"base/r100.dtt/r100.wmb", Some(b"scr")).unwrap();
    assert_eq!(p.wta, b"base/r100.dat/r100scr.wta".to_vec());
    assert_eq!(p.wtp, b"base/r100.dtt/r100scr.wtp".to_vec());
    assert_eq!(p.wtb, b"base/r100.dtt/r100scr.wtb".to_vec());
}

#[test]
fn archive_path_outside_the_trees_is_rejected() {
    assert!(derive_archive_paths(b"base/models/em0010.wmb", None).is_err());
    assert!(derive_archive_paths(b"em0010.wmb", None).is_err());
}
