use wmb_scene::wmb_mgrr::Material;
use wmb_scene::wmb_mgrr::Texture;
use wmb_scene::wmb_mgrr::TextureIndices;
use wmb_scene::wta_wtp::WtaWtp;

// Build a minimal archive index whose only entry is the given id.
fn archive_with_id(id: u32) -> WtaWtp {
    let mut wta = vec![0u8; 8];
    wta.extend_from_slice(&1i32.to_le_bytes()); // count, at 8
    wta.extend_from_slice(&28i32.to_le_bytes()); // offsets array, at 12
    wta.extend_from_slice(&32i32.to_le_bytes()); // sizes array, at 16
    wta.extend_from_slice(&0i32.to_le_bytes()); // flags array (unused)
    wta.extend_from_slice(&36i32.to_le_bytes()); // ids array, at 24
    wta.extend_from_slice(&0u32.to_le_bytes()); // offsets[0]
    wta.extend_from_slice(&0u32.to_le_bytes()); // sizes[0]
    wta.extend_from_slice(&id.to_le_bytes()); // ids[0]
    WtaWtp::from_bytes(Some(&wta), None).unwrap()
}

fn material(shader: &str, slots: [(u32, u32); 4]) -> Material {
    Material {
        shader_name: shader.as_bytes().to_vec(),
        texture_indices: TextureIndices {
            flags: [slots[0].0, slots[1].0, slots[2].0, slots[3].0],
            indices: [slots[0].1, slots[1].1, slots[2].1, slots[3].1],
        },
        parameters: Vec::new(),
    }
}

#[test]
fn organic_har_with_trailing_zero_digits_is_transparent() {
    let archive = archive_with_id(42);
    let textures = vec![Texture { flags: 0, id: 42 }];
    // "har00A": organic, one resolvable albedo slot; chars 3..5 are
    // "00" but the prefix is organic; char 4 is '0' but the prefix is
    // exactly "har"
    let m = material("har00A", [(0, 0), (9, 0), (9, 0), (9, 0)]);
    assert!(m.alpha_is_transparency(Some(&archive), &textures));
}

#[test]
fn non_organic_with_nonzero_digits_is_transparent() {
    let archive = archive_with_id(42);
    let textures = vec![Texture { flags: 0, id: 42 }];
    let m = material("wpn01B", [(0, 0), (9, 0), (9, 0), (9, 0)]);
    assert!(m.alpha_is_transparency(Some(&archive), &textures));
}

#[test]
fn unresolvable_albedo_is_opaque() {
    // the archive knows id 7, but the material's slot points at id 42
    let archive = archive_with_id(7);
    let textures = vec![Texture { flags: 0, id: 42 }];
    let m = material("wpn01B", [(0, 0), (9, 0), (9, 0), (9, 0)]);
    assert!(!m.alpha_is_transparency(Some(&archive), &textures));
}

#[test]
fn non_organic_double_zero_digits_is_opaque() {
    let archive = archive_with_id(42);
    let textures = vec![Texture { flags: 0, id: 42 }];
    let m = material("wpn00B", [(0, 0), (9, 0), (9, 0), (9, 0)]);
    assert!(!m.alpha_is_transparency(Some(&archive), &textures));
}

#[test]
fn short_shader_name_is_opaque() {
    let archive = archive_with_id(42);
    let textures = vec![Texture { flags: 0, id: 42 }];
    let m = material("har", [(0, 0), (9, 0), (9, 0), (9, 0)]);
    assert!(!m.alpha_is_transparency(Some(&archive), &textures));
}

#[test]
fn no_archive_is_opaque() {
    let textures = vec![Texture { flags: 0, id: 42 }];
    let m = material("har00A", [(0, 0), (9, 0), (9, 0), (9, 0)]);
    assert!(!m.alpha_is_transparency(None, &textures));
}

#[test]
fn slot_roles_resolve_albedo_and_normal() {
    let ti = TextureIndices { flags: [5, 2, 1, 0], indices: [10, 11, 12, 13] };
    assert_eq!(ti.get_albedo_index(), Some(12)); // first role 0/1 slot
    assert_eq!(ti.get_normal_index(), Some(11)); // first role 2 slot
    assert_eq!(ti.get_albedo_indices(), vec![12, 13]);
}
