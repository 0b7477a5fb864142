use wmb_scene::mesh_data::NormalData;
use wmb_scene::wmb_scr::read_wmb_scr_from_bytes;

fn u32le(v: &mut Vec<u8>, x: u32) {
    v.extend_from_slice(&x.to_le_bytes());
}

fn u16le(v: &mut Vec<u8>, x: u16) {
    v.extend_from_slice(&x.to_le_bytes());
}

fn i16le(v: &mut Vec<u8>, x: i16) {
    v.extend_from_slice(&x.to_le_bytes());
}

fn f32le(v: &mut Vec<u8>, x: f32) {
    v.extend_from_slice(&x.to_le_bytes());
}

fn f16le(v: &mut Vec<u8>, x: f32) {
    v.extend_from_slice(&half::f16::from_f32(x).to_le_bytes());
}

fn pad_to(v: &mut Vec<u8>, len: usize) {
    while v.len() < len {
        v.push(0);
    }
}

// A single-LOD older-format container: one vertex group of four
// vertices under layout flag 1 (second texture coordinates inline, the
// normal in the extended record), one batch, one material whose only
// texture slot is named like an albedo map.
fn wmb3_container() -> Vec<u8> {
    let mut v = Vec::new();
    v.extend_from_slice(b"WMB3");
    u32le(&mut v, 0); // version
    u32le(&mut v, 0); // unknown
    i16le(&mut v, 0); // flags: 16-bit indices
    i16le(&mut v, 0); // reference bone
    for _ in 0..6 {
        f32le(&mut v, 0.0); // bounding box
    }
    u32le(&mut v, 0); // bones
    u32le(&mut v, 0);
    u32le(&mut v, 0); // bone index translate table
    u32le(&mut v, 0);
    u32le(&mut v, 136); // vertex groups
    u32le(&mut v, 1);
    u32le(&mut v, 324); // batches
    u32le(&mut v, 1);
    u32le(&mut v, 352); // level-of-detail groups
    u32le(&mut v, 1);
    u32le(&mut v, 0); // collision tree
    u32le(&mut v, 0);
    u32le(&mut v, 0); // bone map
    u32le(&mut v, 0);
    u32le(&mut v, 0); // bone sets
    u32le(&mut v, 0);
    u32le(&mut v, 396); // materials
    u32le(&mut v, 1);
    u32le(&mut v, 488); // meshes
    u32le(&mut v, 1);
    u32le(&mut v, 0); // mesh/material pairs
    u32le(&mut v, 0);
    u32le(&mut v, 0); // trailing unknown section
    u32le(&mut v, 0);
    assert_eq!(v.len(), 136);
    // vertex group header
    u32le(&mut v, 184); // vertices
    u32le(&mut v, 280); // extended records
    u32le(&mut v, 0);
    u32le(&mut v, 0);
    u32le(&mut v, 0); // record sizes (unused)
    u32le(&mut v, 0);
    u32le(&mut v, 0);
    u32le(&mut v, 0);
    u32le(&mut v, 4); // vertices
    u32le(&mut v, 1); // layout flag
    u32le(&mut v, 312); // index buffer
    u32le(&mut v, 6); // indices
    assert_eq!(v.len(), 184);
    for i in 0..4 {
        f32le(&mut v, 10.0 + i as f32);
        f32le(&mut v, 0.0);
        f32le(&mut v, -1.0);
        v.extend_from_slice(&[127, 254, 127, 0]); // tangent bytes + sign
        f16le(&mut v, 0.5);
        f16le(&mut v, 1.0);
        f16le(&mut v, 0.75); // second texture coordinates
        f16le(&mut v, 0.25);
    }
    assert_eq!(v.len(), 280);
    for _ in 0..4 {
        f16le(&mut v, 1.0); // extended record: the normal triple
        f16le(&mut v, 0.5);
        f16le(&mut v, 0.25);
        f16le(&mut v, 0.0); // padding half
    }
    assert_eq!(v.len(), 312);
    for ix in [1u16, 2, 3, 3, 2, 1] {
        u16le(&mut v, ix);
    }
    assert_eq!(v.len(), 324);
    // batch
    u32le(&mut v, 0); // vertex group
    u32le(&mut v, 0); // bone set
    u32le(&mut v, 0); // vertex start (unused by this format's emitter)
    u32le(&mut v, 0); // index start
    u32le(&mut v, 0); // vertex count (unused)
    u32le(&mut v, 6); // index count
    u32le(&mut v, 2); // primitives
    assert_eq!(v.len(), 352);
    // level-of-detail group
    u32le(&mut v, 482); // name
    u32le(&mut v, 0); // level
    u32le(&mut v, 0); // batch table start
    u32le(&mut v, 372); // batch infos
    u32le(&mut v, 1);
    assert_eq!(v.len(), 372);
    // batch info
    u32le(&mut v, 0); // vertex group
    u32le(&mut v, 0); // mesh
    u32le(&mut v, 0); // material
    u32le(&mut v, 0); // collision node
    u32le(&mut v, 0); // mesh/material pair
    u32le(&mut v, 0);
    assert_eq!(v.len(), 396);
    // material
    for _ in 0..4 {
        u16le(&mut v, 0);
    }
    u32le(&mut v, 444); // name
    u32le(&mut v, 448); // shader name
    u32le(&mut v, 452); // technique name
    u32le(&mut v, 0);
    u32le(&mut v, 456); // textures
    u32le(&mut v, 1);
    u32le(&mut v, 0); // parameter groups
    u32le(&mut v, 0);
    u32le(&mut v, 0); // variables
    u32le(&mut v, 0);
    assert_eq!(v.len(), 444);
    v.extend_from_slice(b"mat\0");
    v.extend_from_slice(b"shd\0");
    v.extend_from_slice(b"tec\0");
    assert_eq!(v.len(), 456);
    u32le(&mut v, 464); // texture name
    u32le(&mut v, 77); // archive id
    assert_eq!(v.len(), 464);
    v.extend_from_slice(b"g_AlbedoMapX\0");
    v.extend_from_slice(b"body\0");
    v.extend_from_slice(b"lod0\0");
    pad_to(&mut v, 488);
    // mesh
    u32le(&mut v, 477); // name
    for _ in 0..6 {
        f32le(&mut v, 0.0);
    }
    u32le(&mut v, 0); // material list
    u32le(&mut v, 0);
    u32le(&mut v, 0); // bone list
    u32le(&mut v, 0);
    assert_eq!(v.len(), 532);
    v
}

#[test]
fn older_format_derives_and_rebases_the_vertex_window() {
    let wmb = wmb3_container();
    let scene = read_wmb_scr_from_bytes(b"test", &wmb, None, None).unwrap();
    assert_eq!(scene.meshes.len(), 1);
    let m = &scene.meshes[0];
    assert_eq!(m.name, b"lod0/body/0".to_vec());
    // sliced indices: [3,2,1, 1,2,3]; the window starts at the least
    // referenced index and every index is re-biased by it
    assert_eq!(m.indexes, vec![2, 1, 0, 0, 1, 2]);
    assert_eq!(m.vertices.len(), 3);
    assert_eq!(
        m.vertices[0],
        [f32::to_bits(11.0), f32::to_bits(0.0), f32::to_bits(-1.0)]
    );
    assert_eq!(m.uv[0], [f32::to_bits(0.5), f32::to_bits(1.0)]);
    // normals come from the extended records under layout flag 1
    match &m.normals {
        Some(NormalData::FloatBits(n)) => {
            assert_eq!(n.len(), 3);
            assert_eq!(
                n[0],
                [f32::to_bits(1.0), f32::to_bits(0.5), f32::to_bits(0.25)]
            );
        },
        _ => panic!("normals from the extended records expected"),
    }
    // tangent bytes recenter by 127; the sign byte 0 maps to -127 and
    // is negated on emission
    let t = m.tangents.as_ref().unwrap();
    assert_eq!(t[0], [0, 127, 0, 127]);
    assert_eq!(m.albedo_texture_id, Some(77));
    assert_eq!(m.normal_texture_id, None);
    assert_eq!(m.mask_texture_id, None);
    assert!(m.uses_transparency);
    assert!(m.should_be_visible);
}

#[test]
fn visibility_and_truncation() {
    let mut wmb = wmb3_container();
    // the single group sits at level index 0, so its mesh is visible
    let scene = read_wmb_scr_from_bytes(b"test", &wmb, None, None).unwrap();
    assert!(scene.meshes[0].should_be_visible);
    // a player-model name additionally applies the exclusion list;
    // "body" matches none of its substrings, so it stays visible
    let scene2 = read_wmb_scr_from_bytes(b"pl000_model", &wmb, None, None).unwrap();
    assert!(scene2.meshes[0].should_be_visible);
    wmb.truncate(4);
    assert!(read_wmb_scr_from_bytes(b"test", &wmb, None, None).is_err());
}

#[test]
fn absent_extended_table_leaves_normals_out() {
    let mut wmb = wmb3_container();
    // zero the extended-record offset: the section is absent and must
    // be represented empty, so layout flag 1 yields no normals at all
    wmb[140..144].copy_from_slice(&0u32.to_le_bytes());
    let scene = read_wmb_scr_from_bytes(b"test", &wmb, None, None).unwrap();
    let m = &scene.meshes[0];
    assert!(m.normals.is_none());
    // everything else decodes as before
    assert_eq!(m.indexes, vec![2, 1, 0, 0, 1, 2]);
    assert_eq!(m.vertices.len(), 3);
}

#[test]
fn unrecognized_vertex_layout_flag_is_fatal() {
    let mut wmb = wmb3_container();
    // corrupt the vertex-group layout flag
    wmb[172..176].copy_from_slice(&99u32.to_le_bytes());
    let r = read_wmb_scr_from_bytes(b"test", &wmb, None, None);
    assert_eq!(
        r.err(),
        Some(wmb_scene::error::DecodeError::UnknownVertexFlags(99))
    );
}

#[test]
fn out_of_range_mesh_reference_is_fatal() {
    let mut wmb = wmb3_container();
    // the batch info's mesh index points past the single-entry table
    wmb[376..380].copy_from_slice(&5u32.to_le_bytes());
    let r = read_wmb_scr_from_bytes(b"test", &wmb, None, None);
    assert_eq!(
        r.err(),
        Some(wmb_scene::error::DecodeError::MeshIndexOutOfBounds)
    );
}
