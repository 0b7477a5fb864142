use wmb_scene::error::DecodeError;
use wmb_scene::wmb_mgrr::duplicate_batch_data_indices;
use wmb_scene::wmb_mgrr::BatchData;
use wmb_scene::mesh_data::MeshTransform;
use wmb_scene::mesh_data::NormalData;
use wmb_scene::wmb_scr::read_wmb_scr_from_bytes;

fn u32le(v: &mut Vec<u8>, x: u32) {
    v.extend_from_slice(&x.to_le_bytes());
}

fn u16le(v: &mut Vec<u8>, x: u16) {
    v.extend_from_slice(&x.to_le_bytes());
}

fn f32le(v: &mut Vec<u8>, x: f32) {
    v.extend_from_slice(&x.to_le_bytes());
}

fn f16le(v: &mut Vec<u8>, x: f32) {
    v.extend_from_slice(&half::f16::from_f32(x).to_le_bytes());
}

fn pad_to(v: &mut Vec<u8>, len: usize) {
    while v.len() < len {
        v.push(0);
    }
}

// A 4x4 single-block DXT1 texture whose every pixel decodes to white.
fn dds_4x4_white() -> Vec<u8> {
    let mut d = Vec::new();
    d.extend_from_slice(b"DDS ");
    u32le(&mut d, 124); // header size
    u32le(&mut d, 0x1007); // caps | height | width | pixelformat
    u32le(&mut d, 4); // height
    u32le(&mut d, 4); // width
    u32le(&mut d, 8); // pitch or linear size
    u32le(&mut d, 0); // depth
    u32le(&mut d, 0); // mipmap count
    for _ in 0..11 {
        u32le(&mut d, 0); // reserved
    }
    u32le(&mut d, 32); // pixel format size
    u32le(&mut d, 0x4); // fourcc flag
    d.extend_from_slice(b"DXT1");
    for _ in 0..5 {
        u32le(&mut d, 0); // bit count and channel masks
    }
    u32le(&mut d, 0x1000); // caps
    u32le(&mut d, 0); // caps2
    for _ in 0..3 {
        u32le(&mut d, 0); // caps3, caps4, reserved2
    }
    // one DXT1 block: color0 = 0xFFFF, color1 = 0, all indices 0
    d.extend_from_slice(&[0xFF, 0xFF, 0x00, 0x00, 0x00, 0x00, 0x00, 0x00]);
    d
}

fn archive_for(id: u32, payload: &[u8]) -> (Vec<u8>, Vec<u8>) {
    let mut wta = vec![0u8; 8];
    wta.extend_from_slice(&1i32.to_le_bytes());
    wta.extend_from_slice(&28i32.to_le_bytes()); // offsets array
    wta.extend_from_slice(&32i32.to_le_bytes()); // sizes array
    wta.extend_from_slice(&0i32.to_le_bytes());
    wta.extend_from_slice(&36i32.to_le_bytes()); // ids array
    u32le(&mut wta, 0);
    u32le(&mut wta, payload.len() as u32);
    u32le(&mut wta, id);
    (wta, payload.to_vec())
}

// A two-mesh newer-format container: one vertex group of four
// vertices and six indices, one batch, one material with shader
// "har00A" bound to archive texture 42, and both meshes drawing batch
// 0. The second mesh carries the decoration suffix.
fn wmb4_container() -> Vec<u8> {
    let mut v = Vec::new();
    v.extend_from_slice(b"WMB4");
    u32le(&mut v, 0); // u_a
    u32le(&mut v, 0); // vertex format flags
    u16le(&mut v, 0);
    u16le(&mut v, 0);
    for _ in 0..6 {
        f32le(&mut v, 0.0); // the two bounding points
    }
    u32le(&mut v, 108); // vertex groups
    u32le(&mut v, 1);
    u32le(&mut v, 244); // batches
    u32le(&mut v, 1);
    u32le(&mut v, 264); // batch description
    u32le(&mut v, 0); // bones
    u32le(&mut v, 0);
    u32le(&mut v, 0); // bone index translate table
    u32le(&mut v, 0);
    u32le(&mut v, 0); // bone sets
    u32le(&mut v, 0);
    u32le(&mut v, 312); // materials
    u32le(&mut v, 1);
    u32le(&mut v, 384); // textures
    u32le(&mut v, 1);
    u32le(&mut v, 392); // meshes
    u32le(&mut v, 2);
    assert_eq!(v.len(), 108);
    // vertex group header
    u32le(&mut v, 136); // vertex offset
    u32le(&mut v, 0); // no extended records
    u32le(&mut v, 0);
    u32le(&mut v, 0);
    u32le(&mut v, 4); // vertices
    u32le(&mut v, 232); // index buffer
    u32le(&mut v, 6); // indices
    assert_eq!(v.len(), 136);
    for i in 0..4 {
        f32le(&mut v, 1.0 + i as f32);
        f32le(&mut v, 2.0);
        f32le(&mut v, 3.0);
        f16le(&mut v, 0.5);
        f16le(&mut v, 0.25);
        u32le(&mut v, 0); // packed normal
        v.extend_from_slice(&[127, 127, 127, 127]); // tangent
    }
    assert_eq!(v.len(), 232);
    for ix in [0u16, 1, 2, 2, 1, 3] {
        u16le(&mut v, ix);
    }
    assert_eq!(v.len(), 244);
    // batch
    u32le(&mut v, 0); // vertex group
    u32le(&mut v, 1); // vertex start
    u32le(&mut v, 0); // index start
    u32le(&mut v, 2); // vertices drawn
    u32le(&mut v, 3); // indices drawn
    assert_eq!(v.len(), 264);
    // batch data group: one populated slot
    u32le(&mut v, 296);
    u32le(&mut v, 1);
    for _ in 0..3 {
        u32le(&mut v, 0);
        u32le(&mut v, 0);
    }
    assert_eq!(v.len(), 296);
    // batch data
    u32le(&mut v, 0); // batch index
    u32le(&mut v, 0); // mesh index
    u16le(&mut v, 0); // material index
    u16le(&mut v, 0); // bone set index
    u32le(&mut v, 0);
    assert_eq!(v.len(), 312);
    // material
    u32le(&mut v, 336); // shader name
    u32le(&mut v, 352); // texture slots
    u32le(&mut v, 0);
    u32le(&mut v, 0); // parameters
    u16le(&mut v, 1); // slot count (unused)
    u16le(&mut v, 0);
    u16le(&mut v, 0);
    u16le(&mut v, 0); // no parameters
    assert_eq!(v.len(), 336);
    v.extend_from_slice(b"har00A");
    pad_to(&mut v, 352);
    // texture slots: one albedo slot bound to table entry 0
    u32le(&mut v, 0);
    u32le(&mut v, 0);
    for _ in 0..3 {
        u32le(&mut v, 9);
        u32le(&mut v, 0);
    }
    assert_eq!(v.len(), 384);
    // texture table
    u32le(&mut v, 0);
    u32le(&mut v, 42);
    assert_eq!(v.len(), 392);
    // two meshes
    for (name_at, list_at) in [(528u32, 544u32), (534, 546)] {
        u32le(&mut v, name_at);
        for _ in 0..6 {
            f32le(&mut v, 0.0);
        }
        u32le(&mut v, list_at);
        u32le(&mut v, 1);
        for _ in 0..3 {
            u32le(&mut v, 0);
            u32le(&mut v, 0);
        }
        u32le(&mut v, 0); // material list
        u32le(&mut v, 0);
    }
    assert_eq!(v.len(), 528);
    v.extend_from_slice(b"meshA\0");
    v.extend_from_slice(b"meshB_DEC\0");
    assert_eq!(v.len(), 544);
    u16le(&mut v, 0);
    u16le(&mut v, 0);
    v
}

#[test]
fn unknown_magic_produces_no_scene() {
    let r = read_wmb_scr_from_bytes(b"x", b"XYZW trailing bytes", None, None);
    assert_eq!(r.err(), Some(DecodeError::UnknownMagic(*b"XYZW")));
    let r2 = read_wmb_scr_from_bytes(b"x", b"XY", None, None);
    assert_eq!(r2.err(), Some(DecodeError::ShortRead));
}

#[test]
fn newer_format_decodes_with_direct_vertex_window() {
    let wmb = wmb4_container();
    let scene = read_wmb_scr_from_bytes(b"test", &wmb, None, None).unwrap();
    assert_eq!(scene.meshes.len(), 2);
    let m = &scene.meshes[0];
    assert_eq!(m.name, b"meshA/0".to_vec());
    // the batch window [1, 1+2) is taken as given, with no re-biasing
    assert_eq!(m.vertices.len(), 2);
    assert_eq!(
        m.vertices[0],
        [f32::to_bits(2.0), f32::to_bits(2.0), f32::to_bits(3.0)]
    );
    assert_eq!(
        m.vertices[1],
        [f32::to_bits(3.0), f32::to_bits(2.0), f32::to_bits(3.0)]
    );
    // the first aligned triple [0, 1, 2] is emitted reversed
    assert_eq!(m.indexes, vec![2, 1, 0]);
    assert_eq!(m.uv[0], [f32::to_bits(0.5), f32::to_bits(0.25)]);
    match &m.normals {
        Some(NormalData::Packed(n)) => assert_eq!(n[0], [0, 0, 0]),
        _ => panic!("inline packed normals expected"),
    }
    assert!(m.should_be_visible);
    // no archive: the heuristic sees no resolvable albedo slot
    assert!(!m.uses_transparency);
    assert!(scene.textures.is_empty());
    // the decoration-suffixed mesh is hidden
    let d = &scene.meshes[1];
    assert_eq!(d.name, b"meshB_DEC/0".to_vec());
    assert!(!d.should_be_visible);
}

#[test]
fn texture_cache_holds_one_entry_per_id() {
    let wmb = wmb4_container();
    let dds = dds_4x4_white();
    let (wta, wtp) = archive_for(42, &dds);
    let scene = read_wmb_scr_from_bytes(b"test", &wmb, Some(&wta), Some(&wtp)).unwrap();
    // two meshes reference texture 42; the cache holds exactly one
    // decoded copy of it
    assert_eq!(scene.textures.len(), 1);
    let t = scene.textures.get(&42).unwrap();
    assert_eq!((t.width, t.height), (4, 4));
    assert_eq!(t.bytes.len(), 64);
    assert!(t.bytes.iter().all(|&b| b == 255));
    // with the albedo slot now resolvable, "har00A" is transparent
    assert!(scene.meshes[0].uses_transparency);
}

#[test]
fn wrapper_container_renames_and_places_models() {
    let payload = wmb4_container();
    let mut v = Vec::new();
    v.extend_from_slice(b"SCR\0");
    u16le(&mut v, 0);
    u16le(&mut v, 1); // model count, at offset 6
    u32le(&mut v, 12); // offset table
    u32le(&mut v, 16); // the single model record
    u32le(&mut v, 120); // payload offset
    v.extend_from_slice(b"model01");
    pad_to(&mut v, 16 + 4 + 64);
    f32le(&mut v, 1.0);
    f32le(&mut v, 2.0);
    f32le(&mut v, 3.0);
    f32le(&mut v, 0.1);
    f32le(&mut v, 0.2);
    f32le(&mut v, 0.3);
    f32le(&mut v, 1.0);
    f32le(&mut v, 1.0);
    f32le(&mut v, 1.0);
    assert_eq!(v.len(), 120);
    v.extend_from_slice(&payload);
    let scene = read_wmb_scr_from_bytes(b"test", &v, None, None).unwrap();
    assert_eq!(scene.meshes.len(), 2);
    for m in &scene.meshes {
        assert_eq!(m.name, b"model01".to_vec());
        match m.transform {
            MeshTransform::Trs { translate, rotation, scale } => {
                assert_eq!(
                    translate,
                    [f32::to_bits(1.0), f32::to_bits(2.0), f32::to_bits(3.0)]
                );
                assert_eq!(
                    rotation,
                    [f32::to_bits(0.1), f32::to_bits(0.2), f32::to_bits(0.3)]
                );
                assert_eq!(
                    scale,
                    [f32::to_bits(1.0), f32::to_bits(1.0), f32::to_bits(1.0)]
                );
            },
            _ => panic!("a wrapper model must carry its own transform"),
        }
    }
}

#[test]
fn missing_batch_data_is_fatal() {
    let mut wmb = wmb4_container();
    // re-key the only batch-data record away from the referenced batch
    wmb[296..300].copy_from_slice(&1u32.to_le_bytes());
    let r = read_wmb_scr_from_bytes(b"test", &wmb, None, None);
    assert_eq!(r.err(), Some(DecodeError::BatchDataMissing));
}

#[test]
fn undecodable_texture_is_skipped_not_fatal() {
    let wmb = wmb4_container();
    // an archive whose payload carries the right magic but no body
    let bogus = b"DDS garbage".to_vec();
    let (wta, wtp) = archive_for(42, &bogus);
    let scene = read_wmb_scr_from_bytes(b"test", &wmb, Some(&wta), Some(&wtp)).unwrap();
    // the meshes decode; the failed texture just stays out of the cache
    assert_eq!(scene.meshes.len(), 2);
    assert!(scene.textures.is_empty());
}

#[test]
fn repeated_batch_indices_are_surfaced() {
    let bd = |ix: u32| BatchData {
        batch_index: ix,
        mesh_index: 0,
        material_index: 0,
        bone_sets_index: 0,
        u_a: 0,
    };
    // each later repetition is reported, in record order
    let dups = duplicate_batch_data_indices(&vec![bd(0), bd(1), bd(0), bd(2), bd(1), bd(1)]);
    assert_eq!(dups, vec![0, 1, 1]);
    let none = duplicate_batch_data_indices(&vec![bd(3), bd(4)]);
    assert!(none.is_empty());
}

#[test]
fn wrapper_groups_models_in_order() {
    let payload = wmb4_container();
    let p_len = payload.len() as u32;
    let mut v = Vec::new();
    v.extend_from_slice(b"SCR\0");
    u16le(&mut v, 0);
    u16le(&mut v, 2); // model count, at offset 6
    u32le(&mut v, 12); // offset table
    u32le(&mut v, 20); // first model record
    u32le(&mut v, 124); // second model record
    // first model
    u32le(&mut v, 228); // payload offset
    v.extend_from_slice(b"alpha");
    pad_to(&mut v, 20 + 4 + 64);
    for k in 0..9 {
        f32le(&mut v, 1.0 + k as f32);
    }
    assert_eq!(v.len(), 124);
    // second model
    u32le(&mut v, 228 + p_len);
    v.extend_from_slice(b"beta");
    pad_to(&mut v, 124 + 4 + 64);
    for k in 0..9 {
        f32le(&mut v, 20.0 + k as f32);
    }
    assert_eq!(v.len(), 228);
    v.extend_from_slice(&payload);
    v.extend_from_slice(&payload);
    let scene = read_wmb_scr_from_bytes(b"test", &v, None, None).unwrap();
    // each payload yields two records; groups come in model order
    assert_eq!(scene.meshes.len(), 4);
    for (i, m) in scene.meshes.iter().enumerate() {
        let (want_name, base) = if i < 2 { (b"alpha".to_vec(), 1.0f32) } else { (b"beta".to_vec(), 20.0) };
        assert_eq!(m.name, want_name);
        match m.transform {
            MeshTransform::Trs { translate, rotation, scale } => {
                assert_eq!(translate[0], f32::to_bits(base));
                assert_eq!(rotation[0], f32::to_bits(base + 3.0));
                assert_eq!(scale[2], f32::to_bits(base + 8.0));
            },
            _ => panic!("a wrapper model must carry its own transform"),
        }
    }
    // the geometry survives the rename: same vertices as a bare decode
    assert_eq!(scene.meshes[0].vertices.len(), 2);
    assert_eq!(scene.meshes[2].indexes, vec![2, 1, 0]);
}
