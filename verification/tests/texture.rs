use wmb_scene::error::DecodeError;
use wmb_scene::texture::SwizzleKind;
use wmb_scene::texture::decompress_dds;
use wmb_scene::texture::mask_map_swizzle;

fn u32le(v: &mut Vec<u8>, x: u32) {
    v.extend_from_slice(&x.to_le_bytes());
}

fn dds_4x4_white() -> Vec<u8> {
    let mut d = Vec::new();
    d.extend_from_slice(b"DDS ");
    u32le(&mut d, 124);
    u32le(&mut d, 0x1007);
    u32le(&mut d, 4);
    u32le(&mut d, 4);
    u32le(&mut d, 8);
    u32le(&mut d, 0);
    u32le(&mut d, 0);
    for _ in 0..11 {
        u32le(&mut d, 0);
    }
    u32le(&mut d, 32);
    u32le(&mut d, 0x4);
    d.extend_from_slice(b"DXT1");
    for _ in 0..5 {
        u32le(&mut d, 0);
    }
    u32le(&mut d, 0x1000);
    u32le(&mut d, 0);
    for _ in 0..3 {
        u32le(&mut d, 0);
    }
    d.extend_from_slice(&[0xFF, 0xFF, 0x00, 0x00, 0x00, 0x00, 0x00, 0x00]);
    d
}

#[test]
fn mask_pixel_remap() {
    // metallic/smoothness/AO becomes AO/roughness/metallic
    assert_eq!(mask_map_swizzle([10, 40, 200, 77]), [200, 215, 10, 77]);
}

#[test]
fn compressed_payload_decodes_to_rgba() {
    let td = decompress_dds(&dds_4x4_white(), SwizzleKind::Keep).unwrap();
    assert_eq!((td.width, td.height), (4, 4));
    assert_eq!(td.bytes.len(), 64);
    assert!(td.bytes.iter().all(|&b| b == 255));
}

#[test]
fn mask_remap_applies_per_pixel() {
    let td = decompress_dds(&dds_4x4_white(), SwizzleKind::MaskMap).unwrap();
    // white swizzles to (255, 0, 255, 255) per pixel
    for px in td.bytes.chunks(4) {
        assert_eq!(px, [255, 0, 255, 255]);
    }
}

#[test]
fn unrecognized_payload_magic_is_refused() {
    assert_eq!(
        decompress_dds(b"NOPE some bytes", SwizzleKind::Keep).err(),
        Some(DecodeError::UnknownTextureFormat)
    );
    assert_eq!(
        decompress_dds(b"AB", SwizzleKind::Keep).err(),
        Some(DecodeError::UnknownTextureFormat)
    );
}

#[test]
fn png_payload_decodes() {
    // a 1x1 black PNG, byte for byte
    let png: [u8; 69] = [
        0x89, 0x50, 0x4E, 0x47, 0x0D, 0x0A, 0x1A, 0x0A, 0x00, 0x00, 0x00, 0x0D, 0x49, 0x48, 0x44,
        0x52, 0x00, 0x00, 0x00, 0x01, 0x00, 0x00, 0x00, 0x01, 0x08, 0x02, 0x00, 0x00, 0x00, 0x90,
        0x77, 0x53, 0xDE, 0x00, 0x00, 0x00, 0x0C, 0x49, 0x44, 0x41, 0x54, 0x08, 0xD7, 0x63, 0x60,
        0x60, 0x60, 0x00, 0x00, 0x00, 0x04, 0x00, 0x01, 0x27, 0x34, 0x27, 0x0A, 0x00, 0x00, 0x00,
        0x00, 0x49, 0x45, 0x4E, 0x44, 0xAE, 0x42, 0x60, 0x82,
    ];
    let td = decompress_dds(&png, SwizzleKind::Keep).unwrap();
    assert_eq!((td.width, td.height), (1, 1));
    assert_eq!(td.bytes, vec![0, 0, 0, 255]);
}
