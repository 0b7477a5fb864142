//! Normalized in-memory scene representation produced by the decoders: a
//! list of mesh records plus a deduplicated map from texture id to decoded
//! pixels. Float-valued attributes are carried exactly: either as IEEE-754
//! single-precision bit patterns or as the small integers the stream
//! stores, together with their fixed divisor.

use std::collections::HashMap;

use vstd::prelude::*;

verus! {

/// Decoded RGBA8 pixels with their dimensions.
#[derive(Clone)]
pub struct TextureData {
    pub bytes: Vec<u8>,
    pub width: u32,
    pub height: u32,
}

/// Per-vertex normals, in the representation the source format used.
pub enum NormalData {
    /// One binary32 bit pattern per component (x, y, z).
    FloatBits(Vec<[u32; 3]>),
    /// Signed fixed-point components as unpacked from an 11/11/10-bit
    /// field: the denoted value is `x / 1023`, `y / 1023`, `z / 511`.
    Packed(Vec<[i16; 3]>),
}

/// Placement of a mesh in the scene.
pub enum MeshTransform {
    Identity,
    /// Nine binary32 bit patterns; the denoted matrix is
    /// `Translate x RotX x RotY x RotZ x NonuniformScale`, the rotations
    /// being Euler angles in radians.
    Trs { translate: [u32; 3], rotation: [u32; 3], scale: [u32; 3] },
}

/// One decoded draw batch.
pub struct MeshData {
    /// Raw-byte display name composed from the source names.
    pub name: Vec<u8>,
    /// Positions: one binary32 bit pattern per component.
    pub vertices: Vec<[u32; 3]>,
    /// Triangle indices, winding already reversed per triple and (for the
    /// older format) re-biased to the derived vertex window.
    pub indexes: Vec<u32>,
    /// Tangents with the sign in the fourth component; the denoted value
    /// of each component is `t / 127`.
    pub tangents: Option<Vec<[i16; 4]>>,
    pub normals: Option<NormalData>,
    /// Texture coordinates: one binary32 bit pattern per component.
    pub uv: Vec<[u32; 2]>,
    pub albedo_texture_id: Option<u32>,
    pub normal_texture_id: Option<u32>,
    pub mask_texture_id: Option<u32>,
    pub transform: MeshTransform,
    pub uses_transparency: bool,
    pub should_be_visible: bool,
}

/// The finished decode output: mesh records in emission order plus the
/// texture cache keyed by numeric texture id.
#[derive(Default)]
pub struct SceneData {
    pub meshes: Vec<MeshData>,
    pub textures: HashMap<u32, TextureData>,
}

} // verus!
