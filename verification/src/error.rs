//! Error taxonomy of the decode pipeline: short reads, malformed structure,
//! referential-integrity failures and resource-resolution failures. Every
//! error aborts the current decode; no partial scene is ever returned.

use vstd::prelude::*;

verus! {

/// Why a decode call failed.
#[derive(Clone, Copy, Debug, PartialEq, Eq)]
pub enum DecodeError {
    /// A read or seek went past the end of the byte source.
    ShortRead,
    /// The leading 4-byte tag matches no known container format; the
    /// unrecognized tag is carried along.
    UnknownMagic([u8; 4]),
    /// A vertex-layout flag value outside the closed recognized set.
    UnknownVertexFlags(u32),
    /// A batch index pointed outside the batch table.
    BatchIndexOutOfBounds,
    /// A batch had no batch-data record.
    BatchDataMissing,
    /// A material index pointed outside the material table.
    MaterialIndexOutOfBounds,
    /// A vertex-group index pointed outside the vertex-group table.
    VertexGroupIndexOutOfBounds,
    /// A mesh index pointed outside the mesh table.
    MeshIndexOutOfBounds,
    /// A derived vertex-window start pointed outside the vertex list.
    VertexIndexOutOfBounds,
    /// A batch referenced an empty triangle-index window, so no vertex
    /// window can be derived from it.
    EmptyIndexWindow,
    /// A vertex record lacked a field that the first record of its group
    /// implied; a group read by this crate's own parser always has
    /// uniform per-vertex layouts, so this marks a foreign `Wmb` value.
    InconsistentVertexData,
    /// A triangle-index window reached past the triple-aligned part of the
    /// index list.
    IndexWindowOutOfBounds,
    /// No index/data file pair (nor combined file) could be resolved.
    ArchiveNotFound,
    /// The archive path had no usable stem, parent directory or extension.
    InvalidArchivePath,
    /// A texture payload carried neither of the two recognized magics.
    UnknownTextureFormat,
    /// A texture payload failed to decompress.
    TextureDecodeFailed,
}

} // verus!
