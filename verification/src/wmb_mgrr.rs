//! Decoder for the newer mesh-container format: flat batch/batch-data
//! tables, flag-driven vertex layouts, material texture slots resolved by
//! a numeric role code, and a shader-name-driven transparency heuristic.
//! All multi-byte fields are little-endian; float fields are carried as
//! their bit patterns.

use std::collections::HashMap;

use vstd::prelude::*;

use crate::byte_stream::ByteReader;
use crate::byte_stream::u8_at;
use crate::byte_stream::u16_at;
use crate::byte_stream::i16_at;
use crate::byte_stream::u32_at;
use crate::byte_stream::i32_at;
use crate::byte_stream::u16_of_le;
use crate::byte_stream::u32_of_le;
use crate::byte_stream::first_zero_at;
use crate::error::DecodeError;
use crate::half_float::f16_to_f32_bits_spec;
use crate::half_float::f16_bits_to_f32_bits;
use crate::mesh_data::MeshData;
use crate::mesh_data::TextureData;
use crate::wta_wtp::WtaWtp;

verus! {

broadcast use crate::byte_stream::lemma_cursor_nonneg;

/// Three consecutive binary32 bit patterns.
pub open spec fn point_bits_of(s: Seq<u8>, at: int) -> Seq<u32> {
    seq![
        u32_of_le(s.subrange(at, at + 4)),
        u32_of_le(s.subrange(at + 4, at + 8)),
        u32_of_le(s.subrange(at + 8, at + 12)),
    ]
}

/// Read three binary32 values as their bit patterns.
pub fn read_point(rd: &mut ByteReader) -> (r: Result<[u32; 3], DecodeError>)
    ensures
        final(rd).bytes() == old(rd).bytes(),
        match r {
            Ok(p) => {
                &&& old(rd).cursor() + 12 <= final(rd).bytes().len()
                &&& p@ == point_bits_of(final(rd).bytes(), old(rd).cursor())
                &&& final(rd).cursor() == old(rd).cursor() + 12
            },
            Err(e) => {
                &&& e == DecodeError::ShortRead
                &&& old(rd).cursor() + 12 > final(rd).bytes().len()
            },
        },
{
    let x = rd.read_u32()?;
    let y = rd.read_u32()?;
    let z = rd.read_u32()?;
    let p = [x, y, z];
    proof {
        assert(p@ =~= point_bits_of(rd.bytes(), old(rd).cursor()));
    }
    Ok(p)
}

/// A half-precision field widened to a binary32 bit pattern.
pub open spec fn f16_field(s: Seq<u8>, at: int) -> u32 {
    f16_to_f32_bits_spec(u16_of_le(s.subrange(at, at + 2)))
}

pub fn read_f16_as_f32_bits(rd: &mut ByteReader) -> (r: Result<u32, DecodeError>)
    ensures
        final(rd).bytes() == old(rd).bytes(),
        match r {
            Ok(v) => {
                &&& old(rd).cursor() + 2 <= final(rd).bytes().len()
                &&& v == f16_field(final(rd).bytes(), old(rd).cursor())
                &&& final(rd).cursor() == old(rd).cursor() + 2
            },
            Err(e) => {
                &&& e == DecodeError::ShortRead
                &&& old(rd).cursor() + 2 > final(rd).bytes().len()
            },
        },
{
    let h = rd.read_u16()?;
    Ok(f16_bits_to_f32_bits(h))
}

/// The x component of a packed 11/11/10-bit normal, sign-extended.
pub open spec fn unpack_nx(n: u32) -> i16 {
    let raw = n as int % 0x800;
    if raw >= 0x400 {
        (raw - 0x800) as i16
    } else {
        raw as i16
    }
}

/// The y component of a packed 11/11/10-bit normal, sign-extended.
pub open spec fn unpack_ny(n: u32) -> i16 {
    let raw = (n as int / 0x800) % 0x800;
    if raw >= 0x400 {
        (raw - 0x800) as i16
    } else {
        raw as i16
    }
}

/// The z component of a packed 11/11/10-bit normal, sign-extended.
pub open spec fn unpack_nz(n: u32) -> i16 {
    let raw = n as int / 0x40_0000;
    if raw >= 0x200 {
        (raw - 0x400) as i16
    } else {
        raw as i16
    }
}

/// Unpack an 11/11/10-bit normal field into its three signed
/// fixed-point components (denoting x/1023, y/1023, z/511).
pub fn unpack_normal(n: u32) -> (r: [i16; 3])
    ensures
        r@ == seq![unpack_nx(n), unpack_ny(n), unpack_nz(n)],
{
    let xr = (n % 0x800) as u16;
    let yr = ((n / 0x800) % 0x800) as u16;
    let zr = (n / 0x40_0000) as u16;
    let x: i16 = if xr >= 0x400 {
        (xr as i16) - 0x800
    } else {
        xr as i16
    };
    let y: i16 = if yr >= 0x400 {
        (yr as i16) - 0x800
    } else {
        yr as i16
    };
    let z: i16 = if zr >= 0x200 {
        (zr as i16) - 0x400
    } else {
        zr as i16
    };
    let r = [x, y, z];
    proof {
        assert(r@ =~= seq![unpack_nx(n), unpack_ny(n), unpack_nz(n)]);
    }
    r
}

/// A tangent byte recentered to its signed numerator (denoting t/127).
pub open spec fn tangent_component(b: u8) -> i16 {
    (b as int - 127) as i16
}


/// Per-vertex record. Positions and texture coordinates are binary32 bit
/// patterns; the normal is the sign-extended packed triple (x/1023,
/// y/1023, z/511); tangent components and bone weights are the raw
/// stream bytes recentered (t/127) or kept (w/255).
pub struct Vertex {
    pub position: [u32; 3],
    pub uv: [u32; 2],
    pub normal: [i16; 3],
    pub tangent: [i16; 4],
    pub color: Option<[u8; 4]>,
    pub uv2: Option<[u32; 2]>,
    pub bone_indices: Option<[u8; 4]>,
    pub bone_weights: Option<[u8; 4]>,
}

/// How many bytes one vertex record occupies under these layout flags.
pub open spec fn vertex_size(flags: u32) -> int {
    24int + if flags & 0x137 == 0x137 {
        8int
    } else if flags == 0x10307 {
        8int
    } else if flags == 0x10107 {
        4int
    } else {
        0int
    }
}

impl Vertex {
    /// What a vertex read at `at` under `flags` holds.
    pub open spec fn parsed_from(self, s: Seq<u8>, at: int, flags: u32) -> bool {
        &&& self.position@ == point_bits_of(s, at)
        &&& self.uv@ == seq![f16_field(s, at + 12), f16_field(s, at + 14)]
        &&& self.normal@ == seq![
            unpack_nx(u32_at(s, at + 16)),
            unpack_ny(u32_at(s, at + 16)),
            unpack_nz(u32_at(s, at + 16)),
        ]
        &&& self.tangent@ == seq![
            tangent_component(u8_at(s, at + 20)),
            tangent_component(u8_at(s, at + 21)),
            tangent_component(u8_at(s, at + 22)),
            tangent_component(u8_at(s, at + 23)),
        ]
        &&& if flags & 0x137 == 0x137 {
            &&& self.bone_indices is Some
            &&& self.bone_indices.unwrap()@ == s.subrange(at + 24, at + 28)
            &&& self.bone_weights is Some
            &&& self.bone_weights.unwrap()@ == s.subrange(at + 28, at + 32)
            &&& self.color is None
            &&& self.uv2 is None
        } else if flags == 0x10307 {
            &&& self.color is Some
            &&& self.color.unwrap()@ == s.subrange(at + 24, at + 28)
            &&& self.uv2 is Some
            &&& self.uv2.unwrap()@ == seq![f16_field(s, at + 28), f16_field(s, at + 30)]
            &&& self.bone_indices is None
            &&& self.bone_weights is None
        } else if flags == 0x10107 {
            &&& self.color is Some
            &&& self.color.unwrap()@ == s.subrange(at + 24, at + 28)
            &&& self.uv2 is None
            &&& self.bone_indices is None
            &&& self.bone_weights is None
        } else {
            &&& self.color is None
            &&& self.uv2 is None
            &&& self.bone_indices is None
            &&& self.bone_weights is None
        }
    }

    #[verifier::rlimit(100)]
    pub fn read(rd: &mut ByteReader, vertex_flags: u32) -> (r: Result<Vertex, DecodeError>)
        ensures
            final(rd).bytes() == old(rd).bytes(),
            match r {
                Ok(v) => {
                    &&& old(rd).cursor() + vertex_size(vertex_flags) <= final(rd).bytes().len()
                    &&& v.parsed_from(final(rd).bytes(), old(rd).cursor(), vertex_flags)
                    &&& final(rd).cursor() == old(rd).cursor() + vertex_size(vertex_flags)
                },
                Err(e) => {
                    &&& e == DecodeError::ShortRead
                    &&& old(rd).cursor() + vertex_size(vertex_flags) > final(rd).bytes().len()
                },
            },
    {
        let position = read_point(rd)?;
        let u0 = read_f16_as_f32_bits(rd)?;
        let u1 = read_f16_as_f32_bits(rd)?;
        let packed = rd.read_u32()?;
        let normal = unpack_normal(packed);
        let t0 = rd.read_u8()?;
        let t1 = rd.read_u8()?;
        let t2 = rd.read_u8()?;
        let t3 = rd.read_u8()?;
        let tangent: [i16; 4] = [
            t0 as i16 - 127,
            t1 as i16 - 127,
            t2 as i16 - 127,
            t3 as i16 - 127,
        ];
        let mut color: Option<[u8; 4]> = None;
        let mut uv2: Option<[u32; 2]> = None;
        let mut bone_indices: Option<[u8; 4]> = None;
        let mut bone_weights: Option<[u8; 4]> = None;
        if (vertex_flags & 0x137) == 0x137 {
            let b0 = rd.read_u8()?;
            let b1 = rd.read_u8()?;
            let b2 = rd.read_u8()?;
            let b3 = rd.read_u8()?;
            let bi = [b0, b1, b2, b3];
            proof {
                assert(bi@ =~= rd.bytes().subrange(old(rd).cursor() + 24, old(rd).cursor() + 28));
            }
            bone_indices = Some(bi);
            let w0 = rd.read_u8()?;
            let w1 = rd.read_u8()?;
            let w2 = rd.read_u8()?;
            let w3 = rd.read_u8()?;
            let bw = [w0, w1, w2, w3];
            proof {
                assert(bw@ =~= rd.bytes().subrange(old(rd).cursor() + 28, old(rd).cursor() + 32));
            }
            bone_weights = Some(bw);
        } else if vertex_flags == 0x10307 {
            let c0 = rd.read_u8()?;
            let c1 = rd.read_u8()?;
            let c2 = rd.read_u8()?;
            let c3 = rd.read_u8()?;
            let cl = [c0, c1, c2, c3];
            proof {
                assert(cl@ =~= rd.bytes().subrange(old(rd).cursor() + 24, old(rd).cursor() + 28));
            }
            color = Some(cl);
            let u2a = read_f16_as_f32_bits(rd)?;
            let u2b = read_f16_as_f32_bits(rd)?;
            let ux = [u2a, u2b];
            proof {
                assert(ux@ =~= seq![
                    f16_field(rd.bytes(), old(rd).cursor() + 28),
                    f16_field(rd.bytes(), old(rd).cursor() + 30),
                ]);
            }
            uv2 = Some(ux);
        } else if vertex_flags == 0x10107 {
            let c0 = rd.read_u8()?;
            let c1 = rd.read_u8()?;
            let c2 = rd.read_u8()?;
            let c3 = rd.read_u8()?;
            let cl = [c0, c1, c2, c3];
            proof {
                assert(cl@ =~= rd.bytes().subrange(old(rd).cursor() + 24, old(rd).cursor() + 28));
            }
            color = Some(cl);
        }
        let v = Vertex { position, uv: [u0, u1], normal, tangent, color, uv2, bone_indices,
            bone_weights };
        proof {
            assert(v.uv@ =~= seq![
                f16_field(rd.bytes(), old(rd).cursor() + 12),
                f16_field(rd.bytes(), old(rd).cursor() + 14),
            ]);
            assert(v.tangent@ =~= seq![
                tangent_component(u8_at(rd.bytes(), old(rd).cursor() + 20)),
                tangent_component(u8_at(rd.bytes(), old(rd).cursor() + 21)),
                tangent_component(u8_at(rd.bytes(), old(rd).cursor() + 22)),
                tangent_component(u8_at(rd.bytes(), old(rd).cursor() + 23)),
            ]);
        }
        Ok(v)
    }
}

/// Fixed header of one vertex group.
pub struct VertexGroupHeader {
    pub vertex_offset: u32,
    pub vertex_ex_data_offset: u32,
    pub unknown1_offset: u32,
    pub unknown2_offset: u32,
    pub num_vertexes: u32,
    pub index_buffer_offset: u32,
    pub num_indexes: u32,
}

/// The vertex-group header at `at`.
pub open spec fn parse_vertex_group_header(s: Seq<u8>, at: int) -> VertexGroupHeader {
    VertexGroupHeader {
        vertex_offset: u32_at(s, at),
        vertex_ex_data_offset: u32_at(s, at + 4),
        unknown1_offset: u32_at(s, at + 8),
        unknown2_offset: u32_at(s, at + 12),
        num_vertexes: u32_at(s, at + 16),
        index_buffer_offset: u32_at(s, at + 20),
        num_indexes: u32_at(s, at + 24),
    }
}

impl VertexGroupHeader {
    pub fn read(rd: &mut ByteReader) -> (r: Result<VertexGroupHeader, DecodeError>)
        ensures
            final(rd).bytes() == old(rd).bytes(),
            match r {
                Ok(h) => {
                    &&& old(rd).cursor() + 28 <= final(rd).bytes().len()
                    &&& h == parse_vertex_group_header(final(rd).bytes(), old(rd).cursor())
                    &&& final(rd).cursor() == old(rd).cursor() + 28
                },
                Err(e) => {
                    &&& e == DecodeError::ShortRead
                    &&& old(rd).cursor() + 28 > final(rd).bytes().len()
                },
            },
    {
        Ok(VertexGroupHeader {
            vertex_offset: rd.read_u32()?,
            vertex_ex_data_offset: rd.read_u32()?,
            unknown1_offset: rd.read_u32()?,
            unknown2_offset: rd.read_u32()?,
            num_vertexes: rd.read_u32()?,
            index_buffer_offset: rd.read_u32()?,
            num_indexes: rd.read_u32()?,
        })
    }
}

/// Extended per-vertex record; present fields depend on the same flags.
pub struct VertexExData {
    pub color: Option<[u8; 4]>,
    pub uv2: Option<[u32; 2]>,
}

/// How many bytes one extended vertex record occupies under these flags.
pub open spec fn vertex_ex_size(flags: u32) -> int {
    if flags & 0x337 == 0x337 {
        8int
    } else if flags == 0x10137 {
        4int
    } else {
        0int
    }
}

impl VertexExData {
    /// What an extended vertex record read at `at` under `flags` holds.
    pub open spec fn parsed_from(self, s: Seq<u8>, at: int, flags: u32) -> bool {
        if flags & 0x337 == 0x337 {
            &&& self.color is Some
            &&& self.color.unwrap()@ == s.subrange(at, at + 4)
            &&& self.uv2 is Some
            &&& self.uv2.unwrap()@ == seq![f16_field(s, at + 4), f16_field(s, at + 6)]
        } else if flags == 0x10137 {
            &&& self.color is Some
            &&& self.color.unwrap()@ == s.subrange(at, at + 4)
            &&& self.uv2 is None
        } else {
            &&& self.color is None
            &&& self.uv2 is None
        }
    }

    #[verifier::rlimit(100)]
    pub fn read(rd: &mut ByteReader, vertex_flags: u32) -> (r: Result<VertexExData, DecodeError>)
        ensures
            final(rd).bytes() == old(rd).bytes(),
            match r {
                Ok(v) => {
                    &&& vertex_ex_size(vertex_flags) > 0 ==> old(rd).cursor() + vertex_ex_size(
                        vertex_flags,
                    ) <= final(rd).bytes().len()
                    &&& v.parsed_from(final(rd).bytes(), old(rd).cursor(), vertex_flags)
                    &&& final(rd).cursor() == old(rd).cursor() + vertex_ex_size(vertex_flags)
                },
                Err(e) => {
                    &&& e == DecodeError::ShortRead
                    &&& vertex_ex_size(vertex_flags) > 0
                    &&& old(rd).cursor() + vertex_ex_size(vertex_flags) > final(rd).bytes().len()
                },
            },
    {
        let mut color: Option<[u8; 4]> = None;
        let mut uv2: Option<[u32; 2]> = None;
        if (vertex_flags & 0x337) == 0x337 {
            let c0 = rd.read_u8()?;
            let c1 = rd.read_u8()?;
            let c2 = rd.read_u8()?;
            let c3 = rd.read_u8()?;
            let cl = [c0, c1, c2, c3];
            proof {
                assert(cl@ =~= rd.bytes().subrange(old(rd).cursor(), old(rd).cursor() + 4));
            }
            color = Some(cl);
            let ua = read_f16_as_f32_bits(rd)?;
            let ub = read_f16_as_f32_bits(rd)?;
            let ux = [ua, ub];
            proof {
                assert(ux@ =~= seq![
                    f16_field(rd.bytes(), old(rd).cursor() + 4),
                    f16_field(rd.bytes(), old(rd).cursor() + 6),
                ]);
            }
            uv2 = Some(ux);
        } else if vertex_flags == 0x10137 {
            let c0 = rd.read_u8()?;
            let c1 = rd.read_u8()?;
            let c2 = rd.read_u8()?;
            let c3 = rd.read_u8()?;
            let cl = [c0, c1, c2, c3];
            proof {
                assert(cl@ =~= rd.bytes().subrange(old(rd).cursor(), old(rd).cursor() + 4));
            }
            color = Some(cl);
        }
        let v = VertexExData { color, uv2 };
        Ok(v)
    }
}

/// One draw batch: a direct vertex window plus an index window into its
/// vertex group.
pub struct Batch {
    pub vertex_group_index: u32,
    pub vertex_start: i32,
    pub index_start: i32,
    pub num_vertices: u32,
    pub num_indexes: u32,
}

/// The batch record at `at`.
pub open spec fn parse_batch(s: Seq<u8>, at: int) -> Batch {
    Batch {
        vertex_group_index: u32_at(s, at),
        vertex_start: i32_at(s, at + 4),
        index_start: i32_at(s, at + 8),
        num_vertices: u32_at(s, at + 12),
        num_indexes: u32_at(s, at + 16),
    }
}

impl Batch {
    pub fn read(rd: &mut ByteReader) -> (r: Result<Batch, DecodeError>)
        ensures
            final(rd).bytes() == old(rd).bytes(),
            match r {
                Ok(b) => {
                    &&& old(rd).cursor() + 20 <= final(rd).bytes().len()
                    &&& b == parse_batch(final(rd).bytes(), old(rd).cursor())
                    &&& final(rd).cursor() == old(rd).cursor() + 20
                },
                Err(e) => {
                    &&& e == DecodeError::ShortRead
                    &&& old(rd).cursor() + 20 > final(rd).bytes().len()
                },
            },
    {
        Ok(Batch {
            vertex_group_index: rd.read_u32()?,
            vertex_start: rd.read_i32()?,
            index_start: rd.read_i32()?,
            num_vertices: rd.read_u32()?,
            num_indexes: rd.read_u32()?,
        })
    }
}

/// Sparse per-batch record keyed by `batch_index`.
pub struct BatchData {
    pub batch_index: u32,
    pub mesh_index: u32,
    pub material_index: u16,
    pub bone_sets_index: u16,
    pub u_a: u32,
}

/// The batch-data record at `at`.
pub open spec fn parse_batch_data(s: Seq<u8>, at: int) -> BatchData {
    BatchData {
        batch_index: u32_at(s, at),
        mesh_index: u32_at(s, at + 4),
        material_index: u16_at(s, at + 8),
        bone_sets_index: u16_at(s, at + 10),
        u_a: u32_at(s, at + 12),
    }
}

impl BatchData {
    pub fn read(rd: &mut ByteReader) -> (r: Result<BatchData, DecodeError>)
        ensures
            final(rd).bytes() == old(rd).bytes(),
            match r {
                Ok(b) => {
                    &&& old(rd).cursor() + 16 <= final(rd).bytes().len()
                    &&& b == parse_batch_data(final(rd).bytes(), old(rd).cursor())
                    &&& final(rd).cursor() == old(rd).cursor() + 16
                },
                Err(e) => {
                    &&& e == DecodeError::ShortRead
                    &&& old(rd).cursor() + 16 > final(rd).bytes().len()
                },
            },
    {
        Ok(BatchData {
            batch_index: rd.read_u32()?,
            mesh_index: rd.read_u32()?,
            material_index: rd.read_u16()?,
            bone_sets_index: rd.read_u16()?,
            u_a: rd.read_u32()?,
        })
    }
}

/// A texture-table entry: its flags and its archive id.
pub struct Texture {
    pub flags: u32,
    pub id: u32,
}

/// The texture entry at `at`.
pub open spec fn parse_texture(s: Seq<u8>, at: int) -> Texture {
    Texture { flags: u32_at(s, at), id: u32_at(s, at + 4) }
}

impl Texture {
    pub fn read(rd: &mut ByteReader) -> (r: Result<Texture, DecodeError>)
        ensures
            final(rd).bytes() == old(rd).bytes(),
            match r {
                Ok(t) => {
                    &&& old(rd).cursor() + 8 <= final(rd).bytes().len()
                    &&& t == parse_texture(final(rd).bytes(), old(rd).cursor())
                    &&& final(rd).cursor() == old(rd).cursor() + 8
                },
                Err(e) => {
                    &&& e == DecodeError::ShortRead
                    &&& old(rd).cursor() + 8 > final(rd).bytes().len()
                },
            },
    {
        Ok(Texture { flags: rd.read_u32()?, id: rd.read_u32()? })
    }
}

/// One bone with its relative and absolute rest positions (bit patterns).
pub struct Bone {
    pub unknown_number: i16,
    pub unknown_number2: i16,
    pub parent_index: i16,
    pub u_b: i16,
    pub relative_position: [u32; 3],
    pub position: [u32; 3],
}

impl Bone {
    /// What a bone record read at `at` holds.
    pub open spec fn parsed_from(self, s: Seq<u8>, at: int) -> bool {
        &&& self.unknown_number == i16_at(s, at)
        &&& self.unknown_number2 == i16_at(s, at + 2)
        &&& self.parent_index == i16_at(s, at + 4)
        &&& self.u_b == i16_at(s, at + 6)
        &&& self.relative_position@ == point_bits_of(s, at + 8)
        &&& self.position@ == point_bits_of(s, at + 20)
    }

    pub fn read(rd: &mut ByteReader) -> (r: Result<Bone, DecodeError>)
        ensures
            final(rd).bytes() == old(rd).bytes(),
            match r {
                Ok(b) => {
                    &&& old(rd).cursor() + 32 <= final(rd).bytes().len()
                    &&& b.parsed_from(final(rd).bytes(), old(rd).cursor())
                    &&& final(rd).cursor() == old(rd).cursor() + 32
                },
                Err(e) => {
                    &&& e == DecodeError::ShortRead
                    &&& old(rd).cursor() + 32 > final(rd).bytes().len()
                },
            },
    {
        Ok(Bone {
            unknown_number: rd.read_i16()?,
            unknown_number2: rd.read_i16()?,
            parent_index: rd.read_i16()?,
            u_b: rd.read_i16()?,
            relative_position: read_point(rd)?,
            position: read_point(rd)?,
        })
    }
}


/// Six consecutive binary32 bit patterns (a bounding box).
pub open spec fn bbox_bits_of(s: Seq<u8>, at: int) -> Seq<u32> {
    Seq::new(6, |i: int| u32_at(s, at + 4 * i))
}

pub fn read_bbox(rd: &mut ByteReader) -> (r: Result<[u32; 6], DecodeError>)
    ensures
        final(rd).bytes() == old(rd).bytes(),
        match r {
            Ok(b) => {
                &&& old(rd).cursor() + 24 <= final(rd).bytes().len()
                &&& b@ == bbox_bits_of(final(rd).bytes(), old(rd).cursor())
                &&& final(rd).cursor() == old(rd).cursor() + 24
            },
            Err(e) => {
                &&& e == DecodeError::ShortRead
                &&& old(rd).cursor() + 24 > final(rd).bytes().len()
            },
        },
{
    let a0 = rd.read_u32()?;
    let a1 = rd.read_u32()?;
    let a2 = rd.read_u32()?;
    let a3 = rd.read_u32()?;
    let a4 = rd.read_u32()?;
    let a5 = rd.read_u32()?;
    let b = [a0, a1, a2, a3, a4, a5];
    proof {
        assert(b@ =~= bbox_bits_of(rd.bytes(), old(rd).cursor()));
    }
    Ok(b)
}

/// Container header: the 4-byte tag, layout flags and the offset/count
/// pair of every section.
pub struct Header {
    pub id: Vec<u8>,
    pub u_a: u32,
    pub vertex_format: u32,
    pub u_b: u16,
    pub u_c: i16,
    pub pos1: [u32; 3],
    pub pos2: [u32; 3],
    pub offset_vertex_groups: u32,
    pub num_vertex_groups: u32,
    pub offset_batches: u32,
    pub num_batches: u32,
    pub offset_batch_description: u32,
    pub offset_bones: u32,
    pub num_bones: u32,
    pub offset_bone_index_translate_table: u32,
    pub size_bone_index_translate_table: u32,
    pub offset_bone_sets: u32,
    pub num_bone_sets: u32,
    pub offset_materials: u32,
    pub num_materials: u32,
    pub offset_textures: u32,
    pub num_textures: u32,
    pub offset_meshes: u32,
    pub num_meshes: u32,
}

impl Header {
    /// What the 108-byte header at `at` holds.
    pub open spec fn parsed_from(self, s: Seq<u8>, at: int) -> bool {
        &&& self.id@ == s.subrange(at, at + 4)
        &&& self.u_a == u32_at(s, at + 4)
        &&& self.vertex_format == u32_at(s, at + 8)
        &&& self.u_b == u16_at(s, at + 12)
        &&& self.u_c == i16_at(s, at + 14)
        &&& self.pos1@ == point_bits_of(s, at + 16)
        &&& self.pos2@ == point_bits_of(s, at + 28)
        &&& self.offset_vertex_groups == u32_at(s, at + 40)
        &&& self.num_vertex_groups == u32_at(s, at + 44)
        &&& self.offset_batches == u32_at(s, at + 48)
        &&& self.num_batches == u32_at(s, at + 52)
        &&& self.offset_batch_description == u32_at(s, at + 56)
        &&& self.offset_bones == u32_at(s, at + 60)
        &&& self.num_bones == u32_at(s, at + 64)
        &&& self.offset_bone_index_translate_table == u32_at(s, at + 68)
        &&& self.size_bone_index_translate_table == u32_at(s, at + 72)
        &&& self.offset_bone_sets == u32_at(s, at + 76)
        &&& self.num_bone_sets == u32_at(s, at + 80)
        &&& self.offset_materials == u32_at(s, at + 84)
        &&& self.num_materials == u32_at(s, at + 88)
        &&& self.offset_textures == u32_at(s, at + 92)
        &&& self.num_textures == u32_at(s, at + 96)
        &&& self.offset_meshes == u32_at(s, at + 100)
        &&& self.num_meshes == u32_at(s, at + 104)
    }

    #[verifier::rlimit(100)]
    pub fn read(rd: &mut ByteReader) -> (r: Result<Header, DecodeError>)
        ensures
            final(rd).bytes() == old(rd).bytes(),
            match r {
                Ok(h) => {
                    &&& old(rd).cursor() + 108 <= final(rd).bytes().len()
                    &&& h.parsed_from(final(rd).bytes(), old(rd).cursor())
                    &&& final(rd).cursor() == old(rd).cursor() + 108
                },
                Err(e) => {
                    &&& e == DecodeError::ShortRead
                    &&& old(rd).cursor() + 108 > final(rd).bytes().len()
                },
            },
    {
        Ok(Header {
            id: rd.read_string(4)?,
            u_a: rd.read_u32()?,
            vertex_format: rd.read_u32()?,
            u_b: rd.read_u16()?,
            u_c: rd.read_i16()?,
            pos1: read_point(rd)?,
            pos2: read_point(rd)?,
            offset_vertex_groups: rd.read_u32()?,
            num_vertex_groups: rd.read_u32()?,
            offset_batches: rd.read_u32()?,
            num_batches: rd.read_u32()?,
            offset_batch_description: rd.read_u32()?,
            offset_bones: rd.read_u32()?,
            num_bones: rd.read_u32()?,
            offset_bone_index_translate_table: rd.read_u32()?,
            size_bone_index_translate_table: rd.read_u32()?,
            offset_bone_sets: rd.read_u32()?,
            num_bone_sets: rd.read_u32()?,
            offset_materials: rd.read_u32()?,
            num_materials: rd.read_u32()?,
            offset_textures: rd.read_u32()?,
            num_textures: rd.read_u32()?,
            offset_meshes: rd.read_u32()?,
            num_meshes: rd.read_u32()?,
        })
    }
}

/// The four texture-slot bindings of a material: a numeric role code and
/// a texture-table index each, in slot order.
pub struct TextureIndices {
    pub flags: [u32; 4],
    pub indices: [u32; 4],
}

impl TextureIndices {
    /// What the 32-byte slot table at `at` holds: four interleaved
    /// (role, index) pairs.
    pub open spec fn parsed_from(self, s: Seq<u8>, at: int) -> bool {
        &&& self.flags@ == Seq::new(4, |p: int| u32_at(s, at + 8 * p))
        &&& self.indices@ == Seq::new(4, |p: int| u32_at(s, at + 8 * p + 4))
    }

    pub fn read(rd: &mut ByteReader) -> (r: Result<TextureIndices, DecodeError>)
        ensures
            final(rd).bytes() == old(rd).bytes(),
            match r {
                Ok(t) => {
                    &&& old(rd).cursor() + 32 <= final(rd).bytes().len()
                    &&& t.parsed_from(final(rd).bytes(), old(rd).cursor())
                    &&& final(rd).cursor() == old(rd).cursor() + 32
                },
                Err(e) => {
                    &&& e == DecodeError::ShortRead
                    &&& old(rd).cursor() + 32 > final(rd).bytes().len()
                },
            },
    {
        let f0 = rd.read_u32()?;
        let i0 = rd.read_u32()?;
        let f1 = rd.read_u32()?;
        let i1 = rd.read_u32()?;
        let f2 = rd.read_u32()?;
        let i2 = rd.read_u32()?;
        let f3 = rd.read_u32()?;
        let i3 = rd.read_u32()?;
        let t = TextureIndices { flags: [f0, f1, f2, f3], indices: [i0, i1, i2, i3] };
        proof {
            assert(t.flags@ =~= Seq::new(4, |p: int| u32_at(rd.bytes(), old(rd).cursor() + 8 * p)));
            assert(t.indices@ =~= Seq::new(
                4,
                |p: int| u32_at(rd.bytes(), old(rd).cursor() + 8 * p + 4),
            ));
        }
        Ok(t)
    }

    /// Whether a role code marks an albedo-class slot.
    pub open spec fn is_albedo_role(f: u32) -> bool {
        f == 0 || f == 1
    }

    /// The texture index of the first albedo-class slot, in slot order.
    pub open spec fn albedo_index_spec(self) -> Option<u32> {
        if Self::is_albedo_role(self.flags@[0]) {
            Some(self.indices@[0])
        } else if Self::is_albedo_role(self.flags@[1]) {
            Some(self.indices@[1])
        } else if Self::is_albedo_role(self.flags@[2]) {
            Some(self.indices@[2])
        } else if Self::is_albedo_role(self.flags@[3]) {
            Some(self.indices@[3])
        } else {
            None
        }
    }

    pub fn get_albedo_index(&self) -> (r: Option<u32>)
        ensures
            r == self.albedo_index_spec(),
    {
        let mut p: usize = 0;
        while p < 4
            invariant
                p <= 4,
                forall|q: int| 0 <= q < p ==> !Self::is_albedo_role(self.flags@[q]),
            decreases 4 - p,
        {
            let f = self.flags[p];
            if f == 0 || f == 1 {
                return Some(self.indices[p]);
            }
            p = p + 1;
        }
        None
    }

    /// The texture index of the first slot with the normal-map role 2.
    pub open spec fn normal_index_spec(self) -> Option<u32> {
        if self.flags@[0] == 2 {
            Some(self.indices@[0])
        } else if self.flags@[1] == 2 {
            Some(self.indices@[1])
        } else if self.flags@[2] == 2 {
            Some(self.indices@[2])
        } else if self.flags@[3] == 2 {
            Some(self.indices@[3])
        } else {
            None
        }
    }

    pub fn get_normal_index(&self) -> (r: Option<u32>)
        ensures
            r == self.normal_index_spec(),
    {
        let mut p: usize = 0;
        while p < 4
            invariant
                p <= 4,
                forall|q: int| 0 <= q < p ==> self.flags@[q] != 2,
            decreases 4 - p,
        {
            if self.flags[p] == 2 {
                return Some(self.indices[p]);
            }
            p = p + 1;
        }
        None
    }

    /// The texture indices of every albedo-class slot, in slot order.
    pub open spec fn albedo_indices_spec(self) -> Seq<u32> {
        let s0: Seq<u32> = if Self::is_albedo_role(self.flags@[0]) {
            seq![self.indices@[0]]
        } else {
            Seq::empty()
        };
        let s1: Seq<u32> = if Self::is_albedo_role(self.flags@[1]) {
            seq![self.indices@[1]]
        } else {
            Seq::empty()
        };
        let s2: Seq<u32> = if Self::is_albedo_role(self.flags@[2]) {
            seq![self.indices@[2]]
        } else {
            Seq::empty()
        };
        let s3: Seq<u32> = if Self::is_albedo_role(self.flags@[3]) {
            seq![self.indices@[3]]
        } else {
            Seq::empty()
        };
        s0 + s1 + s2 + s3
    }

    pub fn get_albedo_indices(&self) -> (r: Vec<u32>)
        ensures
            r@ == self.albedo_indices_spec(),
    {
        let mut out: Vec<u32> = Vec::new();
        if self.flags[0] == 0 || self.flags[0] == 1 {
            out.push(self.indices[0]);
        }
        if self.flags[1] == 0 || self.flags[1] == 1 {
            out.push(self.indices[1]);
        }
        if self.flags[2] == 0 || self.flags[2] == 1 {
            out.push(self.indices[2]);
        }
        if self.flags[3] == 0 || self.flags[3] == 1 {
            out.push(self.indices[3]);
        }
        proof {
            assert(out@ =~= self.albedo_indices_spec());
        }
        out
    }
}


/// The sequence of unsigned 16-bit fields at `at`.
pub open spec fn u16_run(s: Seq<u8>, at: int, n: int) -> Seq<u16> {
    Seq::new(n as nat, |i: int| u16_at(s, at + 2 * i))
}

fn read_u16_table(rd: &mut ByteReader, offset: u32, num: u32) -> (r: Result<Vec<u16>, DecodeError>)
    ensures
        final(rd).bytes() == old(rd).bytes(),
        match r {
            Ok(v) => {
                &&& v@ == u16_run(final(rd).bytes(), offset as int, num as int)
                &&& num > 0 ==> offset + 2 * num <= final(rd).bytes().len()
            },
            Err(e) => {
                &&& e == DecodeError::ShortRead
                &&& num > 0
                &&& offset + 2 * num > final(rd).bytes().len()
            },
        },
{
    let _ = rd.seek(offset as u64);
    let mut out: Vec<u16> = Vec::new();
    let mut i: u32 = 0;
    while i < num
        invariant
            rd.bytes() == old(rd).bytes(),
            i <= num,
            rd.cursor() == offset + 2 * i,
            i > 0 ==> offset + 2 * i <= rd.bytes().len(),
            out@.len() == i,
            forall|k: int| 0 <= k < i ==> out@[k] == u16_at(rd.bytes(), offset + 2 * k),
        decreases num - i,
    {
        let v = rd.read_u16()?;
        out.push(v);
        i = i + 1;
    }
    proof {
        assert(out@ =~= u16_run(rd.bytes(), offset as int, num as int));
    }
    Ok(out)
}

fn read_u32_run(rd: &mut ByteReader, num: u16) -> (r: Result<Vec<u32>, DecodeError>)
    ensures
        final(rd).bytes() == old(rd).bytes(),
        match r {
            Ok(v) => {
                &&& v@ == Seq::new(num as nat, |i: int| u32_at(final(rd).bytes(), old(rd).cursor() + 4 * i))
                &&& final(rd).cursor() == old(rd).cursor() + 4 * num
                &&& num > 0 ==> old(rd).cursor() + 4 * num <= final(rd).bytes().len()
            },
            Err(e) => {
                &&& e == DecodeError::ShortRead
                &&& num > 0
                &&& old(rd).cursor() + 4 * num > final(rd).bytes().len()
            },
        },
{
    let mut out: Vec<u32> = Vec::new();
    let mut i: u16 = 0;
    while i < num
        invariant
            rd.bytes() == old(rd).bytes(),
            i <= num,
            rd.cursor() == old(rd).cursor() + 4 * i,
            i > 0 ==> old(rd).cursor() + 4 * i <= rd.bytes().len(),
            out@.len() == i,
            forall|k: int| 0 <= k < i ==> out@[k] == u32_at(rd.bytes(), old(rd).cursor() + 4 * k),
        decreases num - i,
    {
        let v = rd.read_u32()?;
        out.push(v);
        i = i + 1;
    }
    proof {
        assert(out@ =~= Seq::new(
            num as nat,
            |i: int| u32_at(rd.bytes(), old(rd).cursor() + 4 * i),
        ));
    }
    Ok(out)
}

/// The material record at `at` and its three indirections fit inside
/// the bytes.
pub open spec fn material_parses(s: Seq<u8>, at: int) -> bool {
    &&& at + 24 <= s.len()
    &&& u32_at(s, at) + 16 <= s.len()
    &&& u32_at(s, at + 4) + 32 <= s.len()
    &&& (u16_at(s, at + 22) == 0 || u32_at(s, at + 12) + 4 * u16_at(s, at + 22) <= s.len())
}

/// Shader identity and texture-slot bindings of one material. The
/// parameter list is kept as binary32 bit patterns.
pub struct Material {
    pub shader_name: Vec<u8>,
    pub texture_indices: TextureIndices,
    pub parameters: Vec<u32>,
}

impl Material {
    /// What the 24-byte material header at `at`, with its three
    /// indirections, holds.
    pub open spec fn parsed_from(self, s: Seq<u8>, at: int) -> bool {
        &&& self.shader_name@ == s.subrange(
            u32_at(s, at) as int,
            u32_at(s, at) as int + 16,
        )
        &&& self.texture_indices.parsed_from(s, u32_at(s, at + 4) as int)
        &&& self.parameters@ == Seq::new(
            u16_at(s, at + 22) as nat,
            |i: int| u32_at(s, u32_at(s, at + 12) as int + 4 * i),
        )
    }

    pub fn read(rd: &mut ByteReader) -> (r: Result<Material, DecodeError>)
        ensures
            final(rd).bytes() == old(rd).bytes(),
            match r {
                Ok(m) => {
                    &&& material_parses(final(rd).bytes(), old(rd).cursor())
                    &&& m.parsed_from(final(rd).bytes(), old(rd).cursor())
                    &&& final(rd).cursor() == old(rd).cursor() + 24
                },
                Err(e) => e == DecodeError::ShortRead && !material_parses(
                    final(rd).bytes(),
                    old(rd).cursor(),
                ),
            },
    {
        let offset_shader_name = rd.read_u32()?;
        let offset_textures = rd.read_u32()?;
        let _u_a = rd.read_u32()?;
        let offset_parameters = rd.read_u32()?;
        let _num_textures = rd.read_u16()?;
        let _u_c = rd.read_u16()?;
        let _u_d = rd.read_u16()?;
        let num_parameters = rd.read_u16()?;
        let pos = rd.position();
        let _ = rd.seek(offset_shader_name as u64);
        let shader_name = rd.read_string(16)?;
        let _ = rd.seek(offset_textures as u64);
        let texture_indices = TextureIndices::read(rd)?;
        let _ = rd.seek(offset_parameters as u64);
        let parameters = read_u32_run(rd, num_parameters)?;
        let _ = rd.seek(pos);
        Ok(Material { shader_name, texture_indices, parameters })
    }

    /// The archive texture id behind the first albedo-class slot, when
    /// its index lands inside the texture table.
    pub open spec fn albedo_texture_id_spec(self, textures: Seq<Texture>) -> Option<u32> {
        match self.texture_indices.albedo_index_spec() {
            Some(ix) => if ix < textures.len() {
                Some(textures[ix as int].id)
            } else {
                None
            },
            None => None,
        }
    }

    pub fn get_albedo_texture_id(&self, textures: &Vec<Texture>) -> (r: Option<u32>)
        ensures
            r == self.albedo_texture_id_spec(textures@),
    {
        match self.texture_indices.get_albedo_index() {
            Some(ix) => {
                if (ix as usize) < textures.len() {
                    Some(textures[ix as usize].id)
                } else {
                    None
                }
            },
            None => None,
        }
    }

    /// The archive texture id behind the normal-map slot, when its index
    /// lands inside the texture table.
    pub open spec fn normal_texture_id_spec(self, textures: Seq<Texture>) -> Option<u32> {
        match self.texture_indices.normal_index_spec() {
            Some(ix) => if ix < textures.len() {
                Some(textures[ix as int].id)
            } else {
                None
            },
            None => None,
        }
    }

    pub fn get_normal_texture_id(&self, textures: &Vec<Texture>) -> (r: Option<u32>)
        ensures
            r == self.normal_texture_id_spec(textures@),
    {
        match self.texture_indices.get_normal_index() {
            Some(ix) => {
                if (ix as usize) < textures.len() {
                    Some(textures[ix as usize].id)
                } else {
                    None
                }
            },
            None => None,
        }
    }
}

/// "eye", "har" or "skn": the shader-name prefixes denoting organic
/// materials (skin, hair, eyes).
pub open spec fn organic_prefix(shader: Seq<u8>) -> bool {
    ||| crate::bytes_util::starts_with_seq(shader, seq![0x65u8, 0x79u8, 0x65u8])
    ||| crate::bytes_util::starts_with_seq(shader, seq![0x68u8, 0x61u8, 0x72u8])
    ||| crate::bytes_util::starts_with_seq(shader, seq![0x73u8, 0x6Bu8, 0x6Eu8])
}

/// An albedo slot index resolves when it lands in the texture table and
/// the archive knows that texture's id.
pub open spec fn slot_resolvable(ix: u32, textures: Seq<Texture>, w: &WtaWtp) -> bool {
    ix < textures.len() && w.entries().contains_key(textures[ix as int].id)
}

/// How many of the albedo-class slot indices resolve in the archive.
pub open spec fn count_resolvable(ixs: Seq<u32>, textures: Seq<Texture>, w: &WtaWtp) -> int
    decreases ixs.len(),
{
    if ixs.len() == 0 {
        0
    } else {
        count_resolvable(ixs.drop_last(), textures, w) + if slot_resolvable(
            ixs.last(),
            textures,
            w,
        ) {
            1int
        } else {
            0int
        }
    }
}

/// The empirical shader-name transparency rule: the name must be at
/// least five bytes; exactly one albedo slot must resolve (or at least
/// one, for organic prefixes); bytes 3 and 4 must not both be the digit
/// zero unless the prefix is organic; and byte 4 must not be the digit
/// zero unless the prefix is exactly "har".
pub open spec fn transparency_spec(shader: Seq<u8>, albedo_count: int) -> bool {
    &&& shader.len() >= 5
    &&& (albedo_count == 1 || (organic_prefix(shader) && albedo_count >= 1))
    &&& (!(shader[3] == 0x30 && shader[4] == 0x30) || organic_prefix(shader))
    &&& (shader[4] != 0x30 || crate::bytes_util::starts_with_seq(
        shader,
        seq![0x68u8, 0x61u8, 0x72u8],
    ))
}

impl Material {
    /// Apply the transparency heuristic; without an archive the material
    /// is opaque.
    #[verifier::rlimit(100)]
    pub fn alpha_is_transparency(&self, wta_wtp: Option<&WtaWtp>, textures: &Vec<Texture>) -> (r:
        bool)
        ensures
            match wta_wtp {
                Some(w) => r == transparency_spec(
                    self.shader_name@,
                    count_resolvable(
                        self.texture_indices.albedo_indices_spec(),
                        textures@,
                        w,
                    ),
                ),
                None => r == false,
            },
    {
        let w = match wta_wtp {
            Some(w) => w,
            None => {
                return false;
            },
        };
        if self.shader_name.len() < 5 {
            return false;
        }
        let eye: [u8; 3] = [0x65, 0x79, 0x65];
        let har: [u8; 3] = [0x68, 0x61, 0x72];
        let skn: [u8; 3] = [0x73, 0x6B, 0x6E];
        proof {
            assert(eye@ =~= seq![0x65u8, 0x79u8, 0x65u8]);
            assert(har@ =~= seq![0x68u8, 0x61u8, 0x72u8]);
            assert(skn@ =~= seq![0x73u8, 0x6Bu8, 0x6Eu8]);
        }
        let is_organic = crate::bytes_util::bytes_starts_with(self.shader_name.as_slice(), eye.as_slice())
            || crate::bytes_util::bytes_starts_with(self.shader_name.as_slice(), har.as_slice())
            || crate::bytes_util::bytes_starts_with(self.shader_name.as_slice(), skn.as_slice());
        let ixs = self.texture_indices.get_albedo_indices();
        let mut albedo_tex_count: usize = 0;
        let mut i: usize = 0;
        while i < ixs.len()
            invariant
                ixs@ == self.texture_indices.albedo_indices_spec(),
                i <= ixs@.len(),
                ixs@.len() <= 4,
                albedo_tex_count == count_resolvable(ixs@.subrange(0, i as int), textures@, w),
                albedo_tex_count <= i,
            decreases ixs@.len() - i,
        {
            proof {
                assert(ixs@.subrange(0, i + 1).drop_last() =~= ixs@.subrange(0, i as int));
            }
            let ix = ixs[i];
            if (ix as usize) < textures.len() && w.has_id(textures[ix as usize].id) {
                albedo_tex_count = albedo_tex_count + 1;
            }
            i = i + 1;
        }
        proof {
            assert(ixs@.subrange(0, ixs@.len() as int) =~= ixs@);
        }
        if albedo_tex_count == 1 || (is_organic && albedo_tex_count >= 1) {
            if !(self.shader_name[3] == 0x30 && self.shader_name[4] == 0x30) || is_organic {
                if self.shader_name[4] != 0x30 || crate::bytes_util::bytes_starts_with(
                    self.shader_name.as_slice(),
                    har.as_slice(),
                ) {
                    return true;
                }
            }
        }
        false
    }
}


/// The mesh record at `at`, its name and its index lists fit inside
/// the bytes.
pub open spec fn mesh_parses(s: Seq<u8>, at: int) -> bool {
    &&& at + 68 <= s.len()
    &&& first_zero_at(s, u32_at(s, at) as int) is Some
    &&& (u32_at(s, at + 28) == 0 || u32_at(s, at + 32) == 0 || u32_at(s, at + 28) + 2 * u32_at(
        s,
        at + 32,
    ) <= s.len())
    &&& (u32_at(s, at + 36) == 0 || u32_at(s, at + 40) == 0 || u32_at(s, at + 36) + 2 * u32_at(
        s,
        at + 40,
    ) <= s.len())
    &&& (u32_at(s, at + 44) == 0 || u32_at(s, at + 48) == 0 || u32_at(s, at + 44) + 2 * u32_at(
        s,
        at + 48,
    ) <= s.len())
    &&& (u32_at(s, at + 52) == 0 || u32_at(s, at + 56) == 0 || u32_at(s, at + 52) + 2 * u32_at(
        s,
        at + 56,
    ) <= s.len())
    &&& (u32_at(s, at + 64) == 0 || u32_at(s, at + 60) + 2 * u32_at(s, at + 64) <= s.len())
}

/// View of a list of index lists as a sequence of sequences.
pub open spec fn vecs_view_u16(b: Seq<Vec<u16>>) -> Seq<Seq<u16>> {
    Seq::new(b.len(), |i: int| b[i]@)
}

/// The batch-index lists of the mesh record at `at`: one list per slot
/// whose offset is non-zero, in slot order.
pub open spec fn mesh_batches_spec(s: Seq<u8>, at: int) -> Seq<Seq<u16>> {
    let s0: Seq<Seq<u16>> = if u32_at(s, at + 28) != 0 {
        seq![u16_run(s, u32_at(s, at + 28) as int, u32_at(s, at + 32) as int)]
    } else {
        Seq::empty()
    };
    let s1: Seq<Seq<u16>> = if u32_at(s, at + 36) != 0 {
        seq![u16_run(s, u32_at(s, at + 36) as int, u32_at(s, at + 40) as int)]
    } else {
        Seq::empty()
    };
    let s2: Seq<Seq<u16>> = if u32_at(s, at + 44) != 0 {
        seq![u16_run(s, u32_at(s, at + 44) as int, u32_at(s, at + 48) as int)]
    } else {
        Seq::empty()
    };
    let s3: Seq<Seq<u16>> = if u32_at(s, at + 52) != 0 {
        seq![u16_run(s, u32_at(s, at + 52) as int, u32_at(s, at + 56) as int)]
    } else {
        Seq::empty()
    };
    s0 + s1 + s2 + s3
}

/// One mesh: its name, bounding box (bit patterns) and, per slot, the
/// batch indices it draws.
pub struct Mesh {
    pub name: Vec<u8>,
    pub bounding_box: [u32; 6],
    pub batches: Vec<Vec<u16>>,
}

impl Mesh {
    /// What the 68-byte mesh record at `at`, with its indirections,
    /// holds.
    pub open spec fn parsed_from(self, s: Seq<u8>, at: int) -> bool {
        &&& first_zero_at(s, u32_at(s, at) as int) is Some
        &&& self.name@ == s.subrange(
            u32_at(s, at) as int,
            first_zero_at(s, u32_at(s, at) as int).unwrap(),
        )
        &&& self.bounding_box@ == bbox_bits_of(s, at + 4)
        &&& vecs_view_u16(self.batches@) == mesh_batches_spec(s, at)
    }

    #[verifier::rlimit(100)]
    pub fn read(rd: &mut ByteReader) -> (r: Result<Mesh, DecodeError>)
        ensures
            final(rd).bytes() == old(rd).bytes(),
            match r {
                Ok(m) => {
                    &&& mesh_parses(final(rd).bytes(), old(rd).cursor())
                    &&& m.parsed_from(final(rd).bytes(), old(rd).cursor())
                    &&& final(rd).cursor() == old(rd).cursor() + 68
                },
                Err(e) => e == DecodeError::ShortRead && !mesh_parses(
                    final(rd).bytes(),
                    old(rd).cursor(),
                ),
            },
    {
        let offset_name = rd.read_u32()?;
        let bounding_box = read_bbox(rd)?;
        let o0 = rd.read_u32()?;
        let n0 = rd.read_u32()?;
        let o1 = rd.read_u32()?;
        let n1 = rd.read_u32()?;
        let o2 = rd.read_u32()?;
        let n2 = rd.read_u32()?;
        let o3 = rd.read_u32()?;
        let n3 = rd.read_u32()?;
        let offset_materials = rd.read_u32()?;
        let num_materials = rd.read_u32()?;
        let pos = rd.position();
        let _ = rd.seek(offset_name as u64);
        let name = rd.read_string_zero_term()?;
        let mut batches: Vec<Vec<u16>> = Vec::new();
        if o0 != 0 {
            let b = read_u16_table(rd, o0, n0)?;
            batches.push(b);
        }
        if o1 != 0 {
            let b = read_u16_table(rd, o1, n1)?;
            batches.push(b);
        }
        if o2 != 0 {
            let b = read_u16_table(rd, o2, n2)?;
            batches.push(b);
        }
        if o3 != 0 {
            let b = read_u16_table(rd, o3, n3)?;
            batches.push(b);
        }
        let _ = rd.seek(offset_materials as u64);
        let _materials = read_u16_table_at_cursor(rd, num_materials)?;
        let _ = rd.seek(pos);
        let m = Mesh { name, bounding_box, batches };
        proof {
            assert(vecs_view_u16(m.batches@) =~= mesh_batches_spec(
                rd.bytes(),
                old(rd).cursor(),
            ));
        }
        Ok(m)
    }
}

fn read_u16_table_at_cursor(rd: &mut ByteReader, num: u32) -> (r: Result<Vec<u16>, DecodeError>)
    ensures
        final(rd).bytes() == old(rd).bytes(),
        match r {
            Ok(v) => {
                &&& v@ == u16_run(final(rd).bytes(), old(rd).cursor(), num as int)
                &&& num > 0 ==> old(rd).cursor() + 2 * num <= final(rd).bytes().len()
            },
            Err(e) => {
                &&& e == DecodeError::ShortRead
                &&& num > 0
                &&& old(rd).cursor() + 2 * num > final(rd).bytes().len()
            },
        },
{
    let mut out: Vec<u16> = Vec::new();
    let mut i: u32 = 0;
    while i < num
        invariant
            rd.bytes() == old(rd).bytes(),
            i <= num,
            rd.cursor() == old(rd).cursor() + 2 * i,
            i > 0 ==> old(rd).cursor() + 2 * i <= rd.bytes().len(),
            out@.len() == i,
            forall|k: int| 0 <= k < i ==> out@[k] == u16_at(rd.bytes(), old(rd).cursor() + 2 * k),
        decreases num - i,
    {
        let v = rd.read_u16()?;
        out.push(v);
        i = i + 1;
    }
    proof {
        assert(out@ =~= u16_run(rd.bytes(), old(rd).cursor(), num as int));
    }
    Ok(out)
}

/// The bone-set record at `at` and the byte run it points at fit
/// inside the bytes.
pub open spec fn bone_set_parses(s: Seq<u8>, at: int) -> bool {
    &&& at + 8 <= s.len()
    &&& u32_at(s, at) + u32_at(s, at + 4) <= s.len()
}

/// The bone indices one bone set points at.
pub struct BoneSet {
    pub bone_indexes: Vec<u8>,
}

impl BoneSet {
    /// What the 8-byte bone-set record at `at`, with its indirection,
    /// holds.
    pub open spec fn parsed_from(self, s: Seq<u8>, at: int) -> bool {
        self.bone_indexes@ == s.subrange(
            u32_at(s, at) as int,
            u32_at(s, at) as int + u32_at(s, at + 4) as int,
        )
    }

    pub fn read(rd: &mut ByteReader) -> (r: Result<BoneSet, DecodeError>)
        ensures
            final(rd).bytes() == old(rd).bytes(),
            match r {
                Ok(b) => {
                    &&& bone_set_parses(final(rd).bytes(), old(rd).cursor())
                    &&& b.parsed_from(final(rd).bytes(), old(rd).cursor())
                    &&& final(rd).cursor() == old(rd).cursor() + 8
                },
                Err(e) => e == DecodeError::ShortRead && !bone_set_parses(
                    final(rd).bytes(),
                    old(rd).cursor(),
                ),
            },
    {
        let offset_bone_set = rd.read_u32()?;
        let num_bone_indexes = rd.read_u32()?;
        let pos = rd.position();
        let _ = rd.seek(offset_bone_set as u64);
        let bone_indexes = rd.read(num_bone_indexes as usize)?;
        let _ = rd.seek(pos);
        Ok(BoneSet { bone_indexes })
    }
}

/// The batch-data records of the record group at `at`: the four slots'
/// record lists concatenated, skipping slots with a zero offset.
pub open spec fn batch_data_group_spec(s: Seq<u8>, at: int) -> Seq<BatchData> {
    batch_data_group_prefix(s, at, 4)
}

fn read_batch_data_run(rd: &mut ByteReader, offset: u32, num: u32) -> (r: Result<
    Vec<BatchData>,
    DecodeError,
>)
    ensures
        final(rd).bytes() == old(rd).bytes(),
        match r {
            Ok(v) => {
                &&& v@.len() == num
                &&& forall|k: int|
                    0 <= k < num ==> v@[k] == parse_batch_data(
                        final(rd).bytes(),
                        offset + 16 * k,
                    )
                &&& num > 0 ==> offset + 16 * num <= final(rd).bytes().len()
            },
            Err(e) => {
                &&& e == DecodeError::ShortRead
                &&& num > 0
                &&& offset + 16 * num > final(rd).bytes().len()
            },
        },
{
    let _ = rd.seek(offset as u64);
    let mut out: Vec<BatchData> = Vec::new();
    let mut i: u32 = 0;
    while i < num
        invariant
            rd.bytes() == old(rd).bytes(),
            i <= num,
            rd.cursor() == offset + 16 * i,
            i > 0 ==> offset + 16 * i <= rd.bytes().len(),
            out@.len() == i,
            forall|k: int| 0 <= k < i ==> out@[k] == parse_batch_data(rd.bytes(), offset + 16 * k),
        decreases num - i,
    {
        let b = BatchData::read(rd)?;
        out.push(b);
        i = i + 1;
    }
    Ok(out)
}

/// The four-slot record group at `at` and every populated slot's
/// record run fit inside the bytes.
pub open spec fn batch_data_group_parses(s: Seq<u8>, at: int) -> bool {
    &&& at + 32 <= s.len()
    &&& forall|p: int|
        0 <= p < 4 ==> (#[trigger] u32_at(s, at + 8 * p) == 0 || u32_at(s, at + 8 * p + 4) == 0
            || u32_at(s, at + 8 * p) + 16 * u32_at(s, at + 8 * p + 4) <= s.len())
}

/// The four-slot group of sparse batch-data records.
pub struct BatchDataGroup {
    pub batch_data: Vec<BatchData>,
}

impl BatchDataGroup {
    #[verifier::rlimit(100)]
    pub fn read(rd: &mut ByteReader) -> (r: Result<BatchDataGroup, DecodeError>)
        ensures
            final(rd).bytes() == old(rd).bytes(),
            match r {
                Ok(g) => {
                    &&& batch_data_group_parses(final(rd).bytes(), old(rd).cursor())
                    &&& g.batch_data@ == batch_data_group_spec(
                        final(rd).bytes(),
                        old(rd).cursor(),
                    )
                    &&& final(rd).cursor() == old(rd).cursor() + 32
                },
                Err(e) => e == DecodeError::ShortRead && !batch_data_group_parses(
                    final(rd).bytes(),
                    old(rd).cursor(),
                ),
            },
    {
        let mut batch_data: Vec<BatchData> = Vec::new();
        let mut slot: usize = 0;
        let ghost c = old(rd).cursor();
        let mut cursor_pos = rd.position();
        while slot < 4
            invariant
                rd.bytes() == old(rd).bytes(),
                c == old(rd).cursor(),
                slot <= 4,
                cursor_pos == c + 8 * slot,
                rd.cursor() == cursor_pos,
                slot > 0 ==> c + 8 * slot <= rd.bytes().len(),
                batch_data@ == batch_data_group_prefix(rd.bytes(), c, slot as int),
                forall|p: int|
                    0 <= p < slot ==> (#[trigger] u32_at(rd.bytes(), c + 8 * p) == 0 || u32_at(
                        rd.bytes(),
                        c + 8 * p + 4,
                    ) == 0 || u32_at(rd.bytes(), c + 8 * p) + 16 * u32_at(rd.bytes(), c + 8 * p + 4)
                        <= rd.bytes().len()),
            decreases 4 - slot,
        {
            let offset = match rd.read_u32() {
                Ok(v) => v,
                Err(e) => {
                    proof {
                        assert(!batch_data_group_parses(rd.bytes(), c));
                    }
                    return Err(e);
                },
            };
            let num = match rd.read_u32() {
                Ok(v) => v,
                Err(e) => {
                    proof {
                        assert(!batch_data_group_parses(rd.bytes(), c));
                    }
                    return Err(e);
                },
            };
            if offset != 0 {
                let pos = rd.position();
                let mut run = match read_batch_data_run(rd, offset, num) {
                    Ok(v) => v,
                    Err(e) => {
                        proof {
                            assert(u32_at(rd.bytes(), c + 8 * slot) == offset);
                            assert(u32_at(rd.bytes(), c + 8 * slot + 4) == num);
                            assert(!batch_data_group_parses(rd.bytes(), c));
                        }
                        return Err(e);
                    },
                };
                batch_data.append(&mut run);
                let _ = rd.seek(pos);
            }
            slot = slot + 1;
            cursor_pos = rd.position();
            proof {
                assert(batch_data@ =~= batch_data_group_prefix(rd.bytes(), c, slot as int));
            }
        }
        Ok(BatchDataGroup { batch_data })
    }
}

/// The concatenated batch-data records of the first `n` slots.
pub open spec fn batch_data_group_prefix(s: Seq<u8>, at: int, n: int) -> Seq<BatchData>
    decreases n,
{
    if n <= 0 {
        Seq::empty()
    } else {
        batch_data_group_prefix(s, at, n - 1) + if u32_at(s, at + 8 * (n - 1)) != 0 {
            Seq::new(
                u32_at(s, at + 8 * (n - 1) + 4) as nat,
                |i: int| parse_batch_data(s, u32_at(s, at + 8 * (n - 1)) as int + 16 * i),
            )
        } else {
            Seq::empty()
        }
    }
}


/// The vertex-group record at `at` and its three indirect tables fit
/// inside the bytes under layout `flags`.
pub open spec fn vertex_group_parses(s: Seq<u8>, at: int, flags: u32) -> bool {
    let h = parse_vertex_group_header(s, at);
    &&& at + 28 <= s.len()
    &&& (h.num_vertexes == 0 || h.vertex_offset + h.num_vertexes * vertex_size(flags) <= s.len())
    &&& (h.vertex_ex_data_offset == 0 || h.num_vertexes == 0 || vertex_ex_size(flags) == 0
        || h.vertex_ex_data_offset + h.num_vertexes * vertex_ex_size(flags) <= s.len())
    &&& (h.num_indexes == 0 || h.index_buffer_offset + 2 * h.num_indexes <= s.len())
}

/// One vertex group: its vertices, optional extended records and the
/// triangle-index list (stored as 16-bit indices, widened).
pub struct VertexGroup {
    pub vertexes: Vec<Vertex>,
    pub vertex_ex_data: Vec<VertexExData>,
    pub indexes: Vec<u32>,
}

impl VertexGroup {
    /// What the vertex-group record at `at` (header plus its three
    /// indirect tables) holds under layout `flags`.
    pub open spec fn parsed_from(self, s: Seq<u8>, at: int, flags: u32) -> bool {
        let h = parse_vertex_group_header(s, at);
        &&& self.vertexes@.len() == h.num_vertexes
        &&& forall|k: int|
            0 <= k < h.num_vertexes as int ==> self.vertexes@[k].parsed_from(
                s,
                h.vertex_offset + k * vertex_size(flags),
                flags,
            )
        &&& if h.vertex_ex_data_offset != 0 {
            &&& self.vertex_ex_data@.len() == h.num_vertexes
            &&& forall|k: int|
                0 <= k < h.num_vertexes as int ==> self.vertex_ex_data@[k].parsed_from(
                    s,
                    h.vertex_ex_data_offset + k * vertex_ex_size(flags),
                    flags,
                )
        } else {
            self.vertex_ex_data@.len() == 0
        }
        &&& self.indexes@.len() == h.num_indexes
        &&& forall|k: int|
            0 <= k < h.num_indexes as int ==> self.indexes@[k] == u16_at(
                s,
                h.index_buffer_offset + 2 * k,
            ) as u32
    }

    #[verifier::rlimit(100)]
    pub fn read(rd: &mut ByteReader, vertex_flags: u32) -> (r: Result<VertexGroup, DecodeError>)
        ensures
            final(rd).bytes() == old(rd).bytes(),
            match r {
                Ok(g) => {
                    &&& vertex_group_parses(final(rd).bytes(), old(rd).cursor(), vertex_flags)
                    &&& g.parsed_from(final(rd).bytes(), old(rd).cursor(), vertex_flags)
                    &&& final(rd).cursor() == old(rd).cursor() + 28
                },
                Err(e) => e == DecodeError::ShortRead && !vertex_group_parses(
                    final(rd).bytes(),
                    old(rd).cursor(),
                    vertex_flags,
                ),
            },
    {
        let header = VertexGroupHeader::read(rd)?;
        let pos = rd.position();
        let _ = rd.seek(header.vertex_offset as u64);
        let mut vertexes: Vec<Vertex> = Vec::new();
        let mut i: u32 = 0;
        while i < header.num_vertexes
            invariant
                rd.bytes() == old(rd).bytes(),
                header == parse_vertex_group_header(rd.bytes(), old(rd).cursor()),
                old(rd).cursor() + 28 <= rd.bytes().len(),
                i <= header.num_vertexes,
                rd.cursor() == header.vertex_offset + i * vertex_size(vertex_flags),
                i > 0 ==> header.vertex_offset + i * vertex_size(vertex_flags) <= rd.bytes().len(),
                vertexes@.len() == i,
                forall|k: int|
                    0 <= k < i ==> vertexes@[k].parsed_from(
                        rd.bytes(),
                        header.vertex_offset + k * vertex_size(vertex_flags),
                        vertex_flags,
                    ),
            decreases header.num_vertexes - i,
        {
            let v = match Vertex::read(rd, vertex_flags) {
                Ok(v) => v,
                Err(e) => {
                    proof {
                        assert((i + 1) * vertex_size(vertex_flags) <= header.num_vertexes
                            * vertex_size(vertex_flags) && (i + 1) * vertex_size(vertex_flags)
                            == i * vertex_size(vertex_flags) + vertex_size(vertex_flags))
                            by (nonlinear_arith)
                            requires
                                i < header.num_vertexes,
                                vertex_size(vertex_flags) >= 0,
                        ;
                        assert(!vertex_group_parses(
                            rd.bytes(),
                            old(rd).cursor(),
                            vertex_flags,
                        ));
                    }
                    return Err(e);
                },
            };
            vertexes.push(v);
            proof {
                assert((i + 1) * vertex_size(vertex_flags) == i * vertex_size(vertex_flags)
                    + vertex_size(vertex_flags)) by (nonlinear_arith);
            }
            i = i + 1;
        }
        let mut vertex_ex_data: Vec<VertexExData> = Vec::new();
        if header.vertex_ex_data_offset != 0 {
            let _ = rd.seek(header.vertex_ex_data_offset as u64);
            let mut j: u32 = 0;
            while j < header.num_vertexes
                invariant
                    rd.bytes() == old(rd).bytes(),
                    header == parse_vertex_group_header(rd.bytes(), old(rd).cursor()),
                    old(rd).cursor() + 28 <= rd.bytes().len(),
                    header.vertex_ex_data_offset != 0,
                    j <= header.num_vertexes,
                    rd.cursor() == header.vertex_ex_data_offset + j * vertex_ex_size(
                        vertex_flags,
                    ),
                    j > 0 && vertex_ex_size(vertex_flags) > 0
                        ==> header.vertex_ex_data_offset + j * vertex_ex_size(vertex_flags)
                        <= rd.bytes().len(),
                    vertex_ex_data@.len() == j,
                    forall|k: int|
                        0 <= k < j ==> vertex_ex_data@[k].parsed_from(
                            rd.bytes(),
                            header.vertex_ex_data_offset + k * vertex_ex_size(vertex_flags),
                            vertex_flags,
                        ),
                decreases header.num_vertexes - j,
            {
                let v = match VertexExData::read(rd, vertex_flags) {
                    Ok(v) => v,
                    Err(e) => {
                        proof {
                            assert((j + 1) * vertex_ex_size(vertex_flags) <= header.num_vertexes
                                * vertex_ex_size(vertex_flags) && (j + 1) * vertex_ex_size(
                                vertex_flags,
                            ) == j * vertex_ex_size(vertex_flags) + vertex_ex_size(vertex_flags))
                                by (nonlinear_arith)
                                requires
                                    j < header.num_vertexes,
                                    vertex_ex_size(vertex_flags) >= 0,
                            ;
                            assert(!vertex_group_parses(
                                rd.bytes(),
                                old(rd).cursor(),
                                vertex_flags,
                            ));
                        }
                        return Err(e);
                    },
                };
                vertex_ex_data.push(v);
                proof {
                    assert((j + 1) * vertex_ex_size(vertex_flags) == j * vertex_ex_size(
                        vertex_flags,
                    ) + vertex_ex_size(vertex_flags)) by (nonlinear_arith);
                }
                j = j + 1;
            }
        }
        let _ = rd.seek(header.index_buffer_offset as u64);
        let mut indexes: Vec<u32> = Vec::new();
        let mut m: u32 = 0;
        while m < header.num_indexes
            invariant
                rd.bytes() == old(rd).bytes(),
                header == parse_vertex_group_header(rd.bytes(), old(rd).cursor()),
                old(rd).cursor() + 28 <= rd.bytes().len(),
                m <= header.num_indexes,
                rd.cursor() == header.index_buffer_offset + 2 * m,
                m > 0 ==> header.index_buffer_offset + 2 * m <= rd.bytes().len(),
                indexes@.len() == m,
                forall|k: int|
                    0 <= k < m ==> indexes@[k] == u16_at(
                        rd.bytes(),
                        header.index_buffer_offset + 2 * k,
                    ) as u32,
            decreases header.num_indexes - m,
        {
            let v = match rd.read_u16() {
                Ok(v) => v,
                Err(e) => {
                    proof {
                        assert(!vertex_group_parses(
                            rd.bytes(),
                            old(rd).cursor(),
                            vertex_flags,
                        ));
                    }
                    return Err(e);
                },
            };
            indexes.push(v as u32);
            m = m + 1;
        }
        let _ = rd.seek(pos);
        Ok(VertexGroup { vertexes, vertex_ex_data, indexes })
    }
}

/// The whole container at `at` fits inside the bytes: the header is
/// there and every present section, with its indirections, is in range.
pub open spec fn wmb_parses(s: Seq<u8>, at: int) -> bool {
    &&& at + 108 <= s.len()
    &&& forall|k: int|
        0 <= k < u32_at(s, at + 44) as int ==> #[trigger] vertex_group_parses(
            s,
            u32_at(s, at + 40) + 28 * k,
            u32_at(s, at + 8),
        )
    &&& (u32_at(s, at + 48) == 0 || u32_at(s, at + 52) == 0 || u32_at(s, at + 48) + 20 * u32_at(
        s,
        at + 52,
    ) <= s.len())
    &&& (u32_at(s, at + 56) == 0 || batch_data_group_parses(s, u32_at(s, at + 56) as int))
    &&& (u32_at(s, at + 60) == 0 || u32_at(s, at + 64) == 0 || u32_at(s, at + 60) + 32 * u32_at(
        s,
        at + 64,
    ) <= s.len())
    &&& (u32_at(s, at + 68) == 0 || crate::bone_table::bitt_parses(s, u32_at(s, at + 68) as int))
    &&& (u32_at(s, at + 76) == 0 || forall|k: int|
        0 <= k < u32_at(s, at + 80) as int ==> #[trigger] bone_set_parses(
            s,
            u32_at(s, at + 76) + 8 * k,
        ))
    &&& (u32_at(s, at + 84) == 0 || forall|k: int|
        0 <= k < u32_at(s, at + 88) as int ==> #[trigger] material_parses(
            s,
            u32_at(s, at + 84) + 24 * k,
        ))
    &&& (u32_at(s, at + 92) == 0 || u32_at(s, at + 96) == 0 || u32_at(s, at + 92) + 8 * u32_at(
        s,
        at + 96,
    ) <= s.len())
    &&& (u32_at(s, at + 100) == 0 || forall|k: int|
        0 <= k < u32_at(s, at + 104) as int ==> #[trigger] mesh_parses(
            s,
            u32_at(s, at + 100) + 68 * k,
        ))
}

/// The fully parsed container.
pub struct Wmb {
    pub vertex_groups: Vec<VertexGroup>,
    pub batches: Vec<Batch>,
    pub batch_data_group: Vec<BatchData>,
    pub bones: Vec<Bone>,
    pub bone_index_translate_table: crate::bone_table::BoneIndexTranslateTable,
    pub bone_sets: Vec<BoneSet>,
    pub materials: Vec<Material>,
    pub textures: Vec<Texture>,
    pub meshes: Vec<Mesh>,
}

impl Wmb {
    /// What the whole container starting at `at` holds: each section
    /// read at its header offset, absent sections (offset zero) empty.
    /// Opaque: callers treat it as one fact; the reader proves it.
    #[verifier::opaque]
    pub open spec fn parsed_from(self, s: Seq<u8>, at: int) -> bool {
        exists|h: Header|
            {
                &&& #[trigger] h.parsed_from(s, at)
                &&& self.vertex_groups@.len() == h.num_vertex_groups
                &&& forall|k: int|
                    0 <= k < h.num_vertex_groups as int ==> self.vertex_groups@[k].parsed_from(
                        s,
                        h.offset_vertex_groups + 28 * k,
                        h.vertex_format,
                    )
                &&& if h.offset_batches != 0 {
                    &&& self.batches@.len() == h.num_batches
                    &&& forall|k: int|
                        0 <= k < h.num_batches as int ==> self.batches@[k] == parse_batch(
                            s,
                            h.offset_batches + 20 * k,
                        )
                } else {
                    self.batches@.len() == 0
                }
                &&& if h.offset_batch_description != 0 {
                    self.batch_data_group@ == batch_data_group_spec(
                        s,
                        h.offset_batch_description as int,
                    )
                } else {
                    self.batch_data_group@.len() == 0
                }
                &&& if h.offset_bones != 0 {
                    &&& self.bones@.len() == h.num_bones
                    &&& forall|k: int|
                        0 <= k < h.num_bones as int ==> self.bones@[k].parsed_from(
                            s,
                            h.offset_bones + 32 * k,
                        )
                } else {
                    self.bones@.len() == 0
                }
                &&& if h.offset_bone_index_translate_table != 0 {
                    self.bone_index_translate_table.parsed_from(
                        s,
                        h.offset_bone_index_translate_table as int,
                    )
                } else {
                    self.bone_index_translate_table.is_empty_table()
                }
                &&& if h.offset_bone_sets != 0 {
                    &&& self.bone_sets@.len() == h.num_bone_sets
                    &&& forall|k: int|
                        0 <= k < h.num_bone_sets as int ==> self.bone_sets@[k].parsed_from(
                            s,
                            h.offset_bone_sets + 8 * k,
                        )
                } else {
                    self.bone_sets@.len() == 0
                }
                &&& if h.offset_materials != 0 {
                    &&& self.materials@.len() == h.num_materials
                    &&& forall|k: int|
                        0 <= k < h.num_materials as int ==> self.materials@[k].parsed_from(
                            s,
                            h.offset_materials + 24 * k,
                        )
                } else {
                    self.materials@.len() == 0
                }
                &&& if h.offset_textures != 0 {
                    &&& self.textures@.len() == h.num_textures
                    &&& forall|k: int|
                        0 <= k < h.num_textures as int ==> self.textures@[k] == parse_texture(
                            s,
                            h.offset_textures + 8 * k,
                        )
                } else {
                    self.textures@.len() == 0
                }
                &&& if h.offset_meshes != 0 {
                    &&& self.meshes@.len() == h.num_meshes
                    &&& forall|k: int|
                        0 <= k < h.num_meshes as int ==> self.meshes@[k].parsed_from(
                            s,
                            h.offset_meshes + 68 * k,
                        )
                } else {
                    self.meshes@.len() == 0
                }
            }
    }

    #[verifier::rlimit(100)]
    pub fn read(rd: &mut ByteReader) -> (r: Result<Wmb, DecodeError>)
        ensures
            final(rd).bytes() == old(rd).bytes(),
            match r {
                Ok(w) => {
                    &&& wmb_parses(final(rd).bytes(), old(rd).cursor())
                    &&& w.parsed_from(final(rd).bytes(), old(rd).cursor())
                },
                Err(e) => e == DecodeError::ShortRead && !wmb_parses(
                    final(rd).bytes(),
                    old(rd).cursor(),
                ),
            },
    {
        let ghost at = old(rd).cursor();
        let header = Header::read(rd)?;

        let _ = rd.seek(header.offset_vertex_groups as u64);
        let mut vertex_groups: Vec<VertexGroup> = Vec::new();
        let mut i: u32 = 0;
        while i < header.num_vertex_groups
            invariant
                rd.bytes() == old(rd).bytes(),
                at == old(rd).cursor(),
                header.parsed_from(rd.bytes(), at),
                at + 108 <= rd.bytes().len(),
                i <= header.num_vertex_groups,
                rd.cursor() == header.offset_vertex_groups + 28 * i,
                vertex_groups@.len() == i,
                forall|k: int|
                    0 <= k < i ==> vertex_groups@[k].parsed_from(
                        rd.bytes(),
                        header.offset_vertex_groups + 28 * k,
                        header.vertex_format,
                    ),
                forall|k: int|
                    0 <= k < i ==> #[trigger] vertex_group_parses(
                        rd.bytes(),
                        header.offset_vertex_groups + 28 * k,
                        header.vertex_format,
                    ),
            decreases header.num_vertex_groups - i,
        {
            let g = match VertexGroup::read(rd, header.vertex_format) {
                Ok(g) => g,
                Err(e) => {
                    proof {
                        assert(!vertex_group_parses(
                            rd.bytes(),
                            u32_at(rd.bytes(), at + 40) + 28 * (i as int),
                            u32_at(rd.bytes(), at + 8),
                        ));
                        assert(!wmb_parses(rd.bytes(), at));
                    }
                    return Err(e);
                },
            };
            vertex_groups.push(g);
            i = i + 1;
        }

        let mut batches: Vec<Batch> = Vec::new();
        if header.offset_batches != 0 {
            let _ = rd.seek(header.offset_batches as u64);
            let mut i: u32 = 0;
            while i < header.num_batches
                invariant
                    rd.bytes() == old(rd).bytes(),
                    at == old(rd).cursor(),
                    header.parsed_from(rd.bytes(), at),
                    at + 108 <= rd.bytes().len(),
                    header.offset_batches != 0,
                    i <= header.num_batches,
                    rd.cursor() == header.offset_batches + 20 * i,
                    i > 0 ==> header.offset_batches + 20 * i <= rd.bytes().len(),
                    batches@.len() == i,
                    forall|k: int|
                        0 <= k < i ==> batches@[k] == parse_batch(
                            rd.bytes(),
                            header.offset_batches + 20 * k,
                        ),
                decreases header.num_batches - i,
            {
                let b = match Batch::read(rd) {
                    Ok(b) => b,
                    Err(e) => {
                        proof {
                            assert(!wmb_parses(rd.bytes(), at));
                        }
                        return Err(e);
                    },
                };
                batches.push(b);
                i = i + 1;
            }
        }

        let mut batch_data_group: Vec<BatchData> = Vec::new();
        if header.offset_batch_description != 0 {
            let _ = rd.seek(header.offset_batch_description as u64);
            let g = match BatchDataGroup::read(rd) {
                Ok(g) => g,
                Err(e) => {
                    proof {
                        assert(!wmb_parses(rd.bytes(), at));
                    }
                    return Err(e);
                },
            };
            batch_data_group = g.batch_data;
        }

        let mut bones: Vec<Bone> = Vec::new();
        if header.offset_bones != 0 {
            let _ = rd.seek(header.offset_bones as u64);
            let mut i: u32 = 0;
            while i < header.num_bones
                invariant
                    rd.bytes() == old(rd).bytes(),
                    at == old(rd).cursor(),
                    header.parsed_from(rd.bytes(), at),
                    at + 108 <= rd.bytes().len(),
                    header.offset_bones != 0,
                    i <= header.num_bones,
                    rd.cursor() == header.offset_bones + 32 * i,
                    i > 0 ==> header.offset_bones + 32 * i <= rd.bytes().len(),
                    bones@.len() == i,
                    forall|k: int|
                        0 <= k < i ==> bones@[k].parsed_from(
                            rd.bytes(),
                            header.offset_bones + 32 * k,
                        ),
                decreases header.num_bones - i,
            {
                let b = match Bone::read(rd) {
                    Ok(b) => b,
                    Err(e) => {
                        proof {
                            assert(!wmb_parses(rd.bytes(), at));
                        }
                        return Err(e);
                    },
                };
                bones.push(b);
                i = i + 1;
            }
        }

        let bone_index_translate_table = if header.offset_bone_index_translate_table != 0 {
            let _ = rd.seek(header.offset_bone_index_translate_table as u64);
            match crate::bone_table::BoneIndexTranslateTable::read(rd) {
                Ok(t) => t,
                Err(e) => {
                    proof {
                        assert(!wmb_parses(rd.bytes(), at));
                    }
                    return Err(e);
                },
            }
        } else {
            crate::bone_table::BoneIndexTranslateTable::empty()
        };

        let mut bone_sets: Vec<BoneSet> = Vec::new();
        if header.offset_bone_sets != 0 {
            let _ = rd.seek(header.offset_bone_sets as u64);
            let mut i: u32 = 0;
            while i < header.num_bone_sets
                invariant
                    rd.bytes() == old(rd).bytes(),
                    at == old(rd).cursor(),
                    header.parsed_from(rd.bytes(), at),
                    at + 108 <= rd.bytes().len(),
                    header.offset_bone_sets != 0,
                    i <= header.num_bone_sets,
                    rd.cursor() == header.offset_bone_sets + 8 * i,
                    bone_sets@.len() == i,
                    forall|k: int|
                        0 <= k < i ==> bone_sets@[k].parsed_from(
                            rd.bytes(),
                            header.offset_bone_sets + 8 * k,
                        ),
                    forall|k: int|
                        0 <= k < i ==> #[trigger] bone_set_parses(
                            rd.bytes(),
                            header.offset_bone_sets + 8 * k,
                        ),
                decreases header.num_bone_sets - i,
            {
                let b = match BoneSet::read(rd) {
                    Ok(b) => b,
                    Err(e) => {
                        proof {
                            assert(!bone_set_parses(
                                rd.bytes(),
                                u32_at(rd.bytes(), at + 76) + 8 * (i as int),
                            ));
                            assert(!wmb_parses(rd.bytes(), at));
                        }
                        return Err(e);
                    },
                };
                bone_sets.push(b);
                i = i + 1;
            }
        }

        let mut materials: Vec<Material> = Vec::new();
        if header.offset_materials != 0 {
            let _ = rd.seek(header.offset_materials as u64);
            let mut i: u32 = 0;
            while i < header.num_materials
                invariant
                    rd.bytes() == old(rd).bytes(),
                    at == old(rd).cursor(),
                    header.parsed_from(rd.bytes(), at),
                    at + 108 <= rd.bytes().len(),
                    header.offset_materials != 0,
                    i <= header.num_materials,
                    rd.cursor() == header.offset_materials + 24 * i,
                    materials@.len() == i,
                    forall|k: int|
                        0 <= k < i ==> materials@[k].parsed_from(
                            rd.bytes(),
                            header.offset_materials + 24 * k,
                        ),
                    forall|k: int|
                        0 <= k < i ==> #[trigger] material_parses(
                            rd.bytes(),
                            header.offset_materials + 24 * k,
                        ),
                decreases header.num_materials - i,
            {
                let m = match Material::read(rd) {
                    Ok(m) => m,
                    Err(e) => {
                        proof {
                            assert(!material_parses(
                                rd.bytes(),
                                u32_at(rd.bytes(), at + 84) + 24 * (i as int),
                            ));
                            assert(!wmb_parses(rd.bytes(), at));
                        }
                        return Err(e);
                    },
                };
                materials.push(m);
                i = i + 1;
            }
        }

        let mut textures: Vec<Texture> = Vec::new();
        if header.offset_textures != 0 {
            let _ = rd.seek(header.offset_textures as u64);
            let mut i: u32 = 0;
            while i < header.num_textures
                invariant
                    rd.bytes() == old(rd).bytes(),
                    at == old(rd).cursor(),
                    header.parsed_from(rd.bytes(), at),
                    at + 108 <= rd.bytes().len(),
                    header.offset_textures != 0,
                    i <= header.num_textures,
                    rd.cursor() == header.offset_textures + 8 * i,
                    i > 0 ==> header.offset_textures + 8 * i <= rd.bytes().len(),
                    textures@.len() == i,
                    forall|k: int|
                        0 <= k < i ==> textures@[k] == parse_texture(
                            rd.bytes(),
                            header.offset_textures + 8 * k,
                        ),
                decreases header.num_textures - i,
            {
                let t = match Texture::read(rd) {
                    Ok(t) => t,
                    Err(e) => {
                        proof {
                            assert(!wmb_parses(rd.bytes(), at));
                        }
                        return Err(e);
                    },
                };
                textures.push(t);
                i = i + 1;
            }
        }

        let mut meshes: Vec<Mesh> = Vec::new();
        if header.offset_meshes != 0 {
            let _ = rd.seek(header.offset_meshes as u64);
            let mut i: u32 = 0;
            while i < header.num_meshes
                invariant
                    rd.bytes() == old(rd).bytes(),
                    at == old(rd).cursor(),
                    header.parsed_from(rd.bytes(), at),
                    at + 108 <= rd.bytes().len(),
                    header.offset_meshes != 0,
                    i <= header.num_meshes,
                    rd.cursor() == header.offset_meshes + 68 * i,
                    meshes@.len() == i,
                    forall|k: int|
                        0 <= k < i ==> meshes@[k].parsed_from(
                            rd.bytes(),
                            header.offset_meshes + 68 * k,
                        ),
                    forall|k: int|
                        0 <= k < i ==> #[trigger] mesh_parses(
                            rd.bytes(),
                            header.offset_meshes + 68 * k,
                        ),
                decreases header.num_meshes - i,
            {
                let m = match Mesh::read(rd) {
                    Ok(m) => m,
                    Err(e) => {
                        proof {
                            assert(!mesh_parses(
                                rd.bytes(),
                                u32_at(rd.bytes(), at + 100) + 68 * (i as int),
                            ));
                            assert(!wmb_parses(rd.bytes(), at));
                        }
                        return Err(e);
                    },
                };
                meshes.push(m);
                i = i + 1;
            }
        }

        let w = Wmb {
            vertex_groups,
            batches,
            batch_data_group,
            bones,
            bone_index_translate_table,
            bone_sets,
            materials,
            textures,
            meshes,
        };
        proof {
            reveal(Wmb::parsed_from);
        }
        Ok(w)
    }
}


/// All the slots' batch-index lists of one mesh, in slot order.
pub open spec fn flatten_u16(b: Seq<Seq<u16>>) -> Seq<u16>
    decreases b.len(),
{
    if b.len() == 0 {
        Seq::empty()
    } else {
        flatten_u16(b.drop_last()) + b.last()
    }
}

/// The distinct values of `s` in order of first occurrence.
pub open spec fn dedup_firsts(s: Seq<u16>) -> Seq<u16>
    decreases s.len(),
{
    if s.len() == 0 {
        Seq::empty()
    } else {
        let pre = dedup_firsts(s.drop_last());
        if s.drop_last().contains(s.last()) {
            pre
        } else {
            pre.push(s.last())
        }
    }
}

/// Deduplication keeps exactly the members.
pub proof fn lemma_dedup_firsts_contains(s: Seq<u16>, x: u16)
    ensures
        dedup_firsts(s).contains(x) == s.contains(x),
    decreases s.len(),
{
    if s.len() == 0 {
        assert(!s.contains(x));
        assert(!dedup_firsts(s).contains(x));
    } else {
        let d = s.drop_last();
        lemma_dedup_firsts_contains(d, x);
        let pre = dedup_firsts(d);
        assert(s.contains(x) <==> (d.contains(x) || x == s.last())) by {
            if s.contains(x) {
                let i = choose|i: int| 0 <= i < s.len() && s[i] == x;
                if i < s.len() - 1 {
                    assert(d[i] == x);
                }
            }
            if d.contains(x) {
                let i = choose|i: int| 0 <= i < d.len() && d[i] == x;
                assert(s[i] == x);
            }
            if x == s.last() {
                assert(s[s.len() - 1] == x);
            }
        }
        if d.contains(s.last()) {
            assert(dedup_firsts(s) == pre);
        } else {
            assert(dedup_firsts(s) == pre.push(s.last()));
            assert(pre.push(s.last()).contains(x) <==> (pre.contains(x) || x == s.last())) by {
                if pre.contains(x) {
                    let i = choose|i: int| 0 <= i < pre.len() && pre[i] == x;
                    assert(pre.push(s.last())[i] == x);
                }
                assert(pre.push(s.last())[pre.len() as int] == s.last());
                if pre.push(s.last()).contains(x) {
                    let i = choose|i: int|
                        0 <= i < pre.push(s.last()).len() && pre.push(s.last())[i] == x;
                    if i < pre.len() {
                        assert(pre[i] == x);
                    }
                }
            }
        }
    }
}

fn vec_u16_contains(v: &Vec<u16>, x: u16) -> (r: bool)
    ensures
        r == v@.contains(x),
{
    let mut i: usize = 0;
    while i < v.len()
        invariant
            i <= v@.len(),
            forall|k: int| 0 <= k < i ==> v@[k] != x,
        decreases v@.len() - i,
    {
        if v[i] == x {
            return true;
        }
        i = i + 1;
    }
    proof {
        if v@.contains(x) {
            let j = choose|j: int| 0 <= j < v@.len() && v@[j] == x;
            assert(false);
        }
    }
    false
}

/// The distinct batch indices a mesh references, in first-occurrence
/// order across its slot lists.
pub fn distinct_batch_indices(batches: &Vec<Vec<u16>>) -> (r: Vec<u16>)
    ensures
        r@ == dedup_firsts(flatten_u16(vecs_view_u16(batches@))),
{
    let mut flat: Vec<u16> = Vec::new();
    let mut s: usize = 0;
    while s < batches.len()
        invariant
            s <= batches@.len(),
            flat@ == flatten_u16(vecs_view_u16(batches@).subrange(0, s as int)),
        decreases batches@.len() - s,
    {
        proof {
            assert(vecs_view_u16(batches@).subrange(0, s + 1).drop_last()
                =~= vecs_view_u16(batches@).subrange(0, s as int));
        }
        let mut i: usize = 0;
        let ghost flat0 = flat@;
        while i < batches[s].len()
            invariant
                s < batches@.len(),
                i <= batches@[s as int]@.len(),
                flat@ == flat0 + batches@[s as int]@.subrange(0, i as int),
            decreases batches@[s as int]@.len() - i,
        {
            flat.push(batches[s][i]);
            i = i + 1;
            proof {
                assert(flat@ =~= flat0 + batches@[s as int]@.subrange(0, i as int));
            }
        }
        proof {
            assert(batches@[s as int]@.subrange(0, batches@[s as int]@.len() as int)
                =~= batches@[s as int]@);
            assert(vecs_view_u16(batches@).subrange(0, s + 1).last() == batches@[s as int]@);
        }
        s = s + 1;
    }
    proof {
        assert(vecs_view_u16(batches@).subrange(0, batches@.len() as int)
            =~= vecs_view_u16(batches@));
    }
    let mut out: Vec<u16> = Vec::new();
    let mut i: usize = 0;
    while i < flat.len()
        invariant
            flat@ == flatten_u16(vecs_view_u16(batches@)),
            i <= flat@.len(),
            out@ == dedup_firsts(flat@.subrange(0, i as int)),
        decreases flat@.len() - i,
    {
        proof {
            assert(flat@.subrange(0, i + 1).drop_last() =~= flat@.subrange(0, i as int));
            lemma_dedup_firsts_contains(flat@.subrange(0, i as int), flat@[i as int]);
        }
        let x = flat[i];
        if !vec_u16_contains(&out, x) {
            out.push(x);
        }
        i = i + 1;
    }
    proof {
        assert(flat@.subrange(0, flat@.len() as int) =~= flat@);
    }
    out
}

/// Some record of `s` carries this batch index.
pub open spec fn has_batch_index(s: Seq<BatchData>, ix: u32) -> bool {
    exists|q: int| 0 <= q < s.len() && (#[trigger] s[q].batch_index) == ix
}

/// The batch indices of every record that repeats an earlier record's
/// index, in record order.
pub open spec fn duplicate_indices_spec(s: Seq<BatchData>) -> Seq<u32>
    decreases s.len(),
{
    if s.len() == 0 {
        Seq::empty()
    } else {
        duplicate_indices_spec(s.drop_last()) + if has_batch_index(
            s.drop_last(),
            s.last().batch_index,
        ) {
            seq![s.last().batch_index]
        } else {
            Seq::empty()
        }
    }
}

fn prefix_has_index(bds: &Vec<BatchData>, upto: usize, ix: u32) -> (r: bool)
    requires
        upto <= bds@.len(),
    ensures
        r == has_batch_index(bds@.subrange(0, upto as int), ix),
{
    let mut q: usize = 0;
    while q < upto
        invariant
            upto <= bds@.len(),
            q <= upto,
            forall|k: int| 0 <= k < q ==> bds@[k].batch_index != ix,
        decreases upto - q,
    {
        if bds[q].batch_index == ix {
            proof {
                assert(bds@.subrange(0, upto as int)[q as int].batch_index == ix);
            }
            return true;
        }
        q = q + 1;
    }
    proof {
        if has_batch_index(bds@.subrange(0, upto as int), ix) {
            let k = choose|k: int|
                0 <= k < upto && (#[trigger] bds@.subrange(0, upto as int)[k].batch_index) == ix;
            assert(bds@[k].batch_index == ix);
        }
    }
    false
}

/// List every batch-data record whose `batch_index` repeats an earlier
/// record's, in record order. The sparse scatter table keeps only the
/// later record of each such pair; the repetition is an anomaly of the
/// asset, surfaced here so a caller can report it rather than lose it
/// silently.
pub fn duplicate_batch_data_indices(bds: &Vec<BatchData>) -> (r: Vec<u32>)
    ensures
        r@ == duplicate_indices_spec(bds@),
{
    let mut out: Vec<u32> = Vec::new();
    let mut p: usize = 0;
    while p < bds.len()
        invariant
            p <= bds@.len(),
            out@ == duplicate_indices_spec(bds@.subrange(0, p as int)),
        decreases bds@.len() - p,
    {
        proof {
            assert(bds@.subrange(0, p + 1).drop_last() =~= bds@.subrange(0, p as int));
            assert(bds@.subrange(0, p + 1).last() == bds@[p as int]);
        }
        let ix = bds[p].batch_index;
        if prefix_has_index(bds, p, ix) {
            out.push(ix);
            proof {
                assert(out@ =~= duplicate_indices_spec(bds@.subrange(0, p + 1)));
            }
        } else {
            proof {
                assert(out@ =~= duplicate_indices_spec(bds@.subrange(0, p + 1)));
            }
        }
        p = p + 1;
    }
    proof {
        assert(bds@.subrange(0, bds@.len() as int) =~= bds@);
    }
    out
}

/// The last batch-data record carrying `batch_index == i`, if any: a
/// repeated index is overwritten by the later record; the later write
/// wins, though such a repetition looks like a data-loss anomaly in the
/// asset itself.
pub open spec fn scatter_lookup(bds: Seq<BatchData>, i: int) -> Option<BatchData>
    decreases bds.len(),
{
    if bds.len() == 0 {
        None
    } else if bds.last().batch_index == i {
        Some(bds.last())
    } else {
        scatter_lookup(bds.drop_last(), i)
    }
}

fn lookup_batch_data(bds: &Vec<BatchData>, i: u32) -> (r: Option<BatchData>)
    ensures
        r == scatter_lookup(bds@, i as int),
{
    let mut k = bds.len();
    proof {
        assert(bds@.subrange(0, bds@.len() as int) =~= bds@);
    }
    while k > 0
        invariant
            k <= bds@.len(),
            scatter_lookup(bds@, i as int) == scatter_lookup(bds@.subrange(0, k as int), i as int),
        decreases k,
    {
        proof {
            assert(bds@.subrange(0, k as int).drop_last() =~= bds@.subrange(0, k - 1));
            assert(bds@.subrange(0, k as int).last() == bds@[k - 1]);
        }
        if bds[k - 1].batch_index == i {
            return Some(BatchData {
                batch_index: bds[k - 1].batch_index,
                mesh_index: bds[k - 1].mesh_index,
                material_index: bds[k - 1].material_index,
                bone_sets_index: bds[k - 1].bone_sets_index,
                u_a: bds[k - 1].u_a,
            });
        }
        k = k - 1;
    }
    None
}


/// The truncating vertex window `[start, start+num)` of a vertex list.
pub open spec fn vertex_window(vs: Seq<Vertex>, start: int, num: int) -> Seq<Vertex> {
    if start >= vs.len() {
        Seq::empty()
    } else if start + num <= vs.len() {
        vs.subrange(start, start + num)
    } else {
        vs.subrange(start, vs.len() as int)
    }
}

/// Why emitting batch `batch_i` would fail: the first referential check
/// that does not resolve, in lookup order.
pub open spec fn emit_batch_error(w: &Wmb, batch_i: int) -> Option<DecodeError> {
    if batch_i >= w.batches@.len() {
        Some(DecodeError::BatchIndexOutOfBounds)
    } else if scatter_lookup(w.batch_data_group@, batch_i) is None {
        Some(DecodeError::BatchDataMissing)
    } else if scatter_lookup(w.batch_data_group@, batch_i).unwrap().material_index as int
        >= w.materials@.len() {
        Some(DecodeError::MaterialIndexOutOfBounds)
    } else if w.batches@[batch_i].vertex_group_index as int >= w.vertex_groups@.len() {
        Some(DecodeError::VertexGroupIndexOutOfBounds)
    } else if crate::windows::window_error(
        w.vertex_groups@[w.batches@[batch_i].vertex_group_index as int].indexes@.len() as int,
        crate::wta_wtp::sign_ext_64(w.batches@[batch_i].index_start),
        w.batches@[batch_i].num_indexes as int,
    ) {
        Some(DecodeError::IndexWindowOutOfBounds)
    } else {
        None
    }
}

/// The geometry, texture bindings and flags of the record emitted for
/// (mesh, batch): everything but the display name and the placement,
/// which a wrapper container overwrites per model.
pub open spec fn emitted_record_core_mgrr(
    md: MeshData,
    w: &Wmb,
    mesh: Mesh,
    batch_i: u16,
    wta_wtp: Option<&WtaWtp>,
) -> bool {
    let b = w.batches@[batch_i as int];
    let bd = scatter_lookup(w.batch_data_group@, batch_i as int).unwrap();
    let m = w.materials@[bd.material_index as int];
    let vg = w.vertex_groups@[b.vertex_group_index as int];
    let sliced = crate::windows::sliced_window(
        vg.indexes@,
        crate::wta_wtp::sign_ext_64(b.index_start),
        crate::windows::window_count(
            vg.indexes@.len() as int,
            crate::wta_wtp::sign_ext_64(b.index_start),
            b.num_indexes as int,
        ),
    );
    let wv = vertex_window(
        vg.vertexes@,
        crate::wta_wtp::sign_ext_64(b.vertex_start),
        b.num_vertices as int,
    );
    &&& md.vertices@ == Seq::new(wv.len(), |i: int| wv[i].position)
    &&& md.indexes@ == sliced
    &&& md.tangents is Some
    &&& md.tangents.unwrap()@ == Seq::new(wv.len(), |i: int| wv[i].tangent)
    &&& md.normals matches Some(crate::mesh_data::NormalData::Packed(n)) && n@ == Seq::new(
        wv.len(),
        |i: int| wv[i].normal,
    )
    &&& md.uv@ == Seq::new(wv.len(), |i: int| wv[i].uv)
    &&& md.albedo_texture_id == m.albedo_texture_id_spec(w.textures@)
    &&& md.normal_texture_id == m.normal_texture_id_spec(w.textures@)
    &&& md.mask_texture_id is None
    &&& match wta_wtp {
        Some(wt) => md.uses_transparency == transparency_spec(
            m.shader_name@,
            count_resolvable(m.texture_indices.albedo_indices_spec(), w.textures@, wt),
        ),
        None => md.uses_transparency == false,
    }
    &&& md.should_be_visible == !crate::bytes_util::ends_with_seq(
        mesh.name@,
        seq![0x5Fu8, 0x44u8, 0x45u8, 0x43u8],
    )
}

/// What the record emitted for (mesh, batch) holds: the core above plus
/// the name composed from the mesh name and the batch index and the
/// identity placement of a bare container.
pub open spec fn emitted_record_mgrr(
    md: MeshData,
    w: &Wmb,
    mesh: Mesh,
    batch_i: u16,
    wta_wtp: Option<&WtaWtp>,
) -> bool {
    &&& emitted_record_core_mgrr(md, w, mesh, batch_i, wta_wtp)
    &&& md.name@ == mesh.name@ + seq![0x2Fu8] + crate::bytes_util::dec_digits(batch_i as nat)
    &&& md.transform is Identity
}

/// Emit the mesh record for one (mesh, batch) pair: the batch's direct
/// vertex window, its winding-reversed index window (kept unbiased), the
/// material's texture bindings and the name-driven flags.
#[verifier::rlimit(100)]
pub fn emit_batch_mgrr(w: &Wmb, mesh: &Mesh, batch_i: u16, wta_wtp: Option<&WtaWtp>) -> (r: Result<
    MeshData,
    DecodeError,
>)
    ensures
        match r {
            Ok(md) => {
                &&& emit_batch_error(w, batch_i as int) is None
                &&& emitted_record_mgrr(md, w, *mesh, batch_i, wta_wtp)
            },
            Err(e) => emit_batch_error(w, batch_i as int) == Some(e),
        },
{
    if batch_i as usize >= w.batches.len() {
        return Err(DecodeError::BatchIndexOutOfBounds);
    }
    let batch = &w.batches[batch_i as usize];
    let bd = match lookup_batch_data(&w.batch_data_group, batch_i as u32) {
        Some(bd) => bd,
        None => {
            return Err(DecodeError::BatchDataMissing);
        },
    };
    if bd.material_index as usize >= w.materials.len() {
        return Err(DecodeError::MaterialIndexOutOfBounds);
    }
    let material = &w.materials[bd.material_index as usize];
    if batch.vertex_group_index as usize >= w.vertex_groups.len() {
        return Err(DecodeError::VertexGroupIndexOutOfBounds);
    }
    let vg = &w.vertex_groups[batch.vertex_group_index as usize];
    let indexes = crate::windows::slice_indexes(
        &vg.indexes,
        crate::wta_wtp::sign_ext_u64(batch.index_start),
        batch.num_indexes as u64,
    )?;
    let vstart = crate::wta_wtp::sign_ext_u64(batch.vertex_start);
    let vlen = vg.vertexes.len() as u64;
    let wcount: u64 = if vstart >= vlen {
        0
    } else if batch.num_vertices as u64 <= vlen - vstart {
        batch.num_vertices as u64
    } else {
        vlen - vstart
    };
    let ghost gwv = vertex_window(
        vg.vertexes@,
        crate::wta_wtp::sign_ext_64(batch.vertex_start),
        batch.num_vertices as int,
    );
    let mut vertices: Vec<[u32; 3]> = Vec::new();
    let mut tangents: Vec<[i16; 4]> = Vec::new();
    let mut normals: Vec<[i16; 3]> = Vec::new();
    let mut uv: Vec<[u32; 2]> = Vec::new();
    let mut k: u64 = 0;
    while k < wcount
        invariant
            gwv == vertex_window(
                vg.vertexes@,
                crate::wta_wtp::sign_ext_64(batch.vertex_start),
                batch.num_vertices as int,
            ),
            vstart as int == crate::wta_wtp::sign_ext_64(batch.vertex_start),
            vlen == vg.vertexes@.len(),
            vlen <= usize::MAX,
            wcount == gwv.len(),
            wcount > 0 ==> vstart + wcount <= vlen,
            k <= wcount,
            vertices@.len() == k && tangents@.len() == k && normals@.len() == k && uv@.len() == k,
            forall|i: int|
                0 <= i < k ==> vertices@[i] == gwv[i].position && tangents@[i] == gwv[i].tangent
                    && normals@[i] == gwv[i].normal && uv@[i] == gwv[i].uv,
        decreases wcount - k,
    {
        let v = &vg.vertexes[(vstart + k) as usize];
        vertices.push(v.position);
        tangents.push(v.tangent);
        normals.push(v.normal);
        uv.push(v.uv);
        k = k + 1;
    }
    let albedo_texture_id = material.get_albedo_texture_id(&w.textures);
    let normal_texture_id = material.get_normal_texture_id(&w.textures);
    let uses_transparency = material.alpha_is_transparency(wta_wtp, &w.textures);
    let dec_suffix: [u8; 4] = [0x5F, 0x44, 0x45, 0x43];
    proof {
        assert(dec_suffix@ =~= seq![0x5Fu8, 0x44u8, 0x45u8, 0x43u8]);
    }
    let should_be_visible = !crate::bytes_util::bytes_ends_with(
        mesh.name.as_slice(),
        dec_suffix.as_slice(),
    );
    let mut name: Vec<u8> = Vec::new();
    crate::bytes_util::push_all(&mut name, mesh.name.as_slice());
    let slash: [u8; 1] = [0x2F];
    crate::bytes_util::push_all(&mut name, slash.as_slice());
    let digits = crate::bytes_util::u64_to_dec(batch_i as u64);
    crate::bytes_util::push_all(&mut name, digits.as_slice());
    proof {
        assert(name@ =~= mesh.name@ + seq![0x2Fu8] + crate::bytes_util::dec_digits(
            batch_i as nat,
        ));
        assert(vertices@ =~= Seq::new(gwv.len(), |i: int| gwv[i].position));
        assert(tangents@ =~= Seq::new(gwv.len(), |i: int| gwv[i].tangent));
        assert(normals@ =~= Seq::new(gwv.len(), |i: int| gwv[i].normal));
        assert(uv@ =~= Seq::new(gwv.len(), |i: int| gwv[i].uv));
    }
    Ok(MeshData {
        name,
        vertices,
        indexes,
        tangents: Some(tangents),
        normals: Some(crate::mesh_data::NormalData::Packed(normals)),
        uv,
        albedo_texture_id,
        normal_texture_id,
        mask_texture_id: None,
        transform: crate::mesh_data::MeshTransform::Identity,
        uses_transparency,
        should_be_visible,
    })
}

/// The distinct batch indices mesh `mi` references, in emission order.
pub open spec fn mesh_plan(w: &Wmb, mi: int) -> Seq<u16> {
    dedup_firsts(flatten_u16(vecs_view_u16(w.meshes@[mi].batches@)))
}

/// Emission of entry `j` of mesh `mi`'s plan resolves every reference.
pub open spec fn emit_ok(w: &Wmb, mi: int, j: int) -> bool {
    emit_batch_error(w, mesh_plan(w, mi)[j] as int) is None
}

/// How many records the whole container emits: for each mesh, one per
/// distinct referenced batch index.
pub open spec fn mesh_plan_len(meshes: Seq<Mesh>) -> int
    decreases meshes.len(),
{
    if meshes.len() == 0 {
        0
    } else {
        mesh_plan_len(meshes.drop_last()) + dedup_firsts(
            flatten_u16(vecs_view_u16(meshes.last().batches@)),
        ).len()
    }
}

/// Triangle winding at this decoder's output: whenever a batch's index
/// window starts triple-aligned, any full source triple `[a, b, c]` is
/// emitted as `[c, b, a]` — and nothing else changes, since this format
/// keeps the sliced indices unmodified.
pub proof fn lemma_record_winding_mgrr(
    md: MeshData,
    w: &Wmb,
    mesh: Mesh,
    batch_i: u16,
    wta_wtp: Option<&WtaWtp>,
    t: int,
)
    requires
        emitted_record_core_mgrr(md, w, mesh, batch_i, wta_wtp),
        crate::wta_wtp::sign_ext_64(w.batches@[batch_i as int].index_start) % 3 == 0,
        0 <= t,
        3 * t + 2 < md.indexes@.len(),
    ensures
        ({
            let b = w.batches@[batch_i as int];
            let vg = w.vertex_groups@[b.vertex_group_index as int];
            let start = crate::wta_wtp::sign_ext_64(b.index_start);
            &&& md.indexes@[3 * t] == vg.indexes@[start + 3 * t + 2]
            &&& md.indexes@[3 * t + 1] == vg.indexes@[start + 3 * t + 1]
            &&& md.indexes@[3 * t + 2] == vg.indexes@[start + 3 * t]
        }),
{
    let b = w.batches@[batch_i as int];
    let vg = w.vertex_groups@[b.vertex_group_index as int];
    let start = crate::wta_wtp::sign_ext_64(b.index_start);
    let count = crate::windows::window_count(
        vg.indexes@.len() as int,
        start,
        b.num_indexes as int,
    );
    crate::windows::lemma_triple_winding(vg.indexes@, start, count, t);
}

/// The direct vertex window of this decoder's output: emitted vertex
/// `i` is the group's vertex at `vertex_start + i`, with no re-biasing
/// and no derivation from the indices.
pub proof fn lemma_record_direct_window_mgrr(
    md: MeshData,
    w: &Wmb,
    mesh: Mesh,
    batch_i: u16,
    wta_wtp: Option<&WtaWtp>,
    i: int,
)
    requires
        emitted_record_core_mgrr(md, w, mesh, batch_i, wta_wtp),
        0 <= i < md.vertices@.len(),
    ensures
        ({
            let b = w.batches@[batch_i as int];
            let vg = w.vertex_groups@[b.vertex_group_index as int];
            let vstart = crate::wta_wtp::sign_ext_64(b.vertex_start);
            &&& md.vertices@[i] == vg.vertexes@[vstart + i].position
            &&& md.uv@[i] == vg.vertexes@[vstart + i].uv
            &&& md.tangents.unwrap()@[i] == vg.vertexes@[vstart + i].tangent
        }),
{
    let b = w.batches@[batch_i as int];
    let vg = w.vertex_groups@[b.vertex_group_index as int];
    let vstart = crate::wta_wtp::sign_ext_64(b.vertex_start);
    let wv = vertex_window(vg.vertexes@, vstart, b.num_vertices as int);
    assert(wv[i] == vg.vertexes@[vstart + i]);
}

/// How many records the meshes before `mi` emit: where mesh `mi`'s
/// records start in the output.
pub open spec fn plan_offset(w: &Wmb, mi: int) -> int {
    mesh_plan_len(w.meshes@.subrange(0, mi))
}

proof fn lemma_plan_offset_succ(w: &Wmb, mi: int)
    requires
        0 <= mi < w.meshes@.len(),
    ensures
        plan_offset(w, mi + 1) == plan_offset(w, mi) + mesh_plan(w, mi).len(),
{
    assert(w.meshes@.subrange(0, mi + 1).drop_last() =~= w.meshes@.subrange(0, mi));
    assert(w.meshes@.subrange(0, mi + 1).last() == w.meshes@[mi]);
}

/// The albedo texture id the emission of plan entry (mi, j) resolves.
pub open spec fn emit_albedo_id(w: &Wmb, mi: int, j: int) -> Option<u32> {
    let bd = scatter_lookup(w.batch_data_group@, mesh_plan(w, mi)[j] as int).unwrap();
    w.materials@[bd.material_index as int].albedo_texture_id_spec(w.textures@)
}

/// The normal texture id the emission of plan entry (mi, j) resolves.
pub open spec fn emit_normal_id(w: &Wmb, mi: int, j: int) -> Option<u32> {
    let bd = scatter_lookup(w.batch_data_group@, mesh_plan(w, mi)[j] as int).unwrap();
    w.materials@[bd.material_index as int].normal_texture_id_spec(w.textures@)
}

/// The cache contents after fetching plan entry (mi, j)'s two ids.
pub open spec fn cache_after_batch(
    v: Map<u32, (Seq<u8>, u32, u32)>,
    w: &Wmb,
    wt: &WtaWtp,
    mi: int,
    j: int,
) -> Map<u32, (Seq<u8>, u32, u32)> {
    crate::texture::cache_after(
        crate::texture::cache_after(
            v,
            wt,
            emit_albedo_id(w, mi, j),
            crate::texture::SwizzleKind::Keep,
        ),
        wt,
        emit_normal_id(w, mi, j),
        crate::texture::SwizzleKind::Keep,
    )
}

/// The cache contents after the first `j` plan entries of mesh `mi`.
pub open spec fn cache_after_mesh(
    v: Map<u32, (Seq<u8>, u32, u32)>,
    w: &Wmb,
    wt: &WtaWtp,
    mi: int,
    j: int,
) -> Map<u32, (Seq<u8>, u32, u32)>
    decreases j,
{
    if j <= 0 {
        v
    } else {
        cache_after_batch(cache_after_mesh(v, w, wt, mi, j - 1), w, wt, mi, j - 1)
    }
}

/// The cache contents after the first `mi` meshes' plans.
pub open spec fn cache_after_all(
    v: Map<u32, (Seq<u8>, u32, u32)>,
    w: &Wmb,
    wt: &WtaWtp,
    mi: int,
) -> Map<u32, (Seq<u8>, u32, u32)>
    decreases mi,
{
    if mi <= 0 {
        v
    } else {
        cache_after_mesh(cache_after_all(v, w, wt, mi - 1), w, wt, mi - 1, mesh_plan(w, mi - 1).len() as int)
    }
}

/// The output holds, at plan entry (mi, j)'s position, exactly the
/// record emitted for that entry.
pub open spec fn plan_record_ok(
    v: Seq<MeshData>,
    w: &Wmb,
    mi: int,
    j: int,
    wta_wtp: Option<&WtaWtp>,
) -> bool {
    &&& 0 <= plan_offset(w, mi) + j < v.len()
    &&& emitted_record_mgrr(
        v[plan_offset(w, mi) + j],
        w,
        w.meshes@[mi],
        mesh_plan(w, mi)[j],
        wta_wtp,
    )
}

/// Decode a whole newer-format container into mesh records, fetching
/// and caching each referenced texture once.
#[verifier::rlimit(100)]
pub fn read_wmb_mgrr(
    rd: &mut ByteReader,
    wta_wtp: Option<&WtaWtp>,
    textures: &mut HashMap<u32, TextureData>,
) -> (r: Result<Vec<MeshData>, DecodeError>)
    ensures
        final(rd).bytes() == old(rd).bytes(),
        forall|k: u32| #[trigger]
            old(textures)@.dom().contains(k) ==> final(textures)@.dom().contains(k)
                && final(textures)@[k] == old(textures)@[k],
        forall|k: u32| #[trigger]
            final(textures)@.dom().contains(k) ==> (old(textures)@.dom().contains(k)
                && final(textures)@[k] == old(textures)@[k])
                || final(textures)@[k].bytes@.len() == 4 * final(textures)@[k].width
                * final(textures)@[k].height,
        wta_wtp is None ==> final(textures)@ == old(textures)@,
        match r {
            Ok(v) => exists|w: Wmb|
                {
                    &&& #[trigger] w.parsed_from(final(rd).bytes(), old(rd).cursor())
                    &&& v@.len() == mesh_plan_len(w.meshes@)
                    &&& forall|mi: int, j: int|
                        0 <= mi < w.meshes@.len() && 0 <= j < mesh_plan(&w, mi).len()
                            ==> #[trigger] emit_ok(&w, mi, j)
                    &&& forall|mi: int, j: int|
                        0 <= mi < w.meshes@.len() && 0 <= j < mesh_plan(&w, mi).len()
                            ==> #[trigger] plan_record_ok(v@, &w, mi, j, wta_wtp)
                    &&& match wta_wtp {
                        Some(wt) => crate::texture::cache_view(final(textures)@)
                            == cache_after_all(
                            crate::texture::cache_view(old(textures)@),
                            &w,
                            wt,
                            w.meshes@.len() as int,
                        ),
                        None => true,
                    }
                },
            Err(e) => !wmb_parses(final(rd).bytes(), old(rd).cursor()) || exists|w: Wmb|
                {
                    &&& #[trigger] w.parsed_from(final(rd).bytes(), old(rd).cursor())
                    &&& exists|mi: int, j: int|
                        0 <= mi < w.meshes@.len() && 0 <= j < mesh_plan(&w, mi).len() && !(
                        #[trigger] emit_ok(&w, mi, j))
                },
        },
{
    let wmb = Wmb::read(rd)?;
    let ghost tex0 = textures@;
    let mut meshes: Vec<MeshData> = Vec::new();
    let mut mi: usize = 0;
    while mi < wmb.meshes.len()
        invariant
            rd.bytes() == old(rd).bytes(),
            wmb.parsed_from(old(rd).bytes(), old(rd).cursor()),
            mi <= wmb.meshes@.len(),
            meshes@.len() == plan_offset(&wmb, mi as int),
            forall|m2: int, j2: int|
                0 <= m2 < mi && 0 <= j2 < mesh_plan(&wmb, m2).len() ==> #[trigger] emit_ok(
                    &wmb,
                    m2,
                    j2,
                ),
            forall|m2: int, j2: int|
                0 <= m2 < mi && 0 <= j2 < mesh_plan(&wmb, m2).len() ==> #[trigger] plan_record_ok(
                    meshes@,
                    &wmb,
                    m2,
                    j2,
                    wta_wtp,
                ),
            tex0 == old(textures)@,
            forall|k: u32| #[trigger]
                tex0.dom().contains(k) ==> textures@.dom().contains(k) && textures@[k] == tex0[k],
            forall|k: u32| #[trigger]
                textures@.dom().contains(k) ==> (tex0.dom().contains(k) && textures@[k]
                    == tex0[k]) || textures@[k].bytes@.len() == 4 * textures@[k].width
                    * textures@[k].height,
            wta_wtp is None ==> textures@ == tex0,
            match wta_wtp {
                Some(wt) => crate::texture::cache_view(textures@) == cache_after_all(
                    crate::texture::cache_view(tex0),
                    &wmb,
                    wt,
                    mi as int,
                ),
                None => true,
            },
        decreases wmb.meshes@.len() - mi,
    {
        let mesh = &wmb.meshes[mi];
        let batch_indices = distinct_batch_indices(&mesh.batches);
        let mut j: usize = 0;
        let ghost meshes0 = meshes@.len() as int;
        while j < batch_indices.len()
            invariant
                rd.bytes() == old(rd).bytes(),
                wmb.parsed_from(old(rd).bytes(), old(rd).cursor()),
                mi < wmb.meshes@.len(),
                mesh == wmb.meshes@[mi as int],
                batch_indices@ == mesh_plan(&wmb, mi as int),
                j <= batch_indices@.len(),
                meshes0 == plan_offset(&wmb, mi as int),
                meshes@.len() == meshes0 + j,
                forall|m2: int, j2: int|
                    0 <= m2 < mi && 0 <= j2 < mesh_plan(&wmb, m2).len() ==> #[trigger] emit_ok(
                        &wmb,
                        m2,
                        j2,
                    ),
                forall|j2: int| 0 <= j2 < j ==> #[trigger] emit_ok(&wmb, mi as int, j2),
                forall|m2: int, j2: int|
                    0 <= m2 < mi && 0 <= j2 < mesh_plan(&wmb, m2).len() ==> #[trigger] plan_record_ok(
                        meshes@,
                        &wmb,
                        m2,
                        j2,
                        wta_wtp,
                    ),
                forall|j2: int|
                    0 <= j2 < j ==> #[trigger] plan_record_ok(
                        meshes@,
                        &wmb,
                        mi as int,
                        j2,
                        wta_wtp,
                    ),
                tex0 == old(textures)@,
                forall|k: u32| #[trigger]
                    tex0.dom().contains(k) ==> textures@.dom().contains(k) && textures@[k]
                        == tex0[k],
                forall|k: u32| #[trigger]
                    textures@.dom().contains(k) ==> (tex0.dom().contains(k) && textures@[k]
                        == tex0[k]) || textures@[k].bytes@.len() == 4 * textures@[k].width
                        * textures@[k].height,
                wta_wtp is None ==> textures@ == tex0,
                match wta_wtp {
                    Some(wt) => crate::texture::cache_view(textures@) == cache_after_mesh(
                        cache_after_all(crate::texture::cache_view(tex0), &wmb, wt, mi as int),
                        &wmb,
                        wt,
                        mi as int,
                        j as int,
                    ),
                    None => true,
                },
            decreases batch_indices@.len() - j,
        {
            let batch_i = batch_indices[j];
            let md = match emit_batch_mgrr(&wmb, mesh, batch_i, wta_wtp) {
                Ok(md) => md,
                Err(e) => {
                    proof {
                        assert(!emit_ok(&wmb, mi as int, j as int));
                    }
                    return Err(e);
                },
            };
            proof {
                assert(emit_ok(&wmb, mi as int, j as int));
            }
            match wta_wtp {
                Some(wt) => {
                    proof {
                        assert(md.albedo_texture_id == emit_albedo_id(&wmb, mi as int, j as int));
                        assert(md.normal_texture_id == emit_normal_id(&wmb, mi as int, j as int));
                    }
                    crate::texture::try_add_texture(
                        textures,
                        wt,
                        md.albedo_texture_id,
                        crate::texture::SwizzleKind::Keep,
                    );
                    crate::texture::try_add_texture(
                        textures,
                        wt,
                        md.normal_texture_id,
                        crate::texture::SwizzleKind::Keep,
                    );
                },
                None => {},
            }
            proof {
                assert forall|k: u32| #[trigger]
                    tex0.dom().contains(k) implies textures@.dom().contains(k) && textures@[k]
                    == tex0[k] by {}
                assert forall|k: u32| #[trigger]
                    textures@.dom().contains(k) implies (tex0.dom().contains(k) && textures@[k]
                    == tex0[k]) || textures@[k].bytes@.len() == 4 * textures@[k].width
                    * textures@[k].height by {}
            }
            let ghost prev = meshes@;
            meshes.push(md);
            proof {
                assert(plan_record_ok(meshes@, &wmb, mi as int, j as int, wta_wtp));
                assert forall|m2: int, j2: int|
                    0 <= m2 < mi && 0 <= j2 < mesh_plan(&wmb, m2).len() implies #[trigger] plan_record_ok(
                    meshes@,
                    &wmb,
                    m2,
                    j2,
                    wta_wtp,
                ) by {
                    assert(plan_record_ok(prev, &wmb, m2, j2, wta_wtp));
                }
                assert forall|j2: int| 0 <= j2 < j + 1 implies #[trigger] plan_record_ok(
                    meshes@,
                    &wmb,
                    mi as int,
                    j2,
                    wta_wtp,
                ) by {
                    if j2 < j {
                        assert(plan_record_ok(prev, &wmb, mi as int, j2, wta_wtp));
                    }
                }
            }
            j = j + 1;
        }
        proof {
            lemma_plan_offset_succ(&wmb, mi as int);
        }
        mi = mi + 1;
    }
    proof {
        assert(wmb.meshes@.subrange(0, wmb.meshes@.len() as int) =~= wmb.meshes@);
    }
    Ok(meshes)
}

} // verus!
