//! Decoder for the older single-skeleton mesh-container format: full
//! header, bone hierarchy, sparse bone-index translate table, per-LOD
//! batch lists, flag-driven vertex and extended-vertex layouts, and
//! material texture slots resolved by substring match on slot names.
//! All multi-byte fields are little-endian; float fields are carried as
//! their bit patterns.

use std::collections::HashMap;

use vstd::prelude::*;

use crate::byte_stream::ByteReader;
use crate::byte_stream::first_zero_at;
use crate::byte_stream::i16_at;
use crate::byte_stream::i32_at;
use crate::byte_stream::u16_at;
use crate::byte_stream::u32_at;
use crate::byte_stream::u8_at;
use crate::error::DecodeError;
use crate::mesh_data::MeshData;
use crate::mesh_data::TextureData;
use crate::wmb_mgrr::bbox_bits_of;
use crate::wmb_mgrr::f16_field;
use crate::wmb_mgrr::point_bits_of;
use crate::wmb_mgrr::read_bbox;
use crate::wmb_mgrr::read_f16_as_f32_bits;
use crate::wmb_mgrr::read_point;
use crate::wmb_mgrr::tangent_component;
use crate::wta_wtp::WtaWtp;

verus! {

broadcast use crate::byte_stream::lemma_cursor_nonneg;

/// Container header: tag, version, layout flags and every section's
/// offset/count pair.
pub struct Header {
    pub id: Vec<u8>,
    pub version: u32,
    pub unknown_a: i32,
    pub flags: i16,
    pub reference_bone: i16,
    pub bounding_box: [u32; 6],
    pub offset_bones: u32,
    pub num_bones: u32,
    pub offset_bone_index_translate_table: u32,
    pub bone_translate_table_size: u32,
    pub offset_vertex_groups: u32,
    pub num_vertex_groups: u32,
    pub offset_batches: u32,
    pub num_batches: u32,
    pub offset_lods: u32,
    pub num_lods: u32,
    pub offset_col_tree_nodes: u32,
    pub num_col_tree_nodes: u32,
    pub offset_bone_map: u32,
    pub bone_map_size: u32,
    pub offset_bone_sets: u32,
    pub num_bone_sets: u32,
    pub offset_materials: u32,
    pub num_materials: u32,
    pub offset_meshes: u32,
    pub num_meshes: u32,
    pub offset_mesh_material: u32,
    pub num_mesh_material: u32,
    pub offset_unknown0: u32,
    pub num_unknown0: u32,
}

impl Header {
    /// What the 136-byte header at `at` holds.
    pub open spec fn parsed_from(self, s: Seq<u8>, at: int) -> bool {
        &&& self.id@ == s.subrange(at, at + 4)
        &&& self.version == u32_at(s, at + 4)
        &&& self.unknown_a == i32_at(s, at + 8)
        &&& self.flags == i16_at(s, at + 12)
        &&& self.reference_bone == i16_at(s, at + 14)
        &&& self.bounding_box@ == bbox_bits_of(s, at + 16)
        &&& self.offset_bones == u32_at(s, at + 40)
        &&& self.num_bones == u32_at(s, at + 44)
        &&& self.offset_bone_index_translate_table == u32_at(s, at + 48)
        &&& self.bone_translate_table_size == u32_at(s, at + 52)
        &&& self.offset_vertex_groups == u32_at(s, at + 56)
        &&& self.num_vertex_groups == u32_at(s, at + 60)
        &&& self.offset_batches == u32_at(s, at + 64)
        &&& self.num_batches == u32_at(s, at + 68)
        &&& self.offset_lods == u32_at(s, at + 72)
        &&& self.num_lods == u32_at(s, at + 76)
        &&& self.offset_col_tree_nodes == u32_at(s, at + 80)
        &&& self.num_col_tree_nodes == u32_at(s, at + 84)
        &&& self.offset_bone_map == u32_at(s, at + 88)
        &&& self.bone_map_size == u32_at(s, at + 92)
        &&& self.offset_bone_sets == u32_at(s, at + 96)
        &&& self.num_bone_sets == u32_at(s, at + 100)
        &&& self.offset_materials == u32_at(s, at + 104)
        &&& self.num_materials == u32_at(s, at + 108)
        &&& self.offset_meshes == u32_at(s, at + 112)
        &&& self.num_meshes == u32_at(s, at + 116)
        &&& self.offset_mesh_material == u32_at(s, at + 120)
        &&& self.num_mesh_material == u32_at(s, at + 124)
        &&& self.offset_unknown0 == u32_at(s, at + 128)
        &&& self.num_unknown0 == u32_at(s, at + 132)
    }

    #[verifier::rlimit(100)]
    pub fn read(rd: &mut ByteReader) -> (r: Result<Header, DecodeError>)
        ensures
            final(rd).bytes() == old(rd).bytes(),
            match r {
                Ok(h) => {
                    &&& old(rd).cursor() + 136 <= final(rd).bytes().len()
                    &&& h.parsed_from(final(rd).bytes(), old(rd).cursor())
                    &&& final(rd).cursor() == old(rd).cursor() + 136
                },
                Err(e) => {
                    &&& e == DecodeError::ShortRead
                    &&& old(rd).cursor() + 136 > final(rd).bytes().len()
                },
            },
    {
        Ok(Header {
            id: rd.read_string(4)?,
            version: rd.read_u32()?,
            unknown_a: rd.read_i32()?,
            flags: rd.read_i16()?,
            reference_bone: rd.read_i16()?,
            bounding_box: read_bbox(rd)?,
            offset_bones: rd.read_u32()?,
            num_bones: rd.read_u32()?,
            offset_bone_index_translate_table: rd.read_u32()?,
            bone_translate_table_size: rd.read_u32()?,
            offset_vertex_groups: rd.read_u32()?,
            num_vertex_groups: rd.read_u32()?,
            offset_batches: rd.read_u32()?,
            num_batches: rd.read_u32()?,
            offset_lods: rd.read_u32()?,
            num_lods: rd.read_u32()?,
            offset_col_tree_nodes: rd.read_u32()?,
            num_col_tree_nodes: rd.read_u32()?,
            offset_bone_map: rd.read_u32()?,
            bone_map_size: rd.read_u32()?,
            offset_bone_sets: rd.read_u32()?,
            num_bone_sets: rd.read_u32()?,
            offset_materials: rd.read_u32()?,
            num_materials: rd.read_u32()?,
            offset_meshes: rd.read_u32()?,
            num_meshes: rd.read_u32()?,
            offset_mesh_material: rd.read_u32()?,
            num_mesh_material: rd.read_u32()?,
            offset_unknown0: rd.read_u32()?,
            num_unknown0: rd.read_u32()?,
        })
    }
}

/// One bone with its local/absolute transforms kept as bit patterns.
pub struct Bone {
    pub id: i16,
    pub parent_index: i16,
    pub local_position: [u32; 3],
    pub local_rotation: [u32; 3],
    pub local_scale: [u32; 3],
    pub position: [u32; 3],
    pub rotation: [u32; 3],
    pub scale: [u32; 3],
    pub t_position: [u32; 3],
}

impl Bone {
    /// What the 88-byte bone record at `at` holds.
    pub open spec fn parsed_from(self, s: Seq<u8>, at: int) -> bool {
        &&& self.id == i16_at(s, at)
        &&& self.parent_index == i16_at(s, at + 2)
        &&& self.local_position@ == point_bits_of(s, at + 4)
        &&& self.local_rotation@ == point_bits_of(s, at + 16)
        &&& self.local_scale@ == point_bits_of(s, at + 28)
        &&& self.position@ == point_bits_of(s, at + 40)
        &&& self.rotation@ == point_bits_of(s, at + 52)
        &&& self.scale@ == point_bits_of(s, at + 64)
        &&& self.t_position@ == point_bits_of(s, at + 76)
    }

    pub fn read(rd: &mut ByteReader) -> (r: Result<Bone, DecodeError>)
        ensures
            final(rd).bytes() == old(rd).bytes(),
            match r {
                Ok(b) => {
                    &&& old(rd).cursor() + 88 <= final(rd).bytes().len()
                    &&& b.parsed_from(final(rd).bytes(), old(rd).cursor())
                    &&& final(rd).cursor() == old(rd).cursor() + 88
                },
                Err(e) => {
                    &&& e == DecodeError::ShortRead
                    &&& old(rd).cursor() + 88 > final(rd).bytes().len()
                },
            },
    {
        Ok(Bone {
            id: rd.read_i16()?,
            parent_index: rd.read_i16()?,
            local_position: read_point(rd)?,
            local_rotation: read_point(rd)?,
            local_scale: read_point(rd)?,
            position: read_point(rd)?,
            rotation: read_point(rd)?,
            scale: read_point(rd)?,
            t_position: read_point(rd)?,
        })
    }
}

/// Layout flags with a second texture-coordinate pair in the primary
/// vertex record.
pub open spec fn uv2_flag(flags: u32) -> bool {
    flags == 1 || flags == 4 || flags == 5 || flags == 12 || flags == 14
}

/// Layout flags with bone indices and weights in the primary record.
pub open spec fn bone_flag(flags: u32) -> bool {
    flags == 7 || flags == 10 || flags == 11
}

/// Layout flags with a color in the primary record.
pub open spec fn color_flag(flags: u32) -> bool {
    flags == 4 || flags == 5 || flags == 12 || flags == 14
}

/// How many bytes one primary vertex record occupies under these flags.
pub open spec fn vertex_size_na(flags: u32) -> int {
    20int + (if flags == 0 {
        8int
    } else {
        0int
    }) + (if uv2_flag(flags) {
        4int
    } else {
        0int
    }) + (if bone_flag(flags) {
        8int
    } else {
        0int
    }) + (if color_flag(flags) {
        4int
    } else {
        0int
    })
}

/// Per-vertex record: position and texture coordinates as bit patterns,
/// the tangent as recentered signed bytes (t/127) with its separate
/// sign byte recentered the same way, and the flag-dependent fields.
pub struct Vertex {
    pub position: [u32; 3],
    pub tangent: [i16; 3],
    pub tangent_sign: i16,
    pub uv: [u32; 2],
    pub normal: Option<[u32; 3]>,
    pub uv2: Option<[u32; 2]>,
    pub bone_indices: Option<[u8; 4]>,
    pub bone_weights: Option<[u8; 4]>,
    pub color: Option<[u8; 4]>,
}

/// Three half-precision fields widened to bit patterns (the fourth,
/// padding, half of the run is skipped).
pub open spec fn half_triple(s: Seq<u8>, at: int) -> Seq<u32> {
    seq![f16_field(s, at), f16_field(s, at + 2), f16_field(s, at + 4)]
}

impl Vertex {
    /// What a primary vertex record read at `at` under `flags` holds.
    pub open spec fn parsed_from(self, s: Seq<u8>, at: int, flags: u32) -> bool {
        &&& self.position@ == point_bits_of(s, at)
        &&& self.tangent@ == seq![
            tangent_component(u8_at(s, at + 12)),
            tangent_component(u8_at(s, at + 13)),
            tangent_component(u8_at(s, at + 14)),
        ]
        &&& self.tangent_sign == tangent_component(u8_at(s, at + 15))
        &&& self.uv@ == seq![f16_field(s, at + 16), f16_field(s, at + 18)]
        &&& {
            let next0 = at + 20;
            let next1 = next0 + if flags == 0 {
                8int
            } else {
                0int
            };
            let next2 = next1 + if uv2_flag(flags) {
                4int
            } else {
                0int
            };
            let next3 = next2 + if bone_flag(flags) {
                8int
            } else {
                0int
            };
            &&& if flags == 0 {
                self.normal matches Some(n) && n@ == half_triple(s, next0)
            } else {
                self.normal is None
            }
            &&& if uv2_flag(flags) {
                self.uv2 matches Some(u) && u@ == seq![f16_field(s, next1), f16_field(s, next1 + 2)]
            } else {
                self.uv2 is None
            }
            &&& if bone_flag(flags) {
                &&& self.bone_indices matches Some(bi) && bi@ == s.subrange(next2, next2 + 4)
                &&& self.bone_weights matches Some(bw) && bw@ == s.subrange(next2 + 4, next2 + 8)
            } else {
                self.bone_indices is None && self.bone_weights is None
            }
            &&& if color_flag(flags) {
                self.color matches Some(c) && c@ == s.subrange(next3, next3 + 4)
            } else {
                self.color is None
            }
        }
    }

    #[verifier::rlimit(100)]
    pub fn read(rd: &mut ByteReader, vertex_flags: u32) -> (r: Result<Vertex, DecodeError>)
        ensures
            final(rd).bytes() == old(rd).bytes(),
            match r {
                Ok(v) => {
                    &&& old(rd).cursor() + vertex_size_na(vertex_flags) <= final(rd).bytes().len()
                    &&& v.parsed_from(final(rd).bytes(), old(rd).cursor(), vertex_flags)
                    &&& final(rd).cursor() == old(rd).cursor() + vertex_size_na(vertex_flags)
                },
                Err(e) => {
                    &&& e == DecodeError::ShortRead
                    &&& old(rd).cursor() + vertex_size_na(vertex_flags) > final(rd).bytes().len()
                },
            },
    {
        let position = read_point(rd)?;
        let t0 = rd.read_u8()?;
        let t1 = rd.read_u8()?;
        let t2 = rd.read_u8()?;
        let sign = rd.read_u8()?;
        let tangent: [i16; 3] = [t0 as i16 - 127, t1 as i16 - 127, t2 as i16 - 127];
        let tangent_sign: i16 = sign as i16 - 127;
        let u0 = read_f16_as_f32_bits(rd)?;
        let u1 = read_f16_as_f32_bits(rd)?;
        let mut normal: Option<[u32; 3]> = None;
        let mut uv2: Option<[u32; 2]> = None;
        let mut bone_indices: Option<[u8; 4]> = None;
        let mut bone_weights: Option<[u8; 4]> = None;
        let mut color: Option<[u8; 4]> = None;
        if vertex_flags == 0 {
            let n0 = read_f16_as_f32_bits(rd)?;
            let n1 = read_f16_as_f32_bits(rd)?;
            let n2 = read_f16_as_f32_bits(rd)?;
            let _pad = read_f16_as_f32_bits(rd)?;
            let n = [n0, n1, n2];
            proof {
                assert(n@ =~= half_triple(rd.bytes(), old(rd).cursor() + 20));
            }
            normal = Some(n);
        }
        if vertex_flags == 1 || vertex_flags == 4 || vertex_flags == 5 || vertex_flags == 12
            || vertex_flags == 14 {
            let a = read_f16_as_f32_bits(rd)?;
            let b = read_f16_as_f32_bits(rd)?;
            uv2 = Some([a, b]);
        }
        if vertex_flags == 7 || vertex_flags == 10 || vertex_flags == 11 {
            let b0 = rd.read_u8()?;
            let b1 = rd.read_u8()?;
            let b2 = rd.read_u8()?;
            let b3 = rd.read_u8()?;
            let bi = [b0, b1, b2, b3];
            let w0 = rd.read_u8()?;
            let w1 = rd.read_u8()?;
            let w2 = rd.read_u8()?;
            let w3 = rd.read_u8()?;
            let bw = [w0, w1, w2, w3];
            proof {
                let c2 = old(rd).cursor() + 20 + if uv2_flag(vertex_flags) {
                    4int
                } else {
                    0int
                };
                assert(bi@ =~= rd.bytes().subrange(c2, c2 + 4));
                assert(bw@ =~= rd.bytes().subrange(c2 + 4, c2 + 8));
            }
            bone_indices = Some(bi);
            bone_weights = Some(bw);
        }
        if vertex_flags == 4 || vertex_flags == 5 || vertex_flags == 12 || vertex_flags == 14 {
            let c0 = rd.read_u8()?;
            let c1 = rd.read_u8()?;
            let c2 = rd.read_u8()?;
            let c3 = rd.read_u8()?;
            let cl = [c0, c1, c2, c3];
            proof {
                let c3p = old(rd).cursor() + 20 + (if uv2_flag(vertex_flags) {
                    4int
                } else {
                    0int
                });
                assert(cl@ =~= rd.bytes().subrange(c3p, c3p + 4));
            }
            color = Some(cl);
        }
        let v = Vertex {
            position,
            tangent,
            tangent_sign,
            uv: [u0, u1],
            normal,
            uv2,
            bone_indices,
            bone_weights,
            color,
        };
        proof {
            assert(v.tangent@ =~= seq![
                tangent_component(u8_at(rd.bytes(), old(rd).cursor() + 12)),
                tangent_component(u8_at(rd.bytes(), old(rd).cursor() + 13)),
                tangent_component(u8_at(rd.bytes(), old(rd).cursor() + 14)),
            ]);
            assert(v.uv@ =~= seq![
                f16_field(rd.bytes(), old(rd).cursor() + 16),
                f16_field(rd.bytes(), old(rd).cursor() + 18),
            ]);
            if v.uv2 is Some {
                let c1 = old(rd).cursor() + 20 + if vertex_flags == 0 {
                    8int
                } else {
                    0int
                };
                assert(v.uv2.unwrap()@ =~= seq![
                    f16_field(rd.bytes(), c1),
                    f16_field(rd.bytes(), c1 + 2),
                ]);
            }
        }
        Ok(v)
    }
}


/// Fixed header of one vertex group.
pub struct VertexGroupHeader {
    pub vertex_offset: u32,
    pub vertex_ex_data_offset: u32,
    pub unknown1_offset: u32,
    pub unknown2_offset: u32,
    pub vertex_size: u32,
    pub vertex_ex_data_size: u32,
    pub unknown1_size: u32,
    pub unknown2_size: u32,
    pub num_vertexes: u32,
    pub vertex_flags: u32,
    pub index_buffer_offset: u32,
    pub num_indexes: u32,
}

/// The 48-byte vertex-group header at `at`.
pub open spec fn parse_vertex_group_header(s: Seq<u8>, at: int) -> VertexGroupHeader {
    VertexGroupHeader {
        vertex_offset: u32_at(s, at),
        vertex_ex_data_offset: u32_at(s, at + 4),
        unknown1_offset: u32_at(s, at + 8),
        unknown2_offset: u32_at(s, at + 12),
        vertex_size: u32_at(s, at + 16),
        vertex_ex_data_size: u32_at(s, at + 20),
        unknown1_size: u32_at(s, at + 24),
        unknown2_size: u32_at(s, at + 28),
        num_vertexes: u32_at(s, at + 32),
        vertex_flags: u32_at(s, at + 36),
        index_buffer_offset: u32_at(s, at + 40),
        num_indexes: u32_at(s, at + 44),
    }
}

impl VertexGroupHeader {
    pub fn read(rd: &mut ByteReader) -> (r: Result<VertexGroupHeader, DecodeError>)
        ensures
            final(rd).bytes() == old(rd).bytes(),
            match r {
                Ok(h) => {
                    &&& old(rd).cursor() + 48 <= final(rd).bytes().len()
                    &&& h == parse_vertex_group_header(final(rd).bytes(), old(rd).cursor())
                    &&& final(rd).cursor() == old(rd).cursor() + 48
                },
                Err(e) => {
                    &&& e == DecodeError::ShortRead
                    &&& old(rd).cursor() + 48 > final(rd).bytes().len()
                },
            },
    {
        Ok(VertexGroupHeader {
            vertex_offset: rd.read_u32()?,
            vertex_ex_data_offset: rd.read_u32()?,
            unknown1_offset: rd.read_u32()?,
            unknown2_offset: rd.read_u32()?,
            vertex_size: rd.read_u32()?,
            vertex_ex_data_size: rd.read_u32()?,
            unknown1_size: rd.read_u32()?,
            unknown2_size: rd.read_u32()?,
            num_vertexes: rd.read_u32()?,
            vertex_flags: rd.read_u32()?,
            index_buffer_offset: rd.read_u32()?,
            num_indexes: rd.read_u32()?,
        })
    }
}

/// How many bytes one extended vertex record occupies under these
/// flags; an unrecognized flag value has no layout at all.
pub open spec fn vertex_ex_size_na(flags: u32) -> Option<int> {
    if flags == 1 || flags == 4 {
        Some(8int)
    } else if flags == 5 || flags == 7 {
        Some(12int)
    } else if flags == 10 || flags == 14 {
        Some(16int)
    } else if flags == 11 || flags == 12 {
        Some(20int)
    } else {
        None
    }
}

/// Extended per-vertex record; which fields are present, and their read
/// order, is fixed by the same numeric flag as the primary record.
pub struct VertexExData {
    pub normal: Option<[u32; 3]>,
    pub uv2: Option<[u32; 2]>,
    pub uv3: Option<[u32; 2]>,
    pub uv4: Option<[u32; 2]>,
    pub uv5: Option<[u32; 2]>,
    pub color: Option<[u8; 4]>,
}

/// A pair of half-precision fields widened to bit patterns.
pub open spec fn half_pair(s: Seq<u8>, at: int) -> Seq<u32> {
    seq![f16_field(s, at), f16_field(s, at + 2)]
}

impl VertexExData {
    /// What an extended vertex record read at `at` under a recognized
    /// `flags` value holds.
    pub open spec fn parsed_from(self, s: Seq<u8>, at: int, flags: u32) -> bool {
        if flags == 1 || flags == 4 {
            &&& self.normal matches Some(n) && n@ == half_triple(s, at)
            &&& self.uv2 is None && self.uv3 is None && self.uv4 is None && self.uv5 is None
            &&& self.color is None
        } else if flags == 5 {
            &&& self.normal matches Some(n) && n@ == half_triple(s, at)
            &&& self.uv3 matches Some(u) && u@ == half_pair(s, at + 8)
            &&& self.uv2 is None && self.uv4 is None && self.uv5 is None && self.color is None
        } else if flags == 7 {
            &&& self.uv2 matches Some(u) && u@ == half_pair(s, at)
            &&& self.normal matches Some(n) && n@ == half_triple(s, at + 4)
            &&& self.uv3 is None && self.uv4 is None && self.uv5 is None && self.color is None
        } else if flags == 10 {
            &&& self.uv2 matches Some(u) && u@ == half_pair(s, at)
            &&& self.color matches Some(c) && c@ == s.subrange(at + 4, at + 8)
            &&& self.normal matches Some(n) && n@ == half_triple(s, at + 8)
            &&& self.uv3 is None && self.uv4 is None && self.uv5 is None
        } else if flags == 11 {
            &&& self.uv2 matches Some(u) && u@ == half_pair(s, at)
            &&& self.color matches Some(c) && c@ == s.subrange(at + 4, at + 8)
            &&& self.normal matches Some(n) && n@ == half_triple(s, at + 8)
            &&& self.uv3 matches Some(u3) && u3@ == half_pair(s, at + 16)
            &&& self.uv4 is None && self.uv5 is None
        } else if flags == 12 {
            &&& self.normal matches Some(n) && n@ == half_triple(s, at)
            &&& self.uv3 matches Some(u3) && u3@ == half_pair(s, at + 8)
            &&& self.uv4 matches Some(u4) && u4@ == half_pair(s, at + 12)
            &&& self.uv5 matches Some(u5) && u5@ == half_pair(s, at + 16)
            &&& self.uv2 is None && self.color is None
        } else if flags == 14 {
            &&& self.normal matches Some(n) && n@ == half_triple(s, at)
            &&& self.uv3 matches Some(u3) && u3@ == half_pair(s, at + 8)
            &&& self.uv4 matches Some(u4) && u4@ == half_pair(s, at + 12)
            &&& self.uv2 is None && self.uv5 is None && self.color is None
        } else {
            false
        }
    }

    #[verifier::rlimit(100)]
    pub fn read(rd: &mut ByteReader, vertex_flags: u32) -> (r: Result<VertexExData, DecodeError>)
        ensures
            final(rd).bytes() == old(rd).bytes(),
            match r {
                Ok(v) => {
                    &&& vertex_ex_size_na(vertex_flags) is Some
                    &&& old(rd).cursor() + vertex_ex_size_na(vertex_flags).unwrap()
                        <= final(rd).bytes().len()
                    &&& v.parsed_from(final(rd).bytes(), old(rd).cursor(), vertex_flags)
                    &&& final(rd).cursor() == old(rd).cursor() + vertex_ex_size_na(
                        vertex_flags,
                    ).unwrap()
                },
                Err(e) => {
                    &&& (e == DecodeError::ShortRead || e == DecodeError::UnknownVertexFlags(
                        vertex_flags,
                    ))
                    &&& (e == DecodeError::UnknownVertexFlags(vertex_flags) <==> vertex_ex_size_na(
                        vertex_flags,
                    ) is None)
                    &&& e == DecodeError::ShortRead ==> old(rd).cursor() + vertex_ex_size_na(
                        vertex_flags,
                    ).unwrap() > final(rd).bytes().len()
                },
            },
    {
        if vertex_flags == 1 || vertex_flags == 4 {
            let n = read_half_triple(rd)?;
            Ok(VertexExData { normal: Some(n), uv2: None, uv3: None, uv4: None, uv5: None,
                color: None })
        } else if vertex_flags == 5 {
            let n = read_half_triple(rd)?;
            let u3 = read_half_pair(rd)?;
            Ok(VertexExData { normal: Some(n), uv2: None, uv3: Some(u3), uv4: None, uv5: None,
                color: None })
        } else if vertex_flags == 7 {
            let u2 = read_half_pair(rd)?;
            let n = read_half_triple(rd)?;
            Ok(VertexExData { normal: Some(n), uv2: Some(u2), uv3: None, uv4: None, uv5: None,
                color: None })
        } else if vertex_flags == 10 {
            let u2 = read_half_pair(rd)?;
            let c = read_color(rd)?;
            let n = read_half_triple(rd)?;
            Ok(VertexExData { normal: Some(n), uv2: Some(u2), uv3: None, uv4: None, uv5: None,
                color: Some(c) })
        } else if vertex_flags == 11 {
            let u2 = read_half_pair(rd)?;
            let c = read_color(rd)?;
            let n = read_half_triple(rd)?;
            let u3 = read_half_pair(rd)?;
            Ok(VertexExData { normal: Some(n), uv2: Some(u2), uv3: Some(u3), uv4: None, uv5: None,
                color: Some(c) })
        } else if vertex_flags == 12 {
            let n = read_half_triple(rd)?;
            let u3 = read_half_pair(rd)?;
            let u4 = read_half_pair(rd)?;
            let u5 = read_half_pair(rd)?;
            Ok(VertexExData { normal: Some(n), uv2: None, uv3: Some(u3), uv4: Some(u4),
                uv5: Some(u5), color: None })
        } else if vertex_flags == 14 {
            let n = read_half_triple(rd)?;
            let u3 = read_half_pair(rd)?;
            let u4 = read_half_pair(rd)?;
            Ok(VertexExData { normal: Some(n), uv2: None, uv3: Some(u3), uv4: Some(u4), uv5: None,
                color: None })
        } else {
            Err(DecodeError::UnknownVertexFlags(vertex_flags))
        }
    }
}

/// Read a half-precision triple plus its padding half, widened.
fn read_half_triple(rd: &mut ByteReader) -> (r: Result<[u32; 3], DecodeError>)
    ensures
        final(rd).bytes() == old(rd).bytes(),
        match r {
            Ok(n) => {
                &&& old(rd).cursor() + 8 <= final(rd).bytes().len()
                &&& n@ == half_triple(final(rd).bytes(), old(rd).cursor())
                &&& final(rd).cursor() == old(rd).cursor() + 8
            },
            Err(e) => {
                &&& e == DecodeError::ShortRead
                &&& old(rd).cursor() + 8 > final(rd).bytes().len()
            },
        },
{
    let n0 = read_f16_as_f32_bits(rd)?;
    let n1 = read_f16_as_f32_bits(rd)?;
    let n2 = read_f16_as_f32_bits(rd)?;
    let _pad = read_f16_as_f32_bits(rd)?;
    let n = [n0, n1, n2];
    proof {
        assert(n@ =~= half_triple(rd.bytes(), old(rd).cursor()));
    }
    Ok(n)
}

/// Read a half-precision pair, widened.
fn read_half_pair(rd: &mut ByteReader) -> (r: Result<[u32; 2], DecodeError>)
    ensures
        final(rd).bytes() == old(rd).bytes(),
        match r {
            Ok(u) => {
                &&& old(rd).cursor() + 4 <= final(rd).bytes().len()
                &&& u@ == half_pair(final(rd).bytes(), old(rd).cursor())
                &&& final(rd).cursor() == old(rd).cursor() + 4
            },
            Err(e) => {
                &&& e == DecodeError::ShortRead
                &&& old(rd).cursor() + 4 > final(rd).bytes().len()
            },
        },
{
    let a = read_f16_as_f32_bits(rd)?;
    let b = read_f16_as_f32_bits(rd)?;
    let u = [a, b];
    proof {
        assert(u@ =~= half_pair(rd.bytes(), old(rd).cursor()));
    }
    Ok(u)
}

fn read_color(rd: &mut ByteReader) -> (r: Result<[u8; 4], DecodeError>)
    ensures
        final(rd).bytes() == old(rd).bytes(),
        match r {
            Ok(c) => {
                &&& old(rd).cursor() + 4 <= final(rd).bytes().len()
                &&& c@ == final(rd).bytes().subrange(old(rd).cursor(), old(rd).cursor() + 4)
                &&& final(rd).cursor() == old(rd).cursor() + 4
            },
            Err(e) => {
                &&& e == DecodeError::ShortRead
                &&& old(rd).cursor() + 4 > final(rd).bytes().len()
            },
        },
{
    let c0 = rd.read_u8()?;
    let c1 = rd.read_u8()?;
    let c2 = rd.read_u8()?;
    let c3 = rd.read_u8()?;
    let c = [c0, c1, c2, c3];
    proof {
        assert(c@ =~= rd.bytes().subrange(old(rd).cursor(), old(rd).cursor() + 4));
    }
    Ok(c)
}


/// The vertex-group record at `at` and its three indirect tables fit
/// inside the bytes (an extended table with records demands a
/// recognized layout flag).
pub open spec fn vertex_group_parses(s: Seq<u8>, at: int, header_flags: u32) -> bool {
    let h = parse_vertex_group_header(s, at);
    &&& at + 48 <= s.len()
    &&& (h.num_vertexes == 0 || h.vertex_offset + h.num_vertexes * vertex_size_na(h.vertex_flags)
        <= s.len())
    &&& (h.vertex_ex_data_offset == 0 || h.num_vertexes == 0 || (vertex_ex_size_na(h.vertex_flags)
        is Some && h.vertex_ex_data_offset + h.num_vertexes * vertex_ex_size_na(
        h.vertex_flags,
    ).unwrap() <= s.len()))
    &&& (h.num_indexes == 0 || h.index_buffer_offset + (if header_flags & 0x8 != 0 {
        4int
    } else {
        2int
    }) * h.num_indexes <= s.len())
}

proof fn lemma_vg_ex_fail(s: Seq<u8>, at: int, header_flags: u32, j: int)
    requires
        ({
            let h = parse_vertex_group_header(s, at);
            &&& h.vertex_ex_data_offset != 0
            &&& 0 <= j < h.num_vertexes
            &&& (vertex_ex_size_na(h.vertex_flags) is None || h.vertex_ex_data_offset + j
                * vertex_ex_size_na(h.vertex_flags).unwrap() + vertex_ex_size_na(
                h.vertex_flags,
            ).unwrap() > s.len())
        }),
    ensures
        !vertex_group_parses(s, at, header_flags),
{
    let h = parse_vertex_group_header(s, at);
    if vertex_ex_size_na(h.vertex_flags) is Some {
        crate::byte_stream::lemma_run_overflow(
            h.vertex_ex_data_offset as int,
            vertex_ex_size_na(h.vertex_flags).unwrap(),
            j,
            h.num_vertexes as int,
            s.len() as int,
        );
    }
}

/// One vertex group with its primary and extended records and index
/// list (16- or 32-bit source indices, per the container flags).
pub struct VertexGroup {
    pub vertexes: Vec<Vertex>,
    pub vertex_ex_data: Vec<VertexExData>,
    pub indexes: Vec<u32>,
}

impl VertexGroup {
    /// What the vertex-group record at `at` holds: vertices under the
    /// group's own flags, the extended records (absent, and represented
    /// empty, when their offset is zero), and indices whose width the
    /// container flags pick.
    pub open spec fn parsed_from(self, s: Seq<u8>, at: int, header_flags: u32) -> bool {
        let h = parse_vertex_group_header(s, at);
        &&& self.vertexes@.len() == h.num_vertexes
        &&& forall|k: int|
            0 <= k < h.num_vertexes as int ==> self.vertexes@[k].parsed_from(
                s,
                h.vertex_offset + k * vertex_size_na(h.vertex_flags),
                h.vertex_flags,
            )
        &&& if h.vertex_ex_data_offset != 0 {
            &&& h.num_vertexes > 0 ==> vertex_ex_size_na(h.vertex_flags) is Some
            &&& self.vertex_ex_data@.len() == h.num_vertexes
            &&& forall|k: int|
                0 <= k < h.num_vertexes as int ==> self.vertex_ex_data@[k].parsed_from(
                    s,
                    h.vertex_ex_data_offset + k * vertex_ex_size_na(h.vertex_flags).unwrap(),
                    h.vertex_flags,
                )
        } else {
            self.vertex_ex_data@.len() == 0
        }
        &&& self.indexes@.len() == h.num_indexes
        &&& if header_flags & 0x8 != 0 {
            forall|k: int|
                0 <= k < h.num_indexes as int ==> self.indexes@[k] == u32_at(
                    s,
                    h.index_buffer_offset + 4 * k,
                )
        } else {
            forall|k: int|
                0 <= k < h.num_indexes as int ==> self.indexes@[k] == u16_at(
                    s,
                    h.index_buffer_offset + 2 * k,
                ) as u32
        }
    }

    #[verifier::rlimit(100)]
    pub fn read(rd: &mut ByteReader, header_flags: u32) -> (r: Result<VertexGroup, DecodeError>)
        ensures
            final(rd).bytes() == old(rd).bytes(),
            match r {
                Ok(g) => {
                    &&& vertex_group_parses(final(rd).bytes(), old(rd).cursor(), header_flags)
                    &&& g.parsed_from(final(rd).bytes(), old(rd).cursor(), header_flags)
                    &&& final(rd).cursor() == old(rd).cursor() + 48
                },
                Err(e) => {
                    &&& (e == DecodeError::ShortRead || e == DecodeError::UnknownVertexFlags(
                        parse_vertex_group_header(final(rd).bytes(), old(rd).cursor()).vertex_flags,
                    ))
                    &&& !vertex_group_parses(final(rd).bytes(), old(rd).cursor(), header_flags)
                },
            },
    {
        let ghost at = old(rd).cursor();
        let header = VertexGroupHeader::read(rd)?;
        let pos = rd.position();
        let _ = rd.seek(header.vertex_offset as u64);
        let mut vertexes: Vec<Vertex> = Vec::new();
        let mut i: u32 = 0;
        while i < header.num_vertexes
            invariant
                rd.bytes() == old(rd).bytes(),
                at == old(rd).cursor(),
                header == parse_vertex_group_header(rd.bytes(), at),
                at + 48 <= rd.bytes().len(),
                i <= header.num_vertexes,
                rd.cursor() == header.vertex_offset + i * vertex_size_na(header.vertex_flags),
                i > 0 ==> header.vertex_offset + i * vertex_size_na(header.vertex_flags)
                    <= rd.bytes().len(),
                vertexes@.len() == i,
                forall|k: int|
                    0 <= k < i ==> vertexes@[k].parsed_from(
                        rd.bytes(),
                        header.vertex_offset + k * vertex_size_na(header.vertex_flags),
                        header.vertex_flags,
                    ),
            decreases header.num_vertexes - i,
        {
            let v = match Vertex::read(rd, header.vertex_flags) {
                Ok(v) => v,
                Err(e) => {
                    proof {
                        crate::byte_stream::lemma_run_overflow(
                            header.vertex_offset as int,
                            vertex_size_na(header.vertex_flags),
                            i as int,
                            header.num_vertexes as int,
                            rd.bytes().len() as int,
                        );
                        assert(!vertex_group_parses(rd.bytes(), at, header_flags));
                    }
                    return Err(e);
                },
            };
            vertexes.push(v);
            proof {
                assert((i + 1) * vertex_size_na(header.vertex_flags) == i * vertex_size_na(
                    header.vertex_flags,
                ) + vertex_size_na(header.vertex_flags)) by (nonlinear_arith);
            }
            i = i + 1;
        }
        let mut vertex_ex_data: Vec<VertexExData> = Vec::new();
        if header.vertex_ex_data_offset != 0 {
            let _ = rd.seek(header.vertex_ex_data_offset as u64);
            let mut j: u32 = 0;
            while j < header.num_vertexes
                invariant
                    rd.bytes() == old(rd).bytes(),
                    at == old(rd).cursor(),
                    header == parse_vertex_group_header(rd.bytes(), at),
                    at + 48 <= rd.bytes().len(),
                    header.vertex_ex_data_offset != 0,
                    j <= header.num_vertexes,
                    j > 0 ==> vertex_ex_size_na(header.vertex_flags) is Some,
                    j == 0 || rd.cursor() == header.vertex_ex_data_offset + j * vertex_ex_size_na(
                        header.vertex_flags,
                    ).unwrap(),
                    j == 0 ==> rd.cursor() == header.vertex_ex_data_offset as int,
                    j > 0 ==> header.vertex_ex_data_offset + j * vertex_ex_size_na(
                        header.vertex_flags,
                    ).unwrap() <= rd.bytes().len(),
                    vertex_ex_data@.len() == j,
                    forall|k: int|
                        0 <= k < j ==> vertex_ex_data@[k].parsed_from(
                            rd.bytes(),
                            header.vertex_ex_data_offset + k * vertex_ex_size_na(
                                header.vertex_flags,
                            ).unwrap(),
                            header.vertex_flags,
                        ),
                decreases header.num_vertexes - j,
            {
                let v = match VertexExData::read(rd, header.vertex_flags) {
                    Ok(v) => v,
                    Err(e) => {
                        proof {
                            lemma_vg_ex_fail(rd.bytes(), at, header_flags, j as int);
                        }
                        return Err(e);
                    },
                };
                vertex_ex_data.push(v);
                proof {
                    assert((j + 1) * vertex_ex_size_na(header.vertex_flags).unwrap() == j
                        * vertex_ex_size_na(header.vertex_flags).unwrap() + vertex_ex_size_na(
                        header.vertex_flags,
                    ).unwrap()) by (nonlinear_arith);
                }
                j = j + 1;
            }
        }
        let _ = rd.seek(header.index_buffer_offset as u64);
        let mut indexes: Vec<u32> = Vec::new();
        let wide = header_flags & 0x8 != 0;
        let mut m: u32 = 0;
        while m < header.num_indexes
            invariant
                rd.bytes() == old(rd).bytes(),
                at == old(rd).cursor(),
                header == parse_vertex_group_header(rd.bytes(), at),
                at + 48 <= rd.bytes().len(),
                m <= header.num_indexes,
                wide == (header_flags & 0x8 != 0),
                rd.cursor() == header.index_buffer_offset + (if wide {
                    4int
                } else {
                    2int
                }) * m,
                m > 0 ==> header.index_buffer_offset + (if wide {
                    4int
                } else {
                    2int
                }) * m <= rd.bytes().len(),
                indexes@.len() == m,
                forall|k: int|
                    0 <= k < m ==> indexes@[k] == (if wide {
                        u32_at(rd.bytes(), header.index_buffer_offset + 4 * k)
                    } else {
                        u16_at(rd.bytes(), header.index_buffer_offset + 2 * k) as u32
                    }),
            decreases header.num_indexes - m,
        {
            if wide {
                let v = match rd.read_u32() {
                    Ok(v) => v,
                    Err(e) => {
                        proof {
                            assert(!vertex_group_parses(rd.bytes(), at, header_flags));
                        }
                        return Err(e);
                    },
                };
                indexes.push(v);
            } else {
                let v = match rd.read_u16() {
                    Ok(v) => v,
                    Err(e) => {
                        proof {
                            assert(!vertex_group_parses(rd.bytes(), at, header_flags));
                        }
                        return Err(e);
                    },
                };
                indexes.push(v as u32);
            }
            m = m + 1;
        }
        let _ = rd.seek(pos);
        Ok(VertexGroup { vertexes, vertex_ex_data, indexes })
    }
}

/// One draw batch; the vertex window here is given directly but the
/// older emitter derives its own from the referenced indices.
pub struct Batch {
    pub vertex_group_index: u32,
    pub bone_set_index: i32,
    pub vertex_start: u32,
    pub index_start: u32,
    pub num_vertexes: u32,
    pub num_indexes: u32,
    pub num_primitives: u32,
}

/// The 28-byte batch record at `at`.
pub open spec fn parse_batch(s: Seq<u8>, at: int) -> Batch {
    Batch {
        vertex_group_index: u32_at(s, at),
        bone_set_index: i32_at(s, at + 4),
        vertex_start: u32_at(s, at + 8),
        index_start: u32_at(s, at + 12),
        num_vertexes: u32_at(s, at + 16),
        num_indexes: u32_at(s, at + 20),
        num_primitives: u32_at(s, at + 24),
    }
}

impl Batch {
    pub fn read(rd: &mut ByteReader) -> (r: Result<Batch, DecodeError>)
        ensures
            final(rd).bytes() == old(rd).bytes(),
            match r {
                Ok(b) => {
                    &&& old(rd).cursor() + 28 <= final(rd).bytes().len()
                    &&& b == parse_batch(final(rd).bytes(), old(rd).cursor())
                    &&& final(rd).cursor() == old(rd).cursor() + 28
                },
                Err(e) => {
                    &&& e == DecodeError::ShortRead
                    &&& old(rd).cursor() + 28 > final(rd).bytes().len()
                },
            },
    {
        Ok(Batch {
            vertex_group_index: rd.read_u32()?,
            bone_set_index: rd.read_i32()?,
            vertex_start: rd.read_u32()?,
            index_start: rd.read_u32()?,
            num_vertexes: rd.read_u32()?,
            num_indexes: rd.read_u32()?,
            num_primitives: rd.read_u32()?,
        })
    }
}

/// One batch reference of a level-of-detail group.
pub struct BatchInfo {
    pub vertex_group_index: u32,
    pub mesh_index: u32,
    pub material_index: u32,
    pub col_tree_node_index: i32,
    pub mesh_mat_pair_index: u32,
    pub index_to_unknown1: i32,
}

/// The 24-byte batch-info record at `at`.
pub open spec fn parse_batch_info(s: Seq<u8>, at: int) -> BatchInfo {
    BatchInfo {
        vertex_group_index: u32_at(s, at),
        mesh_index: u32_at(s, at + 4),
        material_index: u32_at(s, at + 8),
        col_tree_node_index: i32_at(s, at + 12),
        mesh_mat_pair_index: u32_at(s, at + 16),
        index_to_unknown1: i32_at(s, at + 20),
    }
}

impl BatchInfo {
    pub fn read(rd: &mut ByteReader) -> (r: Result<BatchInfo, DecodeError>)
        ensures
            final(rd).bytes() == old(rd).bytes(),
            match r {
                Ok(b) => {
                    &&& old(rd).cursor() + 24 <= final(rd).bytes().len()
                    &&& b == parse_batch_info(final(rd).bytes(), old(rd).cursor())
                    &&& final(rd).cursor() == old(rd).cursor() + 24
                },
                Err(e) => {
                    &&& e == DecodeError::ShortRead
                    &&& old(rd).cursor() + 24 > final(rd).bytes().len()
                },
            },
    {
        Ok(BatchInfo {
            vertex_group_index: rd.read_u32()?,
            mesh_index: rd.read_u32()?,
            material_index: rd.read_u32()?,
            col_tree_node_index: rd.read_i32()?,
            mesh_mat_pair_index: rd.read_u32()?,
            index_to_unknown1: rd.read_i32()?,
        })
    }
}

/// The LOD record at `at`, its name and its batch-info run fit inside
/// the bytes.
pub open spec fn lod_parses(s: Seq<u8>, at: int) -> bool {
    &&& at + 20 <= s.len()
    &&& first_zero_at(s, u32_at(s, at) as int) is Some
    &&& (u32_at(s, at + 16) == 0 || u32_at(s, at + 12) + 24 * u32_at(s, at + 16) <= s.len())
}

/// One level-of-detail group: its name, level, and the window of the
/// batch table its batch infos pair with.
pub struct Lod {
    pub name: Vec<u8>,
    pub lod_level: i32,
    pub batch_start: u32,
    pub batch_infos: Vec<BatchInfo>,
}

impl Lod {
    /// What the 20-byte LOD record at `at`, with its indirections,
    /// holds.
    pub open spec fn parsed_from(self, s: Seq<u8>, at: int) -> bool {
        &&& first_zero_at(s, u32_at(s, at) as int) is Some
        &&& self.name@ == s.subrange(
            u32_at(s, at) as int,
            first_zero_at(s, u32_at(s, at) as int).unwrap(),
        )
        &&& self.lod_level == i32_at(s, at + 4)
        &&& self.batch_start == u32_at(s, at + 8)
        &&& self.batch_infos@.len() == u32_at(s, at + 16)
        &&& forall|k: int|
            0 <= k < u32_at(s, at + 16) as int ==> self.batch_infos@[k] == parse_batch_info(
                s,
                u32_at(s, at + 12) + 24 * k,
            )
    }

    pub fn read(rd: &mut ByteReader) -> (r: Result<Lod, DecodeError>)
        ensures
            final(rd).bytes() == old(rd).bytes(),
            match r {
                Ok(l) => {
                    &&& lod_parses(final(rd).bytes(), old(rd).cursor())
                    &&& l.parsed_from(final(rd).bytes(), old(rd).cursor())
                    &&& final(rd).cursor() == old(rd).cursor() + 20
                },
                Err(e) => e == DecodeError::ShortRead && !lod_parses(
                    final(rd).bytes(),
                    old(rd).cursor(),
                ),
            },
    {
        let offset_name = rd.read_u32()?;
        let lod_level = rd.read_i32()?;
        let batch_start = rd.read_u32()?;
        let offset_batch_infos = rd.read_u32()?;
        let num_batch_infos = rd.read_u32()?;
        let pos = rd.position();
        let _ = rd.seek(offset_name as u64);
        let name = rd.read_string_zero_term()?;
        let _ = rd.seek(offset_batch_infos as u64);
        let mut batch_infos: Vec<BatchInfo> = Vec::new();
        let mut i: u32 = 0;
        while i < num_batch_infos
            invariant
                rd.bytes() == old(rd).bytes(),
                old(rd).cursor() + 20 <= rd.bytes().len(),
                first_zero_at(rd.bytes(), u32_at(rd.bytes(), old(rd).cursor()) as int) is Some,
                offset_batch_infos == u32_at(rd.bytes(), old(rd).cursor() + 12),
                num_batch_infos == u32_at(rd.bytes(), old(rd).cursor() + 16),
                i <= num_batch_infos,
                rd.cursor() == offset_batch_infos + 24 * i,
                i > 0 ==> offset_batch_infos + 24 * i <= rd.bytes().len(),
                batch_infos@.len() == i,
                forall|k: int|
                    0 <= k < i ==> batch_infos@[k] == parse_batch_info(
                        rd.bytes(),
                        offset_batch_infos + 24 * k,
                    ),
            decreases num_batch_infos - i,
        {
            let b = BatchInfo::read(rd)?;
            batch_infos.push(b);
            i = i + 1;
        }
        let _ = rd.seek(pos);
        Ok(Lod { name, lod_level, batch_start, batch_infos })
    }
}

/// One node of the collision tree; parsed only to keep the stream
/// layout accounted for, never used by the output.
pub struct ColTreeNode {
    pub p1: [u32; 3],
    pub p2: [u32; 3],
    pub left: i32,
    pub right: i32,
}

impl ColTreeNode {
    /// What the 32-byte collision-tree node at `at` holds.
    pub open spec fn parsed_from(self, s: Seq<u8>, at: int) -> bool {
        &&& self.p1@ == point_bits_of(s, at)
        &&& self.p2@ == point_bits_of(s, at + 12)
        &&& self.left == i32_at(s, at + 24)
        &&& self.right == i32_at(s, at + 28)
    }

    pub fn read(rd: &mut ByteReader) -> (r: Result<ColTreeNode, DecodeError>)
        ensures
            final(rd).bytes() == old(rd).bytes(),
            match r {
                Ok(n) => {
                    &&& old(rd).cursor() + 32 <= final(rd).bytes().len()
                    &&& n.parsed_from(final(rd).bytes(), old(rd).cursor())
                    &&& final(rd).cursor() == old(rd).cursor() + 32
                },
                Err(e) => {
                    &&& e == DecodeError::ShortRead
                    &&& old(rd).cursor() + 32 > final(rd).bytes().len()
                },
            },
    {
        Ok(ColTreeNode {
            p1: read_point(rd)?,
            p2: read_point(rd)?,
            left: rd.read_i32()?,
            right: rd.read_i32()?,
        })
    }
}

/// The bone-set record at `at` and the index run it points at fit
/// inside the bytes.
pub open spec fn bone_set_parses(s: Seq<u8>, at: int) -> bool {
    &&& at + 8 <= s.len()
    &&& (u32_at(s, at + 4) == 0 || u32_at(s, at) + 2 * u32_at(s, at + 4) <= s.len())
}

/// The signed bone indices one bone set points at.
pub struct BoneSet {
    pub bone_indexes: Vec<i16>,
}

impl BoneSet {
    /// What the 8-byte bone-set record at `at`, with its indirection,
    /// holds.
    pub open spec fn parsed_from(self, s: Seq<u8>, at: int) -> bool {
        self.bone_indexes@ == crate::bone_table::i16_run(
            s,
            u32_at(s, at) as int,
            u32_at(s, at + 4) as int,
        )
    }

    pub fn read(rd: &mut ByteReader) -> (r: Result<BoneSet, DecodeError>)
        ensures
            final(rd).bytes() == old(rd).bytes(),
            match r {
                Ok(b) => {
                    &&& bone_set_parses(final(rd).bytes(), old(rd).cursor())
                    &&& b.parsed_from(final(rd).bytes(), old(rd).cursor())
                    &&& final(rd).cursor() == old(rd).cursor() + 8
                },
                Err(e) => e == DecodeError::ShortRead && !bone_set_parses(
                    final(rd).bytes(),
                    old(rd).cursor(),
                ),
            },
    {
        let offset_bone_set = rd.read_u32()?;
        let num_bone_indexes = rd.read_u32()?;
        let pos = rd.position();
        let _ = rd.seek(offset_bone_set as u64);
        let mut bone_indexes: Vec<i16> = Vec::new();
        let mut i: u32 = 0;
        while i < num_bone_indexes
            invariant
                rd.bytes() == old(rd).bytes(),
                old(rd).cursor() + 8 <= rd.bytes().len(),
                offset_bone_set == u32_at(rd.bytes(), old(rd).cursor()),
                num_bone_indexes == u32_at(rd.bytes(), old(rd).cursor() + 4),
                i <= num_bone_indexes,
                rd.cursor() == offset_bone_set + 2 * i,
                i > 0 ==> offset_bone_set + 2 * i <= rd.bytes().len(),
                bone_indexes@.len() == i,
                forall|k: int|
                    0 <= k < i ==> bone_indexes@[k] == i16_at(rd.bytes(), offset_bone_set + 2 * k),
            decreases num_bone_indexes - i,
        {
            let v = rd.read_i16()?;
            bone_indexes.push(v);
            i = i + 1;
        }
        proof {
            assert(bone_indexes@ =~= crate::bone_table::i16_run(
                rd.bytes(),
                u32_at(rd.bytes(), old(rd).cursor()) as int,
                u32_at(rd.bytes(), old(rd).cursor() + 4) as int,
            ));
        }
        let _ = rd.seek(pos);
        Ok(BoneSet { bone_indexes })
    }
}

/// The texture entry at `at` and its zero-terminated name fit inside
/// the bytes.
pub open spec fn texture_parses(s: Seq<u8>, at: int) -> bool {
    &&& at + 8 <= s.len()
    &&& first_zero_at(s, u32_at(s, at) as int) is Some
}

/// A texture-table entry: its archive id and its slot name.
pub struct Texture {
    pub id: u32,
    pub name: Vec<u8>,
}

impl Texture {
    /// What the 8-byte texture entry at `at`, with its name
    /// indirection, holds.
    pub open spec fn parsed_from(self, s: Seq<u8>, at: int) -> bool {
        &&& self.id == u32_at(s, at + 4)
        &&& first_zero_at(s, u32_at(s, at) as int) is Some
        &&& self.name@ == s.subrange(
            u32_at(s, at) as int,
            first_zero_at(s, u32_at(s, at) as int).unwrap(),
        )
    }

    pub fn read(rd: &mut ByteReader) -> (r: Result<Texture, DecodeError>)
        ensures
            final(rd).bytes() == old(rd).bytes(),
            match r {
                Ok(t) => {
                    &&& texture_parses(final(rd).bytes(), old(rd).cursor())
                    &&& t.parsed_from(final(rd).bytes(), old(rd).cursor())
                    &&& final(rd).cursor() == old(rd).cursor() + 8
                },
                Err(e) => e == DecodeError::ShortRead && !texture_parses(
                    final(rd).bytes(),
                    old(rd).cursor(),
                ),
            },
    {
        let offset_name = rd.read_u32()?;
        let id = rd.read_u32()?;
        let pos = rd.position();
        let _ = rd.seek(offset_name as u64);
        let name = rd.read_string_zero_term()?;
        let _ = rd.seek(pos);
        Ok(Texture { id, name })
    }
}

/// The parameter-group record at `at` and its value run fit inside
/// the bytes.
pub open spec fn parameter_group_parses(s: Seq<u8>, at: int) -> bool {
    &&& at + 12 <= s.len()
    &&& (u32_at(s, at + 8) == 0 || u32_at(s, at + 4) + 4 * u32_at(s, at + 8) <= s.len())
}

/// One parameter group of a material (values kept as bit patterns).
pub struct ParameterGroup {
    pub index: i32,
    pub parameters: Vec<u32>,
}

impl ParameterGroup {
    /// What the 12-byte parameter-group record at `at`, with its
    /// indirection, holds.
    pub open spec fn parsed_from(self, s: Seq<u8>, at: int) -> bool {
        &&& self.index == i32_at(s, at)
        &&& self.parameters@ == Seq::new(
            u32_at(s, at + 8) as nat,
            |i: int| u32_at(s, u32_at(s, at + 4) as int + 4 * i),
        )
    }

    pub fn read(rd: &mut ByteReader) -> (r: Result<ParameterGroup, DecodeError>)
        ensures
            final(rd).bytes() == old(rd).bytes(),
            match r {
                Ok(g) => {
                    &&& parameter_group_parses(final(rd).bytes(), old(rd).cursor())
                    &&& g.parsed_from(final(rd).bytes(), old(rd).cursor())
                    &&& final(rd).cursor() == old(rd).cursor() + 12
                },
                Err(e) => e == DecodeError::ShortRead && !parameter_group_parses(
                    final(rd).bytes(),
                    old(rd).cursor(),
                ),
            },
    {
        let index = rd.read_i32()?;
        let offset_parameters = rd.read_u32()?;
        let num_parameters = rd.read_u32()?;
        let pos = rd.position();
        let _ = rd.seek(offset_parameters as u64);
        let mut parameters: Vec<u32> = Vec::new();
        let mut i: u32 = 0;
        while i < num_parameters
            invariant
                rd.bytes() == old(rd).bytes(),
                old(rd).cursor() + 12 <= rd.bytes().len(),
                offset_parameters == u32_at(rd.bytes(), old(rd).cursor() + 4),
                num_parameters == u32_at(rd.bytes(), old(rd).cursor() + 8),
                i <= num_parameters,
                rd.cursor() == offset_parameters + 4 * i,
                i > 0 ==> offset_parameters + 4 * i <= rd.bytes().len(),
                parameters@.len() == i,
                forall|k: int|
                    0 <= k < i ==> parameters@[k] == u32_at(rd.bytes(), offset_parameters + 4 * k),
            decreases num_parameters - i,
        {
            let v = rd.read_u32()?;
            parameters.push(v);
            i = i + 1;
        }
        proof {
            assert(parameters@ =~= Seq::new(
                u32_at(rd.bytes(), old(rd).cursor() + 8) as nat,
                |i: int| u32_at(
                    rd.bytes(),
                    u32_at(rd.bytes(), old(rd).cursor() + 4) as int + 4 * i,
                ),
            ));
        }
        let _ = rd.seek(pos);
        Ok(ParameterGroup { index, parameters })
    }
}

/// The variable record at `at` and its zero-terminated name fit inside
/// the bytes.
pub open spec fn variable_parses(s: Seq<u8>, at: int) -> bool {
    &&& at + 8 <= s.len()
    &&& first_zero_at(s, u32_at(s, at) as int) is Some
}

/// One named shader variable (value kept as a bit pattern).
pub struct Variable {
    pub name: Vec<u8>,
    pub value: u32,
}

impl Variable {
    /// What the 8-byte variable record at `at`, with its name
    /// indirection, holds.
    pub open spec fn parsed_from(self, s: Seq<u8>, at: int) -> bool {
        &&& self.value == u32_at(s, at + 4)
        &&& first_zero_at(s, u32_at(s, at) as int) is Some
        &&& self.name@ == s.subrange(
            u32_at(s, at) as int,
            first_zero_at(s, u32_at(s, at) as int).unwrap(),
        )
    }

    pub fn read(rd: &mut ByteReader) -> (r: Result<Variable, DecodeError>)
        ensures
            final(rd).bytes() == old(rd).bytes(),
            match r {
                Ok(v) => {
                    &&& variable_parses(final(rd).bytes(), old(rd).cursor())
                    &&& v.parsed_from(final(rd).bytes(), old(rd).cursor())
                    &&& final(rd).cursor() == old(rd).cursor() + 8
                },
                Err(e) => e == DecodeError::ShortRead && !variable_parses(
                    final(rd).bytes(),
                    old(rd).cursor(),
                ),
            },
    {
        let offset_name = rd.read_u32()?;
        let value = rd.read_u32()?;
        let pos = rd.position();
        let _ = rd.seek(offset_name as u64);
        let name = rd.read_string_zero_term()?;
        let _ = rd.seek(pos);
        Ok(Variable { name, value })
    }
}


/// The material record at `at`, its three names and its three record
/// runs fit inside the bytes.
pub open spec fn material_parses(s: Seq<u8>, at: int) -> bool {
    &&& at + 48 <= s.len()
    &&& first_zero_at(s, u32_at(s, at + 8) as int) is Some
    &&& first_zero_at(s, u32_at(s, at + 12) as int) is Some
    &&& first_zero_at(s, u32_at(s, at + 16) as int) is Some
    &&& forall|k: int|
        0 <= k < u32_at(s, at + 28) as int ==> #[trigger] texture_parses(
            s,
            u32_at(s, at + 24) + 8 * k,
        )
    &&& forall|k: int|
        0 <= k < u32_at(s, at + 36) as int ==> #[trigger] parameter_group_parses(
            s,
            u32_at(s, at + 32) + 12 * k,
        )
    &&& forall|k: int|
        0 <= k < u32_at(s, at + 44) as int ==> #[trigger] variable_parses(
            s,
            u32_at(s, at + 40) + 8 * k,
        )
}

/// Shader identity, texture-slot bindings and parameters of a material.
pub struct Material {
    pub name: Vec<u8>,
    pub shader_name: Vec<u8>,
    pub technique_name: Vec<u8>,
    pub textures: Vec<Texture>,
    pub parameter_groups: Vec<ParameterGroup>,
    pub variables: Vec<Variable>,
}

/// A zero-terminated string pointed at by the field at `at`.
pub open spec fn name_at(s: Seq<u8>, at: int) -> Seq<u8> {
    s.subrange(u32_at(s, at) as int, first_zero_at(s, u32_at(s, at) as int).unwrap())
}

impl Material {
    /// What the 48-byte material record at `at`, with its six
    /// indirections, holds.
    pub open spec fn parsed_from(self, s: Seq<u8>, at: int) -> bool {
        &&& first_zero_at(s, u32_at(s, at + 8) as int) is Some
        &&& self.name@ == name_at(s, at + 8)
        &&& first_zero_at(s, u32_at(s, at + 12) as int) is Some
        &&& self.shader_name@ == name_at(s, at + 12)
        &&& first_zero_at(s, u32_at(s, at + 16) as int) is Some
        &&& self.technique_name@ == name_at(s, at + 16)
        &&& self.textures@.len() == u32_at(s, at + 28)
        &&& forall|k: int|
            0 <= k < u32_at(s, at + 28) as int ==> self.textures@[k].parsed_from(
                s,
                u32_at(s, at + 24) + 8 * k,
            )
        &&& self.parameter_groups@.len() == u32_at(s, at + 36)
        &&& forall|k: int|
            0 <= k < u32_at(s, at + 36) as int ==> self.parameter_groups@[k].parsed_from(
                s,
                u32_at(s, at + 32) + 12 * k,
            )
        &&& self.variables@.len() == u32_at(s, at + 44)
        &&& forall|k: int|
            0 <= k < u32_at(s, at + 44) as int ==> self.variables@[k].parsed_from(
                s,
                u32_at(s, at + 40) + 8 * k,
            )
    }

    #[verifier::rlimit(100)]
    pub fn read(rd: &mut ByteReader) -> (r: Result<Material, DecodeError>)
        ensures
            final(rd).bytes() == old(rd).bytes(),
            match r {
                Ok(m) => {
                    &&& material_parses(final(rd).bytes(), old(rd).cursor())
                    &&& m.parsed_from(final(rd).bytes(), old(rd).cursor())
                    &&& final(rd).cursor() == old(rd).cursor() + 48
                },
                Err(e) => e == DecodeError::ShortRead && !material_parses(
                    final(rd).bytes(),
                    old(rd).cursor(),
                ),
            },
    {
        let ghost at = old(rd).cursor();
        let _u0a = rd.read_u16()?;
        let _u0b = rd.read_u16()?;
        let _u0c = rd.read_u16()?;
        let _u0d = rd.read_u16()?;
        let offset_name = rd.read_u32()?;
        let offset_shader_name = rd.read_u32()?;
        let offset_technique_name = rd.read_u32()?;
        let _unknown1 = rd.read_u32()?;
        let offset_textures = rd.read_u32()?;
        let num_textures = rd.read_u32()?;
        let offset_parameter_groups = rd.read_u32()?;
        let num_parameters_group = rd.read_u32()?;
        let offset_variables = rd.read_u32()?;
        let num_variables = rd.read_u32()?;
        let pos = rd.position();
        let _ = rd.seek(offset_name as u64);
        let name = rd.read_string_zero_term()?;
        let _ = rd.seek(offset_shader_name as u64);
        let shader_name = rd.read_string_zero_term()?;
        let _ = rd.seek(offset_technique_name as u64);
        let technique_name = rd.read_string_zero_term()?;
        let _ = rd.seek(offset_textures as u64);
        let mut textures: Vec<Texture> = Vec::new();
        let mut i: u32 = 0;
        while i < num_textures
            invariant
                rd.bytes() == old(rd).bytes(),
                at == old(rd).cursor(),
                at + 48 <= rd.bytes().len(),
                offset_textures == u32_at(rd.bytes(), at + 24),
                num_textures == u32_at(rd.bytes(), at + 28),
                i <= num_textures,
                rd.cursor() == offset_textures + 8 * i,
                textures@.len() == i,
                forall|k: int|
                    0 <= k < i ==> textures@[k].parsed_from(rd.bytes(), offset_textures + 8 * k),
                forall|k: int|
                    0 <= k < i ==> #[trigger] texture_parses(rd.bytes(), offset_textures + 8 * k),
            decreases num_textures - i,
        {
            let t = match Texture::read(rd) {
                Ok(t) => t,
                Err(e) => {
                    proof {
                        assert(!texture_parses(
                            rd.bytes(),
                            u32_at(rd.bytes(), at + 24) + 8 * (i as int),
                        ));
                        assert(!material_parses(rd.bytes(), at));
                    }
                    return Err(e);
                },
            };
            textures.push(t);
            i = i + 1;
        }
        let _ = rd.seek(offset_parameter_groups as u64);
        let mut parameter_groups: Vec<ParameterGroup> = Vec::new();
        let mut j: u32 = 0;
        while j < num_parameters_group
            invariant
                rd.bytes() == old(rd).bytes(),
                at == old(rd).cursor(),
                at + 48 <= rd.bytes().len(),
                offset_parameter_groups == u32_at(rd.bytes(), at + 32),
                num_parameters_group == u32_at(rd.bytes(), at + 36),
                j <= num_parameters_group,
                rd.cursor() == offset_parameter_groups + 12 * j,
                parameter_groups@.len() == j,
                forall|k: int|
                    0 <= k < j ==> parameter_groups@[k].parsed_from(
                        rd.bytes(),
                        offset_parameter_groups + 12 * k,
                    ),
                forall|k: int|
                    0 <= k < j ==> #[trigger] parameter_group_parses(
                        rd.bytes(),
                        offset_parameter_groups + 12 * k,
                    ),
            decreases num_parameters_group - j,
        {
            let g = match ParameterGroup::read(rd) {
                Ok(g) => g,
                Err(e) => {
                    proof {
                        assert(!parameter_group_parses(
                            rd.bytes(),
                            u32_at(rd.bytes(), at + 32) + 12 * (j as int),
                        ));
                        assert(!material_parses(rd.bytes(), at));
                    }
                    return Err(e);
                },
            };
            parameter_groups.push(g);
            j = j + 1;
        }
        let _ = rd.seek(offset_variables as u64);
        let mut variables: Vec<Variable> = Vec::new();
        let mut m: u32 = 0;
        while m < num_variables
            invariant
                rd.bytes() == old(rd).bytes(),
                at == old(rd).cursor(),
                at + 48 <= rd.bytes().len(),
                offset_variables == u32_at(rd.bytes(), at + 40),
                num_variables == u32_at(rd.bytes(), at + 44),
                m <= num_variables,
                rd.cursor() == offset_variables + 8 * m,
                variables@.len() == m,
                forall|k: int|
                    0 <= k < m ==> variables@[k].parsed_from(rd.bytes(), offset_variables + 8 * k),
                forall|k: int|
                    0 <= k < m ==> #[trigger] variable_parses(
                        rd.bytes(),
                        offset_variables + 8 * k,
                    ),
            decreases num_variables - m,
        {
            let v = match Variable::read(rd) {
                Ok(v) => v,
                Err(e) => {
                    proof {
                        assert(!variable_parses(
                            rd.bytes(),
                            u32_at(rd.bytes(), at + 40) + 8 * (m as int),
                        ));
                        assert(!material_parses(rd.bytes(), at));
                    }
                    return Err(e);
                },
            };
            variables.push(v);
            m = m + 1;
        }
        let _ = rd.seek(pos);
        Ok(Material { name, shader_name, technique_name, textures, parameter_groups, variables })
    }

    /// The id of the first texture slot whose name mentions the given
    /// pattern.
    pub open spec fn find_texture_id(textures: Seq<Texture>, pat: Seq<u8>) -> Option<u32>
        decreases textures.len(),
    {
        if textures.len() == 0 {
            None
        } else if crate::bytes_util::contains_seq(textures[0].name@, pat) {
            Some(textures[0].id)
        } else {
            Self::find_texture_id(textures.subrange(1, textures.len() as int), pat)
        }
    }

    /// "g_AlbedoMap", the albedo slot-name pattern.
    pub open spec fn albedo_pat() -> Seq<u8> {
        seq![0x67u8, 0x5Fu8, 0x41u8, 0x6Cu8, 0x62u8, 0x65u8, 0x64u8, 0x6Fu8, 0x4Du8, 0x61u8,
            0x70u8]
    }

    /// "g_NormalMap", the normal slot-name pattern.
    pub open spec fn normal_pat() -> Seq<u8> {
        seq![0x67u8, 0x5Fu8, 0x4Eu8, 0x6Fu8, 0x72u8, 0x6Du8, 0x61u8, 0x6Cu8, 0x4Du8, 0x61u8,
            0x70u8]
    }

    /// "g_MaskMap", the mask slot-name pattern.
    pub open spec fn mask_pat() -> Seq<u8> {
        seq![0x67u8, 0x5Fu8, 0x4Du8, 0x61u8, 0x73u8, 0x6Bu8, 0x4Du8, 0x61u8, 0x70u8]
    }

    fn find_id(&self, pat: &[u8]) -> (r: Option<u32>)
        ensures
            r == Self::find_texture_id(self.textures@, pat@),
    {
        let mut i: usize = 0;
        proof {
            assert(self.textures@.subrange(0, self.textures@.len() as int) =~= self.textures@);
        }
        while i < self.textures.len()
            invariant
                i <= self.textures@.len(),
                Self::find_texture_id(self.textures@, pat@) == Self::find_texture_id(
                    self.textures@.subrange(i as int, self.textures@.len() as int),
                    pat@,
                ),
            decreases self.textures@.len() - i,
        {
            proof {
                let rest = self.textures@.subrange(i as int, self.textures@.len() as int);
                assert(rest[0] == self.textures@[i as int]);
                assert(rest.subrange(1, rest.len() as int) =~= self.textures@.subrange(
                    i + 1,
                    self.textures@.len() as int,
                ));
            }
            if crate::bytes_util::bytes_contains(self.textures[i].name.as_slice(), pat) {
                return Some(self.textures[i].id);
            }
            i = i + 1;
        }
        proof {
            assert(self.textures@.subrange(
                self.textures@.len() as int,
                self.textures@.len() as int,
            ) =~= Seq::<Texture>::empty());
        }
        None
    }

    /// The id bound to the albedo slot, by slot-name substring match.
    pub fn get_albedo_texture_id(&self) -> (r: Option<u32>)
        ensures
            r == Self::find_texture_id(self.textures@, Self::albedo_pat()),
    {
        let pat: [u8; 11] = [0x67, 0x5F, 0x41, 0x6C, 0x62, 0x65, 0x64, 0x6F, 0x4D, 0x61, 0x70];
        proof {
            assert(pat@ =~= Self::albedo_pat());
        }
        self.find_id(pat.as_slice())
    }

    /// The id bound to the normal slot, by slot-name substring match.
    pub fn get_normal_texture_id(&self) -> (r: Option<u32>)
        ensures
            r == Self::find_texture_id(self.textures@, Self::normal_pat()),
    {
        let pat: [u8; 11] = [0x67, 0x5F, 0x4E, 0x6F, 0x72, 0x6D, 0x61, 0x6C, 0x4D, 0x61, 0x70];
        proof {
            assert(pat@ =~= Self::normal_pat());
        }
        self.find_id(pat.as_slice())
    }

    /// The id bound to the mask slot, by slot-name substring match.
    pub fn get_mask_map_texture_id(&self) -> (r: Option<u32>)
        ensures
            r == Self::find_texture_id(self.textures@, Self::mask_pat()),
    {
        let pat: [u8; 9] = [0x67, 0x5F, 0x4D, 0x61, 0x73, 0x6B, 0x4D, 0x61, 0x70];
        proof {
            assert(pat@ =~= Self::mask_pat());
        }
        self.find_id(pat.as_slice())
    }
}

/// The mesh record at `at`, its name and its two index runs fit inside
/// the bytes.
pub open spec fn mesh_parses(s: Seq<u8>, at: int) -> bool {
    &&& at + 44 <= s.len()
    &&& first_zero_at(s, u32_at(s, at) as int) is Some
    &&& (u32_at(s, at + 32) == 0 || u32_at(s, at + 28) + 2 * u32_at(s, at + 32) <= s.len())
    &&& (u32_at(s, at + 40) == 0 || u32_at(s, at + 36) + 2 * u32_at(s, at + 40) <= s.len())
}

/// One mesh: its name, bounding box and material/bone index lists.
pub struct Mesh {
    pub name: Vec<u8>,
    pub bounding_box: [u32; 6],
    pub materials: Vec<u16>,
    pub bones: Vec<u16>,
}

impl Mesh {
    /// What the 44-byte mesh record at `at`, with its indirections,
    /// holds.
    pub open spec fn parsed_from(self, s: Seq<u8>, at: int) -> bool {
        &&& first_zero_at(s, u32_at(s, at) as int) is Some
        &&& self.name@ == name_at(s, at)
        &&& self.bounding_box@ == bbox_bits_of(s, at + 4)
        &&& self.materials@.len() == u32_at(s, at + 32)
        &&& forall|k: int|
            0 <= k < u32_at(s, at + 32) as int ==> self.materials@[k] == u16_at(
                s,
                u32_at(s, at + 28) + 2 * k,
            )
        &&& self.bones@.len() == u32_at(s, at + 40)
        &&& forall|k: int|
            0 <= k < u32_at(s, at + 40) as int ==> self.bones@[k] == u16_at(
                s,
                u32_at(s, at + 36) + 2 * k,
            )
    }

    #[verifier::rlimit(100)]
    pub fn read(rd: &mut ByteReader) -> (r: Result<Mesh, DecodeError>)
        ensures
            final(rd).bytes() == old(rd).bytes(),
            match r {
                Ok(m) => {
                    &&& mesh_parses(final(rd).bytes(), old(rd).cursor())
                    &&& m.parsed_from(final(rd).bytes(), old(rd).cursor())
                    &&& final(rd).cursor() == old(rd).cursor() + 44
                },
                Err(e) => e == DecodeError::ShortRead && !mesh_parses(
                    final(rd).bytes(),
                    old(rd).cursor(),
                ),
            },
    {
        let name_offset = rd.read_u32()?;
        let bounding_box = read_bbox(rd)?;
        let offset_materials = rd.read_u32()?;
        let num_materials = rd.read_u32()?;
        let offset_bones = rd.read_u32()?;
        let num_bones = rd.read_u32()?;
        let pos = rd.position();
        let _ = rd.seek(name_offset as u64);
        let name = rd.read_string_zero_term()?;
        let _ = rd.seek(offset_materials as u64);
        let mut materials: Vec<u16> = Vec::new();
        let mut i: u32 = 0;
        while i < num_materials
            invariant
                rd.bytes() == old(rd).bytes(),
                old(rd).cursor() + 44 <= rd.bytes().len(),
                first_zero_at(rd.bytes(), u32_at(rd.bytes(), old(rd).cursor()) as int) is Some,
                offset_materials == u32_at(rd.bytes(), old(rd).cursor() + 28),
                num_materials == u32_at(rd.bytes(), old(rd).cursor() + 32),
                i <= num_materials,
                rd.cursor() == offset_materials + 2 * i,
                i > 0 ==> offset_materials + 2 * i <= rd.bytes().len(),
                materials@.len() == i,
                forall|k: int|
                    0 <= k < i ==> materials@[k] == u16_at(rd.bytes(), offset_materials + 2 * k),
            decreases num_materials - i,
        {
            let v = rd.read_u16()?;
            materials.push(v);
            i = i + 1;
        }
        let _ = rd.seek(offset_bones as u64);
        let mut bones: Vec<u16> = Vec::new();
        let mut j: u32 = 0;
        while j < num_bones
            invariant
                rd.bytes() == old(rd).bytes(),
                old(rd).cursor() + 44 <= rd.bytes().len(),
                first_zero_at(rd.bytes(), u32_at(rd.bytes(), old(rd).cursor()) as int) is Some,
                u32_at(rd.bytes(), old(rd).cursor() + 32) == 0 || u32_at(
                    rd.bytes(),
                    old(rd).cursor() + 28,
                ) + 2 * u32_at(rd.bytes(), old(rd).cursor() + 32) <= rd.bytes().len(),
                offset_bones == u32_at(rd.bytes(), old(rd).cursor() + 36),
                num_bones == u32_at(rd.bytes(), old(rd).cursor() + 40),
                j <= num_bones,
                rd.cursor() == offset_bones + 2 * j,
                j > 0 ==> offset_bones + 2 * j <= rd.bytes().len(),
                bones@.len() == j,
                forall|k: int| 0 <= k < j ==> bones@[k] == u16_at(rd.bytes(), offset_bones + 2 * k),
            decreases num_bones - j,
        {
            let v = rd.read_u16()?;
            bones.push(v);
            j = j + 1;
        }
        let _ = rd.seek(pos);
        Ok(Mesh { name, bounding_box, materials, bones })
    }
}

/// One mesh/material pairing; parsed for stream fidelity only.
pub struct MeshMaterial {
    pub mesh_id: u32,
    pub material_id: u32,
}

/// The 8-byte mesh/material pair at `at`.
pub open spec fn parse_mesh_material(s: Seq<u8>, at: int) -> MeshMaterial {
    MeshMaterial { mesh_id: u32_at(s, at), material_id: u32_at(s, at + 4) }
}

impl MeshMaterial {
    pub fn read(rd: &mut ByteReader) -> (r: Result<MeshMaterial, DecodeError>)
        ensures
            final(rd).bytes() == old(rd).bytes(),
            match r {
                Ok(m) => {
                    &&& old(rd).cursor() + 8 <= final(rd).bytes().len()
                    &&& m == parse_mesh_material(final(rd).bytes(), old(rd).cursor())
                    &&& final(rd).cursor() == old(rd).cursor() + 8
                },
                Err(e) => {
                    &&& e == DecodeError::ShortRead
                    &&& old(rd).cursor() + 8 > final(rd).bytes().len()
                },
            },
    {
        Ok(MeshMaterial { mesh_id: rd.read_u32()?, material_id: rd.read_u32()? })
    }
}


/// The whole container at `at` fits inside the bytes: the header is
/// there and every present section, with its indirections, is in range.
pub open spec fn wmb_parses(s: Seq<u8>, at: int) -> bool {
    &&& at + 136 <= s.len()
    &&& (u32_at(s, at + 40) == 0 || u32_at(s, at + 44) == 0 || u32_at(s, at + 40) + 88 * u32_at(
        s,
        at + 44,
    ) <= s.len())
    &&& (u32_at(s, at + 48) == 0 || crate::bone_table::bitt_parses(s, u32_at(s, at + 48) as int))
    &&& forall|k: int|
        0 <= k < u32_at(s, at + 60) as int ==> #[trigger] vertex_group_parses(
            s,
            u32_at(s, at + 56) + 48 * k,
            i16_at(s, at + 12) as u32,
        )
    &&& (u32_at(s, at + 64) == 0 || u32_at(s, at + 68) == 0 || u32_at(s, at + 64) + 28 * u32_at(
        s,
        at + 68,
    ) <= s.len())
    &&& (u32_at(s, at + 72) == 0 || forall|k: int|
        0 <= k < u32_at(s, at + 76) as int ==> #[trigger] lod_parses(s, u32_at(s, at + 72) + 20 * k))
    &&& (u32_at(s, at + 80) == 0 || u32_at(s, at + 84) == 0 || u32_at(s, at + 80) + 32 * u32_at(
        s,
        at + 84,
    ) <= s.len())
    &&& (u32_at(s, at + 88) == 0 || u32_at(s, at + 92) == 0 || u32_at(s, at + 88) + 4 * u32_at(
        s,
        at + 92,
    ) <= s.len())
    &&& (u32_at(s, at + 96) == 0 || forall|k: int|
        0 <= k < u32_at(s, at + 100) as int ==> #[trigger] bone_set_parses(
            s,
            u32_at(s, at + 96) + 8 * k,
        ))
    &&& (u32_at(s, at + 104) == 0 || forall|k: int|
        0 <= k < u32_at(s, at + 108) as int ==> #[trigger] material_parses(
            s,
            u32_at(s, at + 104) + 48 * k,
        ))
    &&& (u32_at(s, at + 112) == 0 || forall|k: int|
        0 <= k < u32_at(s, at + 116) as int ==> #[trigger] mesh_parses(
            s,
            u32_at(s, at + 112) + 44 * k,
        ))
    &&& (u32_at(s, at + 120) == 0 || u32_at(s, at + 124) == 0 || u32_at(s, at + 120) + 8 * u32_at(
        s,
        at + 124,
    ) <= s.len())
}

/// The fully parsed container.
pub struct Wmb {
    pub header: Header,
    pub bones: Vec<Bone>,
    pub bone_index_translate_table: crate::bone_table::BoneIndexTranslateTable,
    pub vertex_groups: Vec<VertexGroup>,
    pub batches: Vec<Batch>,
    pub lods: Vec<Lod>,
    pub col_tree_nodes: Vec<ColTreeNode>,
    pub bone_map: Vec<i32>,
    pub bone_sets: Vec<BoneSet>,
    pub materials: Vec<Material>,
    pub meshes: Vec<Mesh>,
    pub mesh_material: Vec<MeshMaterial>,
}

impl Wmb {
    /// What the whole container starting at `at` holds: each section
    /// read at its header offset, absent sections (offset zero) empty.
    /// Opaque: callers treat it as one fact; the reader proves it.
    #[verifier::opaque]
    pub open spec fn parsed_from(self, s: Seq<u8>, at: int) -> bool {
        let h = self.header;
        &&& h.parsed_from(s, at)
        &&& if h.offset_bones != 0 {
            &&& self.bones@.len() == h.num_bones
            &&& forall|k: int|
                0 <= k < h.num_bones as int ==> self.bones@[k].parsed_from(
                    s,
                    h.offset_bones + 88 * k,
                )
        } else {
            self.bones@.len() == 0
        }
        &&& if h.offset_bone_index_translate_table != 0 {
            self.bone_index_translate_table.parsed_from(
                s,
                h.offset_bone_index_translate_table as int,
            )
        } else {
            self.bone_index_translate_table.is_empty_table()
        }
        &&& self.vertex_groups@.len() == h.num_vertex_groups
        &&& forall|k: int|
            0 <= k < h.num_vertex_groups as int ==> self.vertex_groups@[k].parsed_from(
                s,
                h.offset_vertex_groups + 48 * k,
                h.flags as u32,
            )
        &&& if h.offset_batches != 0 {
            &&& self.batches@.len() == h.num_batches
            &&& forall|k: int|
                0 <= k < h.num_batches as int ==> self.batches@[k] == parse_batch(
                    s,
                    h.offset_batches + 28 * k,
                )
        } else {
            self.batches@.len() == 0
        }
        &&& if h.offset_lods != 0 {
            &&& self.lods@.len() == h.num_lods
            &&& forall|k: int|
                0 <= k < h.num_lods as int ==> self.lods@[k].parsed_from(s, h.offset_lods + 20 * k)
        } else {
            self.lods@.len() == 0
        }
        &&& if h.offset_col_tree_nodes != 0 {
            &&& self.col_tree_nodes@.len() == h.num_col_tree_nodes
            &&& forall|k: int|
                0 <= k < h.num_col_tree_nodes as int ==> self.col_tree_nodes@[k].parsed_from(
                    s,
                    h.offset_col_tree_nodes + 32 * k,
                )
        } else {
            self.col_tree_nodes@.len() == 0
        }
        &&& if h.offset_bone_map != 0 {
            &&& self.bone_map@.len() == h.bone_map_size
            &&& forall|k: int|
                0 <= k < h.bone_map_size as int ==> self.bone_map@[k] == i32_at(
                    s,
                    h.offset_bone_map + 4 * k,
                )
        } else {
            self.bone_map@.len() == 0
        }
        &&& if h.offset_bone_sets != 0 {
            &&& self.bone_sets@.len() == h.num_bone_sets
            &&& forall|k: int|
                0 <= k < h.num_bone_sets as int ==> self.bone_sets@[k].parsed_from(
                    s,
                    h.offset_bone_sets + 8 * k,
                )
        } else {
            self.bone_sets@.len() == 0
        }
        &&& if h.offset_materials != 0 {
            &&& self.materials@.len() == h.num_materials
            &&& forall|k: int|
                0 <= k < h.num_materials as int ==> self.materials@[k].parsed_from(
                    s,
                    h.offset_materials + 48 * k,
                )
        } else {
            self.materials@.len() == 0
        }
        &&& if h.offset_meshes != 0 {
            &&& self.meshes@.len() == h.num_meshes
            &&& forall|k: int|
                0 <= k < h.num_meshes as int ==> self.meshes@[k].parsed_from(
                    s,
                    h.offset_meshes + 44 * k,
                )
        } else {
            self.meshes@.len() == 0
        }
        &&& if h.offset_mesh_material != 0 {
            &&& self.mesh_material@.len() == h.num_mesh_material
            &&& forall|k: int|
                0 <= k < h.num_mesh_material as int ==> self.mesh_material@[k]
                    == parse_mesh_material(s, h.offset_mesh_material + 8 * k)
        } else {
            self.mesh_material@.len() == 0
        }
    }

    #[verifier::rlimit(100)]
    pub fn read(rd: &mut ByteReader) -> (r: Result<Wmb, DecodeError>)
        ensures
            final(rd).bytes() == old(rd).bytes(),
            match r {
                Ok(w) => {
                    &&& wmb_parses(final(rd).bytes(), old(rd).cursor())
                    &&& w.parsed_from(final(rd).bytes(), old(rd).cursor())
                },
                Err(e) => (e is ShortRead || e is UnknownVertexFlags) && !wmb_parses(
                    final(rd).bytes(),
                    old(rd).cursor(),
                ),
            },
    {
        let ghost at = old(rd).cursor();
        let header = Header::read(rd)?;

        let mut bones: Vec<Bone> = Vec::new();
        if header.offset_bones != 0 {
            let _ = rd.seek(header.offset_bones as u64);
            let mut i: u32 = 0;
            while i < header.num_bones
                invariant
                    rd.bytes() == old(rd).bytes(),
                    at == old(rd).cursor(),
                    header.parsed_from(rd.bytes(), at),
                    at + 136 <= rd.bytes().len(),
                    header.offset_bones != 0,
                    i <= header.num_bones,
                    rd.cursor() == header.offset_bones + 88 * i,
                    i > 0 ==> header.offset_bones + 88 * i <= rd.bytes().len(),
                    bones@.len() == i,
                    forall|k: int|
                        0 <= k < i ==> bones@[k].parsed_from(
                            rd.bytes(),
                            header.offset_bones + 88 * k,
                        ),
                decreases header.num_bones - i,
            {
                let b = match Bone::read(rd) {
                    Ok(b) => b,
                    Err(e) => {
                        proof {
                            assert(!wmb_parses(rd.bytes(), at));
                        }
                        return Err(e);
                    },
                };
                bones.push(b);
                i = i + 1;
            }
        }

        let bone_index_translate_table = if header.offset_bone_index_translate_table != 0 {
            let _ = rd.seek(header.offset_bone_index_translate_table as u64);
            match crate::bone_table::BoneIndexTranslateTable::read(rd) {
                Ok(t) => t,
                Err(e) => {
                    proof {
                        assert(!wmb_parses(rd.bytes(), at));
                    }
                    return Err(e);
                },
            }
        } else {
            crate::bone_table::BoneIndexTranslateTable::empty()
        };

        let _ = rd.seek(header.offset_vertex_groups as u64);
        let mut vertex_groups: Vec<VertexGroup> = Vec::new();
        let mut i: u32 = 0;
        while i < header.num_vertex_groups
            invariant
                rd.bytes() == old(rd).bytes(),
                at == old(rd).cursor(),
                header.parsed_from(rd.bytes(), at),
                at + 136 <= rd.bytes().len(),
                i <= header.num_vertex_groups,
                rd.cursor() == header.offset_vertex_groups + 48 * i,
                vertex_groups@.len() == i,
                forall|k: int|
                    0 <= k < i ==> vertex_groups@[k].parsed_from(
                        rd.bytes(),
                        header.offset_vertex_groups + 48 * k,
                        header.flags as u32,
                    ),
                forall|k: int|
                    0 <= k < i ==> #[trigger] vertex_group_parses(
                        rd.bytes(),
                        header.offset_vertex_groups + 48 * k,
                        header.flags as u32,
                    ),
            decreases header.num_vertex_groups - i,
        {
            let g = match VertexGroup::read(rd, header.flags as u32) {
                Ok(g) => g,
                Err(e) => {
                    proof {
                        assert(!vertex_group_parses(
                            rd.bytes(),
                            u32_at(rd.bytes(), at + 56) + 48 * (i as int),
                            i16_at(rd.bytes(), at + 12) as u32,
                        ));
                        assert(!wmb_parses(rd.bytes(), at));
                    }
                    return Err(e);
                },
            };
            vertex_groups.push(g);
            i = i + 1;
        }

        let mut batches: Vec<Batch> = Vec::new();
        if header.offset_batches != 0 {
            let _ = rd.seek(header.offset_batches as u64);
            let mut i: u32 = 0;
            while i < header.num_batches
                invariant
                    rd.bytes() == old(rd).bytes(),
                    at == old(rd).cursor(),
                    header.parsed_from(rd.bytes(), at),
                    at + 136 <= rd.bytes().len(),
                    header.offset_batches != 0,
                    i <= header.num_batches,
                    rd.cursor() == header.offset_batches + 28 * i,
                    i > 0 ==> header.offset_batches + 28 * i <= rd.bytes().len(),
                    batches@.len() == i,
                    forall|k: int|
                        0 <= k < i ==> batches@[k] == parse_batch(
                            rd.bytes(),
                            header.offset_batches + 28 * k,
                        ),
                decreases header.num_batches - i,
            {
                let b = match Batch::read(rd) {
                    Ok(b) => b,
                    Err(e) => {
                        proof {
                            assert(!wmb_parses(rd.bytes(), at));
                        }
                        return Err(e);
                    },
                };
                batches.push(b);
                i = i + 1;
            }
        }

        let mut lods: Vec<Lod> = Vec::new();
        if header.offset_lods != 0 {
            let _ = rd.seek(header.offset_lods as u64);
            let mut i: u32 = 0;
            while i < header.num_lods
                invariant
                    rd.bytes() == old(rd).bytes(),
                    at == old(rd).cursor(),
                    header.parsed_from(rd.bytes(), at),
                    at + 136 <= rd.bytes().len(),
                    header.offset_lods != 0,
                    i <= header.num_lods,
                    rd.cursor() == header.offset_lods + 20 * i,
                    lods@.len() == i,
                    forall|k: int|
                        0 <= k < i ==> lods@[k].parsed_from(rd.bytes(), header.offset_lods + 20 * k),
                    forall|k: int|
                        0 <= k < i ==> #[trigger] lod_parses(
                            rd.bytes(),
                            header.offset_lods + 20 * k,
                        ),
                decreases header.num_lods - i,
            {
                let l = match Lod::read(rd) {
                    Ok(l) => l,
                    Err(e) => {
                        proof {
                            assert(!lod_parses(
                                rd.bytes(),
                                u32_at(rd.bytes(), at + 72) + 20 * (i as int),
                            ));
                            assert(!wmb_parses(rd.bytes(), at));
                        }
                        return Err(e);
                    },
                };
                lods.push(l);
                i = i + 1;
            }
        }

        let mut col_tree_nodes: Vec<ColTreeNode> = Vec::new();
        if header.offset_col_tree_nodes != 0 {
            let _ = rd.seek(header.offset_col_tree_nodes as u64);
            let mut i: u32 = 0;
            while i < header.num_col_tree_nodes
                invariant
                    rd.bytes() == old(rd).bytes(),
                    at == old(rd).cursor(),
                    header.parsed_from(rd.bytes(), at),
                    at + 136 <= rd.bytes().len(),
                    header.offset_col_tree_nodes != 0,
                    i <= header.num_col_tree_nodes,
                    rd.cursor() == header.offset_col_tree_nodes + 32 * i,
                    i > 0 ==> header.offset_col_tree_nodes + 32 * i <= rd.bytes().len(),
                    col_tree_nodes@.len() == i,
                    forall|k: int|
                        0 <= k < i ==> col_tree_nodes@[k].parsed_from(
                            rd.bytes(),
                            header.offset_col_tree_nodes + 32 * k,
                        ),
                decreases header.num_col_tree_nodes - i,
            {
                let n = match ColTreeNode::read(rd) {
                    Ok(n) => n,
                    Err(e) => {
                        proof {
                            assert(!wmb_parses(rd.bytes(), at));
                        }
                        return Err(e);
                    },
                };
                col_tree_nodes.push(n);
                i = i + 1;
            }
        }

        let mut bone_map: Vec<i32> = Vec::new();
        if header.offset_bone_map != 0 {
            let _ = rd.seek(header.offset_bone_map as u64);
            let mut i: u32 = 0;
            while i < header.bone_map_size
                invariant
                    rd.bytes() == old(rd).bytes(),
                    at == old(rd).cursor(),
                    header.parsed_from(rd.bytes(), at),
                    at + 136 <= rd.bytes().len(),
                    header.offset_bone_map != 0,
                    i <= header.bone_map_size,
                    rd.cursor() == header.offset_bone_map + 4 * i,
                    i > 0 ==> header.offset_bone_map + 4 * i <= rd.bytes().len(),
                    bone_map@.len() == i,
                    forall|k: int|
                        0 <= k < i ==> bone_map@[k] == i32_at(
                            rd.bytes(),
                            header.offset_bone_map + 4 * k,
                        ),
                decreases header.bone_map_size - i,
            {
                let v = match rd.read_i32() {
                    Ok(v) => v,
                    Err(e) => {
                        proof {
                            assert(!wmb_parses(rd.bytes(), at));
                        }
                        return Err(e);
                    },
                };
                bone_map.push(v);
                i = i + 1;
            }
        }

        let mut bone_sets: Vec<BoneSet> = Vec::new();
        if header.offset_bone_sets != 0 {
            let _ = rd.seek(header.offset_bone_sets as u64);
            let mut i: u32 = 0;
            while i < header.num_bone_sets
                invariant
                    rd.bytes() == old(rd).bytes(),
                    at == old(rd).cursor(),
                    header.parsed_from(rd.bytes(), at),
                    at + 136 <= rd.bytes().len(),
                    header.offset_bone_sets != 0,
                    i <= header.num_bone_sets,
                    rd.cursor() == header.offset_bone_sets + 8 * i,
                    bone_sets@.len() == i,
                    forall|k: int|
                        0 <= k < i ==> bone_sets@[k].parsed_from(
                            rd.bytes(),
                            header.offset_bone_sets + 8 * k,
                        ),
                    forall|k: int|
                        0 <= k < i ==> #[trigger] bone_set_parses(
                            rd.bytes(),
                            header.offset_bone_sets + 8 * k,
                        ),
                decreases header.num_bone_sets - i,
            {
                let b = match BoneSet::read(rd) {
                    Ok(b) => b,
                    Err(e) => {
                        proof {
                            assert(!bone_set_parses(
                                rd.bytes(),
                                u32_at(rd.bytes(), at + 96) + 8 * (i as int),
                            ));
                            assert(!wmb_parses(rd.bytes(), at));
                        }
                        return Err(e);
                    },
                };
                bone_sets.push(b);
                i = i + 1;
            }
        }

        let mut materials: Vec<Material> = Vec::new();
        if header.offset_materials != 0 {
            let _ = rd.seek(header.offset_materials as u64);
            let mut i: u32 = 0;
            while i < header.num_materials
                invariant
                    rd.bytes() == old(rd).bytes(),
                    at == old(rd).cursor(),
                    header.parsed_from(rd.bytes(), at),
                    at + 136 <= rd.bytes().len(),
                    header.offset_materials != 0,
                    i <= header.num_materials,
                    rd.cursor() == header.offset_materials + 48 * i,
                    materials@.len() == i,
                    forall|k: int|
                        0 <= k < i ==> materials@[k].parsed_from(
                            rd.bytes(),
                            header.offset_materials + 48 * k,
                        ),
                    forall|k: int|
                        0 <= k < i ==> #[trigger] material_parses(
                            rd.bytes(),
                            header.offset_materials + 48 * k,
                        ),
                decreases header.num_materials - i,
            {
                let m = match Material::read(rd) {
                    Ok(m) => m,
                    Err(e) => {
                        proof {
                            assert(!material_parses(
                                rd.bytes(),
                                u32_at(rd.bytes(), at + 104) + 48 * (i as int),
                            ));
                            assert(!wmb_parses(rd.bytes(), at));
                        }
                        return Err(e);
                    },
                };
                materials.push(m);
                i = i + 1;
            }
        }

        let mut meshes: Vec<Mesh> = Vec::new();
        if header.offset_meshes != 0 {
            let _ = rd.seek(header.offset_meshes as u64);
            let mut i: u32 = 0;
            while i < header.num_meshes
                invariant
                    rd.bytes() == old(rd).bytes(),
                    at == old(rd).cursor(),
                    header.parsed_from(rd.bytes(), at),
                    at + 136 <= rd.bytes().len(),
                    header.offset_meshes != 0,
                    i <= header.num_meshes,
                    rd.cursor() == header.offset_meshes + 44 * i,
                    meshes@.len() == i,
                    forall|k: int|
                        0 <= k < i ==> meshes@[k].parsed_from(
                            rd.bytes(),
                            header.offset_meshes + 44 * k,
                        ),
                    forall|k: int|
                        0 <= k < i ==> #[trigger] mesh_parses(
                            rd.bytes(),
                            header.offset_meshes + 44 * k,
                        ),
                decreases header.num_meshes - i,
            {
                let m = match Mesh::read(rd) {
                    Ok(m) => m,
                    Err(e) => {
                        proof {
                            assert(!mesh_parses(
                                rd.bytes(),
                                u32_at(rd.bytes(), at + 112) + 44 * (i as int),
                            ));
                            assert(!wmb_parses(rd.bytes(), at));
                        }
                        return Err(e);
                    },
                };
                meshes.push(m);
                i = i + 1;
            }
        }

        let mut mesh_material: Vec<MeshMaterial> = Vec::new();
        if header.offset_mesh_material != 0 {
            let _ = rd.seek(header.offset_mesh_material as u64);
            let mut i: u32 = 0;
            while i < header.num_mesh_material
                invariant
                    rd.bytes() == old(rd).bytes(),
                    at == old(rd).cursor(),
                    header.parsed_from(rd.bytes(), at),
                    at + 136 <= rd.bytes().len(),
                    header.offset_mesh_material != 0,
                    i <= header.num_mesh_material,
                    rd.cursor() == header.offset_mesh_material + 8 * i,
                    i > 0 ==> header.offset_mesh_material + 8 * i <= rd.bytes().len(),
                    mesh_material@.len() == i,
                    forall|k: int|
                        0 <= k < i ==> mesh_material@[k] == parse_mesh_material(
                            rd.bytes(),
                            header.offset_mesh_material + 8 * k,
                        ),
                decreases header.num_mesh_material - i,
            {
                let m = match MeshMaterial::read(rd) {
                    Ok(m) => m,
                    Err(e) => {
                        proof {
                            assert(!wmb_parses(rd.bytes(), at));
                        }
                        return Err(e);
                    },
                };
                mesh_material.push(m);
                i = i + 1;
            }
        }

        proof {
            reveal(Wmb::parsed_from);
        }
        Ok(Wmb {
            header,
            bones,
            bone_index_translate_table,
            vertex_groups,
            batches,
            lods,
            col_tree_nodes,
            bone_map,
            bone_sets,
            materials,
            meshes,
            mesh_material,
        })
    }
}

/// Negation that leaves the one unrepresentable value fixed.
pub open spec fn neg16(x: i16) -> i16 {
    if x == i16::MIN {
        i16::MIN
    } else {
        (0 - x) as i16
    }
}

/// The truncating vertex window `[start, start+num)` of a vertex list.
pub open spec fn vertex_window(vs: Seq<Vertex>, start: int, num: int) -> Seq<Vertex> {
    if start >= vs.len() {
        Seq::empty()
    } else if start + num <= vs.len() {
        vs.subrange(start, start + num)
    } else {
        vs.subrange(start, vs.len() as int)
    }
}

/// The normals list agrees with the vertex window at position `i`.
pub open spec fn normal_agrees(ns: Seq<[u32; 3]>, w: Seq<Vertex>, i: int) -> bool {
    w[i].normal is Some && ns[i] == w[i].normal.unwrap()
}

/// The normals list agrees with the extended-record window at `i`.
pub open spec fn ex_normal_agrees(ns: Seq<[u32; 3]>, w: Seq<VertexExData>, i: int) -> bool {
    w[i].normal is Some && ns[i] == w[i].normal.unwrap()
}

/// The truncating window of the extended-record list.
pub open spec fn ex_window(vs: Seq<VertexExData>, start: int, num: int) -> Seq<VertexExData> {
    if start >= vs.len() {
        Seq::empty()
    } else if start + num <= vs.len() {
        vs.subrange(start, start + num)
    } else {
        vs.subrange(start, vs.len() as int)
    }
}

/// "Armor", "serious", "Broken" or "DLC": the mesh-name substrings
/// marking removable armor/variant geometry of the player models. An
/// empirically reverse-engineered exclusion list, kept verbatim.
pub open spec fn armor_excluded(name: Seq<u8>) -> bool {
    ||| crate::bytes_util::contains_seq(name, seq![0x41u8, 0x72u8, 0x6Du8, 0x6Fu8, 0x72u8])
    ||| crate::bytes_util::contains_seq(
        name,
        seq![0x73u8, 0x65u8, 0x72u8, 0x69u8, 0x6Fu8, 0x75u8, 0x73u8],
    )
    ||| crate::bytes_util::contains_seq(
        name,
        seq![0x42u8, 0x72u8, 0x6Fu8, 0x6Bu8, 0x65u8, 0x6Eu8],
    )
    ||| crate::bytes_util::contains_seq(name, seq![0x44u8, 0x4Cu8, 0x43u8])
}

/// Why emitting the batch behind `lod.batch_infos[j]` would fail: the
/// first referential check that does not resolve, in lookup order.
pub open spec fn emit_batch_error_na(w: &Wmb, lod: Lod, j: int) -> Option<DecodeError> {
    let bi = lod.batch_infos@[j];
    if bi.mesh_index as int >= w.meshes@.len() {
        Some(DecodeError::MeshIndexOutOfBounds)
    } else if bi.material_index as int >= w.materials@.len() {
        Some(DecodeError::MaterialIndexOutOfBounds)
    } else if bi.vertex_group_index as int >= w.vertex_groups@.len() {
        Some(DecodeError::VertexGroupIndexOutOfBounds)
    } else if lod.batch_start + j >= w.batches@.len() {
        Some(DecodeError::BatchIndexOutOfBounds)
    } else {
        let b = w.batches@[lod.batch_start + j];
        let vg = w.vertex_groups@[bi.vertex_group_index as int];
        if crate::windows::window_error(
            vg.indexes@.len() as int,
            b.index_start as int,
            b.num_indexes as int,
        ) {
            Some(DecodeError::IndexWindowOutOfBounds)
        } else if crate::windows::window_count(
            vg.indexes@.len() as int,
            b.index_start as int,
            b.num_indexes as int,
        ) == 0 {
            Some(DecodeError::EmptyIndexWindow)
        } else {
            let sliced = crate::windows::sliced_window(
                vg.indexes@,
                b.index_start as int,
                crate::windows::window_count(
                    vg.indexes@.len() as int,
                    b.index_start as int,
                    b.num_indexes as int,
                ),
            );
            let lo = crate::windows::seq_u32_min(sliced);
            if lo as int >= vg.vertexes@.len() {
                Some(DecodeError::VertexIndexOutOfBounds)
            } else {
                None
            }
        }
    }
}

/// Whether the selected normal source of the emitted window carries a
/// record without a normal. A group parsed by this crate's own reader
/// has uniform layouts, so this can hold only of a foreign value.
pub open spec fn window_normals_inconsistent(w: &Wmb, lod: Lod, j: int) -> bool
    recommends
        emit_batch_error_na(w, lod, j) is None,
{
    let bi = lod.batch_infos@[j];
    let vg = w.vertex_groups@[bi.vertex_group_index as int];
    let b = w.batches@[lod.batch_start + j];
    let sliced = crate::windows::sliced_window(
        vg.indexes@,
        b.index_start as int,
        crate::windows::window_count(
            vg.indexes@.len() as int,
            b.index_start as int,
            b.num_indexes as int,
        ),
    );
    let lo = crate::windows::seq_u32_min(sliced);
    let cnt = crate::windows::seq_u32_max(sliced) - lo + 1;
    let wv = vertex_window(vg.vertexes@, lo as int, cnt as int);
    let we = ex_window(vg.vertex_ex_data@, lo as int, cnt as int);
    if vg.vertexes@[lo as int].normal is Some {
        exists|i: int| 0 <= i < wv.len() && wv[i].normal is None
    } else if (lo as int) < vg.vertex_ex_data@.len() && vg.vertex_ex_data@[lo as int].normal
        is Some {
        exists|i: int| 0 <= i < we.len() && we[i].normal is None
    } else {
        false
    }
}

/// The geometry, texture bindings and flags of the record emitted for
/// (LOD, batch-info): everything but the display name and the
/// placement, which a wrapper container overwrites per model.
pub open spec fn emitted_record_core_na(
    md: MeshData,
    w: &Wmb,
    lod: Lod,
    lod_i: int,
    j: int,
    is_player_pl: bool,
) -> bool {
    let bi = lod.batch_infos@[j];
    let mesh = w.meshes@[bi.mesh_index as int];
    let mat = w.materials@[bi.material_index as int];
    let vg = w.vertex_groups@[bi.vertex_group_index as int];
    let b = w.batches@[lod.batch_start + j];
    let sliced = crate::windows::sliced_window(
        vg.indexes@,
        b.index_start as int,
        crate::windows::window_count(
            vg.indexes@.len() as int,
            b.index_start as int,
            b.num_indexes as int,
        ),
    );
    let lo = crate::windows::seq_u32_min(sliced);
    let cnt = crate::windows::seq_u32_max(sliced) - lo + 1;
    let wv = vertex_window(vg.vertexes@, lo as int, cnt as int);
    &&& md.vertices@ == Seq::new(wv.len(), |i: int| wv[i].position)
    &&& md.indexes@ == Seq::new(sliced.len(), |i: int| (sliced[i] - lo) as u32)
    &&& md.tangents is Some
    &&& md.tangents.unwrap()@.len() == wv.len()
    &&& forall|i: int|
        0 <= i < wv.len() ==> md.tangents.unwrap()@[i]@ == seq![
            wv[i].tangent@[0],
            wv[i].tangent@[1],
            wv[i].tangent@[2],
            neg16(wv[i].tangent_sign),
        ]
    &&& md.uv@ == Seq::new(wv.len(), |i: int| wv[i].uv)
    &&& if vg.vertexes@[lo as int].normal is Some {
        (forall|i: int| 0 <= i < wv.len() ==> wv[i].normal is Some) ==> (md.normals matches Some(
            crate::mesh_data::NormalData::FloatBits(n),
        ) && n@.len() == wv.len() && (forall|i: int|
            0 <= i < wv.len() ==> n@[i] == wv[i].normal.unwrap()))
    } else if (lo as int) < vg.vertex_ex_data@.len() && vg.vertex_ex_data@[lo as int].normal
        is Some {
        {
            let we = ex_window(vg.vertex_ex_data@, lo as int, cnt as int);
            (forall|i: int| 0 <= i < we.len() ==> we[i].normal is Some) ==> (md.normals matches Some(
                crate::mesh_data::NormalData::FloatBits(n),
            ) && n@.len() == we.len() && (forall|i: int|
                0 <= i < we.len() ==> n@[i] == we[i].normal.unwrap()))
        }
    } else {
        md.normals is None
    }
    &&& md.albedo_texture_id == Material::find_texture_id(mat.textures@, Material::albedo_pat())
    &&& md.normal_texture_id == Material::find_texture_id(mat.textures@, Material::normal_pat())
    &&& md.mask_texture_id == Material::find_texture_id(mat.textures@, Material::mask_pat())
    &&& md.uses_transparency == true
    &&& md.should_be_visible == ((lod_i == 0) && (!is_player_pl || !armor_excluded(mesh.name@)))
}

/// What the record emitted for (LOD, batch-info) holds: the core above
/// plus the composed name and the identity placement of a bare
/// container.
pub open spec fn emitted_record_na(
    md: MeshData,
    w: &Wmb,
    lod: Lod,
    lod_i: int,
    j: int,
    is_player_pl: bool,
) -> bool {
    let bi = lod.batch_infos@[j];
    let mesh = w.meshes@[bi.mesh_index as int];
    &&& emitted_record_core_na(md, w, lod, lod_i, j, is_player_pl)
    &&& md.name@ == lod.name@ + seq![0x2Fu8] + mesh.name@ + seq![0x2Fu8]
        + crate::bytes_util::dec_digits(j as nat)
    &&& md.transform is Identity
}

/// Emit the mesh record for one (LOD, batch-info) pair: the triangle
/// window is sliced with reversed winding, the vertex window is derived
/// as [min, max] of the referenced indices, and the emitted indices are
/// re-biased by that minimum.
#[verifier::rlimit(100)]
pub fn emit_batch_na(w: &Wmb, lod: &Lod, lod_i: usize, j: usize, is_player_pl: bool) -> (r: Result<
    MeshData,
    DecodeError,
>)
    requires
        j < lod.batch_infos@.len(),
    ensures
        match r {
            Ok(md) => {
                &&& emit_batch_error_na(w, *lod, j as int) is None
                &&& emitted_record_na(md, w, *lod, lod_i as int, j as int, is_player_pl)
            },
            Err(e) => emit_batch_error_na(w, *lod, j as int) == Some(e) || (e
                == DecodeError::InconsistentVertexData && emit_batch_error_na(w, *lod, j as int)
                is None && window_normals_inconsistent(w, *lod, j as int)),
        },
{
    let bi = &lod.batch_infos[j];
    if bi.mesh_index as usize >= w.meshes.len() {
        return Err(DecodeError::MeshIndexOutOfBounds);
    }
    let mesh = &w.meshes[bi.mesh_index as usize];
    if bi.material_index as usize >= w.materials.len() {
        return Err(DecodeError::MaterialIndexOutOfBounds);
    }
    let material = &w.materials[bi.material_index as usize];
    if bi.vertex_group_index as usize >= w.vertex_groups.len() {
        return Err(DecodeError::VertexGroupIndexOutOfBounds);
    }
    let vg = &w.vertex_groups[bi.vertex_group_index as usize];
    if j as u64 >= w.batches.len() as u64 || lod.batch_start as u64 >= w.batches.len() as u64
        - j as u64 {
        return Err(DecodeError::BatchIndexOutOfBounds);
    }
    let batch = &w.batches[(lod.batch_start as u64 + j as u64) as usize];
    let sliced = crate::windows::slice_indexes(
        &vg.indexes,
        batch.index_start as u64,
        batch.num_indexes as u64,
    )?;
    let (lo, cnt, rebased) = crate::windows::derive_vertex_window(&sliced)?;
    if lo as usize >= vg.vertexes.len() {
        return Err(DecodeError::VertexIndexOutOfBounds);
    }
    let vstart = lo as u64;
    let vlen = vg.vertexes.len() as u64;
    let wcount: u64 = if cnt <= vlen - vstart {
        cnt
    } else {
        vlen - vstart
    };
    let ghost gwv = vertex_window(vg.vertexes@, lo as int, cnt as int);
    let mut vertices: Vec<[u32; 3]> = Vec::new();
    let mut tangents: Vec<[i16; 4]> = Vec::new();
    let mut uv: Vec<[u32; 2]> = Vec::new();
    let mut k: u64 = 0;
    while k < wcount
        invariant
            gwv == vertex_window(vg.vertexes@, vstart as int, cnt as int),
            vlen == vg.vertexes@.len(),
            vlen <= usize::MAX,
            vstart < vlen,
            wcount == gwv.len(),
            vstart + wcount <= vlen,
            k <= wcount,
            vertices@.len() == k && tangents@.len() == k && uv@.len() == k,
            forall|i: int|
                0 <= i < k ==> vertices@[i] == gwv[i].position && uv@[i] == gwv[i].uv,
            forall|i: int|
                0 <= i < k ==> tangents@[i]@ == seq![
                    gwv[i].tangent@[0],
                    gwv[i].tangent@[1],
                    gwv[i].tangent@[2],
                    neg16(gwv[i].tangent_sign),
                ],
        decreases wcount - k,
    {
        let v = &vg.vertexes[(vstart + k) as usize];
        proof {
            assert(gwv[k as int] == vg.vertexes@[(vstart + k) as int]);
        }
        vertices.push(v.position);
        let wneg: i16 = if v.tangent_sign == i16::MIN {
            i16::MIN
        } else {
            0 - v.tangent_sign
        };
        let t = [v.tangent[0], v.tangent[1], v.tangent[2], wneg];
        proof {
            assert(t@ =~= seq![
                gwv[k as int].tangent@[0],
                gwv[k as int].tangent@[1],
                gwv[k as int].tangent@[2],
                neg16(gwv[k as int].tangent_sign),
            ]);
        }
        tangents.push(t);
        uv.push(v.uv);
        k = k + 1;
    }
    // normals: inline when the layout has them, else from the extended
    // records, else absent
    let normals: Option<crate::mesh_data::NormalData>;
    if vg.vertexes[vstart as usize].normal.is_some() {
        proof {
            assert(emit_batch_error_na(w, *lod, j as int) is None);
            assert((exists|i: int| 0 <= i < gwv.len() && gwv[i].normal is None)
                ==> window_normals_inconsistent(w, *lod, j as int));
        }
        let mut ns: Vec<[u32; 3]> = Vec::new();
        let mut k2: u64 = 0;
        while k2 < wcount
            invariant
                gwv == vertex_window(vg.vertexes@, vstart as int, cnt as int),
                vlen == vg.vertexes@.len(),
                vlen <= usize::MAX,
                vstart < vlen,
                wcount == gwv.len(),
                vstart + wcount <= vlen,
                k2 <= wcount,
                ns@.len() == k2,
                emit_batch_error_na(w, *lod, j as int) is None,
                (exists|i: int| 0 <= i < gwv.len() && gwv[i].normal is None)
                    ==> window_normals_inconsistent(w, *lod, j as int),
                forall|i: int| 0 <= i < k2 ==> #[trigger] normal_agrees(ns@, gwv, i),
            decreases wcount - k2,
        {
            let v = &vg.vertexes[(vstart + k2) as usize];
            proof {
                assert(gwv[k2 as int] == vg.vertexes@[(vstart + k2) as int]);
            }
            match v.normal {
                Some(n) => {
                    let ghost prev = ns@;
                    ns.push(n);
                    proof {
                        assert(normal_agrees(ns@, gwv, k2 as int));
                        assert forall|i: int| 0 <= i < k2 implies #[trigger] normal_agrees(
                            ns@,
                            gwv,
                            i,
                        ) by {
                            assert(normal_agrees(prev, gwv, i));
                        }
                    }
                },
                None => {
                    proof {
                        assert(0 <= k2 < gwv.len() && gwv[k2 as int].normal is None);
                    }
                    return Err(DecodeError::InconsistentVertexData);
                },
            }
            k2 = k2 + 1;
        }
        proof {
            assert forall|i: int| 0 <= i < gwv.len() implies gwv[i].normal is Some && ns@[i]
                == gwv[i].normal.unwrap() by {
                assert(normal_agrees(ns@, gwv, i));
            }
        }
        normals = Some(crate::mesh_data::NormalData::FloatBits(ns));
    } else if (vstart as usize) < vg.vertex_ex_data.len()
        && vg.vertex_ex_data[vstart as usize].normal.is_some() {
        let elen = vg.vertex_ex_data.len() as u64;
        let ecount: u64 = if cnt <= elen - vstart {
            cnt
        } else {
            elen - vstart
        };
        let ghost gwe = ex_window(vg.vertex_ex_data@, vstart as int, cnt as int);
        proof {
            assert(emit_batch_error_na(w, *lod, j as int) is None);
            assert((exists|i: int| 0 <= i < gwe.len() && gwe[i].normal is None)
                ==> window_normals_inconsistent(w, *lod, j as int));
        }
        let mut ns: Vec<[u32; 3]> = Vec::new();
        let mut k2: u64 = 0;
        while k2 < ecount
            invariant
                gwe == ex_window(vg.vertex_ex_data@, vstart as int, cnt as int),
                elen == vg.vertex_ex_data@.len(),
                elen <= usize::MAX,
                vstart < elen,
                ecount == gwe.len(),
                vstart + ecount <= elen,
                k2 <= ecount,
                ns@.len() == k2,
                emit_batch_error_na(w, *lod, j as int) is None,
                (exists|i: int| 0 <= i < gwe.len() && gwe[i].normal is None)
                    ==> window_normals_inconsistent(w, *lod, j as int),
                forall|i: int| 0 <= i < k2 ==> #[trigger] ex_normal_agrees(ns@, gwe, i),
            decreases ecount - k2,
        {
            let v = &vg.vertex_ex_data[(vstart + k2) as usize];
            proof {
                assert(gwe[k2 as int] == vg.vertex_ex_data@[(vstart + k2) as int]);
            }
            match v.normal {
                Some(n) => {
                    let ghost prev = ns@;
                    ns.push(n);
                    proof {
                        assert(ex_normal_agrees(ns@, gwe, k2 as int));
                        assert forall|i: int| 0 <= i < k2 implies #[trigger] ex_normal_agrees(
                            ns@,
                            gwe,
                            i,
                        ) by {
                            assert(ex_normal_agrees(prev, gwe, i));
                        }
                    }
                },
                None => {
                    proof {
                        assert(0 <= k2 < gwe.len() && gwe[k2 as int].normal is None);
                    }
                    return Err(DecodeError::InconsistentVertexData);
                },
            }
            k2 = k2 + 1;
        }
        proof {
            assert forall|i: int| 0 <= i < gwe.len() implies gwe[i].normal is Some && ns@[i]
                == gwe[i].normal.unwrap() by {
                assert(ex_normal_agrees(ns@, gwe, i));
            }
        }
        normals = Some(crate::mesh_data::NormalData::FloatBits(ns));
    } else {
        normals = None;
    }
    let albedo_texture_id = material.get_albedo_texture_id();
    let normal_texture_id = material.get_normal_texture_id();
    let mask_texture_id = material.get_mask_map_texture_id();
    let armor: [u8; 5] = [0x41, 0x72, 0x6D, 0x6F, 0x72];
    let serious: [u8; 7] = [0x73, 0x65, 0x72, 0x69, 0x6F, 0x75, 0x73];
    let broken: [u8; 6] = [0x42, 0x72, 0x6F, 0x6B, 0x65, 0x6E];
    let dlc: [u8; 3] = [0x44, 0x4C, 0x43];
    proof {
        assert(armor@ =~= seq![0x41u8, 0x72u8, 0x6Du8, 0x6Fu8, 0x72u8]);
        assert(serious@ =~= seq![0x73u8, 0x65u8, 0x72u8, 0x69u8, 0x6Fu8, 0x75u8, 0x73u8]);
        assert(broken@ =~= seq![0x42u8, 0x72u8, 0x6Fu8, 0x6Bu8, 0x65u8, 0x6Eu8]);
        assert(dlc@ =~= seq![0x44u8, 0x4Cu8, 0x43u8]);
    }
    let excluded = crate::bytes_util::bytes_contains(mesh.name.as_slice(), armor.as_slice())
        || crate::bytes_util::bytes_contains(mesh.name.as_slice(), serious.as_slice())
        || crate::bytes_util::bytes_contains(mesh.name.as_slice(), broken.as_slice())
        || crate::bytes_util::bytes_contains(mesh.name.as_slice(), dlc.as_slice());
    let should_be_visible = lod_i == 0 && (!is_player_pl || !excluded);
    let slash: [u8; 1] = [0x2F];
    let mut name: Vec<u8> = Vec::new();
    crate::bytes_util::push_all(&mut name, lod.name.as_slice());
    crate::bytes_util::push_all(&mut name, slash.as_slice());
    crate::bytes_util::push_all(&mut name, mesh.name.as_slice());
    crate::bytes_util::push_all(&mut name, slash.as_slice());
    let digits = crate::bytes_util::u64_to_dec(j as u64);
    crate::bytes_util::push_all(&mut name, digits.as_slice());
    proof {
        assert(name@ =~= lod.name@ + seq![0x2Fu8] + w.meshes@[lod.batch_infos@[j as int].mesh_index
            as int].name@ + seq![0x2Fu8] + crate::bytes_util::dec_digits(j as nat));
        assert(vertices@ =~= Seq::new(gwv.len(), |i: int| gwv[i].position));
        assert(uv@ =~= Seq::new(gwv.len(), |i: int| gwv[i].uv));
    }
    Ok(MeshData {
        name,
        vertices,
        indexes: rebased,
        tangents: Some(tangents),
        normals,
        uv,
        albedo_texture_id,
        normal_texture_id,
        mask_texture_id,
        transform: crate::mesh_data::MeshTransform::Identity,
        uses_transparency: true,
        should_be_visible,
    })
}


/// How many records the whole container emits: one per batch info of
/// every level-of-detail group.
pub open spec fn lod_plan_len(lods: Seq<Lod>) -> int
    decreases lods.len(),
{
    if lods.len() == 0 {
        0
    } else {
        lod_plan_len(lods.drop_last()) + lods.last().batch_infos@.len()
    }
}

/// Emission of batch info `j` of LOD `li` resolves every reference.
pub open spec fn emit_ok(w: &Wmb, li: int, j: int) -> bool {
    emit_batch_error_na(w, w.lods@[li], j) is None
}


/// Triangle winding at this decoder's output: whenever a batch's index
/// window starts triple-aligned, any full source triple `[a, b, c]` is
/// emitted as `[c, b, a]`, each index re-biased by the derived window
/// minimum.
pub proof fn lemma_record_winding_na(
    md: MeshData,
    w: &Wmb,
    lod: Lod,
    lod_i: int,
    j: int,
    is_player_pl: bool,
    t: int,
)
    requires
        0 <= j < lod.batch_infos@.len(),
        emitted_record_core_na(md, w, lod, lod_i, j, is_player_pl),
        w.batches@[lod.batch_start + j].index_start as int % 3 == 0,
        0 <= t,
        3 * t + 2 < md.indexes@.len(),
    ensures
        ({
            let bi = lod.batch_infos@[j];
            let vg = w.vertex_groups@[bi.vertex_group_index as int];
            let b = w.batches@[lod.batch_start + j];
            let start = b.index_start as int;
            let sliced = crate::windows::sliced_window(
                vg.indexes@,
                start,
                crate::windows::window_count(
                    vg.indexes@.len() as int,
                    start,
                    b.num_indexes as int,
                ),
            );
            let lo = crate::windows::seq_u32_min(sliced);
            &&& md.indexes@[3 * t] == (vg.indexes@[start + 3 * t + 2] - lo) as u32
            &&& md.indexes@[3 * t + 1] == (vg.indexes@[start + 3 * t + 1] - lo) as u32
            &&& md.indexes@[3 * t + 2] == (vg.indexes@[start + 3 * t] - lo) as u32
        }),
{
    let bi = lod.batch_infos@[j];
    let vg = w.vertex_groups@[bi.vertex_group_index as int];
    let b = w.batches@[lod.batch_start + j];
    let start = b.index_start as int;
    let count = crate::windows::window_count(
        vg.indexes@.len() as int,
        start,
        b.num_indexes as int,
    );
    crate::windows::lemma_triple_winding(vg.indexes@, start, count, t);
}

/// The derived vertex window of this decoder's output: the window
/// starts at the least index the sliced window references, every
/// emitted index is re-biased by that minimum, and emitted vertex `i`
/// is the group's vertex at `minimum + i`.
pub proof fn lemma_record_derived_window_na(
    md: MeshData,
    w: &Wmb,
    lod: Lod,
    lod_i: int,
    j: int,
    is_player_pl: bool,
    i: int,
)
    requires
        0 <= j < lod.batch_infos@.len(),
        emitted_record_core_na(md, w, lod, lod_i, j, is_player_pl),
        0 <= i,
    ensures
        ({
            let bi = lod.batch_infos@[j];
            let vg = w.vertex_groups@[bi.vertex_group_index as int];
            let b = w.batches@[lod.batch_start + j];
            let sliced = crate::windows::sliced_window(
                vg.indexes@,
                b.index_start as int,
                crate::windows::window_count(
                    vg.indexes@.len() as int,
                    b.index_start as int,
                    b.num_indexes as int,
                ),
            );
            let lo = crate::windows::seq_u32_min(sliced);
            &&& i < md.indexes@.len() ==> md.indexes@[i] == (sliced[i] - lo) as u32
            &&& i < md.vertices@.len() ==> md.vertices@[i] == vg.vertexes@[lo + i].position
            &&& i < md.vertices@.len() ==> md.uv@[i] == vg.vertexes@[lo + i].uv
        }),
{
    let bi = lod.batch_infos@[j];
    let vg = w.vertex_groups@[bi.vertex_group_index as int];
    let b = w.batches@[lod.batch_start + j];
    let sliced = crate::windows::sliced_window(
        vg.indexes@,
        b.index_start as int,
        crate::windows::window_count(
            vg.indexes@.len() as int,
            b.index_start as int,
            b.num_indexes as int,
        ),
    );
    let lo = crate::windows::seq_u32_min(sliced);
    let cnt = crate::windows::seq_u32_max(sliced) - lo + 1;
    let wv = vertex_window(vg.vertexes@, lo as int, cnt as int);
    if i < md.vertices@.len() {
        assert(wv[i] == vg.vertexes@[lo + i]);
    }
}

/// How many records the LOD groups before `li` emit: where group `li`'s
/// records start in the output.
pub open spec fn plan_offset(w: &Wmb, li: int) -> int {
    lod_plan_len(w.lods@.subrange(0, li))
}

proof fn lemma_plan_offset_succ(w: &Wmb, li: int)
    requires
        0 <= li < w.lods@.len(),
    ensures
        plan_offset(w, li + 1) == plan_offset(w, li) + w.lods@[li].batch_infos@.len(),
{
    assert(w.lods@.subrange(0, li + 1).drop_last() =~= w.lods@.subrange(0, li));
    assert(w.lods@.subrange(0, li + 1).last() == w.lods@[li]);
}

/// The albedo texture id the emission of plan entry (li, j) resolves.
pub open spec fn emit_albedo_id(w: &Wmb, li: int, j: int) -> Option<u32> {
    let bi = w.lods@[li].batch_infos@[j];
    Material::find_texture_id(
        w.materials@[bi.material_index as int].textures@,
        Material::albedo_pat(),
    )
}

/// The normal texture id the emission of plan entry (li, j) resolves.
pub open spec fn emit_normal_id(w: &Wmb, li: int, j: int) -> Option<u32> {
    let bi = w.lods@[li].batch_infos@[j];
    Material::find_texture_id(
        w.materials@[bi.material_index as int].textures@,
        Material::normal_pat(),
    )
}

/// The cache contents after fetching plan entry (li, j)'s two ids.
pub open spec fn cache_after_batch(
    v: Map<u32, (Seq<u8>, u32, u32)>,
    w: &Wmb,
    wt: &WtaWtp,
    li: int,
    j: int,
) -> Map<u32, (Seq<u8>, u32, u32)> {
    crate::texture::cache_after(
        crate::texture::cache_after(
            v,
            wt,
            emit_albedo_id(w, li, j),
            crate::texture::SwizzleKind::Keep,
        ),
        wt,
        emit_normal_id(w, li, j),
        crate::texture::SwizzleKind::Keep,
    )
}

/// The cache contents after the first `j` plan entries of group `li`.
pub open spec fn cache_after_lod(
    v: Map<u32, (Seq<u8>, u32, u32)>,
    w: &Wmb,
    wt: &WtaWtp,
    li: int,
    j: int,
) -> Map<u32, (Seq<u8>, u32, u32)>
    decreases j,
{
    if j <= 0 {
        v
    } else {
        cache_after_batch(cache_after_lod(v, w, wt, li, j - 1), w, wt, li, j - 1)
    }
}

/// The cache contents after the first `li` groups' plans.
pub open spec fn cache_after_all(
    v: Map<u32, (Seq<u8>, u32, u32)>,
    w: &Wmb,
    wt: &WtaWtp,
    li: int,
) -> Map<u32, (Seq<u8>, u32, u32)>
    decreases li,
{
    if li <= 0 {
        v
    } else {
        cache_after_lod(
            cache_after_all(v, w, wt, li - 1),
            w,
            wt,
            li - 1,
            w.lods@[li - 1].batch_infos@.len() as int,
        )
    }
}

/// The output holds, at plan entry (li, j)'s position, exactly the
/// record emitted for that entry.
pub open spec fn plan_record_ok(
    v: Seq<MeshData>,
    w: &Wmb,
    li: int,
    j: int,
    is_player_pl: bool,
) -> bool {
    &&& 0 <= plan_offset(w, li) + j < v.len()
    &&& emitted_record_na(v[plan_offset(w, li) + j], w, w.lods@[li], li, j, is_player_pl)
}

/// A container this crate's own reader produced has uniform per-vertex
/// layouts, so the emitted window's normal source is never inconsistent.
proof fn lemma_parsed_window_consistent(w: &Wmb, s: Seq<u8>, at: int, li: int, j: int)
    requires
        w.parsed_from(s, at),
        0 <= li < w.lods@.len(),
        0 <= j < w.lods@[li].batch_infos@.len(),
        emit_batch_error_na(w, w.lods@[li], j) is None,
    ensures
        !window_normals_inconsistent(w, w.lods@[li], j),
{
    reveal(Wmb::parsed_from);
    let lod = w.lods@[li];
    let bi = lod.batch_infos@[j];
    let vgk = bi.vertex_group_index as int;
    let vg = w.vertex_groups@[vgk];
    let h = w.header;
    assert(vg.parsed_from(s, h.offset_vertex_groups + 48 * vgk, h.flags as u32));
    let vh = parse_vertex_group_header(s, h.offset_vertex_groups + 48 * vgk);
    let b = w.batches@[lod.batch_start + j];
    let sliced = crate::windows::sliced_window(
        vg.indexes@,
        b.index_start as int,
        crate::windows::window_count(
            vg.indexes@.len() as int,
            b.index_start as int,
            b.num_indexes as int,
        ),
    );
    let lo = crate::windows::seq_u32_min(sliced);
    let cnt = crate::windows::seq_u32_max(sliced) - lo + 1;
    let wv = vertex_window(vg.vertexes@, lo as int, cnt as int);
    let we = ex_window(vg.vertex_ex_data@, lo as int, cnt as int);
    if vg.vertexes@[lo as int].normal is Some {
        assert(vg.vertexes@[lo as int].parsed_from(
            s,
            vh.vertex_offset + (lo as int) * vertex_size_na(vh.vertex_flags),
            vh.vertex_flags,
        ));
        assert(vh.vertex_flags == 0);
        assert forall|i: int| 0 <= i < wv.len() implies wv[i].normal is Some by {
            assert(wv[i] == vg.vertexes@[lo + i]);
            assert(vg.vertexes@[lo + i].parsed_from(
                s,
                vh.vertex_offset + (lo + i) * vertex_size_na(vh.vertex_flags),
                vh.vertex_flags,
            ));
        }
    } else if (lo as int) < vg.vertex_ex_data@.len() && vg.vertex_ex_data@[lo as int].normal
        is Some {
        assert forall|i: int| 0 <= i < we.len() implies we[i].normal is Some by {
            assert(we[i] == vg.vertex_ex_data@[lo + i]);
            assert(vg.vertex_ex_data@[lo + i].parsed_from(
                s,
                vh.vertex_ex_data_offset + (lo + i) * vertex_ex_size_na(vh.vertex_flags).unwrap(),
                vh.vertex_flags,
            ));
        }
    }
}

/// "pl000", "pl010" or "pl020": the player-model name patterns whose
/// meshes are additionally filtered by the armor exclusion list.
pub open spec fn is_player_model(name: Seq<u8>) -> bool {
    ||| crate::bytes_util::contains_seq(name, seq![0x70u8, 0x6Cu8, 0x30u8, 0x30u8, 0x30u8])
    ||| crate::bytes_util::contains_seq(name, seq![0x70u8, 0x6Cu8, 0x30u8, 0x31u8, 0x30u8])
    ||| crate::bytes_util::contains_seq(name, seq![0x70u8, 0x6Cu8, 0x30u8, 0x32u8, 0x30u8])
}

/// Decode a whole older-format container into mesh records, walking
/// every level-of-detail group's batch list and fetching each
/// referenced texture once.
#[verifier::rlimit(100)]
pub fn read_wmb_na(
    name: &[u8],
    rd: &mut ByteReader,
    wta_wtp: Option<&WtaWtp>,
    textures: &mut HashMap<u32, TextureData>,
) -> (r: Result<Vec<MeshData>, DecodeError>)
    ensures
        final(rd).bytes() == old(rd).bytes(),
        forall|k: u32| #[trigger]
            old(textures)@.dom().contains(k) ==> final(textures)@.dom().contains(k)
                && final(textures)@[k] == old(textures)@[k],
        forall|k: u32| #[trigger]
            final(textures)@.dom().contains(k) ==> (old(textures)@.dom().contains(k)
                && final(textures)@[k] == old(textures)@[k])
                || final(textures)@[k].bytes@.len() == 4 * final(textures)@[k].width
                * final(textures)@[k].height,
        wta_wtp is None ==> final(textures)@ == old(textures)@,
        match r {
            Ok(v) => exists|w: Wmb|
                {
                    &&& #[trigger] w.parsed_from(final(rd).bytes(), old(rd).cursor())
                    &&& v@.len() == lod_plan_len(w.lods@)
                    &&& forall|li: int, j: int|
                        0 <= li < w.lods@.len() && 0 <= j < w.lods@[li].batch_infos@.len()
                            ==> #[trigger] emit_ok(&w, li, j)
                    &&& forall|li: int, j: int|
                        0 <= li < w.lods@.len() && 0 <= j < w.lods@[li].batch_infos@.len()
                            ==> #[trigger] plan_record_ok(v@, &w, li, j, is_player_model(name@))
                    &&& match wta_wtp {
                        Some(wt) => crate::texture::cache_view(final(textures)@)
                            == cache_after_all(
                            crate::texture::cache_view(old(textures)@),
                            &w,
                            wt,
                            w.lods@.len() as int,
                        ),
                        None => true,
                    }
                },
            Err(e) => !wmb_parses(final(rd).bytes(), old(rd).cursor()) || exists|w: Wmb|
                {
                    &&& #[trigger] w.parsed_from(final(rd).bytes(), old(rd).cursor())
                    &&& exists|li: int, j: int|
                        0 <= li < w.lods@.len() && 0 <= j < w.lods@[li].batch_infos@.len() && !(
                        #[trigger] emit_ok(&w, li, j))
                },
        },
{
    let wmb = Wmb::read(rd)?;
    let ghost tex0 = textures@;
    let pl000: [u8; 5] = [0x70, 0x6C, 0x30, 0x30, 0x30];
    let pl010: [u8; 5] = [0x70, 0x6C, 0x30, 0x31, 0x30];
    let pl020: [u8; 5] = [0x70, 0x6C, 0x30, 0x32, 0x30];
    proof {
        assert(pl000@ =~= seq![0x70u8, 0x6Cu8, 0x30u8, 0x30u8, 0x30u8]);
        assert(pl010@ =~= seq![0x70u8, 0x6Cu8, 0x30u8, 0x31u8, 0x30u8]);
        assert(pl020@ =~= seq![0x70u8, 0x6Cu8, 0x30u8, 0x32u8, 0x30u8]);
    }
    let is_player_pl = crate::bytes_util::bytes_contains(name, pl000.as_slice())
        || crate::bytes_util::bytes_contains(name, pl010.as_slice())
        || crate::bytes_util::bytes_contains(name, pl020.as_slice());
    proof {
        assert(is_player_pl == is_player_model(name@));
    }
    let mut meshes: Vec<MeshData> = Vec::new();
    let mut li: usize = 0;
    while li < wmb.lods.len()
        invariant
            rd.bytes() == old(rd).bytes(),
            wmb.parsed_from(old(rd).bytes(), old(rd).cursor()),
            is_player_pl == is_player_model(name@),
            li <= wmb.lods@.len(),
            meshes@.len() == plan_offset(&wmb, li as int),
            forall|l2: int, j2: int|
                0 <= l2 < li && 0 <= j2 < wmb.lods@[l2].batch_infos@.len() ==> #[trigger] emit_ok(
                    &wmb,
                    l2,
                    j2,
                ),
            forall|l2: int, j2: int|
                0 <= l2 < li && 0 <= j2 < wmb.lods@[l2].batch_infos@.len()
                    ==> #[trigger] plan_record_ok(meshes@, &wmb, l2, j2, is_player_pl),
            tex0 == old(textures)@,
            forall|k: u32| #[trigger]
                tex0.dom().contains(k) ==> textures@.dom().contains(k) && textures@[k] == tex0[k],
            forall|k: u32| #[trigger]
                textures@.dom().contains(k) ==> (tex0.dom().contains(k) && textures@[k]
                    == tex0[k]) || textures@[k].bytes@.len() == 4 * textures@[k].width
                    * textures@[k].height,
            wta_wtp is None ==> textures@ == tex0,
            match wta_wtp {
                Some(wt) => crate::texture::cache_view(textures@) == cache_after_all(
                    crate::texture::cache_view(tex0),
                    &wmb,
                    wt,
                    li as int,
                ),
                None => true,
            },
        decreases wmb.lods@.len() - li,
    {
        let lod = &wmb.lods[li];
        let mut j: usize = 0;
        let ghost meshes0 = meshes@.len() as int;
        while j < lod.batch_infos.len()
            invariant
                rd.bytes() == old(rd).bytes(),
                wmb.parsed_from(old(rd).bytes(), old(rd).cursor()),
                is_player_pl == is_player_model(name@),
                li < wmb.lods@.len(),
                lod == wmb.lods@[li as int],
                j <= lod.batch_infos@.len(),
                meshes0 == plan_offset(&wmb, li as int),
                meshes@.len() == meshes0 + j,
                forall|l2: int, j2: int|
                    0 <= l2 < li && 0 <= j2 < wmb.lods@[l2].batch_infos@.len() ==> #[trigger]
                    emit_ok(&wmb, l2, j2),
                forall|j2: int| 0 <= j2 < j ==> #[trigger] emit_ok(&wmb, li as int, j2),
                forall|l2: int, j2: int|
                    0 <= l2 < li && 0 <= j2 < wmb.lods@[l2].batch_infos@.len()
                        ==> #[trigger] plan_record_ok(meshes@, &wmb, l2, j2, is_player_pl),
                forall|j2: int|
                    0 <= j2 < j ==> #[trigger] plan_record_ok(
                        meshes@,
                        &wmb,
                        li as int,
                        j2,
                        is_player_pl,
                    ),
                tex0 == old(textures)@,
                forall|k: u32| #[trigger]
                    tex0.dom().contains(k) ==> textures@.dom().contains(k) && textures@[k]
                        == tex0[k],
                forall|k: u32| #[trigger]
                    textures@.dom().contains(k) ==> (tex0.dom().contains(k) && textures@[k]
                        == tex0[k]) || textures@[k].bytes@.len() == 4 * textures@[k].width
                        * textures@[k].height,
                wta_wtp is None ==> textures@ == tex0,
                match wta_wtp {
                    Some(wt) => crate::texture::cache_view(textures@) == cache_after_lod(
                        cache_after_all(crate::texture::cache_view(tex0), &wmb, wt, li as int),
                        &wmb,
                        wt,
                        li as int,
                        j as int,
                    ),
                    None => true,
                },
            decreases lod.batch_infos@.len() - j,
        {
            let md = match emit_batch_na(&wmb, lod, li, j, is_player_pl) {
                Ok(md) => md,
                Err(e) => {
                    proof {
                        if emit_batch_error_na(&wmb, wmb.lods@[li as int], j as int) is None {
                            lemma_parsed_window_consistent(
                                &wmb,
                                old(rd).bytes(),
                                old(rd).cursor(),
                                li as int,
                                j as int,
                            );
                        }
                        assert(!emit_ok(&wmb, li as int, j as int));
                    }
                    return Err(e);
                },
            };
            proof {
                assert(emit_ok(&wmb, li as int, j as int));
            }
            match wta_wtp {
                Some(wt) => {
                    proof {
                        assert(md.albedo_texture_id == emit_albedo_id(&wmb, li as int, j as int));
                        assert(md.normal_texture_id == emit_normal_id(&wmb, li as int, j as int));
                    }
                    crate::texture::try_add_texture(
                        textures,
                        wt,
                        md.albedo_texture_id,
                        crate::texture::SwizzleKind::Keep,
                    );
                    crate::texture::try_add_texture(
                        textures,
                        wt,
                        md.normal_texture_id,
                        crate::texture::SwizzleKind::Keep,
                    );
                },
                None => {},
            }
            proof {
                assert forall|k: u32| #[trigger]
                    tex0.dom().contains(k) implies textures@.dom().contains(k) && textures@[k]
                    == tex0[k] by {}
                assert forall|k: u32| #[trigger]
                    textures@.dom().contains(k) implies (tex0.dom().contains(k) && textures@[k]
                    == tex0[k]) || textures@[k].bytes@.len() == 4 * textures@[k].width
                    * textures@[k].height by {}
            }
            let ghost prev = meshes@;
            meshes.push(md);
            proof {
                assert(plan_record_ok(meshes@, &wmb, li as int, j as int, is_player_pl));
                assert forall|l2: int, j2: int|
                    0 <= l2 < li && 0 <= j2 < wmb.lods@[l2].batch_infos@.len()
                        implies #[trigger] plan_record_ok(meshes@, &wmb, l2, j2, is_player_pl) by {
                    assert(plan_record_ok(prev, &wmb, l2, j2, is_player_pl));
                }
                assert forall|j2: int| 0 <= j2 < j + 1 implies #[trigger] plan_record_ok(
                    meshes@,
                    &wmb,
                    li as int,
                    j2,
                    is_player_pl,
                ) by {
                    if j2 < j {
                        assert(plan_record_ok(prev, &wmb, li as int, j2, is_player_pl));
                    }
                }
            }
            j = j + 1;
        }
        proof {
            lemma_plan_offset_succ(&wmb, li as int);
        }
        li = li + 1;
    }
    proof {
        assert(wmb.lods@.subrange(0, wmb.lods@.len() as int) =~= wmb.lods@);
    }
    Ok(meshes)
}

} // verus!
