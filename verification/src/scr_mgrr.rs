//! Multi-model wrapper container: an offset table of named sub-models,
//! each carrying a translate/rotation/scale transform and an embedded
//! mesh-container payload that the generic dispatcher decodes. Every
//! resulting record takes the sub-model's name and transform.

use std::collections::HashMap;

use vstd::prelude::*;

use crate::byte_stream::ByteReader;
use crate::byte_stream::u16_at;
use crate::byte_stream::u32_at;
use crate::error::DecodeError;
use crate::mesh_data::MeshData;
use crate::mesh_data::MeshTransform;
use crate::mesh_data::TextureData;
use crate::wmb::wmb3_magic;
use crate::wmb::wmb4_magic;
use crate::wta_wtp::WtaWtp;

verus! {

broadcast use crate::byte_stream::lemma_cursor_nonneg;

/// `s` with every zero byte removed, as the fixed-width model names are
/// trimmed.
pub open spec fn strip_zeros(s: Seq<u8>) -> Seq<u8>
    decreases s.len(),
{
    if s.len() == 0 {
        Seq::empty()
    } else if s.last() == 0 {
        strip_zeros(s.drop_last())
    } else {
        strip_zeros(s.drop_last()).push(s.last())
    }
}

fn strip_zeros_exec(s: &Vec<u8>) -> (r: Vec<u8>)
    ensures
        r@ == strip_zeros(s@),
{
    let mut out: Vec<u8> = Vec::new();
    let mut i: usize = 0;
    while i < s.len()
        invariant
            i <= s@.len(),
            out@ == strip_zeros(s@.subrange(0, i as int)),
        decreases s@.len() - i,
    {
        proof {
            assert(s@.subrange(0, i + 1).drop_last() =~= s@.subrange(0, i as int));
        }
        if s[i] != 0 {
            out.push(s[i]);
        }
        i = i + 1;
    }
    proof {
        assert(s@.subrange(0, s@.len() as int) =~= s@);
    }
    out
}

/// How many sub-models the wrapper claims.
pub open spec fn scr_num_models(s: Seq<u8>) -> int {
    u16_at(s, 6) as int
}

/// Where sub-model `m`'s record starts.
pub open spec fn scr_model_at(s: Seq<u8>, m: int) -> int {
    u32_at(s, u32_at(s, 8) + 4 * m) as int
}

/// Sub-model `m`'s name: its fixed 64-byte field with every zero byte
/// removed.
pub open spec fn scr_model_name(s: Seq<u8>, m: int) -> Seq<u8> {
    strip_zeros(s.subrange(scr_model_at(s, m) + 4, scr_model_at(s, m) + 68))
}

/// Sub-model `m`'s transform parameter `idx` (0..9: translate, Euler
/// rotation, scale triples, as bit patterns).
pub open spec fn scr_model_field(s: Seq<u8>, m: int, idx: int) -> u32 {
    u32_at(s, scr_model_at(s, m) + 68 + 4 * idx)
}

/// Where sub-model `m`'s embedded payload starts.
pub open spec fn scr_payload_start(s: Seq<u8>, m: int) -> int {
    u32_at(s, scr_model_at(s, m)) as int
}

/// Where sub-model `m`'s embedded payload ends: at the next model's
/// payload offset, or at the end of the stream for the last model.
pub open spec fn scr_payload_end(s: Seq<u8>, m: int) -> int {
    if m + 1 < scr_num_models(s) {
        u32_at(s, scr_model_at(s, m + 1)) as int
    } else {
        s.len() as int
    }
}

/// Sub-model `m`'s embedded payload bytes.
pub open spec fn scr_payload(s: Seq<u8>, m: int) -> Seq<u8> {
    s.subrange(scr_payload_start(s, m), scr_payload_end(s, m))
}

/// The record carries sub-model `m`'s nine transform parameters.
pub open spec fn scr_record_transform(md: MeshData, s: Seq<u8>, m: int) -> bool {
    md.transform matches MeshTransform::Trs { translate, rotation, scale } && translate@ == seq![
        scr_model_field(s, m, 0),
        scr_model_field(s, m, 1),
        scr_model_field(s, m, 2),
    ] && rotation@ == seq![
        scr_model_field(s, m, 3),
        scr_model_field(s, m, 4),
        scr_model_field(s, m, 5),
    ] && scale@ == seq![
        scr_model_field(s, m, 6),
        scr_model_field(s, m, 7),
        scr_model_field(s, m, 8),
    ]
}

/// Record `i` of the output is one of the wrapper's sub-models: it
/// carries that model's name and its nine transform parameters.
pub open spec fn scr_record_ok(v: Seq<MeshData>, s: Seq<u8>, i: int) -> bool {
    exists|m: int|
        {
            &&& 0 <= m < scr_num_models(s)
            &&& #[trigger] scr_model_at(s, m) >= 0
            &&& v[i].name@ == scr_model_name(s, m)
            &&& scr_record_transform(v[i], s, m)
        }
}

/// The record at the group's base plus the sub-decode's plan position
/// is the older-format emission for (LOD, batch-info), renamed to
/// model `m` and carrying its transform.
pub open spec fn scr_group_record_na(
    v: Seq<MeshData>,
    base: int,
    w: &crate::wmb_na::Wmb,
    li: int,
    j: int,
    s: Seq<u8>,
    m: int,
) -> bool {
    let idx = base + crate::wmb_na::plan_offset(w, li) + j;
    &&& 0 <= idx < v.len()
    &&& crate::wmb_na::emitted_record_core_na(
        v[idx],
        w,
        w.lods@[li],
        li,
        j,
        crate::wmb_na::is_player_model(scr_model_name(s, m)),
    )
    &&& v[idx].name@ == scr_model_name(s, m)
    &&& scr_record_transform(v[idx], s, m)
}

/// The record at the group's base plus the sub-decode's plan position
/// is the newer-format emission for (mesh, batch), renamed to model `m`
/// and carrying its transform.
pub open spec fn scr_group_record_mgrr(
    v: Seq<MeshData>,
    base: int,
    w: &crate::wmb_mgrr::Wmb,
    mi: int,
    j: int,
    wta_wtp: Option<&WtaWtp>,
    s: Seq<u8>,
    m: int,
) -> bool {
    let idx = base + crate::wmb_mgrr::plan_offset(w, mi) + j;
    &&& 0 <= idx < v.len()
    &&& crate::wmb_mgrr::emitted_record_core_mgrr(
        v[idx],
        w,
        w.meshes@[mi],
        crate::wmb_mgrr::mesh_plan(w, mi)[j],
        wta_wtp,
    )
    &&& v[idx].name@ == scr_model_name(s, m)
    &&& scr_record_transform(v[idx], s, m)
}

/// The `len_g` records starting at `base` are exactly what the
/// dispatcher yields on sub-model `m`'s payload, each renamed to the
/// model and carrying its transform.
pub open spec fn scr_group_ok(
    v: Seq<MeshData>,
    base: int,
    len_g: int,
    s: Seq<u8>,
    m: int,
    wta_wtp: Option<&WtaWtp>,
) -> bool {
    let p = scr_payload(s, m);
    &&& p.len() >= 4
    &&& (p.subrange(0, 4) == wmb3_magic() || p.subrange(0, 4) == wmb4_magic())
    &&& p.subrange(0, 4) == wmb3_magic() ==> exists|w: crate::wmb_na::Wmb|
        {
            &&& #[trigger] w.parsed_from(p, 0)
            &&& len_g == crate::wmb_na::lod_plan_len(w.lods@)
            &&& forall|li: int, j: int|
                0 <= li < w.lods@.len() && 0 <= j < w.lods@[li].batch_infos@.len()
                    ==> #[trigger] scr_group_record_na(v, base, &w, li, j, s, m)
        }
    &&& p.subrange(0, 4) == wmb4_magic() ==> exists|w: crate::wmb_mgrr::Wmb|
        {
            &&& #[trigger] w.parsed_from(p, 0)
            &&& len_g == crate::wmb_mgrr::mesh_plan_len(w.meshes@)
            &&& forall|mi: int, j: int|
                0 <= mi < w.meshes@.len() && 0 <= j < crate::wmb_mgrr::mesh_plan(&w, mi).len()
                    ==> #[trigger] scr_group_record_mgrr(v, base, &w, mi, j, wta_wtp, s, m)
        }
}

/// The wrapper header and the model-offset table fit inside the bytes.
pub open spec fn scr_table_parses(s: Seq<u8>) -> bool {
    &&& 12 <= s.len()
    &&& (scr_num_models(s) == 0 || u32_at(s, 8) + 4 * scr_num_models(s) <= s.len())
}

/// Sub-model `m`'s record, its payload-end lookup and its payload byte
/// range fit inside the bytes.
pub open spec fn scr_model_parses(s: Seq<u8>, m: int) -> bool {
    &&& scr_model_at(s, m) + 104 <= s.len()
    &&& (m + 1 < scr_num_models(s) ==> scr_model_at(s, m + 1) + 4 <= s.len())
    &&& scr_payload_end(s, m) >= scr_payload_start(s, m)
    &&& scr_payload_end(s, m) - scr_payload_start(s, m) <= usize::MAX
    &&& scr_payload_end(s, m) <= s.len()
}

/// The dispatcher may refuse this payload: a short or unrecognized tag,
/// or a recognized container that does not parse or whose plan has a
/// failing emission.
pub open spec fn scr_payload_may_fail(p: Seq<u8>) -> bool {
    ||| p.len() < 4
    ||| (p.subrange(0, 4) != wmb3_magic() && p.subrange(0, 4) != wmb4_magic())
    ||| (p.subrange(0, 4) == wmb3_magic() && (!crate::wmb_na::wmb_parses(p, 0) || exists|
        w: crate::wmb_na::Wmb,
    |
        {
            &&& #[trigger] w.parsed_from(p, 0)
            &&& exists|li: int, j: int|
                0 <= li < w.lods@.len() && 0 <= j < w.lods@[li].batch_infos@.len() && !(
                #[trigger] crate::wmb_na::emit_ok(&w, li, j))
        }))
    ||| (p.subrange(0, 4) == wmb4_magic() && (!crate::wmb_mgrr::wmb_parses(p, 0) || exists|
        w: crate::wmb_mgrr::Wmb,
    |
        {
            &&& #[trigger] w.parsed_from(p, 0)
            &&& exists|mi: int, j: int|
                0 <= mi < w.meshes@.len() && 0 <= j < crate::wmb_mgrr::mesh_plan(&w, mi).len()
                    && !(#[trigger] crate::wmb_mgrr::emit_ok(&w, mi, j))
        }))
}

/// Sub-model `m` is where a wrapper decode can fail: its record or
/// payload range does not fit, or its payload's decode may fail.
pub open spec fn scr_model_bad(s: Seq<u8>, m: int) -> bool {
    !scr_model_parses(s, m) || scr_payload_may_fail(scr_payload(s, m))
}

/// The rewritten record keeps every decoded field and takes sub-model
/// `m`'s name and transform parameters.
pub open spec fn scr_rewritten(new: MeshData, prev: MeshData, s: Seq<u8>, m: int) -> bool {
    &&& new.vertices == prev.vertices
    &&& new.indexes == prev.indexes
    &&& new.tangents == prev.tangents
    &&& new.normals == prev.normals
    &&& new.uv == prev.uv
    &&& new.albedo_texture_id == prev.albedo_texture_id
    &&& new.normal_texture_id == prev.normal_texture_id
    &&& new.mask_texture_id == prev.mask_texture_id
    &&& new.uses_transparency == prev.uses_transparency
    &&& new.should_be_visible == prev.should_be_visible
    &&& new.name@ == scr_model_name(s, m)
    &&& scr_record_transform(new, s, m)
}

/// A record with the same decoded fields satisfies the same
/// older-format core emission relation.
proof fn lemma_core_transfer_na(
    a: MeshData,
    b: MeshData,
    w: &crate::wmb_na::Wmb,
    lod: crate::wmb_na::Lod,
    li: int,
    j: int,
    ip: bool,
)
    requires
        crate::wmb_na::emitted_record_core_na(a, w, lod, li, j, ip),
        b.vertices == a.vertices,
        b.indexes == a.indexes,
        b.tangents == a.tangents,
        b.normals == a.normals,
        b.uv == a.uv,
        b.albedo_texture_id == a.albedo_texture_id,
        b.normal_texture_id == a.normal_texture_id,
        b.mask_texture_id == a.mask_texture_id,
        b.uses_transparency == a.uses_transparency,
        b.should_be_visible == a.should_be_visible,
    ensures
        crate::wmb_na::emitted_record_core_na(b, w, lod, li, j, ip),
{
}

/// A record with the same decoded fields satisfies the same
/// newer-format core emission relation.
proof fn lemma_core_transfer_mgrr(
    a: MeshData,
    b: MeshData,
    w: &crate::wmb_mgrr::Wmb,
    mesh: crate::wmb_mgrr::Mesh,
    batch_i: u16,
    wta_wtp: Option<&WtaWtp>,
)
    requires
        crate::wmb_mgrr::emitted_record_core_mgrr(a, w, mesh, batch_i, wta_wtp),
        b.vertices == a.vertices,
        b.indexes == a.indexes,
        b.tangents == a.tangents,
        b.normals == a.normals,
        b.uv == a.uv,
        b.albedo_texture_id == a.albedo_texture_id,
        b.normal_texture_id == a.normal_texture_id,
        b.mask_texture_id == a.mask_texture_id,
        b.uses_transparency == a.uses_transparency,
        b.should_be_visible == a.should_be_visible,
    ensures
        crate::wmb_mgrr::emitted_record_core_mgrr(b, w, mesh, batch_i, wta_wtp),
{
}

/// A group relation is stable under appending records behind it.
proof fn lemma_group_ok_extend(
    prev: Seq<MeshData>,
    v: Seq<MeshData>,
    base: int,
    len_g: int,
    s: Seq<u8>,
    m: int,
    wta_wtp: Option<&WtaWtp>,
)
    requires
        scr_group_ok(prev, base, len_g, s, m, wta_wtp),
        prev.len() <= v.len(),
        forall|i: int| 0 <= i < prev.len() ==> v[i] == prev[i],
    ensures
        scr_group_ok(v, base, len_g, s, m, wta_wtp),
{
    let p = scr_payload(s, m);
    if p.subrange(0, 4) == wmb3_magic() {
        let w = choose|w: crate::wmb_na::Wmb|
            {
                &&& #[trigger] w.parsed_from(p, 0)
                &&& len_g == crate::wmb_na::lod_plan_len(w.lods@)
                &&& forall|li: int, j: int|
                    0 <= li < w.lods@.len() && 0 <= j < w.lods@[li].batch_infos@.len()
                        ==> #[trigger] scr_group_record_na(prev, base, &w, li, j, s, m)
            };
        assert forall|li: int, j: int|
            0 <= li < w.lods@.len() && 0 <= j < w.lods@[li].batch_infos@.len()
                implies #[trigger] scr_group_record_na(v, base, &w, li, j, s, m) by {
            assert(scr_group_record_na(prev, base, &w, li, j, s, m));
        }
        assert(w.parsed_from(p, 0) && len_g == crate::wmb_na::lod_plan_len(w.lods@) && forall|
            li: int,
            j: int,
        |
            0 <= li < w.lods@.len() && 0 <= j < w.lods@[li].batch_infos@.len()
                ==> #[trigger] scr_group_record_na(v, base, &w, li, j, s, m));
    }
    if p.subrange(0, 4) == wmb4_magic() {
        let w = choose|w: crate::wmb_mgrr::Wmb|
            {
                &&& #[trigger] w.parsed_from(p, 0)
                &&& len_g == crate::wmb_mgrr::mesh_plan_len(w.meshes@)
                &&& forall|mi: int, j: int|
                    0 <= mi < w.meshes@.len() && 0 <= j < crate::wmb_mgrr::mesh_plan(&w, mi).len()
                        ==> #[trigger] scr_group_record_mgrr(prev, base, &w, mi, j, wta_wtp, s, m)
            };
        assert forall|mi: int, j: int|
            0 <= mi < w.meshes@.len() && 0 <= j < crate::wmb_mgrr::mesh_plan(&w, mi).len()
                implies #[trigger] scr_group_record_mgrr(v, base, &w, mi, j, wta_wtp, s, m) by {
            assert(scr_group_record_mgrr(prev, base, &w, mi, j, wta_wtp, s, m));
        }
        assert(w.parsed_from(p, 0) && len_g == crate::wmb_mgrr::mesh_plan_len(w.meshes@) && forall|
            mi: int,
            j: int,
        |
            0 <= mi < w.meshes@.len() && 0 <= j < crate::wmb_mgrr::mesh_plan(&w, mi).len()
                ==> #[trigger] scr_group_record_mgrr(v, base, &w, mi, j, wta_wtp, s, m));
    }
}

/// Decode a multi-model container: read the model-offset table, then
/// each model's name, transform and embedded payload; the payload byte
/// range runs to the next model's payload offset (or end of stream) and
/// is decoded by the generic dispatcher. The output is, model by model
/// in model order, exactly the dispatcher's records for each payload,
/// renamed to the model and carrying its transform parameters; a
/// failing model record, payload range or payload decode fails the
/// whole call.
#[verifier::rlimit(100)]
pub fn read_scr_mgrr(
    rd: &mut ByteReader,
    wta_wtp: Option<&WtaWtp>,
    textures: &mut HashMap<u32, TextureData>,
) -> (r: Result<Vec<MeshData>, DecodeError>)
    ensures
        final(rd).bytes() == old(rd).bytes(),
        forall|k: u32| #[trigger]
            old(textures)@.dom().contains(k) ==> final(textures)@.dom().contains(k)
                && final(textures)@[k] == old(textures)@[k],
        forall|k: u32| #[trigger]
            final(textures)@.dom().contains(k) ==> (old(textures)@.dom().contains(k)
                && final(textures)@[k] == old(textures)@[k])
                || final(textures)@[k].bytes@.len() == 4 * final(textures)@[k].width
                * final(textures)@[k].height,
        wta_wtp is None ==> final(textures)@ == old(textures)@,
        match r {
            Ok(v) => {
                &&& forall|i: int|
                    0 <= i < v@.len() ==> (#[trigger] v@[i].transform) is Trs
                &&& forall|i: int|
                    0 <= i < v@.len() ==> #[trigger] scr_record_ok(v@, final(rd).bytes(), i)
                &&& exists|bounds: Seq<int>|
                    {
                        &&& bounds.len() == scr_num_models(final(rd).bytes()) + 1
                        &&& bounds[0] == 0
                        &&& bounds[scr_num_models(final(rd).bytes())] == v@.len()
                        &&& forall|m2: int|
                            0 <= m2 < scr_num_models(final(rd).bytes()) ==> #[trigger] bounds[m2]
                                <= bounds[m2 + 1]
                        &&& forall|m2: int|
                            0 <= m2 < scr_num_models(final(rd).bytes()) ==> #[trigger] scr_group_ok(
                                v@,
                                bounds[m2],
                                bounds[m2 + 1] - bounds[m2],
                                final(rd).bytes(),
                                m2,
                                wta_wtp,
                            )
                    }
            },
            Err(e) => !scr_table_parses(final(rd).bytes()) || exists|m2: int|
                0 <= m2 < scr_num_models(final(rd).bytes()) && #[trigger] scr_model_bad(
                    final(rd).bytes(),
                    m2,
                ),
        },
{
    let ghost tex0 = textures@;
    let _ = rd.seek(6);
    let num_models = rd.read_u16()?;
    let offsets_offset = rd.read_u32()?;
    let _ = rd.seek(offsets_offset as u64);
    let mut offsets: Vec<u32> = Vec::new();
    let mut i: u16 = 0;
    while i < num_models
        invariant
            rd.bytes() == old(rd).bytes(),
            12 <= rd.bytes().len(),
            num_models == u16_at(rd.bytes(), 6),
            offsets_offset == u32_at(rd.bytes(), 8),
            i <= num_models,
            rd.cursor() == offsets_offset + 4 * i,
            i > 0 ==> offsets_offset + 4 * i <= rd.bytes().len(),
            offsets@.len() == i,
            forall|k: int| 0 <= k < i ==> offsets@[k] == u32_at(rd.bytes(), offsets_offset + 4 * k),
        decreases num_models - i,
    {
        let v = match rd.read_u32() {
            Ok(v) => v,
            Err(e) => {
                proof {
                    assert(!scr_table_parses(rd.bytes()));
                }
                return Err(e);
            },
        };
        offsets.push(v);
        i = i + 1;
    }
    let mut meshes: Vec<MeshData> = Vec::new();
    let ghost mut bounds: Seq<int> = seq![0int];
    let mut m: usize = 0;
    while m < offsets.len()
        invariant
            rd.bytes() == old(rd).bytes(),
            scr_table_parses(rd.bytes()),
            num_models == u16_at(rd.bytes(), 6),
            offsets_offset == u32_at(rd.bytes(), 8),
            offsets@.len() == num_models,
            forall|k: int|
                0 <= k < num_models ==> offsets@[k] == u32_at(rd.bytes(), offsets_offset + 4 * k),
            m <= offsets@.len(),
            bounds.len() == m + 1,
            bounds[0] == 0,
            bounds[m as int] == meshes@.len(),
            forall|m2: int| 0 <= m2 < m ==> #[trigger] bounds[m2] <= bounds[m2 + 1],
            forall|m2: int| 0 <= m2 <= m ==> 0 <= #[trigger] bounds[m2] <= meshes@.len(),
            forall|m2: int|
                0 <= m2 < m ==> #[trigger] scr_group_ok(
                    meshes@,
                    bounds[m2],
                    bounds[m2 + 1] - bounds[m2],
                    old(rd).bytes(),
                    m2,
                    wta_wtp,
                ),
            tex0 == old(textures)@,
            forall|k: u32| #[trigger]
                tex0.dom().contains(k) ==> textures@.dom().contains(k) && textures@[k] == tex0[k],
            forall|k: u32| #[trigger]
                textures@.dom().contains(k) ==> (tex0.dom().contains(k) && textures@[k]
                    == tex0[k]) || textures@[k].bytes@.len() == 4 * textures@[k].width
                    * textures@[k].height,
            wta_wtp is None ==> textures@ == tex0,
            forall|i: int| 0 <= i < meshes@.len() ==> (#[trigger] meshes@[i].transform) is Trs,
            forall|i: int|
                0 <= i < meshes@.len() ==> #[trigger] scr_record_ok(
                    meshes@,
                    old(rd).bytes(),
                    i,
                ),
        decreases offsets@.len() - m,
    {
        let ghost s0b = old(rd).bytes();
        proof {
            assert(scr_model_at(s0b, m as int) == offsets@[m as int] as int);
        }
        let _ = rd.seek(offsets[m] as u64);
        let wmb_offset = match rd.read_u32() {
            Ok(v) => v,
            Err(e) => {
                proof {
                    assert(scr_model_bad(s0b, m as int));
                }
                return Err(e);
            },
        };
        let raw_name = match rd.read_string(64) {
            Ok(v) => v,
            Err(e) => {
                proof {
                    assert(scr_model_bad(s0b, m as int));
                }
                return Err(e);
            },
        };
        let wmb_name = strip_zeros_exec(&raw_name);
        let fields = match read_nine_u32(rd) {
            Ok(v) => v,
            Err(e) => {
                proof {
                    assert(scr_model_bad(s0b, m as int));
                }
                return Err(e);
            },
        };
        let (t0, t1, t2, r0, r1, r2, s0, s1, s2) = fields;
        // the payload runs to the next model's payload offset, or to
        // the end of the stream for the last model
        let end: u64 = if m + 1 < offsets.len() {
            let _ = rd.seek(offsets[m + 1] as u64);
            proof {
                assert(scr_model_at(s0b, m as int + 1) == offsets@[m as int + 1] as int);
            }
            match rd.read_u32() {
                Ok(v) => v as u64,
                Err(e) => {
                    proof {
                        assert(scr_model_bad(s0b, m as int));
                    }
                    return Err(e);
                },
            }
        } else {
            rd.size()
        };
        proof {
            assert(end as int == scr_payload_end(s0b, m as int));
            assert(wmb_offset as int == scr_payload_start(s0b, m as int));
        }
        if end < wmb_offset as u64 {
            proof {
                assert(scr_model_bad(s0b, m as int));
            }
            return Err(DecodeError::ShortRead);
        }
        let size = end - wmb_offset as u64;
        if size > usize::MAX as u64 {
            proof {
                assert(scr_model_bad(s0b, m as int));
            }
            return Err(DecodeError::ShortRead);
        }
        let _ = rd.seek(wmb_offset as u64);
        let wmb_bytes = match rd.read(size as usize) {
            Ok(v) => v,
            Err(e) => {
                proof {
                    assert(scr_model_bad(s0b, m as int));
                }
                return Err(e);
            },
        };
        proof {
            assert(wmb_bytes@ == scr_payload(s0b, m as int));
        }
        let mut sub = ByteReader::new(wmb_bytes);
        let mut mesh_datas = match crate::wmb::read_wmb(
            wmb_name.as_slice(),
            &mut sub,
            wta_wtp,
            textures,
        ) {
            Ok(v) => v,
            Err(e) => {
                proof {
                    assert(scr_payload_may_fail(scr_payload(s0b, m as int)));
                    assert(scr_model_bad(s0b, m as int));
                }
                return Err(e);
            },
        };
        let ghost sub0 = mesh_datas@;
        let ghost base = meshes@.len() as int;
        let ghost meshes_before = meshes@;
        while mesh_datas.len() > 0
            invariant
                m < offsets@.len(),
                scr_model_at(s0b, m as int) == offsets@[m as int] as int,
                m < scr_num_models(s0b),
                wmb_name@ == scr_model_name(s0b, m as int),
                t0 == scr_model_field(s0b, m as int, 0),
                t1 == scr_model_field(s0b, m as int, 1),
                t2 == scr_model_field(s0b, m as int, 2),
                r0 == scr_model_field(s0b, m as int, 3),
                r1 == scr_model_field(s0b, m as int, 4),
                r2 == scr_model_field(s0b, m as int, 5),
                s0 == scr_model_field(s0b, m as int, 6),
                s1 == scr_model_field(s0b, m as int, 7),
                s2 == scr_model_field(s0b, m as int, 8),
                base == meshes_before.len(),
                mesh_datas@.len() <= sub0.len(),
                mesh_datas@ == sub0.subrange(
                    sub0.len() - mesh_datas@.len(),
                    sub0.len() as int,
                ),
                meshes@.len() == base + (sub0.len() - mesh_datas@.len()),
                forall|i: int| 0 <= i < base ==> meshes@[i] == meshes_before[i],
                forall|i: int|
                    0 <= i < sub0.len() - mesh_datas@.len() ==> #[trigger] scr_rewritten(
                        meshes@[base + i],
                        sub0[i],
                        s0b,
                        m as int,
                    ),
                forall|i: int| 0 <= i < meshes@.len() ==> (#[trigger] meshes@[i].transform) is Trs,
                forall|i: int|
                    0 <= i < meshes@.len() ==> #[trigger] scr_record_ok(meshes@, s0b, i),
            decreases mesh_datas@.len(),
        {
            let ghost g = sub0.len() - mesh_datas@.len();
            let md = mesh_datas.remove(0);
            proof {
                assert(md == sub0[g]);
                assert(mesh_datas@ =~= sub0.subrange(g + 1, sub0.len() as int));
            }
            let mut fresh_name: Vec<u8> = Vec::new();
            crate::bytes_util::push_all(&mut fresh_name, wmb_name.as_slice());
            let ghost prev = meshes@;
            meshes.push(MeshData {
                name: fresh_name,
                vertices: md.vertices,
                indexes: md.indexes,
                tangents: md.tangents,
                normals: md.normals,
                uv: md.uv,
                albedo_texture_id: md.albedo_texture_id,
                normal_texture_id: md.normal_texture_id,
                mask_texture_id: md.mask_texture_id,
                transform: MeshTransform::Trs {
                    translate: [t0, t1, t2],
                    rotation: [r0, r1, r2],
                    scale: [s0, s1, s2],
                },
                uses_transparency: md.uses_transparency,
                should_be_visible: md.should_be_visible,
            });
            proof {
                let last = meshes@.len() - 1;
                assert(meshes@[last].transform matches MeshTransform::Trs {
                    translate,
                    rotation,
                    scale,
                } && translate@ == seq![
                    scr_model_field(s0b, m as int, 0),
                    scr_model_field(s0b, m as int, 1),
                    scr_model_field(s0b, m as int, 2),
                ] && rotation@ == seq![
                    scr_model_field(s0b, m as int, 3),
                    scr_model_field(s0b, m as int, 4),
                    scr_model_field(s0b, m as int, 5),
                ] && scale@ == seq![
                    scr_model_field(s0b, m as int, 6),
                    scr_model_field(s0b, m as int, 7),
                    scr_model_field(s0b, m as int, 8),
                ]);
                assert(scr_rewritten(meshes@[last], sub0[g], s0b, m as int));
                assert forall|i: int| 0 <= i < sub0.len() - mesh_datas@.len()
                    implies #[trigger] scr_rewritten(meshes@[base + i], sub0[i], s0b, m as int) by {
                    if i < g {
                        assert(scr_rewritten(prev[base + i], sub0[i], s0b, m as int));
                        assert(meshes@[base + i] == prev[base + i]);
                    }
                }
                assert(scr_record_ok(meshes@, s0b, last));
                assert forall|i: int| 0 <= i < meshes@.len() implies #[trigger] scr_record_ok(
                    meshes@,
                    s0b,
                    i,
                ) by {
                    if i < last {
                        assert(scr_record_ok(prev, s0b, i));
                        let mm = choose|mm: int|
                            {
                                &&& 0 <= mm < scr_num_models(s0b)
                                &&& #[trigger] scr_model_at(s0b, mm) >= 0
                                &&& prev[i].name@ == scr_model_name(s0b, mm)
                                &&& scr_record_transform(prev[i], s0b, mm)
                            };
                        assert(meshes@[i] == prev[i]);
                    }
                }
            }
        }
        proof {
            // previous groups are untouched by this model's appends
            assert forall|m2: int| 0 <= m2 < m implies #[trigger] scr_group_ok(
                meshes@,
                bounds[m2],
                bounds[m2 + 1] - bounds[m2],
                s0b,
                m2,
                wta_wtp,
            ) by {
                lemma_group_ok_extend(
                    meshes_before,
                    meshes@,
                    bounds[m2],
                    bounds[m2 + 1] - bounds[m2],
                    s0b,
                    m2,
                    wta_wtp,
                );
            }
            // this model's group is the dispatcher's output, rewritten
            let p = scr_payload(s0b, m as int);
            let len_g = meshes@.len() - base;
            assert(len_g == sub0.len());
            let ip = crate::wmb_na::is_player_model(wmb_name@);
            if p.subrange(0, 4) == wmb3_magic() {
                assert(exists|w: crate::wmb_na::Wmb|
                    {
                        &&& #[trigger] w.parsed_from(p, 0)
                        &&& sub0.len() == crate::wmb_na::lod_plan_len(w.lods@)
                        &&& forall|li: int, j: int|
                            0 <= li < w.lods@.len() && 0 <= j < w.lods@[li].batch_infos@.len()
                                ==> #[trigger] crate::wmb_na::plan_record_ok(sub0, &w, li, j, ip)
                    });
                let w = choose|w: crate::wmb_na::Wmb|
                    {
                        &&& #[trigger] w.parsed_from(p, 0)
                        &&& sub0.len() == crate::wmb_na::lod_plan_len(w.lods@)
                        &&& forall|li: int, j: int|
                            0 <= li < w.lods@.len() && 0 <= j < w.lods@[li].batch_infos@.len()
                                ==> #[trigger] crate::wmb_na::plan_record_ok(sub0, &w, li, j, ip)
                    };
                assert forall|li: int, j: int|
                    0 <= li < w.lods@.len() && 0 <= j < w.lods@[li].batch_infos@.len()
                        implies #[trigger] scr_group_record_na(
                    meshes@,
                    base,
                    &w,
                    li,
                    j,
                    s0b,
                    m as int,
                ) by {
                    assert(crate::wmb_na::plan_record_ok(sub0, &w, li, j, ip));
                    let off = crate::wmb_na::plan_offset(&w, li) + j;
                    assert(scr_rewritten(meshes@[base + off], sub0[off], s0b, m as int));
                    lemma_core_transfer_na(
                        sub0[off],
                        meshes@[base + off],
                        &w,
                        w.lods@[li],
                        li,
                        j,
                        ip,
                    );
                }
                assert(scr_group_ok(meshes@, base, len_g, s0b, m as int, wta_wtp));
            } else {
                assert(exists|w: crate::wmb_mgrr::Wmb|
                    {
                        &&& #[trigger] w.parsed_from(p, 0)
                        &&& sub0.len() == crate::wmb_mgrr::mesh_plan_len(w.meshes@)
                        &&& forall|mi: int, j: int|
                            0 <= mi < w.meshes@.len() && 0 <= j < crate::wmb_mgrr::mesh_plan(
                                &w,
                                mi,
                            ).len() ==> #[trigger] crate::wmb_mgrr::plan_record_ok(
                                sub0,
                                &w,
                                mi,
                                j,
                                wta_wtp,
                            )
                    });
                let w = choose|w: crate::wmb_mgrr::Wmb|
                    {
                        &&& #[trigger] w.parsed_from(p, 0)
                        &&& sub0.len() == crate::wmb_mgrr::mesh_plan_len(w.meshes@)
                        &&& forall|mi: int, j: int|
                            0 <= mi < w.meshes@.len() && 0 <= j < crate::wmb_mgrr::mesh_plan(
                                &w,
                                mi,
                            ).len() ==> #[trigger] crate::wmb_mgrr::plan_record_ok(
                                sub0,
                                &w,
                                mi,
                                j,
                                wta_wtp,
                            )
                    };
                assert forall|mi: int, j: int|
                    0 <= mi < w.meshes@.len() && 0 <= j < crate::wmb_mgrr::mesh_plan(&w, mi).len()
                        implies #[trigger] scr_group_record_mgrr(
                    meshes@,
                    base,
                    &w,
                    mi,
                    j,
                    wta_wtp,
                    s0b,
                    m as int,
                ) by {
                    assert(crate::wmb_mgrr::plan_record_ok(sub0, &w, mi, j, wta_wtp));
                    let off = crate::wmb_mgrr::plan_offset(&w, mi) + j;
                    assert(scr_rewritten(meshes@[base + off], sub0[off], s0b, m as int));
                    lemma_core_transfer_mgrr(
                        sub0[off],
                        meshes@[base + off],
                        &w,
                        w.meshes@[mi],
                        crate::wmb_mgrr::mesh_plan(&w, mi)[j],
                        wta_wtp,
                    );
                }
                assert(scr_group_ok(meshes@, base, len_g, s0b, m as int, wta_wtp));
            }
        }
        m = m + 1;
        proof {
            bounds = bounds.push(meshes@.len() as int);
        }
    }
    proof {
        let s_final = rd.bytes();
        assert(bounds.len() == scr_num_models(s_final) + 1);
        assert(bounds[scr_num_models(s_final)] == meshes@.len());
        assert(exists|b2: Seq<int>|
            {
                &&& b2.len() == scr_num_models(s_final) + 1
                &&& b2[0] == 0
                &&& b2[scr_num_models(s_final)] == meshes@.len()
                &&& forall|m2: int|
                    0 <= m2 < scr_num_models(s_final) ==> #[trigger] b2[m2] <= b2[m2 + 1]
                &&& forall|m2: int|
                    0 <= m2 < scr_num_models(s_final) ==> #[trigger] scr_group_ok(
                        meshes@,
                        b2[m2],
                        b2[m2 + 1] - b2[m2],
                        s_final,
                        m2,
                        wta_wtp,
                    )
            }) by {
            assert(forall|m2: int|
                0 <= m2 < scr_num_models(s_final) ==> #[trigger] bounds[m2] <= bounds[m2 + 1]);
        }
    }
    Ok(meshes)
}

fn read_nine_u32(rd: &mut ByteReader) -> (r: Result<
    (u32, u32, u32, u32, u32, u32, u32, u32, u32),
    DecodeError,
>)
    ensures
        final(rd).bytes() == old(rd).bytes(),
        match r {
            Ok(v) => {
                &&& old(rd).cursor() + 36 <= final(rd).bytes().len()
                &&& v.0 == u32_at(final(rd).bytes(), old(rd).cursor())
                &&& v.1 == u32_at(final(rd).bytes(), old(rd).cursor() + 4)
                &&& v.2 == u32_at(final(rd).bytes(), old(rd).cursor() + 8)
                &&& v.3 == u32_at(final(rd).bytes(), old(rd).cursor() + 12)
                &&& v.4 == u32_at(final(rd).bytes(), old(rd).cursor() + 16)
                &&& v.5 == u32_at(final(rd).bytes(), old(rd).cursor() + 20)
                &&& v.6 == u32_at(final(rd).bytes(), old(rd).cursor() + 24)
                &&& v.7 == u32_at(final(rd).bytes(), old(rd).cursor() + 28)
                &&& v.8 == u32_at(final(rd).bytes(), old(rd).cursor() + 32)
                &&& final(rd).cursor() == old(rd).cursor() + 36
            },
            Err(e) => {
                &&& e == DecodeError::ShortRead
                &&& old(rd).cursor() + 36 > final(rd).bytes().len()
            },
        },
{
    let a0 = rd.read_u32()?;
    let a1 = rd.read_u32()?;
    let a2 = rd.read_u32()?;
    let a3 = rd.read_u32()?;
    let a4 = rd.read_u32()?;
    let a5 = rd.read_u32()?;
    let a6 = rd.read_u32()?;
    let a7 = rd.read_u32()?;
    let a8 = rd.read_u32()?;
    Ok((a0, a1, a2, a3, a4, a5, a6, a7, a8))
}

} // verus!
