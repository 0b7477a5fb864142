//! Top-level decode entry over raw byte buffers: open the optional
//! texture archive, sniff the container's 4-byte tag, run the matching
//! decoder and aggregate the scene. Either a whole scene is produced or
//! an error — never a partial result.

use std::collections::HashMap;

use vstd::prelude::*;

use crate::byte_stream::ByteReader;
use crate::error::DecodeError;
use crate::mesh_data::SceneData;
use crate::mesh_data::TextureData;
use crate::wmb::wmb3_magic;
use crate::wmb::wmb4_magic;
use crate::wta_wtp::WtaWtp;

verus! {

broadcast use crate::byte_stream::lemma_cursor_nonneg;

/// "SCR\0", the multi-model wrapper tag.
pub open spec fn scr_magic() -> Seq<u8> {
    seq![0x53u8, 0x43u8, 0x52u8, 0x00u8]
}

/// The given buffers hold a parsable archive index: resolution succeeds
/// exactly then.
pub open spec fn archive_available(wta_wtb: Option<&[u8]>, wtp: Option<&[u8]>) -> bool {
    match wta_wtb {
        Some(a) => crate::wta_wtp::wta_ok(a@),
        None => false,
    }
}

/// `aw` is the archive the given buffers open to: the parsed index plus
/// the data buffer (or the combined buffer serving both roles).
pub open spec fn archive_matches(
    aw: WtaWtp,
    wta_wtb: Option<&[u8]>,
    wtp: Option<&[u8]>,
) -> bool {
    match (wta_wtb, wtp) {
        (Some(a), Some(p)) => aw.entries() == crate::wta_wtp::wta_map_upto(
            a@,
            crate::wta_wtp::wta_count(a@),
        ) && aw.payload() == p@,
        (Some(a), Option::None) => aw.entries() == crate::wta_wtp::wta_map_upto(
            a@,
            crate::wta_wtp::wta_count(a@),
        ) && aw.payload() == a@,
        _ => false,
    }
}

/// The group bounds split the wrapper output model by model, in model
/// order, each group being the dispatcher's records for that model.
pub open spec fn scr_bounds_ok(
    bounds: Seq<int>,
    v: Seq<crate::mesh_data::MeshData>,
    s: Seq<u8>,
    wta_wtp: Option<&WtaWtp>,
) -> bool {
    &&& bounds.len() == crate::scr_mgrr::scr_num_models(s) + 1
    &&& bounds[0] == 0
    &&& bounds[crate::scr_mgrr::scr_num_models(s)] == v.len()
    &&& forall|m2: int|
        0 <= m2 < crate::scr_mgrr::scr_num_models(s) ==> #[trigger] bounds[m2] <= bounds[m2 + 1]
    &&& forall|m2: int|
        0 <= m2 < crate::scr_mgrr::scr_num_models(s) ==> #[trigger] crate::scr_mgrr::scr_group_ok(
            v,
            bounds[m2],
            bounds[m2 + 1] - bounds[m2],
            s,
            m2,
            wta_wtp,
        )
}

/// Decode a scene from raw buffers: the container bytes plus an
/// optional texture-archive index/data pair (or combined buffer). A
/// missing or malformed archive is not fatal — meshes then keep their
/// unresolved texture ids and the texture map stays empty — but an
/// unrecognized container tag is: no scene is produced.
pub fn read_wmb_scr_from_bytes(
    name: &[u8],
    wmb: &[u8],
    wta_wtb: Option<&[u8]>,
    wtp: Option<&[u8]>,
) -> (r: Result<SceneData, DecodeError>)
    ensures
        wmb@.len() < 4 ==> r == Err::<SceneData, DecodeError>(DecodeError::ShortRead),
        (wmb@.len() >= 4 && wmb@.subrange(0, 4) != wmb3_magic() && wmb@.subrange(0, 4)
            != wmb4_magic() && wmb@.subrange(0, 4) != scr_magic()) ==> (r matches Err(e) && e
            matches DecodeError::UnknownMagic(m) && m@ == wmb@.subrange(0, 4)),
        r is Ok ==> wmb@.len() >= 4 && (wmb@.subrange(0, 4) == wmb3_magic() || wmb@.subrange(0, 4)
            == wmb4_magic() || wmb@.subrange(0, 4) == scr_magic()),
        match r {
            Ok(sc) => {
                &&& forall|k: u32| #[trigger]
                    sc.textures@.dom().contains(k) ==> sc.textures@[k].bytes@.len() == 4
                        * sc.textures@[k].width * sc.textures@[k].height
                &&& !archive_available(wta_wtb, wtp) ==> sc.textures@ == Map::<
                    u32,
                    TextureData,
                >::empty()
                &&& wmb@.len() >= 4 && wmb@.subrange(0, 4) == wmb3_magic() ==> exists|
                    w: crate::wmb_na::Wmb,
                |
                    {
                        &&& #[trigger] w.parsed_from(wmb@, 0)
                        &&& sc.meshes@.len() == crate::wmb_na::lod_plan_len(w.lods@)
                        &&& forall|li: int, j: int|
                            0 <= li < w.lods@.len() && 0 <= j < w.lods@[li].batch_infos@.len()
                                ==> #[trigger] crate::wmb_na::emit_ok(&w, li, j)
                        &&& forall|li: int, j: int|
                            0 <= li < w.lods@.len() && 0 <= j < w.lods@[li].batch_infos@.len()
                                ==> #[trigger] crate::wmb_na::plan_record_ok(
                                sc.meshes@,
                                &w,
                                li,
                                j,
                                crate::wmb_na::is_player_model(name@),
                            )
                        &&& archive_available(wta_wtb, wtp) ==> exists|aw: WtaWtp|
                            #[trigger] archive_matches(aw, wta_wtb, wtp)
                                && crate::texture::cache_view(sc.textures@)
                                == crate::wmb_na::cache_after_all(
                                crate::texture::cache_view(Map::<u32, TextureData>::empty()),
                                &w,
                                &aw,
                                w.lods@.len() as int,
                            )
                    }
                &&& wmb@.len() >= 4 && wmb@.subrange(0, 4) == wmb4_magic() ==> exists|
                    w: crate::wmb_mgrr::Wmb,
                |
                    {
                        &&& #[trigger] w.parsed_from(wmb@, 0)
                        &&& sc.meshes@.len() == crate::wmb_mgrr::mesh_plan_len(w.meshes@)
                        &&& forall|mi: int, j: int|
                            0 <= mi < w.meshes@.len() && 0 <= j < crate::wmb_mgrr::mesh_plan(
                                &w,
                                mi,
                            ).len() ==> #[trigger] crate::wmb_mgrr::emit_ok(&w, mi, j)
                        &&& !archive_available(wta_wtb, wtp) ==> forall|mi: int, j: int|
                            0 <= mi < w.meshes@.len() && 0 <= j < crate::wmb_mgrr::mesh_plan(
                                &w,
                                mi,
                            ).len() ==> #[trigger] crate::wmb_mgrr::plan_record_ok(
                                sc.meshes@,
                                &w,
                                mi,
                                j,
                                Option::<&WtaWtp>::None,
                            )
                        &&& archive_available(wta_wtb, wtp) ==> exists|aw: WtaWtp|
                            {
                                &&& #[trigger] archive_matches(aw, wta_wtb, wtp)
                                &&& forall|mi: int, j: int|
                                    0 <= mi < w.meshes@.len() && 0 <= j
                                        < crate::wmb_mgrr::mesh_plan(&w, mi).len()
                                        ==> #[trigger] crate::wmb_mgrr::plan_record_ok(
                                        sc.meshes@,
                                        &w,
                                        mi,
                                        j,
                                        Some(&aw),
                                    )
                                &&& crate::texture::cache_view(sc.textures@)
                                    == crate::wmb_mgrr::cache_after_all(
                                    crate::texture::cache_view(Map::<u32, TextureData>::empty()),
                                    &w,
                                    &aw,
                                    w.meshes@.len() as int,
                                )
                            }
                    }
                &&& wmb@.len() >= 4 && wmb@.subrange(0, 4) == scr_magic() ==> {
                    &&& forall|i: int|
                        0 <= i < sc.meshes@.len() ==> (#[trigger] sc.meshes@[i].transform) is Trs
                    &&& forall|i: int|
                        0 <= i < sc.meshes@.len() ==> #[trigger] crate::scr_mgrr::scr_record_ok(
                            sc.meshes@,
                            wmb@,
                            i,
                        )
                    &&& !archive_available(wta_wtb, wtp) ==> exists|bounds: Seq<int>|
                        scr_bounds_ok(bounds, sc.meshes@, wmb@, Option::<&WtaWtp>::None)
                    &&& archive_available(wta_wtb, wtp) ==> exists|aw: WtaWtp|
                        #[trigger] archive_matches(aw, wta_wtb, wtp) && exists|bounds: Seq<int>|
                            scr_bounds_ok(bounds, sc.meshes@, wmb@, Some(&aw))
                }
            },
            Err(e) => {
                &&& (wmb@.len() >= 4 && wmb@.subrange(0, 4) == scr_magic())
                    ==> !crate::scr_mgrr::scr_table_parses(wmb@) || exists|m2: int|
                    0 <= m2 < crate::scr_mgrr::scr_num_models(wmb@)
                        && #[trigger] crate::scr_mgrr::scr_model_bad(wmb@, m2)
                &&& (wmb@.len() >= 4 && wmb@.subrange(0, 4) == wmb3_magic())
                    ==> !crate::wmb_na::wmb_parses(wmb@, 0) || exists|w: crate::wmb_na::Wmb|
                    {
                        &&& #[trigger] w.parsed_from(wmb@, 0)
                        &&& exists|li: int, j: int|
                            0 <= li < w.lods@.len() && 0 <= j < w.lods@[li].batch_infos@.len()
                                && !(#[trigger] crate::wmb_na::emit_ok(&w, li, j))
                    }
                &&& (wmb@.len() >= 4 && wmb@.subrange(0, 4) == wmb4_magic())
                    ==> !crate::wmb_mgrr::wmb_parses(wmb@, 0) || exists|w: crate::wmb_mgrr::Wmb|
                    {
                        &&& #[trigger] w.parsed_from(wmb@, 0)
                        &&& exists|mi: int, j: int|
                            0 <= mi < w.meshes@.len() && 0 <= j < crate::wmb_mgrr::mesh_plan(
                                &w,
                                mi,
                            ).len() && !(#[trigger] crate::wmb_mgrr::emit_ok(&w, mi, j))
                    }
            },
        },
{
    let mut reader = ByteReader::new(vstd::slice::slice_to_vec(wmb));
    let magic = reader.read_string(4)?;
    let _ = reader.seek(0);
    let wta_wtp = match WtaWtp::from_bytes(wta_wtb, wtp) {
        Ok(w) => Some(w),
        Err(e) => None,
    };
    let wta_ref = wta_wtp.as_ref();
    let mut textures: HashMap<u32, TextureData> = HashMap::new();
    let is3 = magic[0] == 0x57 && magic[1] == 0x4D && magic[2] == 0x42 && magic[3] == 0x33;
    let is4 = magic[0] == 0x57 && magic[1] == 0x4D && magic[2] == 0x42 && magic[3] == 0x34;
    let isScr = magic[0] == 0x53 && magic[1] == 0x43 && magic[2] == 0x52 && magic[3] == 0x00;
    proof {
        if is3 {
            assert(magic@ =~= wmb3_magic());
        }
        if magic@ == wmb3_magic() {
            assert(magic@[0] == wmb3_magic()[0] && magic@[1] == wmb3_magic()[1] && magic@[2]
                == wmb3_magic()[2] && magic@[3] == wmb3_magic()[3]);
        }
        if is4 {
            assert(magic@ =~= wmb4_magic());
        }
        if magic@ == wmb4_magic() {
            assert(magic@[0] == wmb4_magic()[0] && magic@[1] == wmb4_magic()[1] && magic@[2]
                == wmb4_magic()[2] && magic@[3] == wmb4_magic()[3]);
        }
        if isScr {
            assert(magic@ =~= scr_magic());
        }
        if magic@ == scr_magic() {
            assert(magic@[0] == scr_magic()[0] && magic@[1] == scr_magic()[1] && magic@[2]
                == scr_magic()[2] && magic@[3] == scr_magic()[3]);
        }
        assert(wta_ref is Some <==> archive_available(wta_wtb, wtp));
        match wta_ref {
            Some(aw) => {
                assert(archive_matches(*aw, wta_wtb, wtp));
            },
            None => {},
        }
    }
    let meshes = if is3 {
        crate::wmb_na::read_wmb_na(name, &mut reader, wta_ref, &mut textures)?
    } else if is4 {
        crate::wmb_mgrr::read_wmb_mgrr(&mut reader, wta_ref, &mut textures)?
    } else if isScr {
        crate::scr_mgrr::read_scr_mgrr(&mut reader, wta_ref, &mut textures)?
    } else {
        let m = [magic[0], magic[1], magic[2], magic[3]];
        proof {
            assert(m@ =~= wmb@.subrange(0, 4));
        }
        return Err(DecodeError::UnknownMagic(m));
    };
    proof {
        if isScr {
            let b = choose|b: Seq<int>|
                {
                    &&& b.len() == crate::scr_mgrr::scr_num_models(wmb@) + 1
                    &&& b[0] == 0
                    &&& b[crate::scr_mgrr::scr_num_models(wmb@)] == meshes@.len()
                    &&& forall|m2: int|
                        0 <= m2 < crate::scr_mgrr::scr_num_models(wmb@) ==> #[trigger] b[m2] <= b[
                            m2 + 1
                        ]
                    &&& forall|m2: int|
                        0 <= m2 < crate::scr_mgrr::scr_num_models(wmb@)
                            ==> #[trigger] crate::scr_mgrr::scr_group_ok(
                            meshes@,
                            b[m2],
                            b[m2 + 1] - b[m2],
                            wmb@,
                            m2,
                            wta_ref,
                        )
                };
            match wta_ref {
                Some(aw) => {
                    assert(scr_bounds_ok(b, meshes@, wmb@, Some(aw)));
                },
                None => {
                    assert(scr_bounds_ok(b, meshes@, wmb@, Option::<&WtaWtp>::None));
                },
            }
        }
    }
    Ok(SceneData { meshes, textures })
}

} // verus!
