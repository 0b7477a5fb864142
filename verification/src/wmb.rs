//! Format dispatcher for a bare mesh container: peek the 4-byte tag
//! without consuming the stream, then hand off to the matching decoder.

use std::collections::HashMap;

use vstd::prelude::*;

use crate::byte_stream::ByteReader;
use crate::error::DecodeError;
use crate::mesh_data::MeshData;
use crate::mesh_data::TextureData;
use crate::wta_wtp::WtaWtp;

verus! {

broadcast use crate::byte_stream::lemma_cursor_nonneg;

/// "WMB3", the older single-skeleton container tag.
pub open spec fn wmb3_magic() -> Seq<u8> {
    seq![0x57u8, 0x4Du8, 0x42u8, 0x33u8]
}

/// "WMB4", the newer container tag.
pub open spec fn wmb4_magic() -> Seq<u8> {
    seq![0x57u8, 0x4Du8, 0x42u8, 0x34u8]
}

/// The 4-byte tag at the reader's position, when there is one.
pub open spec fn magic_at(s: Seq<u8>, at: int) -> Seq<u8> {
    s.subrange(at, at + 4)
}

/// Decode a mesh container of either version, sniffing its leading
/// 4-byte tag and rewinding before delegating: the payload is decoded
/// from offset zero. An unrecognized tag is a fatal error naming the
/// tag, and leaves the texture cache untouched; there is no fallback
/// decoder.
pub fn read_wmb(
    name: &[u8],
    rd: &mut ByteReader,
    wta_wtp: Option<&WtaWtp>,
    textures: &mut HashMap<u32, TextureData>,
) -> (r: Result<Vec<MeshData>, DecodeError>)
    ensures
        final(rd).bytes() == old(rd).bytes(),
        forall|k: u32| #[trigger]
            old(textures)@.dom().contains(k) ==> final(textures)@.dom().contains(k)
                && final(textures)@[k] == old(textures)@[k],
        forall|k: u32| #[trigger]
            final(textures)@.dom().contains(k) ==> (old(textures)@.dom().contains(k)
                && final(textures)@[k] == old(textures)@[k])
                || final(textures)@[k].bytes@.len() == 4 * final(textures)@[k].width
                * final(textures)@[k].height,
        wta_wtp is None ==> final(textures)@ == old(textures)@,
        match r {
            Ok(v) => {
                &&& old(rd).cursor() + 4 <= old(rd).bytes().len()
                &&& magic_at(old(rd).bytes(), old(rd).cursor()) == wmb3_magic() || magic_at(
                    old(rd).bytes(),
                    old(rd).cursor(),
                ) == wmb4_magic()
                &&& magic_at(old(rd).bytes(), old(rd).cursor()) == wmb3_magic() ==> exists|
                    w: crate::wmb_na::Wmb,
                |
                    {
                        &&& #[trigger] w.parsed_from(old(rd).bytes(), 0)
                        &&& v@.len() == crate::wmb_na::lod_plan_len(w.lods@)
                        &&& forall|li: int, j: int|
                            0 <= li < w.lods@.len() && 0 <= j < w.lods@[li].batch_infos@.len()
                                ==> #[trigger] crate::wmb_na::emit_ok(&w, li, j)
                        &&& forall|li: int, j: int|
                            0 <= li < w.lods@.len() && 0 <= j < w.lods@[li].batch_infos@.len()
                                ==> #[trigger] crate::wmb_na::plan_record_ok(
                                v@,
                                &w,
                                li,
                                j,
                                crate::wmb_na::is_player_model(name@),
                            )
                        &&& match wta_wtp {
                            Some(wt) => crate::texture::cache_view(final(textures)@)
                                == crate::wmb_na::cache_after_all(
                                crate::texture::cache_view(old(textures)@),
                                &w,
                                wt,
                                w.lods@.len() as int,
                            ),
                            None => true,
                        }
                    }
                &&& magic_at(old(rd).bytes(), old(rd).cursor()) == wmb4_magic() ==> exists|
                    w: crate::wmb_mgrr::Wmb,
                |
                    {
                        &&& #[trigger] w.parsed_from(old(rd).bytes(), 0)
                        &&& v@.len() == crate::wmb_mgrr::mesh_plan_len(w.meshes@)
                        &&& forall|mi: int, j: int|
                            0 <= mi < w.meshes@.len() && 0 <= j < crate::wmb_mgrr::mesh_plan(
                                &w,
                                mi,
                            ).len() ==> #[trigger] crate::wmb_mgrr::emit_ok(&w, mi, j)
                        &&& forall|mi: int, j: int|
                            0 <= mi < w.meshes@.len() && 0 <= j < crate::wmb_mgrr::mesh_plan(
                                &w,
                                mi,
                            ).len() ==> #[trigger] crate::wmb_mgrr::plan_record_ok(
                                v@,
                                &w,
                                mi,
                                j,
                                wta_wtp,
                            )
                        &&& match wta_wtp {
                            Some(wt) => crate::texture::cache_view(final(textures)@)
                                == crate::wmb_mgrr::cache_after_all(
                                crate::texture::cache_view(old(textures)@),
                                &w,
                                wt,
                                w.meshes@.len() as int,
                            ),
                            None => true,
                        }
                    }
            },
            Err(e) => {
                &&& old(rd).cursor() + 4 > old(rd).bytes().len() ==> e == DecodeError::ShortRead
                    && final(textures)@ == old(textures)@
                &&& (old(rd).cursor() + 4 <= old(rd).bytes().len() && magic_at(
                    old(rd).bytes(),
                    old(rd).cursor(),
                ) != wmb3_magic() && magic_at(old(rd).bytes(), old(rd).cursor()) != wmb4_magic())
                    ==> (e matches DecodeError::UnknownMagic(m) && m@ == magic_at(
                    old(rd).bytes(),
                    old(rd).cursor(),
                )) && final(textures)@ == old(textures)@
                &&& (old(rd).cursor() + 4 <= old(rd).bytes().len() && magic_at(
                    old(rd).bytes(),
                    old(rd).cursor(),
                ) == wmb3_magic()) ==> !crate::wmb_na::wmb_parses(old(rd).bytes(), 0) || exists|
                    w: crate::wmb_na::Wmb,
                |
                    {
                        &&& #[trigger] w.parsed_from(old(rd).bytes(), 0)
                        &&& exists|li: int, j: int|
                            0 <= li < w.lods@.len() && 0 <= j < w.lods@[li].batch_infos@.len()
                                && !(#[trigger] crate::wmb_na::emit_ok(&w, li, j))
                    }
                &&& (old(rd).cursor() + 4 <= old(rd).bytes().len() && magic_at(
                    old(rd).bytes(),
                    old(rd).cursor(),
                ) == wmb4_magic()) ==> !crate::wmb_mgrr::wmb_parses(old(rd).bytes(), 0) || exists|
                    w: crate::wmb_mgrr::Wmb,
                |
                    {
                        &&& #[trigger] w.parsed_from(old(rd).bytes(), 0)
                        &&& exists|mi: int, j: int|
                            0 <= mi < w.meshes@.len() && 0 <= j < crate::wmb_mgrr::mesh_plan(
                                &w,
                                mi,
                            ).len() && !(#[trigger] crate::wmb_mgrr::emit_ok(&w, mi, j))
                    }
            },
        },
{
    let magic = rd.read_string(4)?;
    let _ = rd.seek(0);
    let is3 = magic.len() == 4 && magic[0] == 0x57 && magic[1] == 0x4D && magic[2] == 0x42
        && magic[3] == 0x33;
    let is4 = magic.len() == 4 && magic[0] == 0x57 && magic[1] == 0x4D && magic[2] == 0x42
        && magic[3] == 0x34;
    proof {
        if is3 {
            assert(magic@ =~= wmb3_magic());
        }
        if magic@ == wmb3_magic() {
            assert(magic@[0] == wmb3_magic()[0] && magic@[1] == wmb3_magic()[1] && magic@[2]
                == wmb3_magic()[2] && magic@[3] == wmb3_magic()[3]);
        }
        if is4 {
            assert(magic@ =~= wmb4_magic());
        }
        if magic@ == wmb4_magic() {
            assert(magic@[0] == wmb4_magic()[0] && magic@[1] == wmb4_magic()[1] && magic@[2]
                == wmb4_magic()[2] && magic@[3] == wmb4_magic()[3]);
        }
    }
    if is3 {
        crate::wmb_na::read_wmb_na(name, rd, wta_wtp, textures)
    } else if is4 {
        crate::wmb_mgrr::read_wmb_mgrr(rd, wta_wtp, textures)
    } else {
        let m = [magic[0], magic[1], magic[2], magic[3]];
        proof {
            assert(m@ =~= magic_at(old(rd).bytes(), old(rd).cursor()));
        }
        Err(DecodeError::UnknownMagic(m))
    }
}

} // verus!
