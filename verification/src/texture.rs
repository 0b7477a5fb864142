//! Compressed-texture decoding: sniffs the payload magic, decodes either
//! container kind to RGBA8 through the image crate, optionally remaps the
//! channels of every 4-byte pixel, and fills the per-decode texture cache
//! keyed by numeric id, inserting each id at most once.

use std::collections::HashMap;

use image::ImageDecoder;

use vstd::prelude::*;

use crate::error::DecodeError;
use crate::mesh_data::TextureData;
use crate::wta_wtp::WtaWtp;

verus! {

broadcast use vstd::std_specs::hash::group_hash_axioms;

/// What `image::codecs::dds::DdsDecoder::new` reports for these bytes:
/// width, height and bytes per pixel of the decoded image, or nothing
/// when the header is rejected.
pub uninterp spec fn dds_dims_of(bytes: Seq<u8>) -> Option<(u32, u32, u32)>;

/// The pixel buffer `image`'s DDS decoder produces for these bytes, or
/// nothing when decoding fails.
pub uninterp spec fn dds_pixels_of(bytes: Seq<u8>) -> Option<Seq<u8>>;

/// What `image::load_from_memory` followed by an RGBA8 conversion
/// produces for these bytes: the pixel buffer, width and height.
pub uninterp spec fn png_decode_of(bytes: Seq<u8>) -> Option<(Seq<u8>, u32, u32)>;

/// Relies on `image::codecs::dds::DdsDecoder::new` and the
/// `ImageDecoder` accessors `dimensions` and `color_type` for the
/// decoded image's width, height and bytes per pixel. The result depends
/// on the bytes alone.
#[verifier::external_body]
fn dds_probe(bytes: &[u8]) -> (r: Result<(u32, u32, u32), DecodeError>)
    ensures
        match r {
            Ok(d) => dds_dims_of(bytes@) == Some(d),
            Err(e) => e == DecodeError::TextureDecodeFailed && dds_dims_of(bytes@) is None,
        },
{
    match image::codecs::dds::DdsDecoder::new(bytes) {
        Ok(d) => {
            let (w, h) = d.dimensions();
            let bpp = d.color_type().bytes_per_pixel() as u32;
            Ok((w, h, bpp))
        },
        Err(_) => Err(DecodeError::TextureDecodeFailed),
    }
}

/// Relies on `image::codecs::dds::DdsDecoder::new` and
/// `ImageDecoder::read_image`, which fills a buffer of exactly
/// width x height x bytes-per-pixel bytes. The result depends on the
/// bytes alone.
#[verifier::external_body]
fn dds_read(bytes: &[u8], buf: &mut Vec<u8>) -> (r: Result<(), DecodeError>)
    requires
        dds_dims_of(bytes@) is Some,
        old(buf)@.len() == dds_dims_of(bytes@).unwrap().0 * dds_dims_of(bytes@).unwrap().1
            * dds_dims_of(bytes@).unwrap().2,
    ensures
        final(buf)@.len() == old(buf)@.len(),
        match r {
            Ok(u) => dds_pixels_of(bytes@) == Some(final(buf)@),
            Err(e) => e == DecodeError::TextureDecodeFailed && dds_pixels_of(bytes@) is None,
        },
{
    let decoder = match image::codecs::dds::DdsDecoder::new(bytes) {
        Ok(d) => d,
        Err(_) => return Err(DecodeError::TextureDecodeFailed),
    };
    match decoder.read_image(buf.as_mut_slice()) {
        Ok(()) => Ok(()),
        Err(_) => Err(DecodeError::TextureDecodeFailed),
    }
}

/// Relies on `image::load_from_memory` and
/// `DynamicImage::to_rgba8`/`ImageBuffer::into_raw`: the raw buffer of an
/// RGBA8 image buffer holds exactly width x height x 4 bytes. The result
/// depends on the bytes alone.
#[verifier::external_body]
fn png_decode(bytes: &[u8]) -> (r: Result<(Vec<u8>, u32, u32), DecodeError>)
    requires
        bytes@.len() > 4,
        bytes@.subrange(0, 4) == png_magic(),
    ensures
        match r {
            Ok(d) => png_decode_of(bytes@) == Some((d.0@, d.1, d.2)) && d.0@.len() == 4 * d.1
                * d.2,
            Err(e) => e == DecodeError::TextureDecodeFailed && png_decode_of(bytes@) is None,
        },
{
    match image::load_from_memory(bytes) {
        Ok(img) => {
            let rgba = img.to_rgba8();
            let w = rgba.width();
            let h = rgba.height();
            Ok((rgba.into_raw(), w, h))
        },
        Err(_) => Err(DecodeError::TextureDecodeFailed),
    }
}

/// The per-pixel channel remap applied after decoding, if any.
#[derive(Clone, Copy, PartialEq, Eq, Structural)]
pub enum SwizzleKind {
    /// Leave pixels as decoded.
    Keep,
    /// Reinterpret a packed metallic/smoothness/AO mask: swap the first
    /// and third channels and invert the second (smoothness becomes
    /// roughness).
    MaskMap,
}

/// Byte `i` of a pixel buffer after the per-pixel remap.
pub open spec fn swizzled_at(k: SwizzleKind, s: Seq<u8>, i: int) -> u8
    recommends
        0 <= i < s.len(),
        s.len() % 4 == 0,
{
    match k {
        SwizzleKind::Keep => s[i],
        SwizzleKind::MaskMap => {
            let p = (i / 4) * 4;
            if i % 4 == 0 {
                s[p + 2]
            } else if i % 4 == 1 {
                (255 - s[p + 1]) as u8
            } else if i % 4 == 2 {
                s[p]
            } else {
                s[p + 3]
            }
        },
    }
}

/// A pixel buffer after the per-pixel remap.
pub open spec fn swizzle_buffer(k: SwizzleKind, s: Seq<u8>) -> Seq<u8>
    recommends
        s.len() % 4 == 0,
{
    Seq::new(s.len(), |i: int| swizzled_at(k, s, i))
}

/// Byte `i` of an RGB8 buffer expanded to RGBA8 with opaque alpha.
pub open spec fn expand_byte(s: Seq<u8>, i: int) -> u8 {
    if i % 4 == 3 {
        255
    } else {
        s[(i / 4) * 3 + i % 4]
    }
}

/// An RGB8 buffer expanded to RGBA8 with opaque alpha.
pub open spec fn expand_rgb(s: Seq<u8>) -> Seq<u8>
    recommends
        s.len() % 3 == 0,
{
    Seq::new(s.len() / 3 * 4, |i: int| expand_byte(s, i))
}

/// Remap one 4-byte mask pixel: swap the first and third channels and
/// invert the second.
pub fn mask_map_swizzle(pixel: [u8; 4]) -> (r: [u8; 4])
    ensures
        r@[0] == pixel@[2],
        r@[1] == (255 - pixel@[1]) as u8,
        r@[2] == pixel@[0],
        r@[3] == pixel@[3],
{
    [pixel[2], 255 - pixel[1], pixel[0], pixel[3]]
}

fn apply_swizzle(buf: Vec<u8>, k: SwizzleKind) -> (r: Vec<u8>)
    requires
        buf@.len() % 4 == 0,
    ensures
        r@ == swizzle_buffer(k, buf@),
{
    match k {
        SwizzleKind::Keep => {
            proof {
                assert(buf@ =~= swizzle_buffer(SwizzleKind::Keep, buf@));
            }
            buf
        },
        SwizzleKind::MaskMap => {
            let n = buf.len() / 4;
            let mut out: Vec<u8> = Vec::new();
            let mut i: usize = 0;
            while i < n
                invariant
                    buf@.len() == n * 4,
                    n * 4 <= usize::MAX,
                    i <= n,
                    out@.len() == i * 4,
                    forall|j: int| 0 <= j < out@.len() ==> out@[j] == swizzled_at(
                        SwizzleKind::MaskMap,
                        buf@,
                        j,
                    ),
                decreases n - i,
            {
                let p = i * 4;
                let sw = mask_map_swizzle([buf[p], buf[p + 1], buf[p + 2], buf[p + 3]]);
                out.push(sw[0]);
                out.push(sw[1]);
                out.push(sw[2]);
                out.push(sw[3]);
                i = i + 1;
            }
            proof {
                assert(out@ =~= swizzle_buffer(SwizzleKind::MaskMap, buf@));
            }
            out
        },
    }
}

fn expand_rgb_exec(buf: &Vec<u8>) -> (r: Vec<u8>)
    requires
        buf@.len() % 3 == 0,
        buf@.len() / 3 * 4 <= usize::MAX,
    ensures
        r@ == expand_rgb(buf@),
{
    let n = buf.len() / 3;
    let mut out: Vec<u8> = Vec::new();
    let mut i: usize = 0;
    while i < n
        invariant
            buf@.len() == n * 3,
            n * 3 <= usize::MAX,
            n * 4 <= usize::MAX,
            i <= n,
            out@.len() == i * 4,
            i * 4 <= usize::MAX,
            forall|j: int| 0 <= j < out@.len() ==> out@[j] == expand_byte(buf@, j),
        decreases n - i,
    {
        let p = i * 3;
        out.push(buf[p]);
        out.push(buf[p + 1]);
        out.push(buf[p + 2]);
        out.push(255);
        i = i + 1;
    }
    proof {
        assert(out@ =~= expand_rgb(buf@));
    }
    out
}

fn zero_vec(n: usize) -> (r: Vec<u8>)
    ensures
        r@.len() == n,
{
    let mut out: Vec<u8> = Vec::new();
    let mut i: usize = 0;
    while i < n
        invariant
            i <= n,
            out@.len() == i,
        decreases n - i,
    {
        out.push(0);
        i = i + 1;
    }
    out
}

/// "DDS " — the compressed-container magic.
pub open spec fn dds_magic() -> Seq<u8> {
    seq![0x44u8, 0x44u8, 0x53u8, 0x20u8]
}

/// The PNG signature's first four bytes.
pub open spec fn png_magic() -> Seq<u8> {
    seq![0x89u8, 0x50u8, 0x4Eu8, 0x47u8]
}

/// What decompressing a texture payload yields: the RGBA8 bytes with the
/// remap applied, plus the dimensions; or the error. A payload without a
/// recognized magic is refused outright; a recognized payload whose
/// decode fails (or whose pixel buffer cannot exist in memory) fails
/// with a decode error.
pub open spec fn decompress_spec(b: Seq<u8>, k: SwizzleKind) -> Result<
    (Seq<u8>, u32, u32),
    DecodeError,
> {
    if b.len() > 4 && b.subrange(0, 4) == dds_magic() {
        match dds_dims_of(b) {
            Option::None => Err(DecodeError::TextureDecodeFailed),
            Option::Some(d) => {
                let (w, h, bpp) = d;
                if bpp != 3 && bpp != 4 {
                    Err(DecodeError::TextureDecodeFailed)
                } else if w * h * 4 > usize::MAX {
                    Err(DecodeError::TextureDecodeFailed)
                } else {
                    match dds_pixels_of(b) {
                        Option::None => Err(DecodeError::TextureDecodeFailed),
                        Option::Some(px) => {
                            if bpp == 4 {
                                Ok((swizzle_buffer(k, px), w, h))
                            } else {
                                Ok((swizzle_buffer(k, expand_rgb(px)), w, h))
                            }
                        },
                    }
                }
            },
        }
    } else if b.len() > 4 && b.subrange(0, 4) == png_magic() {
        match png_decode_of(b) {
            Option::None => Err(DecodeError::TextureDecodeFailed),
            Option::Some(d) => Ok((d.0, d.1, d.2)),
        }
    } else {
        Err(DecodeError::UnknownTextureFormat)
    }
}

/// Decode one texture payload to RGBA8 pixels, dispatching on its
/// 4-byte magic and applying the channel remap for the compressed kind.
pub fn decompress_dds(bytes: &[u8], swizzle: SwizzleKind) -> (r: Result<TextureData, DecodeError>)
    ensures
        match r {
            Ok(td) => decompress_spec(bytes@, swizzle) == Ok::<(Seq<u8>, u32, u32), DecodeError>(
                (td.bytes@, td.width, td.height),
            ) && td.bytes@.len() == 4 * td.width * td.height,
            Err(e) => decompress_spec(bytes@, swizzle) == Err::<(Seq<u8>, u32, u32), DecodeError>(
                e,
            ),
        },
{
    let is_dds = bytes.len() > 4 && bytes[0] == 0x44 && bytes[1] == 0x44 && bytes[2] == 0x53
        && bytes[3] == 0x20;
    let is_png = bytes.len() > 4 && bytes[0] == 0x89 && bytes[1] == 0x50 && bytes[2] == 0x4E
        && bytes[3] == 0x47;
    proof {
        if bytes@.len() > 4 {
            assert(is_dds == (bytes@.subrange(0, 4) == dds_magic())) by {
                if is_dds {
                    assert(bytes@.subrange(0, 4) =~= dds_magic());
                }
                if bytes@.subrange(0, 4) == dds_magic() {
                    assert(bytes@[0] == dds_magic()[0]);
                    assert(bytes@[1] == dds_magic()[1]);
                    assert(bytes@[2] == dds_magic()[2]);
                    assert(bytes@[3] == dds_magic()[3]);
                }
            }
            assert(is_png == (bytes@.subrange(0, 4) == png_magic())) by {
                if is_png {
                    assert(bytes@.subrange(0, 4) =~= png_magic());
                }
                if bytes@.subrange(0, 4) == png_magic() {
                    assert(bytes@[0] == png_magic()[0]);
                    assert(bytes@[1] == png_magic()[1]);
                    assert(bytes@[2] == png_magic()[2]);
                    assert(bytes@[3] == png_magic()[3]);
                }
            }
        }
    }
    if is_dds {
        let (w, h, bpp) = dds_probe(bytes)?;
        if bpp != 3 && bpp != 4 {
            return Err(DecodeError::TextureDecodeFailed);
        }
        proof {
            assert((w as int) * (h as int) < 0x1_0000_0000_0000_0000) by (nonlinear_arith)
                requires
                    0 <= w as int <= 0xFFFF_FFFF,
                    0 <= h as int <= 0xFFFF_FFFF,
            ;
        }
        if w as u64 * h as u64 > usize::MAX as u64 / 4 {
            return Err(DecodeError::TextureDecodeFailed);
        }
        let px_count = w as u64 * h as u64;
        let total = if bpp == 3 {
            px_count * 3
        } else {
            px_count * 4
        };
        let mut buf = zero_vec(total as usize);
        dds_read(bytes, &mut buf)?;
        if bpp == 4 {
            let px = apply_swizzle(buf, swizzle);
            proof {
                assert(((w as int) * (h as int)) * 4 == 4 * (w as int) * (h as int))
                    by (nonlinear_arith);
                assert(px@.len() == 4 * w * h);
            }
            Ok(TextureData { bytes: px, width: w, height: h })
        } else {
            proof {
                assert(buf@.len() % 3 == 0 && buf@.len() / 3 == px_count) by (nonlinear_arith)
                    requires
                        buf@.len() == px_count * 3,
                ;
            }
            let expanded = expand_rgb_exec(&buf);
            let px = apply_swizzle(expanded, swizzle);
            proof {
                assert(((w as int) * (h as int)) * 4 == 4 * (w as int) * (h as int))
                    by (nonlinear_arith);
                assert(px@.len() == 4 * w * h);
            }
            Ok(TextureData { bytes: px, width: w, height: h })
        }
    } else if is_png {
        let (px, w, h) = png_decode(bytes)?;
        Ok(TextureData { bytes: px, width: w, height: h })
    } else {
        Err(DecodeError::UnknownTextureFormat)
    }
}

/// The raw archive payload served for `id`, if the archive can serve it.
pub open spec fn archive_payload(w: &WtaWtp, id: u32) -> Option<Seq<u8>> {
    if w.entries().contains_key(id) && w.entries()[id].offset + w.entries()[id].size
        <= w.payload().len() {
        Some(
            w.payload().subrange(
                w.entries()[id].offset as int,
                w.entries()[id].offset + w.entries()[id].size,
            ),
        )
    } else {
        None
    }
}

/// The cache entry `try_add_texture` would insert for `id`, if any: the
/// archive payload decompressed, when both steps succeed.
pub open spec fn cached_texture(w: &WtaWtp, id: u32, k: SwizzleKind) -> Option<
    (Seq<u8>, u32, u32),
> {
    match archive_payload(w, id) {
        Option::None => None,
        Option::Some(raw) => match decompress_spec(raw, k) {
            Ok(t) => Some(t),
            Err(e) => None,
        },
    }
}

/// The cache's contents as plain values: each id's pixel bytes and
/// dimensions.
pub open spec fn cache_view(m: Map<u32, TextureData>) -> Map<u32, (Seq<u8>, u32, u32)> {
    Map::new(
        |k: u32| m.dom().contains(k),
        |k: u32| (m[k].bytes@, m[k].width, m[k].height),
    )
}

/// What one `try_add_texture` call does to the cache contents.
pub open spec fn cache_after(
    v: Map<u32, (Seq<u8>, u32, u32)>,
    w: &WtaWtp,
    texture_id: Option<u32>,
    k: SwizzleKind,
) -> Map<u32, (Seq<u8>, u32, u32)> {
    match texture_id {
        Option::None => v,
        Option::Some(id) => {
            if v.dom().contains(id) {
                v
            } else {
                match cached_texture(w, id, k) {
                    Option::None => v,
                    Option::Some(t) => v.insert(id, t),
                }
            }
        },
    }
}

/// Caching is idempotent per id: once an id is in the cache, asking for
/// it again changes nothing, so each texture is fetched and decoded at
/// most once however many meshes reference it.
pub proof fn lemma_texture_cache_idempotent(
    v: Map<u32, (Seq<u8>, u32, u32)>,
    w: &WtaWtp,
    texture_id: Option<u32>,
    k: SwizzleKind,
)
    ensures
        cache_after(cache_after(v, w, texture_id, k), w, texture_id, k) == cache_after(
            v,
            w,
            texture_id,
            k,
        ),
{
    match texture_id {
        Option::None => {},
        Option::Some(id) => {
            if !v.dom().contains(id) {
                match cached_texture(w, id, k) {
                    Option::None => {},
                    Option::Some(t) => {
                        assert(cache_after(v, w, texture_id, k).dom().contains(id));
                    },
                }
            }
        },
    }
}

/// Fetch, decompress and cache one referenced texture. An id already in
/// the cache is left untouched — it is neither fetched nor decoded
/// again — and a missing id or failed lookup or decode leaves the cache
/// unchanged; mesh decoding goes on without that texture.
pub fn try_add_texture(
    textures: &mut HashMap<u32, TextureData>,
    wta_wtp: &WtaWtp,
    texture_id: Option<u32>,
    swizzle: SwizzleKind,
)
    ensures
        cache_view(final(textures)@) == cache_after(
            cache_view(old(textures)@),
            wta_wtp,
            texture_id,
            swizzle,
        ),
        forall|k: u32| #[trigger]
            old(textures)@.dom().contains(k) ==> final(textures)@.dom().contains(k)
                && final(textures)@[k] == old(textures)@[k],
        forall|k: u32| #[trigger]
            final(textures)@.dom().contains(k) ==> (old(textures)@.dom().contains(k)
                && final(textures)@[k] == old(textures)@[k])
                || final(textures)@[k].bytes@.len() == 4 * final(textures)@[k].width
                * final(textures)@[k].height,
        match texture_id {
            Option::None => final(textures)@ == old(textures)@,
            Option::Some(id) => {
                if old(textures)@.contains_key(id) {
                    final(textures)@ == old(textures)@
                } else {
                    match cached_texture(wta_wtp, id, swizzle) {
                        Option::None => final(textures)@ == old(textures)@,
                        Option::Some(t) => {
                            &&& final(textures)@.dom() == old(textures)@.dom().insert(id)
                            &&& forall|k: u32|
                                k != id && #[trigger] old(textures)@.dom().contains(k)
                                    ==> final(textures)@[k] == old(textures)@[k]
                            &&& final(textures)@[id].bytes@ == t.0
                            &&& final(textures)@[id].width == t.1
                            &&& final(textures)@[id].height == t.2
                        },
                    }
                }
            },
        },
{
    let id = match texture_id {
        Option::None => {
            return ;
        },
        Option::Some(id) => id,
    };
    if textures.contains_key(&id) {
        return ;
    }
    let raw = match wta_wtp.get_texture(id) {
        Option::None => {
            return ;
        },
        Option::Some(raw) => raw,
    };
    match decompress_dds(raw.as_slice(), swizzle) {
        Ok(td) => {
            textures.insert(id, td);
            proof {
                assert(textures@.dom() =~= old(textures)@.dom().insert(id));
            }
        },
        Err(e) => {},
    }
}

} // verus!
