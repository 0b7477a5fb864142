//! Texture-archive resolver: parses the index (id, offset, size triples
//! behind a fixed header) and serves random-access texture payloads by
//! numeric id from an in-memory data buffer. Also derives the sibling
//! index/data/combined file names from a mesh-container path and decides,
//! with a single one-shot alternate-basename retry, which files to open.

use std::collections::HashMap;

use vstd::prelude::*;
use vstd::slice::slice_to_vec;

use crate::byte_stream::ByteReader;
use crate::byte_stream::i32_of_le;
use crate::byte_stream::u32_of_le;
use crate::error::DecodeError;

verus! {

broadcast use vstd::std_specs::hash::group_hash_axioms;

/// Where one texture payload lives inside the data buffer.
pub struct TexturePos {
    pub offset: u32,
    pub size: u32,
}

/// Signed 32-bit field widened to an unsigned 64-bit stream offset by
/// sign extension, exactly as the index header is consumed.
pub open spec fn sign_ext_64(v: i32) -> int {
    if v >= 0 {
        v as int
    } else {
        v + 0x1_0000_0000_0000_0000
    }
}

pub fn sign_ext_u64(v: i32) -> (r: u64)
    ensures
        r as int == sign_ext_64(v),
{
    if v >= 0 {
        v as u64
    } else {
        let mag = -(v as i64);
        0xFFFF_FFFF_FFFF_FFFFu64 - (mag as u64 - 1)
    }
}

/// Number of entries the index claims, read behind the 8-byte prefix.
pub open spec fn wta_count(s: Seq<u8>) -> int {
    i32_of_le(s.subrange(8, 12)) as int
}

/// Offset of the parallel payload-offsets array.
pub open spec fn wta_offsets_at(s: Seq<u8>) -> int {
    sign_ext_64(i32_of_le(s.subrange(12, 16)))
}

/// Offset of the parallel payload-sizes array.
pub open spec fn wta_sizes_at(s: Seq<u8>) -> int {
    sign_ext_64(i32_of_le(s.subrange(16, 20)))
}

/// Offset of the parallel ids array. (A fourth parallel flags array sits
/// between the sizes and ids offsets in the header; it is never read.)
pub open spec fn wta_ids_at(s: Seq<u8>) -> int {
    sign_ext_64(i32_of_le(s.subrange(24, 28)))
}

/// All three parallel arrays fit inside the index bytes.
pub open spec fn wta_arrays_ok(s: Seq<u8>, n: int) -> bool {
    n == 0 || (wta_offsets_at(s) + n * 4 <= s.len() && wta_sizes_at(s) + n * 4 <= s.len()
        && wta_ids_at(s) + n * 4 <= s.len())
}

/// The index parses: header present, non-negative count, arrays in range.
pub open spec fn wta_ok(s: Seq<u8>) -> bool {
    s.len() >= 28 && wta_count(s) >= 0 && wta_arrays_ok(s, wta_count(s))
}

/// The id of entry `i`.
pub open spec fn wta_entry_id(s: Seq<u8>, i: int) -> u32 {
    u32_of_le(s.subrange(wta_ids_at(s) + 4 * i, wta_ids_at(s) + 4 * i + 4))
}

/// The payload position of entry `i`.
pub open spec fn wta_entry_pos(s: Seq<u8>, i: int) -> TexturePos {
    TexturePos {
        offset: u32_of_le(s.subrange(wta_offsets_at(s) + 4 * i, wta_offsets_at(s) + 4 * i + 4)),
        size: u32_of_le(s.subrange(wta_sizes_at(s) + 4 * i, wta_sizes_at(s) + 4 * i + 4)),
    }
}

/// The id-to-position map after the first `n` entries; on a repeated id
/// the later entry wins, as in the sequential build.
pub open spec fn wta_map_upto(s: Seq<u8>, n: int) -> Map<u32, TexturePos>
    decreases n,
{
    if n <= 0 {
        Map::empty()
    } else {
        wta_map_upto(s, n - 1).insert(wta_entry_id(s, n - 1), wta_entry_pos(s, n - 1))
    }
}

/// Parse a texture-archive index into its id-to-position map.
fn read_wta(wta: &[u8]) -> (r: Result<HashMap<u32, TexturePos>, DecodeError>)
    ensures
        match r {
            Ok(m) => wta_ok(wta@) && m@ == wta_map_upto(wta@, wta_count(wta@)),
            Err(e) => e == DecodeError::ShortRead && !wta_ok(wta@),
        },
{
    let data = slice_to_vec(wta);
    let mut rd = ByteReader::new(data);
    let _ = rd.seek(8);
    let count = rd.read_i32()?;
    let offs_f = rd.read_i32()?;
    let sizes_f = rd.read_i32()?;
    let _flags_f = rd.read_i32()?;
    let ids_f = rd.read_i32()?;
    if count < 0 {
        return Err(DecodeError::ShortRead);
    }
    let cnt = count as u64;
    let offs = sign_ext_u64(offs_f);
    let sizes = sign_ext_u64(sizes_f);
    let ids = sign_ext_u64(ids_f);
    let len = rd.size();
    if cnt > 0 && (offs > len || cnt * 4 > len - offs || sizes > len || cnt * 4 > len - sizes
        || ids > len || cnt * 4 > len - ids) {
        return Err(DecodeError::ShortRead);
    }
    let mut m: HashMap<u32, TexturePos> = HashMap::new();
    let mut i: u64 = 0;
    while i < cnt
        invariant
            rd.bytes() == wta@,
            wta_ok(wta@),
            cnt == wta_count(wta@),
            offs as int == wta_offsets_at(wta@),
            sizes as int == wta_sizes_at(wta@),
            ids as int == wta_ids_at(wta@),
            wta@.len() <= u64::MAX,
            cnt == 0 || offs + cnt * 4 <= wta@.len(),
            cnt == 0 || sizes + cnt * 4 <= wta@.len(),
            cnt == 0 || ids + cnt * 4 <= wta@.len(),
            i <= cnt,
            m@ == wta_map_upto(wta@, i as int),
        decreases cnt - i,
    {
        let _ = rd.seek(offs + i * 4);
        let offset = rd.read_u32()?;
        let _ = rd.seek(sizes + i * 4);
        let size = rd.read_u32()?;
        let _ = rd.seek(ids + i * 4);
        let id = rd.read_u32()?;
        m.insert(id, TexturePos { offset, size });
        i = i + 1;
        proof {
            assert(m@ =~= wta_map_upto(wta@, i as int));
        }
    }
    Ok(m)
}

/// An opened texture archive: the parsed index plus the data bytes.
pub struct WtaWtp {
    id_offsets: HashMap<u32, TexturePos>,
    wtp_file: Vec<u8>,
}

impl WtaWtp {
    /// The parsed id-to-position index.
    pub closed spec fn entries(&self) -> Map<u32, TexturePos> {
        self.id_offsets@
    }

    /// The raw data bytes payloads are served from.
    pub closed spec fn payload(&self) -> Seq<u8> {
        self.wtp_file@
    }

    /// Open an archive from raw buffers: an index buffer plus a data
    /// buffer, or a single combined buffer serving both roles.
    pub fn from_bytes(wta_wtb: Option<&[u8]>, wtp: Option<&[u8]>) -> (r: Result<
        WtaWtp,
        DecodeError,
    >)
        ensures
            match r {
                Ok(w) => match (wta_wtb, wtp) {
                    (Some(wta), Some(wtp_b)) => {
                        &&& wta_ok(wta@)
                        &&& w.entries() == wta_map_upto(wta@, wta_count(wta@))
                        &&& w.payload() == wtp_b@
                    },
                    (Some(wta), None) => {
                        &&& wta_ok(wta@)
                        &&& w.entries() == wta_map_upto(wta@, wta_count(wta@))
                        &&& w.payload() == wta@
                    },
                    _ => false,
                },
                Err(e) => match (wta_wtb, wtp) {
                    (Some(wta), _) => e == DecodeError::ShortRead && !wta_ok(wta@),
                    _ => e == DecodeError::ArchiveNotFound,
                },
            },
    {
        match (wta_wtb, wtp) {
            (Some(wta), Some(wtp_b)) => {
                let id_offsets = read_wta(wta)?;
                Ok(WtaWtp { id_offsets, wtp_file: slice_to_vec(wtp_b) })
            },
            (Some(wta), None) => {
                let id_offsets = read_wta(wta)?;
                Ok(WtaWtp { id_offsets, wtp_file: slice_to_vec(wta) })
            },
            _ => Err(DecodeError::ArchiveNotFound),
        }
    }

    /// Serve the raw payload for `id`: the recorded byte range of the
    /// data buffer, or nothing when the id is unknown or its range lies
    /// outside the buffer.
    pub fn get_texture(&self, id: u32) -> (r: Option<Vec<u8>>)
        ensures
            match r {
                Some(v) => {
                    &&& self.entries().contains_key(id)
                    &&& self.entries()[id].offset + self.entries()[id].size
                        <= self.payload().len()
                    &&& v@ == self.payload().subrange(
                        self.entries()[id].offset as int,
                        self.entries()[id].offset + self.entries()[id].size,
                    )
                },
                None => !self.entries().contains_key(id) || self.entries()[id].offset
                    + self.entries()[id].size > self.payload().len(),
            },
    {
        match self.id_offsets.get(&id) {
            None => None,
            Some(pos) => {
                let len = self.wtp_file.len();
                if pos.offset as u64 + pos.size as u64 > len as u64 {
                    return None;
                }
                let off = pos.offset as usize;
                let n = pos.size as usize;
                let mut out: Vec<u8> = Vec::new();
                let mut j: usize = 0;
                while j < n
                    invariant
                        off + n <= self.wtp_file@.len(),
                        self.wtp_file@.len() <= usize::MAX,
                        j <= n,
                        out@ == self.wtp_file@.subrange(off as int, off + j),
                    decreases n - j,
                {
                    out.push(self.wtp_file[off + j]);
                    j = j + 1;
                    proof {
                        assert(out@ =~= self.wtp_file@.subrange(off as int, off + j));
                    }
                }
                Some(out)
            },
        }
    }

    /// Whether the index knows `id`.
    pub fn has_id(&self, id: u32) -> (r: bool)
        ensures
            r == self.entries().contains_key(id),
    {
        self.id_offsets.contains_key(&id)
    }
}


/// Alternate-basename retry policy for archive resolution: try the plain
/// stem first and fall back once to the stem with the suffix appended
/// (`Maybe`), go straight to the suffixed stem (`Try`), or never retry.
pub enum WtaBasenameExt {
    Maybe(Vec<u8>),
    Try(Vec<u8>),
    No,
}

/// Candidate sibling files for one basename: the index file (under the
/// `dat` tree), the data file and the combined file (under `dtt`).
pub struct ArchivePaths {
    pub wta: Vec<u8>,
    pub wtp: Vec<u8>,
    pub wtb: Vec<u8>,
}

/// Index of the last occurrence of `b` in `s`, if any.
pub open spec fn rfind(s: Seq<u8>, b: u8) -> Option<int>
    decreases s.len(),
{
    if s.len() == 0 {
        None
    } else if s[s.len() - 1] == b {
        Some(s.len() - 1)
    } else {
        rfind(s.drop_last(), b)
    }
}

/// The component after the last path separator (the whole path if none).
pub open spec fn file_name_of(p: Seq<u8>) -> Seq<u8> {
    match rfind(p, 0x2F) {
        Some(i) => p.subrange(i + 1, p.len() as int),
        None => p,
    }
}

/// Everything before the last path separator, if there is one.
pub open spec fn parent_of(p: Seq<u8>) -> Option<Seq<u8>> {
    match rfind(p, 0x2F) {
        Some(i) => Some(p.subrange(0, i)),
        None => None,
    }
}

/// The file name up to its last dot; a name without a dot, or with the
/// dot in front, is its own stem.
pub open spec fn stem_of(n: Seq<u8>) -> Seq<u8> {
    match rfind(n, 0x2E) {
        Some(i) => if i > 0 {
            n.subrange(0, i)
        } else {
            n
        },
        None => n,
    }
}

/// The part of a file name after its last dot, when that dot is not the
/// leading byte.
pub open spec fn ext_of(n: Seq<u8>) -> Option<Seq<u8>> {
    match rfind(n, 0x2E) {
        Some(i) => if i > 0 {
            Some(n.subrange(i + 1, n.len() as int))
        } else {
            None
        },
        None => None,
    }
}

/// Replace the extension of a path whose file name has one.
pub open spec fn with_ext(dir: Seq<u8>, new_ext: Seq<u8>) -> Seq<u8>
    recommends
        ext_of(file_name_of(dir)) is Some,
{
    dir.subrange(0, dir.len() - ext_of(file_name_of(dir)).unwrap().len()) + new_ext
}

/// "dat", the extension of the directory tree holding index files.
pub open spec fn dat_ext() -> Seq<u8> {
    seq![0x64u8, 0x61u8, 0x74u8]
}

/// "dtt", the extension of the directory tree holding data files.
pub open spec fn dtt_ext() -> Seq<u8> {
    seq![0x64u8, 0x74u8, 0x74u8]
}

fn rfind_exec(s: &[u8], b: u8) -> (r: Option<usize>)
    ensures
        match r {
            Some(i) => i < s@.len() && rfind(s@, b) == Some(i as int),
            None => rfind(s@, b) is None,
        },
{
    let mut i = s.len();
    proof {
        assert(s@.subrange(0, s@.len() as int) =~= s@);
    }
    while i > 0
        invariant
            i <= s@.len(),
            rfind(s@, b) == rfind(s@.subrange(0, i as int), b),
        decreases i,
    {
        if s[i - 1] == b {
            return Some(i - 1);
        }
        proof {
            assert(s@.subrange(0, i as int).drop_last() =~= s@.subrange(0, i - 1));
        }
        i = i - 1;
    }
    None
}

fn copy_range_of(s: &[u8], from: usize, to: usize) -> (r: Vec<u8>)
    requires
        from <= to <= s@.len(),
    ensures
        r@ == s@.subrange(from as int, to as int),
{
    let _s_len = s.len();
    let mut out: Vec<u8> = Vec::new();
    let mut j = from;
    while j < to
        invariant
            from <= j <= to <= s@.len(),
            s@.len() <= usize::MAX,
            out@ == s@.subrange(from as int, j as int),
        decreases to - j,
    {
        out.push(s[j]);
        j = j + 1;
        proof {
            assert(out@ =~= s@.subrange(from as int, j as int));
        }
    }
    out
}

/// Derive the candidate index/data/combined file names beside a
/// mesh-container path. The container must sit in a directory whose
/// extension is `dat` or `dtt`; the other tree is found by substituting
/// that extension. With a suffix, the basename is the stem with the
/// suffix appended (the one-shot alternate basename).
#[verifier::rlimit(60)]
pub fn derive_archive_paths(wmb_path: &[u8], suffix: Option<&[u8]>) -> (r: Result<
    ArchivePaths,
    DecodeError,
>)
    ensures
        match r {
            Ok(p) => {
                &&& parent_of(wmb_path@) is Some
                &&& ext_of(file_name_of(parent_of(wmb_path@).unwrap())) is Some
                &&& {
                    let dir = parent_of(wmb_path@).unwrap();
                    let de = ext_of(file_name_of(dir)).unwrap();
                    let base = stem_of(file_name_of(wmb_path@)) + match suffix {
                        Some(sx) => sx@,
                        None => Seq::<u8>::empty(),
                    };
                    let dat_dir = if de == dat_ext() {
                        dir
                    } else {
                        with_ext(dir, dat_ext())
                    };
                    let dtt_dir = if de == dat_ext() {
                        with_ext(dir, dtt_ext())
                    } else {
                        dir
                    };
                    &&& (de == dat_ext() || de == dtt_ext())
                    &&& p.wta@ == dat_dir + seq![0x2Fu8] + base + seq![0x2Eu8] + seq![
                        0x77u8,
                        0x74u8,
                        0x61u8,
                    ]
                    &&& p.wtp@ == dtt_dir + seq![0x2Fu8] + base + seq![0x2Eu8] + seq![
                        0x77u8,
                        0x74u8,
                        0x70u8,
                    ]
                    &&& p.wtb@ == dtt_dir + seq![0x2Fu8] + base + seq![0x2Eu8] + seq![
                        0x77u8,
                        0x74u8,
                        0x62u8,
                    ]
                }
            },
            Err(e) => {
                &&& e == DecodeError::InvalidArchivePath
                &&& (parent_of(wmb_path@) is None || ext_of(
                    file_name_of(parent_of(wmb_path@).unwrap()),
                ) is None || {
                    let de = ext_of(file_name_of(parent_of(wmb_path@).unwrap())).unwrap();
                    de != dat_ext() && de != dtt_ext()
                })
            },
        },
{
    let path_len = wmb_path.len();
    let dir_end = match rfind_exec(wmb_path, 0x2F) {
        Some(i) => i,
        None => {
            return Err(DecodeError::InvalidArchivePath);
        },
    };
    let dir = copy_range_of(wmb_path, 0, dir_end);
    let name = copy_range_of(wmb_path, dir_end + 1, path_len);
    proof {
        assert(dir@ == parent_of(wmb_path@).unwrap());
        assert(name@ == file_name_of(wmb_path@));
    }
    // stem of the container's file name
    let stem = match rfind_exec(name.as_slice(), 0x2E) {
        Some(i) => {
            if i > 0 {
                copy_range_of(name.as_slice(), 0, i)
            } else {
                copy_range_of(name.as_slice(), 0, name.len())
            }
        },
        None => copy_range_of(name.as_slice(), 0, name.len()),
    };
    proof {
        assert(name@.subrange(0, name@.len() as int) =~= name@);
        assert(stem@ == stem_of(file_name_of(wmb_path@)));
    }
    // extension of the directory's own name
    let dir_name_start = match rfind_exec(dir.as_slice(), 0x2F) {
        Some(i) => i + 1,
        None => 0,
    };
    let dir_name = copy_range_of(dir.as_slice(), dir_name_start, dir.len());
    proof {
        assert(dir@.subrange(0, dir@.len() as int) =~= dir@);
        assert(dir_name@ == file_name_of(dir@));
    }
    let de = match rfind_exec(dir_name.as_slice(), 0x2E) {
        Some(i) => {
            if i > 0 {
                copy_range_of(dir_name.as_slice(), i + 1, dir_name.len())
            } else {
                return Err(DecodeError::InvalidArchivePath);
            }
        },
        None => {
            return Err(DecodeError::InvalidArchivePath);
        },
    };
    proof {
        assert(ext_of(file_name_of(dir@)) == Some(de@));
    }
    let dat: [u8; 3] = [0x64, 0x61, 0x74];
    let dtt: [u8; 3] = [0x64, 0x74, 0x74];
    let is_dat = crate::bytes_util::bytes_eq(de.as_slice(), dat.as_slice());
    let is_dtt = crate::bytes_util::bytes_eq(de.as_slice(), dtt.as_slice());
    if !is_dat && !is_dtt {
        return Err(DecodeError::InvalidArchivePath);
    }
    // the two parallel directory trees
    let ext_len = de.len();
    let trunk = copy_range_of(dir.as_slice(), 0, dir.len() - ext_len);
    let mut dat_dir: Vec<u8>;
    let mut dtt_dir: Vec<u8>;
    if is_dat {
        dat_dir = dir;
        dtt_dir = trunk;
        crate::bytes_util::push_all(&mut dtt_dir, dtt.as_slice());
    } else {
        dtt_dir = dir;
        dat_dir = trunk;
        crate::bytes_util::push_all(&mut dat_dir, dat.as_slice());
    }
    let ghost g_dat_dir = dat_dir@;
    let ghost g_dtt_dir = dtt_dir@;
    let mut base = stem;
    match suffix {
        Some(sx) => crate::bytes_util::push_all(&mut base, sx),
        None => {},
    }
    let ghost g_base = base@;
    let wta_sfx: [u8; 4] = [0x2E, 0x77, 0x74, 0x61];
    let wtp_sfx: [u8; 4] = [0x2E, 0x77, 0x74, 0x70];
    let wtb_sfx: [u8; 4] = [0x2E, 0x77, 0x74, 0x62];
    let slash: [u8; 1] = [0x2F];
    let mut wta = dat_dir;
    crate::bytes_util::push_all(&mut wta, slash.as_slice());
    crate::bytes_util::push_all(&mut wta, base.as_slice());
    crate::bytes_util::push_all(&mut wta, wta_sfx.as_slice());
    let mut wtp = copy_range_of(dtt_dir.as_slice(), 0, dtt_dir.len());
    proof {
        assert(dtt_dir@.subrange(0, dtt_dir@.len() as int) =~= dtt_dir@);
    }
    crate::bytes_util::push_all(&mut wtp, slash.as_slice());
    crate::bytes_util::push_all(&mut wtp, base.as_slice());
    crate::bytes_util::push_all(&mut wtp, wtp_sfx.as_slice());
    let mut wtb = dtt_dir;
    crate::bytes_util::push_all(&mut wtb, slash.as_slice());
    crate::bytes_util::push_all(&mut wtb, base.as_slice());
    crate::bytes_util::push_all(&mut wtb, wtb_sfx.as_slice());
    proof {
        assert(wta@ =~= g_dat_dir + seq![0x2Fu8] + g_base + seq![0x2Eu8] + seq![
            0x77u8,
            0x74u8,
            0x61u8,
        ]);
        assert(wtp@ =~= g_dtt_dir + seq![0x2Fu8] + g_base + seq![0x2Eu8] + seq![
            0x77u8,
            0x74u8,
            0x70u8,
        ]);
        assert(wtb@ =~= g_dtt_dir + seq![0x2Fu8] + g_base + seq![0x2Eu8] + seq![
            0x77u8,
            0x74u8,
            0x62u8,
        ]);
    }
    Ok(ArchivePaths { wta, wtp, wtb })
}

/// Which files exist on disk for one candidate basename.
#[derive(Clone, Copy, PartialEq, Eq, Structural)]
pub struct ArchivePresence {
    pub wta: bool,
    pub wtp: bool,
    pub wtb: bool,
}

/// How an archive is to be opened, given which files exist.
#[derive(Clone, Copy, Debug, PartialEq, Eq, Structural)]
pub enum ArchiveChoice {
    /// Index from the `wta` file, payloads from the `wtp` file.
    WtaWtp,
    /// The combined `wtb` file serves both roles.
    Wtb,
    NotFound,
}

/// The choice made from one basename's files: nothing when neither the
/// index/data pair nor the combined file is there; otherwise the pair
/// whenever the index file exists, else the combined file.
pub open spec fn choice_spec(p: ArchivePresence) -> ArchiveChoice {
    if !(p.wta && p.wtp) && !p.wtb {
        ArchiveChoice::NotFound
    } else if p.wta {
        ArchiveChoice::WtaWtp
    } else {
        ArchiveChoice::Wtb
    }
}

/// Outcome of archive resolution across the primary basename and the
/// optional one-shot alternate basename.
#[derive(Clone, Copy, Debug, PartialEq, Eq, Structural)]
pub enum ArchiveResolution {
    Primary(ArchiveChoice),
    Fallback(ArchiveChoice),
    NotFound,
}

/// Decide which basename and which files to open. The alternate basename
/// is consulted exactly once, and only when the primary basename
/// resolves to nothing.
pub fn resolve_archive_plan(primary: ArchivePresence, alt: Option<ArchivePresence>) -> (r:
    ArchiveResolution)
    ensures
        choice_spec(primary) != ArchiveChoice::NotFound ==> r == ArchiveResolution::Primary(
            choice_spec(primary),
        ),
        choice_spec(primary) == ArchiveChoice::NotFound && alt is Some && choice_spec(
            alt.unwrap(),
        ) != ArchiveChoice::NotFound ==> r == ArchiveResolution::Fallback(
            choice_spec(alt.unwrap()),
        ),
        choice_spec(primary) == ArchiveChoice::NotFound && (alt is None || choice_spec(
            alt.unwrap(),
        ) == ArchiveChoice::NotFound) ==> r == ArchiveResolution::NotFound,
{
    let p = choose_archive_files(primary);
    match p {
        ArchiveChoice::NotFound => {
            match alt {
                Some(a) => {
                    let q = choose_archive_files(a);
                    match q {
                        ArchiveChoice::NotFound => ArchiveResolution::NotFound,
                        _ => ArchiveResolution::Fallback(q),
                    }
                },
                None => ArchiveResolution::NotFound,
            }
        },
        _ => ArchiveResolution::Primary(p),
    }
}

/// Apply `choice_spec` to one basename's files.
pub fn choose_archive_files(p: ArchivePresence) -> (r: ArchiveChoice)
    ensures
        r == choice_spec(p),
{
    if !(p.wta && p.wtp) && !p.wtb {
        ArchiveChoice::NotFound
    } else if p.wta {
        ArchiveChoice::WtaWtp
    } else {
        ArchiveChoice::Wtb
    }
}

} // verus!
