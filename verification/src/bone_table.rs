//! The 3-level sparse bone-index translate table shared by both
//! mesh-container formats. The second level's length is sixteen times the
//! number of non-sentinel entries of the first level, and the third
//! level's sixteen times the number of non-sentinel entries of the
//! second, so the levels must be read strictly in order.

use vstd::prelude::*;

use crate::byte_stream::ByteReader;
use crate::byte_stream::i16_at;
use crate::error::DecodeError;

verus! {

broadcast use crate::byte_stream::lemma_cursor_nonneg;

/// How many entries of `s` differ from the sentinel -1.
pub open spec fn count_non_sentinel(s: Seq<i16>) -> int
    decreases s.len(),
{
    if s.len() == 0 {
        0
    } else {
        count_non_sentinel(s.drop_last()) + if s.last() != -1 {
            1int
        } else {
            0int
        }
    }
}

/// Every count of non-sentinel entries lies between 0 and the length.
pub proof fn lemma_count_non_sentinel_bounds(s: Seq<i16>)
    ensures
        0 <= count_non_sentinel(s) <= s.len(),
    decreases s.len(),
{
    if s.len() > 0 {
        lemma_count_non_sentinel_bounds(s.drop_last());
    }
}

/// All three levels of a translate table at `at` fit inside the bytes:
/// the deeper levels' lengths follow from the shallower levels' content.
pub open spec fn bitt_parses(s: Seq<u8>, at: int) -> bool {
    &&& at + 32 <= s.len()
    &&& {
        let j = count_non_sentinel(i16_run(s, at, 16));
        &&& (j == 0 || at + 32 + 32 * j <= s.len())
        &&& {
            let k = count_non_sentinel(i16_run(s, at + 32, 16 * j));
            k == 0 || at + 32 + 32 * j + 32 * k <= s.len()
        }
    }
}

/// The sequence of signed 16-bit fields at `at`.
pub open spec fn i16_run(s: Seq<u8>, at: int, n: int) -> Seq<i16> {
    Seq::new(n as nat, |i: int| i16_at(s, at + 2 * i))
}

fn read_i16_run(rd: &mut ByteReader, n: usize) -> (r: Result<Vec<i16>, DecodeError>)
    ensures
        final(rd).bytes() == old(rd).bytes(),
        match r {
            Ok(v) => {
                &&& n > 0 ==> old(rd).cursor() + 2 * n <= final(rd).bytes().len()
                &&& v@ == i16_run(final(rd).bytes(), old(rd).cursor(), n as int)
                &&& final(rd).cursor() == old(rd).cursor() + 2 * n
            },
            Err(e) => {
                &&& e == DecodeError::ShortRead
                &&& old(rd).cursor() + 2 * n > final(rd).bytes().len()
            },
        },
{
    let mut out: Vec<i16> = Vec::new();
    let mut i: usize = 0;
    while i < n
        invariant
            rd.bytes() == old(rd).bytes(),
            i <= n,
            rd.cursor() == old(rd).cursor() + 2 * i,
            i > 0 ==> old(rd).cursor() + 2 * i <= rd.bytes().len(),
            out@.len() == i,
            forall|k: int|
                0 <= k < i ==> out@[k] == i16_at(rd.bytes(), old(rd).cursor() + 2 * k),
        decreases n - i,
    {
        let v = rd.read_i16()?;
        out.push(v);
        i = i + 1;
    }
    proof {
        assert(out@ =~= i16_run(rd.bytes(), old(rd).cursor(), n as int));
    }
    Ok(out)
}

/// The 3-level sparse lookup table.
pub struct BoneIndexTranslateTable {
    pub first_level: Vec<i16>,
    pub second_level: Vec<i16>,
    pub third_level: Vec<i16>,
}

impl BoneIndexTranslateTable {
    /// What a table read at `at` holds: the three levels in order, the
    /// deeper lengths fixed by the shallower contents.
    pub open spec fn parsed_from(self, s: Seq<u8>, at: int) -> bool {
        &&& self.first_level@ == i16_run(s, at, 16)
        &&& self.second_level@ == i16_run(s, at + 32, 16 * count_non_sentinel(self.first_level@))
        &&& self.third_level@ == i16_run(
            s,
            at + 32 + 32 * count_non_sentinel(self.first_level@),
            16 * count_non_sentinel(self.second_level@),
        )
    }

    /// The stand-in for an absent section: a zeroed first level and
    /// empty deeper levels.
    pub open spec fn is_empty_table(self) -> bool {
        &&& self.first_level@ == Seq::new(16, |i: int| 0i16)
        &&& self.second_level@.len() == 0
        &&& self.third_level@.len() == 0
    }

    /// An empty table, standing in when the section is absent: a zeroed
    /// first level and empty deeper levels.
    pub fn empty() -> (r: BoneIndexTranslateTable)
        ensures
            r.is_empty_table(),
    {
        let mut first_level: Vec<i16> = Vec::new();
        let mut i: usize = 0;
        while i < 16
            invariant
                i <= 16,
                first_level@.len() == i,
                forall|k: int| 0 <= k < i ==> first_level@[k] == 0i16,
            decreases 16 - i,
        {
            first_level.push(0);
            i = i + 1;
        }
        proof {
            assert(first_level@ =~= Seq::new(16, |i: int| 0i16));
        }
        BoneIndexTranslateTable { first_level, second_level: Vec::new(), third_level: Vec::new() }
    }

    /// Read the three levels in order. The first level holds sixteen
    /// entries; each deeper level holds sixteen entries per non-sentinel
    /// entry of the level above, so its length depends on the content
    /// just read.
    pub fn read(rd: &mut ByteReader) -> (r: Result<BoneIndexTranslateTable, DecodeError>)
        ensures
            final(rd).bytes() == old(rd).bytes(),
            match r {
                Ok(t) => {
                    &&& bitt_parses(final(rd).bytes(), old(rd).cursor())
                    &&& t.parsed_from(final(rd).bytes(), old(rd).cursor())
                    &&& t.first_level@ == i16_run(final(rd).bytes(), old(rd).cursor(), 16)
                    &&& t.second_level@.len() == 16 * count_non_sentinel(t.first_level@)
                    &&& t.second_level@ == i16_run(
                        final(rd).bytes(),
                        old(rd).cursor() + 32,
                        16 * count_non_sentinel(t.first_level@),
                    )
                    &&& t.third_level@.len() == 16 * count_non_sentinel(t.second_level@)
                    &&& t.third_level@ == i16_run(
                        final(rd).bytes(),
                        old(rd).cursor() + 32 + 32 * count_non_sentinel(t.first_level@),
                        16 * count_non_sentinel(t.second_level@),
                    )
                    &&& final(rd).cursor() == old(rd).cursor() + 32 + 32 * count_non_sentinel(
                        t.first_level@,
                    ) + 32 * count_non_sentinel(t.second_level@)
                },
                Err(e) => e == DecodeError::ShortRead && !bitt_parses(
                    final(rd).bytes(),
                    old(rd).cursor(),
                ),
            },
    {
        let first_level = read_i16_run(rd, 16)?;
        let mut j: usize = 0;
        let mut i: usize = 0;
        while i < 16
            invariant
                first_level@.len() == 16,
                i <= 16,
                j == count_non_sentinel(first_level@.subrange(0, i as int)),
                j <= i,
            decreases 16 - i,
        {
            proof {
                assert(first_level@.subrange(0, i + 1).drop_last() =~= first_level@.subrange(
                    0,
                    i as int,
                ));
            }
            if first_level[i] != -1 {
                j = j + 1;
            }
            i = i + 1;
        }
        proof {
            assert(first_level@.subrange(0, 16) =~= first_level@);
        }
        let second_level = read_i16_run(rd, j * 16)?;
        let mut k: usize = 0;
        let mut i2: usize = 0;
        let n2 = second_level.len();
        while i2 < n2
            invariant
                n2 == second_level@.len(),
                i2 <= n2,
                k == count_non_sentinel(second_level@.subrange(0, i2 as int)),
                k <= i2,
            decreases n2 - i2,
        {
            proof {
                assert(second_level@.subrange(0, i2 + 1).drop_last() =~= second_level@.subrange(
                    0,
                    i2 as int,
                ));
            }
            if second_level[i2] != -1 {
                k = k + 1;
            }
            i2 = i2 + 1;
        }
        proof {
            assert(second_level@.subrange(0, n2 as int) =~= second_level@);
        }
        let third_level = read_i16_run(rd, k * 16)?;
        Ok(BoneIndexTranslateTable { first_level, second_level, third_level })
    }
}

} // verus!
