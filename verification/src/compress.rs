//! Estimating how well a leaf's string data would compress: a dictionary is
//! trained on sample strings, every sufficiently large string is compressed
//! against it with two codecs, and the sizes are summed. The codecs are
//! outside calls; each result is a function of the inputs alone and is given
//! a name that the contracts here speak of.

use vstd::prelude::*;

use crate::store::Error;

verus! {

broadcast use vstd::seq::group_seq_axioms, vstd::std_specs::vec::group_vec_axioms;

/// The length of the lz4 frame encoding of a byte chunk (no checksum,
/// default settings): a function of the bytes alone.
pub uninterp spec fn lz4_frame_len_of(data: Seq<u8>) -> nat;

/// The dictionary zstd trains from the given samples at the given capacity:
/// a function of the samples and the capacity alone.
pub uninterp spec fn zstd_dict_of(samples: Seq<Seq<u8>>, dict_size: nat) -> Seq<u8>;

/// The length of the zstd encoding of a byte string against a dictionary at
/// the default level: a function of the bytes and the dictionary alone.
pub uninterp spec fn zstd_len_of(data: Seq<u8>, dict: Seq<u8>) -> nat;

/// The length of the lz4 block encoding of a byte string against a
/// dictionary at the default acceleration: a function of the bytes and the
/// dictionary alone.
pub uninterp spec fn lz4_dict_len_of(data: Seq<u8>, dict: Seq<u8>) -> nat;

/// Relies on lz4's `EncoderBuilder` and `Encoder`: the length of the frame
/// encoding of the bytes, with checksums off; writing to an in-memory buffer
/// cannot fail.
#[verifier::external_body]
pub(crate) fn lz4_frame_len(data: &Vec<u8>) -> (r: usize)
    ensures
        r as nat == lz4_frame_len_of(data@),
{
    let buffer: Vec<u8> = Vec::new();
    let mut encoder = lz4::EncoderBuilder::new()
        .checksum(lz4::ContentChecksum::NoChecksum)
        .build(buffer)
        .expect("lz4 encoder over a buffer");
    let _ = std::io::Write::write_all(&mut encoder, data);
    let (buffer, _) = encoder.finish();
    buffer.len()
}

/// Relies on zstd's `dict::from_samples`: the trained dictionary, which
/// depends on the samples and the capacity alone; training fails on
/// degenerate samples.
#[verifier::external_body]
fn train_dict(samples: &Vec<Vec<u8>>, dict_size: usize) -> (r: Result<Vec<u8>, Error>)
    ensures
        r matches Ok(d) ==> d@ == zstd_dict_of(samples.deep_view(), dict_size as nat),
{
    match zstd::dict::from_samples(samples, dict_size) {
        Ok(d) => Ok(d),
        Err(e) => Err(Error::with_message(format!("{}", e))),
    }
}

/// Relies on zstd's `bulk::Compressor`: the length of the encoding of the
/// bytes against the dictionary at level 0, which depends on the two alone.
#[verifier::external_body]
fn zstd_compressed_len(data: &Vec<u8>, dict: &Vec<u8>) -> (r: Result<usize, Error>)
    ensures
        r matches Ok(n) ==> n as nat == zstd_len_of(data@, dict@),
{
    let compressed = zstd::bulk::Compressor::with_dictionary(0, dict)
        .and_then(|mut c| c.compress(data));
    match compressed {
        Ok(v) => Ok(v.len()),
        Err(e) => Err(Error::with_message(format!("{}", e))),
    }
}

/// Relies on lzzzz's `lz4::Compressor`: the length of the block encoding of
/// the bytes against the dictionary at the default acceleration, which
/// depends on the two alone.
#[verifier::external_body]
fn lz4_with_dict_len(data: &Vec<u8>, dict: &Vec<u8>) -> (r: Result<usize, Error>)
    ensures
        r matches Ok(n) ==> n as nat == lz4_dict_len_of(data@, dict@),
{
    let mut buffer: Vec<u8> = Vec::new();
    let written = lzzzz::lz4::Compressor::with_dict(dict)
        .and_then(|mut c| c.next_to_vec(data, &mut buffer, lzzzz::lz4::ACC_LEVEL_DEFAULT));
    match written {
        Ok(n) => Ok(n),
        Err(e) => Err(Error::with_message(format!("{}", e))),
    }
}

/// The strings of a column's cells that are large enough to be worth
/// compressing: present and longer than eight bytes, in order.
pub open spec fn keep_big(cells: Seq<Option<Seq<u8>>>) -> Seq<Seq<u8>>
    decreases cells.len(),
{
    if cells.len() == 0 {
        Seq::empty()
    } else {
        let rest = keep_big(cells.drop_last());
        match cells.last() {
            Some(s) => if s.len() > 8 {
                rest.push(s)
            } else {
                rest
            },
            None => rest,
        }
    }
}

/// The bytes all present cells hold together.
pub open spec fn sum_present_lens(cells: Seq<Option<Seq<u8>>>) -> nat
    decreases cells.len(),
{
    if cells.len() == 0 {
        0
    } else {
        sum_present_lens(cells.drop_last()) + match cells.last() {
            Some(s) => s.len(),
            None => 0,
        }
    }
}

/// The zstd encodings of all given strings against one dictionary, summed.
pub open spec fn sum_zstd(ss: Seq<Seq<u8>>, dict: Seq<u8>) -> nat
    decreases ss.len(),
{
    if ss.len() == 0 {
        0
    } else {
        sum_zstd(ss.drop_last(), dict) + zstd_len_of(ss.last(), dict)
    }
}

/// The lz4 encodings of all given strings against one dictionary, summed.
pub open spec fn sum_lz4(ss: Seq<Seq<u8>>, dict: Seq<u8>) -> nat
    decreases ss.len(),
{
    if ss.len() == 0 {
        0
    } else {
        sum_lz4(ss.drop_last(), dict) + lz4_dict_len_of(ss.last(), dict)
    }
}

proof fn lemma_sum_present_prefix(cells: Seq<Option<Seq<u8>>>, i: int)
    requires
        0 <= i <= cells.len(),
    ensures
        sum_present_lens(cells.subrange(0, i)) <= sum_present_lens(cells),
    decreases cells.len() - i,
{
    if i == cells.len() {
        assert(cells.subrange(0, i) =~= cells);
    } else {
        lemma_sum_present_prefix(cells, i + 1);
        assert(cells.subrange(0, i + 1).drop_last() =~= cells.subrange(0, i));
        assert(cells.subrange(0, i + 1).last() == cells[i]);
    }
}

/// The per-leaf string compression analyzer: how large a dictionary to
/// train, and how many sample strings to train it on.
pub struct StringCompressionByLeaf {
    pub dict_size: usize,
    pub num_samples: usize,
}

/// What the analyzer measures for one leaf (or, combined, for many): the raw
/// string bytes, the trained dictionaries, and the compressed sizes under
/// each codec.
#[derive(Clone, Copy, PartialEq, Eq, Structural, Debug)]
pub struct StringCompressionByLeafResult {
    pub uncompressed_size: u64,
    pub leaf_dict_size: u64,
    pub lz4_leaf_data_size: u64,
    pub zstd_leaf_data_size: u64,
}

impl StringCompressionByLeafResult {
    /// A measurement of nothing.
    pub fn new() -> (r: StringCompressionByLeafResult)
        ensures
            r.uncompressed_size == 0,
            r.leaf_dict_size == 0,
            r.lz4_leaf_data_size == 0,
            r.zstd_leaf_data_size == 0,
    {
        StringCompressionByLeafResult {
            uncompressed_size: 0,
            leaf_dict_size: 0,
            lz4_leaf_data_size: 0,
            zstd_leaf_data_size: 0,
        }
    }

    /// Merge the measurements of two disjoint sets of leaves: every counter
    /// adds up.
    pub fn combine(self, other: &mut StringCompressionByLeafResult) -> (r:
        StringCompressionByLeafResult)
        requires
            self.uncompressed_size + old(other).uncompressed_size <= u64::MAX,
            self.leaf_dict_size + old(other).leaf_dict_size <= u64::MAX,
            self.lz4_leaf_data_size + old(other).lz4_leaf_data_size <= u64::MAX,
            self.zstd_leaf_data_size + old(other).zstd_leaf_data_size <= u64::MAX,
        ensures
            *final(other) == *old(other),
            r.uncompressed_size == self.uncompressed_size + old(other).uncompressed_size,
            r.leaf_dict_size == self.leaf_dict_size + old(other).leaf_dict_size,
            r.lz4_leaf_data_size == self.lz4_leaf_data_size + old(other).lz4_leaf_data_size,
            r.zstd_leaf_data_size == self.zstd_leaf_data_size + old(other).zstd_leaf_data_size,
    {
        StringCompressionByLeafResult {
            uncompressed_size: self.uncompressed_size + other.uncompressed_size,
            leaf_dict_size: self.leaf_dict_size + other.leaf_dict_size,
            lz4_leaf_data_size: self.lz4_leaf_data_size + other.lz4_leaf_data_size,
            zstd_leaf_data_size: self.zstd_leaf_data_size + other.zstd_leaf_data_size,
        }
    }
}

impl StringCompressionByLeaf {
    /// Measure one leaf of a string column. Strings of at most eight bytes
    /// are left out of compression; when fewer strings remain than samples
    /// are wanted (at least eight, the least zstd trains on), the leaf is
    /// reported incompressible: the raw size under both codecs, no
    /// dictionary. Otherwise a dictionary is trained on the first samples
    /// and every remaining string is compressed against it. An error is
    /// reported when the dictionary cannot be trained, a codec fails, or a
    /// sum leaves `u64`.
    pub fn analyze_leaf(&self, cells: &Vec<Option<Vec<u8>>>) -> (r: Result<
        StringCompressionByLeafResult,
        Error,
    >)
        requires
            sum_present_lens(cells.deep_view()) <= u64::MAX,
        ensures
            match r {
                Ok(res) => {
                    let ss = keep_big(cells.deep_view());
                    let wanted = if self.num_samples >= 8 {
                        self.num_samples
                    } else {
                        8
                    };
                    &&& res.uncompressed_size == sum_present_lens(cells.deep_view())
                    &&& if ss.len() < wanted {
                        &&& res.leaf_dict_size == 0
                        &&& res.lz4_leaf_data_size == res.uncompressed_size
                        &&& res.zstd_leaf_data_size == res.uncompressed_size
                    } else {
                        let dict = zstd_dict_of(
                            ss.subrange(0, wanted as int),
                            self.dict_size as nat,
                        );
                        &&& res.leaf_dict_size == dict.len()
                        &&& res.zstd_leaf_data_size == sum_zstd(ss, dict)
                        &&& res.lz4_leaf_data_size == sum_lz4(ss, dict)
                    }
                },
                Err(_) => true,
            },
    {
        let ghost cellsv = cells.deep_view();
        let n = cells.len();
        let mut strings: Vec<Vec<u8>> = Vec::new();
        let mut uncompressed: u64 = 0;
        let mut i: usize = 0;
        proof {
            assert(cellsv.subrange(0, 0) =~= Seq::<Option<Seq<u8>>>::empty());
        }
        while i < n
            invariant
                0 <= i <= n,
                n == cells@.len(),
                cellsv == cells.deep_view(),
                cellsv.len() == n,
                sum_present_lens(cellsv) <= u64::MAX,
                uncompressed == sum_present_lens(cellsv.subrange(0, i as int)),
                strings.deep_view() == keep_big(cellsv.subrange(0, i as int)),
            decreases n - i,
        {
            proof {
                lemma_sum_present_prefix(cellsv, i + 1);
                assert(cellsv.subrange(0, i + 1).drop_last() =~= cellsv.subrange(0, i as int));
                assert(cellsv.subrange(0, i + 1).last() == cellsv[i as int]);
                assert(cellsv[i as int] == cells@[i as int].deep_view());
            }
            match &cells[i] {
                Some(s) => {
                    uncompressed = uncompressed + s.len() as u64;
                    if s.len() > 8 {
                        let copied = crate::source::copy_bytes(s);
                        strings.push(copied);
                    }
                },
                None => {},
            }
            proof {
                assert(strings.deep_view() =~= keep_big(cellsv.subrange(0, i + 1)));
            }
            i += 1;
        }
        proof {
            assert(cellsv.subrange(0, n as int) =~= cellsv);
        }
        let wanted = if self.num_samples >= 8 {
            self.num_samples
        } else {
            8
        };
        if strings.len() < wanted {
            return Ok(
                StringCompressionByLeafResult {
                    uncompressed_size: uncompressed,
                    leaf_dict_size: 0,
                    lz4_leaf_data_size: uncompressed,
                    zstd_leaf_data_size: uncompressed,
                },
            );
        }
        let mut samples: Vec<Vec<u8>> = Vec::new();
        let mut i: usize = 0;
        while i < wanted
            invariant
                0 <= i <= wanted,
                wanted <= strings@.len(),
                samples@.len() == i,
                forall|t: int| 0 <= t < i ==> (#[trigger] samples@[t])@ == strings@[t]@,
            decreases wanted - i,
        {
            let copied = crate::source::copy_bytes(&strings[i]);
            samples.push(copied);
            i += 1;
        }
        proof {
            assert forall|t: int| 0 <= t < wanted implies #[trigger] samples.deep_view()[t]
                == strings.deep_view().subrange(0, wanted as int)[t] by {}
            assert(samples.deep_view() =~= strings.deep_view().subrange(0, wanted as int));
        }
        let dict = match train_dict(&samples, self.dict_size) {
            Ok(d) => d,
            Err(e) => {
                return Err(e);
            },
        };
        let ghost ss = strings.deep_view();
        let m = strings.len();
        let mut zstd_total: u64 = 0;
        let mut lz4_total: u64 = 0;
        let mut i: usize = 0;
        proof {
            assert(ss.subrange(0, 0) =~= Seq::<Seq<u8>>::empty());
        }
        while i < m
            invariant
                0 <= i <= m,
                m == strings@.len(),
                ss == strings.deep_view(),
                ss.len() == m,
                dict@ == zstd_dict_of(samples.deep_view(), self.dict_size as nat),
                zstd_total == sum_zstd(ss.subrange(0, i as int), dict@),
                lz4_total == sum_lz4(ss.subrange(0, i as int), dict@),
            decreases m - i,
        {
            proof {
                assert(ss.subrange(0, i + 1).drop_last() =~= ss.subrange(0, i as int));
                assert(ss.subrange(0, i + 1).last() == ss[i as int]);
                assert(ss[i as int] == strings@[i as int]@);
            }
            let z = match zstd_compressed_len(&strings[i], &dict) {
                Ok(z) => z,
                Err(e) => {
                    return Err(e);
                },
            };
            let l = match lz4_with_dict_len(&strings[i], &dict) {
                Ok(l) => l,
                Err(e) => {
                    return Err(e);
                },
            };
            if z as u64 > u64::MAX - zstd_total {
                return Err(Error::with_message(String::new()));
            }
            zstd_total = zstd_total + z as u64;
            if l as u64 > u64::MAX - lz4_total {
                return Err(Error::with_message(String::new()));
            }
            lz4_total = lz4_total + l as u64;
            i += 1;
        }
        proof {
            assert(ss.subrange(0, m as int) =~= ss);
        }
        Ok(
            StringCompressionByLeafResult {
                uncompressed_size: uncompressed,
                leaf_dict_size: dict.len() as u64,
                lz4_leaf_data_size: lz4_total,
                zstd_leaf_data_size: zstd_total,
            },
        )
    }
}

} // verus!
