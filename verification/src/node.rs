//! The columnar array encoding: node headers, bit widths of the integer
//! encoding, per-width statistics, and the estimator for re-encoding an
//! array with a shared base and per-element offsets. Also the allocator
//! model that hands out node positions.

use vstd::prelude::*;

use crate::store::Error;

verus! {

broadcast use vstd::seq::group_seq_axioms, vstd::std_specs::vec::group_vec_axioms;

/// The kind of an array node.
#[allow(non_camel_case_types)]
#[derive(Clone, Copy, PartialEq, Eq, Structural, Debug)]
pub enum NodeHeaderType {
    type_Normal,
    type_InnerBptreeNode,
    type_HasRefs,
}

/// How an array node's width field is to be read: bits per element, bytes
/// per element, or not at all (the node is a plain byte chunk).
#[allow(non_camel_case_types)]
#[derive(Clone, Copy, PartialEq, Eq, Structural, Debug)]
pub enum NodeHeaderWidthType {
    wtype_Bits,
    wtype_Multiply,
    wtype_Ignore,
}

/// The width the integer encoding needs for a value: 0, 1, 2 or 4 bits for
/// small non-negative values, else the narrowest of 8, 16, 32 or 64 bits
/// whose signed range holds it.
pub open spec fn spec_bit_width(v: i64) -> nat {
    if v == 0 {
        0
    } else if v == 1 {
        1
    } else if 0 <= v < 4 {
        2
    } else if 0 <= v < 16 {
        4
    } else if -128 <= v < 128 {
        8
    } else if -32768 <= v < 32768 {
        16
    } else if -0x8000_0000 <= v < 0x8000_0000 {
        32
    } else {
        64
    }
}

/// The widths the encoding knows.
pub open spec fn is_encoding_width(w: nat) -> bool {
    w == 0 || w == 1 || w == 2 || w == 4 || w == 8 || w == 16 || w == 32 || w == 64
}

/// Whether a value fits in an encoding width: the sub-byte widths hold small
/// non-negative values, the byte-multiple widths hold their signed range.
pub open spec fn width_holds(v: i64, w: nat) -> bool {
    if w == 0 {
        v == 0
    } else if w == 1 {
        0 <= v < 2
    } else if w == 2 {
        0 <= v < 4
    } else if w == 4 {
        0 <= v < 16
    } else if w == 8 {
        -128 <= v < 128
    } else if w == 16 {
        -32768 <= v < 32768
    } else if w == 32 {
        -0x8000_0000 <= v < 0x8000_0000
    } else if w == 64 {
        true
    } else {
        false
    }
}

/// Calculate the required bits to represent an integer in the array integer
/// encoding.
pub fn bit_width(value: i64) -> (r: usize)
    ensures
        r == spec_bit_width(value),
{
    if value == 0 {
        0
    } else if value == 1 {
        1
    } else if 0 <= value && value < 4 {
        2
    } else if 0 <= value && value < 16 {
        4
    } else if -128 <= value && value < 128 {
        8
    } else if -32768 <= value && value < 32768 {
        16
    } else if -0x8000_0000 <= value && value < 0x8000_0000 {
        32
    } else {
        64
    }
}

/// The law of `bit_width`: it returns an encoding width that holds the value,
/// and no narrower encoding width does.
pub proof fn lemma_bit_width_minimal(v: i64)
    ensures
        is_encoding_width(spec_bit_width(v)),
        width_holds(v, spec_bit_width(v)),
        forall|w: nat| is_encoding_width(w) && w < spec_bit_width(v) ==> !width_holds(v, w),
{
}

/// The histogram slot a width is counted under: widths are powers of two up
/// to 64; anything else lands in the overflow bucket.
pub open spec fn spec_index_for_bitwidth(width: usize) -> Option<usize> {
    if width == 0 {
        Some(0)
    } else if width == 1 {
        Some(1)
    } else if width == 2 {
        Some(2)
    } else if width == 4 {
        Some(3)
    } else if width == 8 {
        Some(4)
    } else if width == 16 {
        Some(5)
    } else if width == 32 {
        Some(6)
    } else if width == 64 {
        Some(7)
    } else {
        None
    }
}

fn index_for_bitwidth(width: usize) -> (r: Option<usize>)
    ensures
        r == spec_index_for_bitwidth(width),
        r matches Some(i) ==> i < 8,
{
    match width {
        0 => Some(0),
        1 => Some(1),
        2 => Some(2),
        4 => Some(3),
        8 => Some(4),
        16 => Some(5),
        32 => Some(6),
        64 => Some(7),
        _ => None,
    }
}

/// A histogram of array widths: one bucket per encoding width, and one for
/// anything wider.
#[derive(Clone, Debug)]
pub struct ArrayWidths {
    pub counts: Vec<usize>,
    pub larger: usize,
}

impl ArrayWidths {
    /// Eight buckets, all empty.
    pub open spec fn wf(&self) -> bool {
        self.counts@.len() == 8
    }

    /// A histogram with nothing counted yet.
    pub fn new() -> (r: ArrayWidths)
        ensures
            r.wf(),
            r.larger == 0,
            forall|i: int| 0 <= i < 8 ==> r.counts@[i] == 0,
    {
        let mut counts: Vec<usize> = Vec::new();
        let mut i: usize = 0;
        while i < 8
            invariant
                counts@.len() == i,
                0 <= i <= 8,
                forall|t: int| 0 <= t < i ==> counts@[t] == 0,
            decreases 8 - i,
        {
            counts.push(0);
            i += 1;
        }
        ArrayWidths { counts, larger: 0 }
    }

    /// Count one array of the given width in its bucket.
    pub fn increment(&mut self, width: usize)
        requires
            old(self).wf(),
            match spec_index_for_bitwidth(width) {
                Some(i) => old(self).counts@[i as int] < usize::MAX,
                None => old(self).larger < usize::MAX,
            },
        ensures
            final(self).wf(),
            match spec_index_for_bitwidth(width) {
                Some(i) => final(self).counts@ == old(self).counts@.update(
                    i as int,
                    (old(self).counts@[i as int] + 1) as usize,
                ) && final(self).larger == old(self).larger,
                None => final(self).larger == old(self).larger + 1 && final(self).counts@ == old(
                    self,
                ).counts@,
            },
    {
        match index_for_bitwidth(width) {
            Some(index) => {
                let slot = &mut self.counts[index];
                *slot = *slot + 1;
            },
            None => {
                self.larger = self.larger + 1;
            },
        }
    }

    /// Add another histogram's counts bucket by bucket.
    pub fn merge(&mut self, other: &ArrayWidths)
        requires
            old(self).wf(),
            other.wf(),
            forall|i: int|
                0 <= i < 8 ==> old(self).counts@[i] + other.counts@[i] <= usize::MAX,
            old(self).larger + other.larger <= usize::MAX,
        ensures
            final(self).wf(),
            forall|i: int|
                0 <= i < 8 ==> final(self).counts@[i] == old(self).counts@[i] + other.counts@[i],
            final(self).larger == old(self).larger + other.larger,
    {
        let mut i: usize = 0;
        while i < 8
            invariant
                0 <= i <= 8,
                self.counts@.len() == 8,
                other.wf(),
                self.larger == old(self).larger,
                forall|t: int| 0 <= t < 8 ==> old(self).counts@[t] + other.counts@[t] <= usize::MAX,
                forall|t: int|
                    0 <= t < i ==> self.counts@[t] == old(self).counts@[t] + other.counts@[t],
                forall|t: int| i <= t < 8 ==> self.counts@[t] == old(self).counts@[t],
            decreases 8 - i,
        {
            let add_this = other.counts[i];
            let slot = &mut self.counts[i];
            *slot = *slot + add_this;
            i += 1;
        }
        self.larger = self.larger + other.larger;
    }
}

/// The array-statistics analyzer.
pub struct ArrayStats;

/// Aggregate statistics over the arrays of a snapshot.
#[derive(Clone, Debug)]
pub struct Analysis {
    pub live_byte_size: u64,
    pub num_arrays: u64,
    pub array_length_sum: u64,
    pub arrays_with_refs: u64,
    pub arrays_bpnode: u64,
    pub widths: ArrayWidths,
    pub recursion_depth: usize,
    pub estimated_base_offset_size: u64,
}

impl Analysis {
    /// An analysis of nothing.
    pub fn new() -> (r: Analysis)
        ensures
            r.widths.wf(),
            r.live_byte_size == 0,
            r.num_arrays == 0,
            r.array_length_sum == 0,
            r.arrays_with_refs == 0,
            r.arrays_bpnode == 0,
            r.recursion_depth == 0,
            r.estimated_base_offset_size == 0,
    {
        Analysis {
            live_byte_size: 0,
            num_arrays: 0,
            array_length_sum: 0,
            arrays_with_refs: 0,
            arrays_bpnode: 0,
            widths: ArrayWidths::new(),
            recursion_depth: 0,
            estimated_base_offset_size: 0,
        }
    }

    /// Merge the statistics of two disjoint sets of arrays: counters add up,
    /// the recursion depth is the deeper of the two.
    pub fn combine(self, other: Analysis) -> (r: Analysis)
        requires
            self.widths.wf(),
            other.widths.wf(),
            self.live_byte_size + other.live_byte_size <= u64::MAX,
            self.num_arrays + other.num_arrays <= u64::MAX,
            self.array_length_sum + other.array_length_sum <= u64::MAX,
            self.arrays_with_refs + other.arrays_with_refs <= u64::MAX,
            self.arrays_bpnode + other.arrays_bpnode <= u64::MAX,
            self.estimated_base_offset_size + other.estimated_base_offset_size <= u64::MAX,
            forall|i: int|
                0 <= i < 8 ==> self.widths.counts@[i] + other.widths.counts@[i] <= usize::MAX,
            self.widths.larger + other.widths.larger <= usize::MAX,
        ensures
            r.widths.wf(),
            r.live_byte_size == self.live_byte_size + other.live_byte_size,
            r.num_arrays == self.num_arrays + other.num_arrays,
            r.array_length_sum == self.array_length_sum + other.array_length_sum,
            r.arrays_with_refs == self.arrays_with_refs + other.arrays_with_refs,
            r.arrays_bpnode == self.arrays_bpnode + other.arrays_bpnode,
            r.estimated_base_offset_size == self.estimated_base_offset_size
                + other.estimated_base_offset_size,
            r.recursion_depth == if self.recursion_depth >= other.recursion_depth {
                self.recursion_depth
            } else {
                other.recursion_depth
            },
            forall|i: int|
                0 <= i < 8 ==> r.widths.counts@[i] == self.widths.counts@[i]
                    + other.widths.counts@[i],
            r.widths.larger == self.widths.larger + other.widths.larger,
    {
        let mut this = self;
        this.live_byte_size = this.live_byte_size + other.live_byte_size;
        this.num_arrays = this.num_arrays + other.num_arrays;
        this.array_length_sum = this.array_length_sum + other.array_length_sum;
        this.arrays_with_refs = this.arrays_with_refs + other.arrays_with_refs;
        this.arrays_bpnode = this.arrays_bpnode + other.arrays_bpnode;
        this.estimated_base_offset_size = this.estimated_base_offset_size
            + other.estimated_base_offset_size;
        if other.recursion_depth > this.recursion_depth {
            this.recursion_depth = other.recursion_depth;
        }
        this.widths.merge(&other.widths);
        this
    }
}

/// An array node: its header fields and its payload — integer elements under
/// the integer encoding, or a plain byte chunk when the width type says so.
#[derive(Clone, Debug)]
pub struct Array {
    pub wtype: NodeHeaderWidthType,
    pub width: usize,
    pub payload: Vec<i64>,
    pub data: Vec<u8>,
    pub has_refs: bool,
    pub is_inner_bptree_node: bool,
}

impl Array {
    /// How the node's width field is to be read.
    pub fn width_type(&self) -> (r: NodeHeaderWidthType)
        ensures
            r == self.wtype,
    {
        self.wtype
    }

    /// The node's element count: bytes for a byte chunk, elements otherwise.
    pub fn size(&self) -> (r: usize)
        ensures
            r as nat == spec_array_size(*self),
    {
        match self.wtype {
            NodeHeaderWidthType::wtype_Ignore => self.data.len(),
            _ => self.payload.len(),
        }
    }

    /// The node's raw width field.
    pub fn get_width(&self) -> (r: usize)
        ensures
            r == self.width,
    {
        self.width
    }

    /// Bits one element occupies: a byte chunk has byte elements, a
    /// byte-multiple node has `width` bytes per element, and otherwise the
    /// width is in bits already.
    pub fn width_per_element_in_bits(&self) -> (r: usize)
        requires
            self.width * 8 <= usize::MAX,
        ensures
            r as nat == spec_width_per_element_in_bits(*self),
    {
        let width = self.get_width();
        match self.width_type() {
            NodeHeaderWidthType::wtype_Ignore => 8,
            NodeHeaderWidthType::wtype_Multiply => width * 8,
            _ => width,
        }
    }
}

/// The node's element count.
pub open spec fn spec_array_size(a: Array) -> nat {
    match a.wtype {
        NodeHeaderWidthType::wtype_Ignore => a.data@.len(),
        _ => a.payload@.len(),
    }
}

/// Bits one element occupies.
pub open spec fn spec_width_per_element_in_bits(a: Array) -> nat {
    match a.wtype {
        NodeHeaderWidthType::wtype_Ignore => 8,
        NodeHeaderWidthType::wtype_Multiply => (a.width * 8) as nat,
        NodeHeaderWidthType::wtype_Bits => a.width as nat,
    }
}


/// A handle to allocated node memory: the node's position.
#[derive(Clone, Copy, PartialEq, Eq, Structural, Debug)]
pub struct MemRef {
    pub m_ref: usize,
}

/// The allocator handing out node positions: positions are 8-aligned and
/// never zero, so a stored position is always a nonzero even value — which is
/// how a reference is told apart from a payload integer.
#[derive(Clone, Copy, PartialEq, Eq, Structural, Debug)]
pub struct DefaultAllocator {
    pub next_ref: usize,
}

/// A sane allocator: the next position is 8-aligned and past the reserved
/// zero node.
pub open spec fn alloc_wf(next_ref: usize) -> bool {
    next_ref % 8 == 0 && next_ref >= 8
}

impl DefaultAllocator {
    /// A fresh allocator, starting past the reserved zero position.
    pub fn new() -> (a: DefaultAllocator)
        ensures
            a.next_ref == 8,
            alloc_wf(a.next_ref),
    {
        DefaultAllocator { next_ref: 8 }
    }

    /// Hand out the next position, advancing by the size rounded up to whole
    /// nodes; fails exactly when the arena is exhausted. The position handed
    /// out is a nonzero even value.
    pub fn allocate(&mut self, size: usize) -> (r: Result<MemRef, Error>)
        requires
            alloc_wf(old(self).next_ref),
        ensures
            alloc_wf(final(self).next_ref),
            match r {
                Ok(m) => {
                    &&& size + 7 <= usize::MAX
                    &&& old(self).next_ref + ((size + 7) / 8) * 8 <= usize::MAX
                    &&& m.m_ref == old(self).next_ref
                    &&& m.m_ref != 0
                    &&& m.m_ref % 2 == 0
                    &&& final(self).next_ref == old(self).next_ref + ((size + 7) / 8) * 8
                },
                Err(_) => {
                    &&& *final(self) == *old(self)
                    &&& (size + 7 > usize::MAX || old(self).next_ref + ((size + 7) / 8) * 8
                        > usize::MAX)
                },
            },
    {
        if size > usize::MAX - 7 {
            return Err(Error::with_message(String::new()));
        }
        let rounded = ((size + 7) / 8) * 8;
        if self.next_ref > usize::MAX - rounded {
            return Err(Error::with_message(String::new()));
        }
        let m = MemRef { m_ref: self.next_ref };
        self.next_ref = self.next_ref + rounded;
        Ok(m)
    }
}

/// The allocator of a transaction's slab: the same position discipline over
/// the transaction-local arena.
#[derive(Clone, Copy, PartialEq, Eq, Structural, Debug)]
pub struct SlabAlloc {
    pub next_ref: usize,
}

/// The least element of a non-empty sequence.
pub open spec fn seq_min(s: Seq<i64>) -> i64
    recommends
        s.len() > 0,
    decreases s.len(),
{
    if s.len() <= 1 {
        s[0]
    } else {
        let m = seq_min(s.drop_last());
        if s.last() < m {
            s.last()
        } else {
            m
        }
    }
}

/// The widest encoding any element needs once the base is subtracted (with
/// wrap-around, as the re-encoder would).
pub open spec fn max_offset_width(s: Seq<i64>, base: i64) -> nat
    decreases s.len(),
{
    if s.len() == 0 {
        0
    } else {
        let m = max_offset_width(s.drop_last(), base);
        let w = spec_bit_width(vstd::wrapping::i64_specs::wrapping_sub(s.last(), base));
        if w > m {
            w
        } else {
            m
        }
    }
}

/// Rounded up to whole 8-byte nodes.
pub open spec fn align_node(x: nat) -> nat {
    ((x + 7) / 8) * 8
}

/// What re-encoding an array with a shared base and per-element offsets would
/// occupy, 8-byte header included. A byte-multiple array stays as its chunks;
/// a byte chunk stays as its bytes (or as the given compressed size); an
/// integer-encoded array gets a 64-bit base slot, at least a byte for the
/// base, and the widest needed offset per element.
pub open spec fn spec_estimate(a: Array, blob: Option<nat>) -> nat {
    match a.wtype {
        NodeHeaderWidthType::wtype_Multiply => align_node((a.width * a.payload@.len() + 8) as nat),
        NodeHeaderWidthType::wtype_Ignore => align_node(
            (match blob {
                Some(n) => n,
                None => a.data@.len(),
            }) + 8,
        ),
        NodeHeaderWidthType::wtype_Bits => if a.payload@.len() == 0 {
            8
        } else {
            let m = seq_min(a.payload@);
            let base_bits = if spec_bit_width(m) >= 8 {
                spec_bit_width(m)
            } else {
                8
            };
            let bits = 64 + base_bits + max_offset_width(a.payload@, m) * a.payload@.len();
            align_node((bits + 7) / 8)
        },
    }
}

/// The machine limits under which the estimate can be computed at all.
pub open spec fn estimate_fits(a: Array, blob: Option<nat>) -> bool {
    match a.wtype {
        NodeHeaderWidthType::wtype_Multiply => a.width * a.payload@.len() + 15 <= usize::MAX,
        NodeHeaderWidthType::wtype_Ignore => (match blob {
            Some(n) => n,
            None => a.data@.len(),
        }) + 15 <= usize::MAX,
        NodeHeaderWidthType::wtype_Bits => 64 * a.payload@.len() + 200 <= usize::MAX,
    }
}

/// The estimate itself, over an already-determined compressed size for byte
/// chunks. Verified end to end; the caller supplies what only a codec can
/// know.
pub fn estimate_encoded_size(array: &Array, blob: Option<usize>) -> (r: usize)
    requires
        estimate_fits(*array, spec_blob_nat(blob)),
    ensures
        r as nat == spec_estimate(*array, spec_blob_nat(blob)),
{
    match array.wtype {
        NodeHeaderWidthType::wtype_Multiply => {
            let total = array.width * array.payload.len() + 8;
            ((total + 7) / 8) * 8
        },
        NodeHeaderWidthType::wtype_Ignore => {
            let d = match blob {
                Some(n) => n,
                None => array.data.len(),
            };
            let total = d + 8;
            ((total + 7) / 8) * 8
        },
        NodeHeaderWidthType::wtype_Bits => {
            let n = array.payload.len();
            if n == 0 {
                return 8;
            }
            let mut m = array.payload[0];
            let mut i: usize = 1;
            proof {
                assert(array.payload@.subrange(0, 1) =~= seq![array.payload@[0]]);
            }
            while i < n
                invariant
                    1 <= i <= n,
                    n == array.payload@.len(),
                    m == seq_min(array.payload@.subrange(0, i as int)),
                decreases n - i,
            {
                proof {
                    assert(array.payload@.subrange(0, i + 1).drop_last() =~= array.payload@.subrange(
                        0,
                        i as int,
                    ));
                    assert(array.payload@.subrange(0, i + 1).last() == array.payload@[i as int]);
                }
                if array.payload[i] < m {
                    m = array.payload[i];
                }
                i += 1;
            }
            proof {
                assert(array.payload@.subrange(0, n as int) =~= array.payload@);
            }
            let mut maxw: usize = 0;
            let mut i: usize = 0;
            proof {
                assert(array.payload@.subrange(0, 0) =~= Seq::<i64>::empty());
            }
            while i < n
                invariant
                    0 <= i <= n,
                    n == array.payload@.len(),
                    maxw == max_offset_width(array.payload@.subrange(0, i as int), m),
                    maxw <= 64,
                decreases n - i,
            {
                proof {
                    assert(array.payload@.subrange(0, i + 1).drop_last() =~= array.payload@.subrange(
                        0,
                        i as int,
                    ));
                    assert(array.payload@.subrange(0, i + 1).last() == array.payload@[i as int]);
                }
                let w = bit_width(array.payload[i].wrapping_sub(m));
                if w > maxw {
                    maxw = w;
                }
                i += 1;
            }
            proof {
                assert(array.payload@.subrange(0, n as int) =~= array.payload@);
            }
            let base_w = bit_width(m);
            let base_bits = if base_w >= 8 {
                base_w
            } else {
                8
            };
            proof {
                assert(spec_bit_width(m) <= 64);
                vstd::arithmetic::mul::lemma_mul_inequality(maxw as int, 64, n as int);
            }
            let bits = 64 + base_bits + maxw * n;
            let bytes = (bits + 7) / 8;
            ((bytes + 7) / 8) * 8
        },
    }
}

/// The compressed size spoken of in the estimate, if one was supplied.
pub open spec fn spec_blob_nat(blob: Option<usize>) -> Option<nat> {
    match blob {
        Some(n) => Some(n as nat),
        None => None,
    }
}

/// Estimate what re-encoding an array with a shared base and per-element
/// offsets would occupy; for a byte chunk, optionally as its lz4 frame
/// instead of its raw bytes. `None` exactly when the sizes cannot be summed
/// on this machine.
pub fn estimate_array_size_with_base_offset_encoding(array: &Array, use_lz4_blob: bool) -> (r:
    Option<usize>)
    ensures
        ({
            let blob = if use_lz4_blob && array.wtype is wtype_Ignore {
                Some(crate::compress::lz4_frame_len_of(array.data@))
            } else {
                None
            };
            match r {
                Some(v) => estimate_fits(*array, blob) && v as nat == spec_estimate(*array, blob),
                None => !estimate_fits(*array, blob),
            }
        }),
{
    match array.wtype {
        NodeHeaderWidthType::wtype_Multiply => {
            match array.width.checked_mul(array.payload.len()) {
                Some(p) => {
                    if p <= usize::MAX - 15 {
                        Some(estimate_encoded_size(array, None))
                    } else {
                        None
                    }
                },
                None => None,
            }
        },
        NodeHeaderWidthType::wtype_Ignore => {
            let blob = if use_lz4_blob {
                Some(crate::compress::lz4_frame_len(&array.data))
            } else {
                None
            };
            let d = match blob {
                Some(n) => n,
                None => array.data.len(),
            };
            if d <= usize::MAX - 15 {
                Some(estimate_encoded_size(array, blob))
            } else {
                None
            }
        },
        NodeHeaderWidthType::wtype_Bits => {
            match 64usize.checked_mul(array.payload.len()) {
                Some(p) => {
                    if p <= usize::MAX - 200 {
                        Some(estimate_encoded_size(array, None))
                    } else {
                        None
                    }
                },
                None => None,
            }
        },
    }
}
} // verus!
