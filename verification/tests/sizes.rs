use leafquery::compress::{StringCompressionByLeaf, StringCompressionByLeafResult};
use leafquery::node::{
    estimate_array_size_with_base_offset_encoding, Analysis, Array, ArrayWidths,
    NodeHeaderWidthType,
};

#[test]
fn width_histogram_counts_into_the_right_buckets() {
    let mut widths = ArrayWidths::new();
    widths.increment(0);
    widths.increment(1);
    widths.increment(64);
    widths.increment(64);
    widths.increment(100);
    assert_eq!(widths.counts, vec![1, 1, 0, 0, 0, 0, 0, 2]);
    assert_eq!(widths.larger, 1);
}

#[test]
fn analyses_combine_by_summing_and_deepest_recursion() {
    let mut a = Analysis::new();
    a.live_byte_size = 100;
    a.num_arrays = 2;
    a.array_length_sum = 30;
    a.arrays_with_refs = 1;
    a.recursion_depth = 3;
    a.estimated_base_offset_size = 80;
    a.widths.increment(8);
    let mut b = Analysis::new();
    b.live_byte_size = 50;
    b.num_arrays = 1;
    b.arrays_bpnode = 1;
    b.recursion_depth = 5;
    b.estimated_base_offset_size = 40;
    b.widths.increment(8);
    b.widths.increment(128);
    let c = a.combine(b);
    assert_eq!(c.live_byte_size, 150);
    assert_eq!(c.num_arrays, 3);
    assert_eq!(c.array_length_sum, 30);
    assert_eq!(c.arrays_with_refs, 1);
    assert_eq!(c.arrays_bpnode, 1);
    assert_eq!(c.recursion_depth, 5);
    assert_eq!(c.estimated_base_offset_size, 120);
    assert_eq!(c.widths.counts[4], 2);
    assert_eq!(c.widths.larger, 1);
}

fn bits_array(payload: Vec<i64>) -> Array {
    Array {
        wtype: NodeHeaderWidthType::wtype_Bits,
        width: 2,
        payload,
        data: Vec::new(),
        has_refs: false,
        is_inner_bptree_node: false,
    }
}

#[test]
fn element_widths_follow_the_width_type() {
    let mut a = bits_array(vec![1, 2, 3]);
    a.width = 16;
    assert!(matches!(a.width_type(), NodeHeaderWidthType::wtype_Bits));
    assert_eq!(a.width_per_element_in_bits(), 16);
    assert_eq!(a.size(), 3);
    a.wtype = NodeHeaderWidthType::wtype_Multiply;
    a.width = 4;
    assert_eq!(a.width_per_element_in_bits(), 32);
    a.wtype = NodeHeaderWidthType::wtype_Ignore;
    a.data = vec![0; 10];
    assert_eq!(a.width_per_element_in_bits(), 8);
    assert_eq!(a.size(), 10);
    assert_eq!(a.get_width(), 4);
}

#[test]
fn base_offset_estimate_of_an_integer_array() {
    // Base 100, offsets 0, 3 and 1 need two bits each; 64 bits for the base
    // slot, 8 for the base itself, 6 for the offsets: 78 bits, 10 bytes,
    // aligned to 16.
    let a = bits_array(vec![100, 103, 101]);
    assert_eq!(estimate_array_size_with_base_offset_encoding(&a, false), Some(16));
    // An empty array is just its header.
    let a = bits_array(vec![]);
    assert_eq!(estimate_array_size_with_base_offset_encoding(&a, false), Some(8));
}

#[test]
fn byte_shaped_arrays_estimate_by_their_bytes() {
    let mut a = bits_array(vec![1, 2, 3]);
    a.wtype = NodeHeaderWidthType::wtype_Multiply;
    a.width = 4;
    // 4-byte chunks, 3 of them, plus the header: 20, aligned to 24.
    assert_eq!(estimate_array_size_with_base_offset_encoding(&a, false), Some(24));
    a.wtype = NodeHeaderWidthType::wtype_Ignore;
    a.data = vec![7; 10];
    // 10 raw bytes plus the header: 18, aligned to 24.
    assert_eq!(estimate_array_size_with_base_offset_encoding(&a, false), Some(24));
}

#[test]
fn compressing_a_repetitive_byte_chunk_shrinks_the_estimate() {
    let mut a = bits_array(vec![]);
    a.wtype = NodeHeaderWidthType::wtype_Ignore;
    a.data = vec![0; 4096];
    let raw = estimate_array_size_with_base_offset_encoding(&a, false).unwrap();
    let packed = estimate_array_size_with_base_offset_encoding(&a, true).unwrap();
    assert_eq!(raw, 4104);
    assert!(packed < raw);
    assert!(packed >= 8);
}

#[test]
fn leaf_with_too_few_large_strings_is_reported_incompressible() {
    let analyzer = StringCompressionByLeaf { dict_size: 256, num_samples: 16 };
    let cells = vec![
        Some(b"abc".to_vec()),
        None,
        Some(b"twelve-bytes".to_vec()),
    ];
    let r = analyzer.analyze_leaf(&cells).unwrap();
    assert_eq!(r.uncompressed_size, 15);
    assert_eq!(r.leaf_dict_size, 0);
    assert_eq!(r.lz4_leaf_data_size, 15);
    assert_eq!(r.zstd_leaf_data_size, 15);
}

#[test]
fn repetitive_strings_compress_below_their_raw_size() {
    let analyzer = StringCompressionByLeaf { dict_size: 1024, num_samples: 8 };
    let mut cells: Vec<Option<Vec<u8>>> = Vec::new();
    for i in 0..64u8 {
        let mut s = b"the quick brown fox jumps over the lazy dog ".repeat(6);
        s.push(i);
        cells.push(Some(s));
    }
    let per_string = 44 * 6 + 1;
    let r = analyzer.analyze_leaf(&cells).unwrap();
    assert_eq!(r.uncompressed_size, 64 * per_string);
    assert!(r.leaf_dict_size > 0);
    assert!(r.leaf_dict_size <= 1024);
    assert!(r.zstd_leaf_data_size > 0);
    assert!(r.lz4_leaf_data_size > 0);
    // If a codec handed its input back unchanged, these sums would equal the
    // raw size; a shared dictionary over repetitive strings must do better.
    assert!(r.zstd_leaf_data_size < r.uncompressed_size);
    assert!(r.lz4_leaf_data_size < r.uncompressed_size);
}

#[test]
fn leaf_measurements_combine_by_summing() {
    let a = StringCompressionByLeafResult {
        uncompressed_size: 100,
        leaf_dict_size: 10,
        lz4_leaf_data_size: 40,
        zstd_leaf_data_size: 30,
    };
    let mut b = StringCompressionByLeafResult {
        uncompressed_size: 200,
        leaf_dict_size: 20,
        lz4_leaf_data_size: 80,
        zstd_leaf_data_size: 60,
    };
    let c = a.combine(&mut b);
    assert_eq!(c.uncompressed_size, 300);
    assert_eq!(c.leaf_dict_size, 30);
    assert_eq!(c.lz4_leaf_data_size, 120);
    assert_eq!(c.zstd_leaf_data_size, 90);
    let empty = StringCompressionByLeafResult::new();
    assert_eq!(empty.uncompressed_size, 0);
}

#[test]
fn refs_are_the_nonzero_even_values() {
    assert!(!leafquery::is_ref(0));
    assert!(!leafquery::is_ref(1));
    assert!(leafquery::is_ref(2));
    assert!(!leafquery::is_ref(-3));
    assert!(leafquery::is_ref(-4));
    assert!(leafquery::is_ref(4096));
}
