use bump_arena::hexdump::{dump_rows, heap_row, hex32_string};
use bump_arena::readback::{
    allocated_bytes, decode_heap_words, decode_qword_le, decode_timestamps, decode_word_le,
    elapsed_ticks, encode_word_le,
};

#[test]
fn word_codec_is_little_endian() {
    assert_eq!(encode_word_le(0x1234_5678), vec![0x78, 0x56, 0x34, 0x12]);
    assert_eq!(decode_word_le(&[0x78, 0x56, 0x34, 0x12]), 0x1234_5678);
    assert_eq!(decode_word_le(&encode_word_le(0)), 0);
    assert_eq!(decode_word_le(&encode_word_le(u32::MAX)), u32::MAX);
    assert_eq!(decode_word_le(&encode_word_le(8192)), 8192);
}

#[test]
fn qword_decoding_matches_the_native_codec() {
    let value: u64 = 0x0102_0304_0506_0708;
    assert_eq!(decode_qword_le(&value.to_le_bytes()), value);
}

#[test]
fn timestamps_decode_and_subtract() {
    let mut bytes = Vec::new();
    bytes.extend_from_slice(&1000u64.to_le_bytes());
    bytes.extend_from_slice(&4500u64.to_le_bytes());
    let (start, end) = decode_timestamps(&bytes);
    assert_eq!(start, 1000);
    assert_eq!(end, 4500);
    assert_eq!(elapsed_ticks(start, end), 3500);
}

#[test]
fn allocated_bytes_is_the_counter_distance_in_bytes() {
    assert_eq!(allocated_bytes(8192, 8160), 128);
    assert_eq!(allocated_bytes(8192, 8192), 0);
    assert_eq!(allocated_bytes(4, 0), 16);
}

#[test]
fn heap_words_skip_the_unclaimed_prefix() {
    let mut heap = Vec::new();
    for w in [0xaaaa_aaaau32, 0xbbbb_bbbb, 0xcccc_cccc, 0xdddd_dddd] {
        heap.extend_from_slice(&w.to_le_bytes());
    }
    assert_eq!(decode_heap_words(&heap, 1), vec![0xbbbb_bbbb, 0xcccc_cccc, 0xdddd_dddd]);
    assert_eq!(decode_heap_words(&heap, 0).len(), 4);
    assert_eq!(decode_heap_words(&heap, 4), vec![]);
    assert_eq!(decode_heap_words(&heap, 10), vec![]);
}

#[test]
fn hex_rendering_is_fixed_width() {
    assert_eq!(hex32_string(0xdead_beef), "deadbeef");
    assert_eq!(hex32_string(5), "00000005");
    assert_eq!(hex32_string(0), "00000000");
    assert_eq!(hex32_string(0x0123_4567), "01234567");
    assert_eq!(hex32_string(0x89ab_cdef), "89abcdef");
}

#[test]
fn rows_hold_eight_words_each() {
    let row = heap_row(&[1, 2]);
    assert_eq!(row, "  00000001 00000002");

    let words: Vec<u32> = (0u32..9).collect();
    let rows = dump_rows(&words);
    assert_eq!(rows.len(), 2);
    assert_eq!(
        rows[0],
        "  00000000 00000001 00000002 00000003 00000004 00000005 00000006 00000007"
    );
    assert_eq!(rows[1], "  00000008");

    assert_eq!(dump_rows(&Vec::new()).len(), 0);
    assert_eq!(dump_rows(&vec![7u32; 8]).len(), 1);
}
