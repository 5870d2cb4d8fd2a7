use anvil_region::errors::DecodeError;
use anvil_region::heightmaps::decode_heightmap;
use anvil_region::sections::{calculate_bits_per_entry, extract_palette_index};

/// Pack 256 copies of one 9-bit value the way heightmaps store them:
/// 7 values per 64-bit word, low bits first.
fn packed_heightmap(value: u64) -> Vec<i64> {
    let mut words = Vec::new();
    for w in 0..37 {
        let mut word: u64 = 0;
        for slot in 0..7 {
            if w * 7 + slot < 256 {
                word |= (value & 0x1ff) << (slot * 9);
            }
        }
        words.push(word as i64);
    }
    words
}

#[test]
fn zero_width_returns_zero_on_empty_array() {
    let words: Vec<i64> = Vec::new();
    assert_eq!(extract_palette_index(&words, 0, 0).unwrap(), 0);
    assert_eq!(extract_palette_index(&words, 4095, 0).unwrap(), 0);
}

#[test]
fn zero_width_returns_zero_whatever_the_words_hold() {
    let words: Vec<i64> = vec![-1, 12345, i64::MIN];
    assert_eq!(extract_palette_index(&words, 7, 0).unwrap(), 0);
}

#[test]
fn bits_per_entry_table() {
    assert_eq!(calculate_bits_per_entry(1), 0);
    assert_eq!(calculate_bits_per_entry(2), 4);
    assert_eq!(calculate_bits_per_entry(16), 4);
    assert_eq!(calculate_bits_per_entry(17), 5);
    assert_eq!(calculate_bits_per_entry(256), 8);
    assert_eq!(calculate_bits_per_entry(300), 9);
    assert_eq!(calculate_bits_per_entry(40000), 15);
}

#[test]
fn bits_per_entry_zero_palette() {
    assert_eq!(calculate_bits_per_entry(0), 0);
}

#[test]
fn extract_selects_the_right_field() {
    // 4 bits per entry: 16 entries per word, entry k of word 0 holds k.
    let mut word: u64 = 0;
    for k in 0..16u64 {
        word |= k << (k * 4);
    }
    let words = vec![word as i64, 0x5a5a_5a5a_5a5a_5a5au64 as i64];
    for k in 0..16usize {
        assert_eq!(extract_palette_index(&words, k, 4).unwrap(), k as u64);
    }
    // entry 0 of word 1
    assert_eq!(extract_palette_index(&words, 16, 4).unwrap(), 0xa);
}

#[test]
fn extract_word_index_out_of_bounds() {
    let words = vec![0i64];
    // 4 bits -> 16 entries per word, so element 16 needs word 1.
    match extract_palette_index(&words, 16, 4) {
        Err(DecodeError::WordIndexOutOfBounds { word_index, data_len }) => {
            assert_eq!(word_index, 1);
            assert_eq!(data_len, 1);
        }
        other => panic!("expected a word-index error, got {other:?}"),
    }
}

#[test]
fn heightmap_of_zero_words_is_zero() {
    let words = vec![0i64; 37];
    let heights = decode_heightmap(&words).unwrap();
    assert_eq!(heights.len(), 256);
    assert!(heights.iter().all(|&h| h == 0));
}

#[test]
fn heightmap_first_element_full_nine_bits() {
    let mut words = vec![0i64; 37];
    words[0] = 0x1ff; // bits 0..=8 set: element 0 reads 511
    let heights = decode_heightmap(&words).unwrap();
    assert_eq!(heights[0], 511);
    assert!(heights[1..].iter().all(|&h| h == 0));
}

#[test]
fn heightmap_uniform_values() {
    let heights = decode_heightmap(&packed_heightmap(70)).unwrap();
    assert_eq!(heights.len(), 256);
    assert!(heights.iter().all(|&h| h == 70));
}

#[test]
fn heightmap_too_short_is_rejected() {
    let words = vec![0i64; 36];
    match decode_heightmap(&words) {
        Err(DecodeError::HeightmapTooShort { len }) => assert_eq!(len, 36),
        other => panic!("expected a too-short error, got {other:?}"),
    }
}

#[test]
fn decode_reencode_round_trips() {
    // read an index out, write the same bits back into its slot, and
    // nothing changes: packing is lossless
    let words = vec![0x0123_4567_89ab_cdefu64 as i64; 3];
    for bits in [4usize, 5, 9, 15] {
        for element in [0usize, 1, 7, 11] {
            let epl = 64 / bits;
            let wi = element / epl;
            let shift = (element % epl) * bits;
            let mask = (1u64 << bits) - 1;
            let v = extract_palette_index(&words, element, bits).unwrap();
            let mut rewritten = words.clone();
            let w = rewritten[wi] as u64;
            rewritten[wi] = ((w & !(mask << shift)) | ((v & mask) << shift)) as i64;
            assert_eq!(rewritten, words);
            assert_eq!(extract_palette_index(&rewritten, element, bits).unwrap(), v);
        }
    }
}
