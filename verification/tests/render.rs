use psp_engine::render::{convert_ptwo, memory_hex, next_frame_index, pow2_at_least, sprite_cell};

#[test]
fn memory_hex_full_lines() {
    assert_eq!(memory_hex(&[0x00, 0x1F, 0xA0, 0xFF]), "00 1F A0 FF \n");
}

#[test]
fn memory_hex_partial_line() {
    assert_eq!(
        memory_hex(&[0xDE, 0xAD, 0xBE, 0xEF, 0x01]),
        "DE AD BE EF \n01 \n"
    );
}

#[test]
fn memory_hex_empty() {
    assert_eq!(memory_hex(&[]), "");
}

#[test]
fn sprite_cell_counts_row_by_row() {
    // A 128-pixel-wide sheet of 32-pixel tiles holds four tiles per row.
    assert_eq!(sprite_cell(128, 64, 32, 32, 0), (0, 0));
    assert_eq!(sprite_cell(128, 64, 32, 32, 3), (3, 0));
    assert_eq!(sprite_cell(128, 64, 32, 32, 6), (2, 1));
}

#[test]
fn memory_hex_length_counts_started_lines() {
    for n in 0..10usize {
        let bytes = vec![0x5Au8; n];
        assert_eq!(memory_hex(&bytes).chars().count(), 3 * n + (n + 3) / 4);
    }
}

#[test]
fn texture_sizes_round_up_to_powers_of_two() {
    assert_eq!(pow2_at_least(0), 1);
    assert_eq!(pow2_at_least(1), 1);
    assert_eq!(pow2_at_least(100), 128);
    assert_eq!(pow2_at_least(0x8000_0000), 0x8000_0000);
    assert_eq!(convert_ptwo(480, 16), (512, 16));
    assert_eq!(next_frame_index(0), 1);
    assert_eq!(next_frame_index(10), 11);
    assert_eq!(next_frame_index(11), 0);
}
