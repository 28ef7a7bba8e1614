use backend::canvas::{chunk_index_to_key, Canvas};
use backend::packing::BitWrite;
use backend::config::{canvas_size_default, pixels_per_bytes_default, Config};

fn config(width: usize, height: usize, chunk: usize, ppb: usize) -> Config {
    Config {
        redis_url: String::from("redis://localhost"),
        host: String::from("localhost"),
        debug_mode: false,
        canvas_width: width,
        canvas_height: height,
        canvas_chunk_size: chunk,
        base_pixel_amount: 5,
        timeout: 60,
        pixels_per_bytes: ppb,
        colors: vec![[0, 0, 0], [255, 255, 255], [255, 0, 0]],
        colors_active: None,
    }
}

// Applies bit updates as the store's SETBIT does: grow with zero bytes,
// bit 0 is the most significant bit of the first byte.
fn apply(blob: &mut Vec<u8>, writes: &[BitWrite]) {
    for w in writes {
        let byte = w.offset / 8;
        while blob.len() <= byte {
            blob.push(0);
        }
        let mask = 0x80u8 >> (w.offset % 8);
        if w.value {
            blob[byte] |= mask;
        } else {
            blob[byte] &= !mask;
        }
    }
}

#[test]
fn defaults_are_256_and_two_pixels_per_byte() {
    assert_eq!(canvas_size_default(), 256);
    assert_eq!(pixels_per_bytes_default(), 2);
}

#[test]
fn chunk_counts_round_up() {
    assert_eq!(config(256, 256, 256, 2).canvas_chunks(), (1, 1));
    assert_eq!(config(300, 200, 64, 2).canvas_chunks(), (5, 4));
    assert_eq!(config(128, 64, 64, 2).canvas_chunks(), (2, 1));
}

#[test]
fn position_maps_to_chunk_and_offset() {
    let cfg = config(300, 200, 64, 2);
    assert_eq!(cfg.canvas_pos_to_chunk_location(130, 70), ((2, 1), (2, 6)));
    assert_eq!(cfg.canvas_pos_to_chunk_location(0, 0), ((0, 0), (0, 0)));
    assert_eq!(cfg.canvas_pos_to_chunk_location(63, 64), ((0, 1), (63, 0)));
}

#[test]
fn chunk_length_and_bits_per_pixel() {
    let cfg = config(256, 256, 64, 2);
    assert_eq!(cfg.bits_per_pixel(), 4);
    assert_eq!(cfg.chunk_byte_len(), 2048);
    let cfg1 = config(256, 256, 3, 2);
    assert_eq!(cfg1.chunk_byte_len(), 5);
    let cfg8 = config(256, 256, 4, 8);
    assert_eq!(cfg8.bits_per_pixel(), 1);
    assert_eq!(cfg8.chunk_byte_len(), 2);
}

#[test]
fn validity_checks_chunk_and_packing() {
    assert!(config(256, 256, 64, 2).is_valid());
    assert!(!config(256, 256, 0, 2).is_valid());
    assert!(!config(256, 256, 64, 3).is_valid());
    assert!(!config(256, 256, usize::MAX / 2, 2).is_valid());
}

#[test]
fn active_colors_filter_and_reorder() {
    let mut cfg = config(4, 4, 4, 2);
    assert_eq!(cfg.active_colors(), vec![[0, 0, 0], [255, 255, 255], [255, 0, 0]]);
    cfg.colors_active = Some(vec![2, 0, 9, 2]);
    assert_eq!(cfg.active_colors(), vec![[255, 0, 0], [0, 0, 0], [255, 0, 0]]);
    cfg.colors_active = Some(vec![]);
    assert_eq!(cfg.active_colors(), Vec::<[u8; 3]>::new());
}

#[test]
fn chunk_key_names_both_indices() {
    assert_eq!(chunk_index_to_key(3, 12), "canvas_3_12");
    assert_eq!(chunk_index_to_key(0, 0), "canvas_0_0");
    assert_eq!(chunk_index_to_key(105, 7), "canvas_105_7");
}

#[test]
fn pixel_writes_reverse_the_color_bits() {
    let cfg = config(8, 8, 4, 2);
    let writes = cfg.pixel_bit_writes(1, 0, 0b1010);
    let got: Vec<(usize, bool)> = writes.iter().map(|w| (w.offset, w.value)).collect();
    assert_eq!(got, vec![(7, false), (6, true), (5, false), (4, true)]);
    let mut blob = vec![0u8; 8];
    apply(&mut blob, &writes);
    assert_eq!(blob[0], 0x0A);
    let writes = cfg.pixel_bit_writes(0, 0, 0b0011);
    apply(&mut blob, &writes);
    assert_eq!(blob[0], 0x3A);
}

#[test]
fn pixel_round_trip_every_color() {
    let cfg = config(16, 16, 4, 2);
    for color in 0u8..16 {
        for (x, y) in [(0usize, 0usize), (3, 1), (2, 3), (3, 3)] {
            let mut blob = vec![0xFFu8; 8];
            apply(&mut blob, &cfg.pixel_bit_writes(x, y, color));
            assert_eq!(cfg.read_pixel(&blob, x, y), color);
            let mut empty = Vec::new();
            apply(&mut empty, &cfg.pixel_bit_writes(x, y, color));
            assert_eq!(cfg.read_pixel(&empty, x, y), color);
        }
    }
}

#[test]
fn pixel_round_trip_other_packings() {
    for ppb in [1usize, 4, 8] {
        let cfg = config(16, 16, 4, ppb);
        let limit: u16 = 1 << cfg.bits_per_pixel();
        for color in 0..limit {
            let mut blob = vec![0u8; cfg.chunk_byte_len()];
            apply(&mut blob, &cfg.pixel_bit_writes(2, 1, color as u8));
            assert_eq!(cfg.read_pixel(&blob, 2, 1), color as u8);
        }
    }
}

#[test]
fn missing_chunk_reads_as_zeros_with_create_write() {
    let cfg = config(8, 8, 4, 2);
    let read = cfg.chunk_get(None);
    assert_eq!(read.blob, vec![0u8; 8]);
    let create = read.create.expect("a missing chunk is created");
    assert_eq!((create.offset, create.value), (63, false));
    let mut stored = Vec::new();
    apply(&mut stored, &[create]);
    assert_eq!(stored, vec![0u8; 8]);
}

#[test]
fn write_into_fresh_chunk_touches_only_its_bits() {
    let cfg = config(8, 8, 4, 2);
    let mut blob = cfg.chunk_get(None).blob;
    apply(&mut blob, &cfg.pixel_bit_writes(2, 2, 9));
    for y in 0..4 {
        for x in 0..4 {
            let expected = if (x, y) == (2, 2) { 9 } else { 0 };
            assert_eq!(cfg.read_pixel(&blob, x, y), expected);
        }
    }
    assert_eq!(blob, vec![0, 0, 0, 0, 0, 0x90, 0, 0]);
}

#[test]
fn stored_chunk_is_cut_or_padded() {
    let cfg = config(8, 8, 4, 2);
    let short = cfg.chunk_get(Some(vec![1, 2]));
    assert!(short.create.is_none());
    assert_eq!(short.blob, vec![1, 2, 0, 0, 0, 0, 0, 0]);
    let long = cfg.chunk_get(Some(vec![9; 12]));
    assert_eq!(long.blob, vec![9; 8]);
}

#[test]
fn assembled_canvas_trims_edge_chunks() {
    // 5 x 3 canvas in chunks of 4: two chunks across, one down.
    let cfg = config(5, 3, 4, 2);
    let mut left = vec![0u8; 8];
    let mut right = vec![0u8; 8];
    for y in 0..4 {
        for x in 0..4 {
            apply(&mut left, &cfg.pixel_bit_writes(x, y, (y * 4 + x) as u8));
            apply(&mut right, &cfg.pixel_bit_writes(x, y, 15 - (y * 4 + x) as u8));
        }
    }
    let chunks = vec![vec![left], vec![right]];
    let cells = cfg.assemble_canvas(&chunks);
    assert_eq!(cells.len(), 15);
    assert_eq!(cells, vec![0, 1, 2, 3, 15, 4, 5, 6, 7, 11, 8, 9, 10, 11, 7]);
}

#[test]
fn assembled_canvas_exact_multiple() {
    let cfg = config(4, 4, 2, 2);
    let mut chunks = Vec::new();
    for cx in 0..2u8 {
        let mut column = Vec::new();
        for cy in 0..2u8 {
            let mut blob = vec![0u8; 2];
            for y in 0..2 {
                for x in 0..2 {
                    apply(&mut blob, &cfg.pixel_bit_writes(x, y, cx * 2 + cy * 8));
                }
            }
            column.push(blob);
        }
        chunks.push(column);
    }
    let cells = cfg.assemble_canvas(&chunks);
    assert_eq!(cells, vec![0, 0, 2, 2, 0, 0, 2, 2, 8, 8, 10, 10, 8, 8, 10, 10]);
}

#[test]
fn canvas_info_encodes_chunks_in_base64() {
    let mut cfg = config(8, 4, 4, 2);
    cfg.colors_active = Some(vec![1]);
    let chunks = vec![vec![vec![0u8, 0, 0]], vec![vec![255u8], vec![1, 2, 3, 4]]];
    let info = cfg.canvas_info(&chunks);
    assert_eq!(info.canvas, vec![vec!["AAAA".to_string()], vec!["/w==".to_string(), "AQIDBA==".to_string()]]);
    assert_eq!((info.width, info.height, info.chunk_size), (8, 4, 4));
    assert_eq!(info.colors, vec![[255, 255, 255]]);
}

#[test]
fn new_canvas_is_zero_and_unfilled() {
    let canvas = Canvas::new(4, 6);
    assert!(!canvas.valid);
    assert_eq!(canvas.colors, vec![0u8; 12]);
}
