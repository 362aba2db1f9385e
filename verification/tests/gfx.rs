use smded::gfx::{decode_bitplanes, spread_u8_x4, Palette, Rgba, Snes4BppTile, SnesColor};

fn sample_tile() -> Snes4BppTile {
    let mut bytes = [0u8; 32];
    bytes[0] = 0x80; // row 0, plane 0, leftmost pixel
    bytes[1] = 0x01; // row 0, plane 1, rightmost pixel
    bytes[16] = 0x40; // row 0, plane 2, second pixel
    bytes[31] = 0x01; // row 7, plane 3, rightmost pixel
    Snes4BppTile::from_bytes(&bytes)
}

fn scrambled_tile() -> Snes4BppTile {
    let mut bytes = [0u8; 32];
    let mut x: u32 = 0x1234_5678;
    for b in bytes.iter_mut() {
        x = x.wrapping_mul(1_664_525).wrapping_add(1_013_904_223);
        *b = (x >> 24) as u8;
    }
    Snes4BppTile::from_bytes(&bytes)
}

#[test]
fn expand_maps_the_ends_of_the_range() {
    assert_eq!(SnesColor(0).as_rgb_8bpc(), [0, 0, 0]);
    assert_eq!(SnesColor(0x7FFF).as_rgb_8bpc(), [255, 255, 255]);
}

#[test]
fn expand_rounds_to_nearest() {
    // (1 * 255 + 15) / 31 = 8, (16 * 255 + 15) / 31 = 132
    assert_eq!(SnesColor(1).as_rgb_8bpc(), [8, 0, 0]);
    assert_eq!(SnesColor(16 << 5).as_rgb_8bpc(), [0, 132, 0]);
    assert_eq!(SnesColor(30 << 10).as_rgb_8bpc(), [0, 0, 247]);
}

#[test]
fn expand_never_decreases() {
    let mut last = 0u8;
    for c in 0u16..32 {
        let wide = SnesColor(c).as_rgb_8bpc()[0];
        assert!(wide >= last);
        last = wide;
    }
    assert_eq!(last, 255);
}

#[test]
fn channels_are_split_in_the_order_red_green_blue() {
    assert_eq!(SnesColor(1 | 2 << 5 | 3 << 10).as_rgb_5bpc(), [1, 2, 3]);
    // bit 15 belongs to no channel
    assert_eq!(SnesColor(0x8000).as_rgb_5bpc(), [0, 0, 0]);
}

#[test]
fn colour_becomes_an_opaque_pixel() {
    let p = SnesColor(31).to_rgba();
    assert_eq!(p, Rgba { r: 255, g: 0, b: 0, a: 255 });
    assert_eq!(Rgba::from(SnesColor(31 << 10)), Rgba { r: 0, g: 0, b: 255, a: 255 });
    assert_eq!(Rgba::transparent(), Rgba { r: 0, g: 0, b: 0, a: 0 });
}

#[test]
fn palette_is_read_in_complete_lines() {
    let palette = Palette::from((0u16..33).collect::<Vec<u16>>());
    assert_eq!(palette.len(), 33);
    assert!(!palette.is_empty());
    let lines = palette.as_4bpp_lines();
    assert_eq!(lines.len(), 2);
    assert_eq!(lines[0][0].0, 0);
    assert_eq!(lines[1][15].0, 31);
    assert_eq!(palette.leftover_4bpp(), 1);
    let short = palette.as_2bpp_lines();
    assert_eq!(short.len(), 8);
    assert_eq!(short[7][3].0, 31);
    assert_eq!(palette.leftover_2bpp(), 1);
}

#[test]
fn truncate_checked_drops_only_zero_colours() {
    let mut palette = Palette::from_words(vec![5, 6, 0, 0]);
    assert_eq!(palette.truncate_checked(2), Ok(()));
    assert_eq!(palette.len(), 2);
    assert_eq!(palette.0[1].0, 6);

    let mut palette = Palette::from_words(vec![5, 6, 0, 7]);
    assert_eq!(palette.truncate_checked(2), Err(()));
    assert_eq!(palette.len(), 4);

    // A palette cannot be cut to more than it has.
    let mut palette = Palette::from_words(vec![5, 6]);
    assert_eq!(palette.truncate_checked(3), Err(()));
    assert_eq!(palette.truncate_checked(2), Ok(()));
    assert_eq!(palette.len(), 2);
}

#[test]
fn spread_puts_three_zero_bits_above_each_bit() {
    assert_eq!(spread_u8_x4(0x00), 0);
    assert_eq!(spread_u8_x4(0x01), 0x0000_0001);
    assert_eq!(spread_u8_x4(0x80), 0x1000_0000);
    assert_eq!(spread_u8_x4(0xA5), 0x1010_0101);
    assert_eq!(spread_u8_x4(0xFF), 0x1111_1111);
}

#[test]
fn bitplanes_interleave_into_one_index_per_pixel() {
    assert_eq!(decode_bitplanes([0xFF, 0, 0, 0]), 0x1111_1111);
    assert_eq!(decode_bitplanes([0, 0xFF, 0, 0]), 0x2222_2222);
    assert_eq!(decode_bitplanes([0, 0, 0xFF, 0]), 0x4444_4444);
    assert_eq!(decode_bitplanes([0, 0, 0, 0xFF]), 0x8888_8888);
    assert_eq!(decode_bitplanes([0x80, 0x80, 0x80, 0x80]), 0xF000_0000);
}

#[test]
fn bitplane_bytes_of_a_row_come_from_both_halves() {
    let mut bytes = [0u8; 32];
    for (i, b) in bytes.iter_mut().enumerate() {
        *b = i as u8;
    }
    let tile = Snes4BppTile::from_bytes(&bytes);
    assert_eq!(tile.bitplane_set(0), [0, 1, 16, 17]);
    assert_eq!(tile.bitplane_set(7), [14, 15, 30, 31]);
    let sets = tile.bitplane_sets();
    assert_eq!(sets[3], [6, 7, 22, 23]);
}

#[test]
fn decode_reads_the_leftmost_pixel_from_the_highest_bit() {
    let grid = sample_tile().decode(false, false);
    assert_eq!(grid[0][0], 1);
    assert_eq!(grid[0][7], 2);
    assert_eq!(grid[0][1], 4);
    assert_eq!(grid[7][7], 8);
    assert_eq!(grid[3][3], 0);
}

#[test]
fn a_row_is_decoded_leftmost_pixel_first() {
    let tile = sample_tile();
    assert_eq!(tile.row_indices(0, false, false), [1, 4, 0, 0, 0, 0, 0, 2]);
    assert_eq!(tile.row_indices(0, true, false), [2, 0, 0, 0, 0, 0, 4, 1]);
    assert_eq!(tile.row_indices(7, false, true), [1, 4, 0, 0, 0, 0, 0, 2]);
    assert_eq!(tile.row_indices(7, false, false), [0, 0, 0, 0, 0, 0, 0, 8]);
}

#[test]
fn decode_with_flips_mirrors_the_tile() {
    let tile = sample_tile();
    let h = tile.decode(true, false);
    assert_eq!(h[0][7], 1);
    assert_eq!(h[0][0], 2);
    assert_eq!(h[0][6], 4);
    assert_eq!(h[7][0], 8);
    let v = tile.decode(false, true);
    assert_eq!(v[7][0], 1);
    assert_eq!(v[7][7], 2);
    assert_eq!(v[0][7], 8);
    assert_eq!(tile.index_at(0, 7, false, true), 1);
    assert_eq!(tile.index_at(0, 0, true, true), 8);
}

#[test]
fn both_flips_reverse_both_axes() {
    for tile in [sample_tile(), scrambled_tile()] {
        let plain = tile.decode(false, false);
        let both = tile.decode(true, true);
        for y in 0..8 {
            for x in 0..8 {
                assert_eq!(both[y][x], plain[7 - y][7 - x]);
                assert!(plain[y][x] < 16);
            }
        }
    }
}
