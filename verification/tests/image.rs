use smded::gfx::{Palette, Rgba, Snes4BppTile, SnesColor};
use smded::grid::{FullTilesetGfxModel, LevelDataModel};
use smded::image::{tileset_gfx_image, tileset_ttb_image, tiletable_to_image};
use smded::tilemap::{LevelDataEntry, TilemapEntry, TiletableEntry};
use smded::tileset::{detect_sources_layout, Tileset, TilesetKind, TilesetRef};

const RED: Rgba = Rgba { r: 255, g: 0, b: 0, a: 255 };
const GREEN: Rgba = Rgba { r: 0, g: 255, b: 0, a: 255 };
const BLUE: Rgba = Rgba { r: 0, g: 0, b: 255, a: 255 };
const CLEAR: Rgba = Rgba { r: 0, g: 0, b: 0, a: 0 };

fn palette() -> Palette {
    // line 0: index 0 red, index 1 green; line 1: index 0 blue, index 1 red
    let mut colors = vec![SnesColor(0); 32];
    colors[0] = SnesColor(31);
    colors[1] = SnesColor(31 << 5);
    colors[16] = SnesColor(31 << 10);
    colors[17] = SnesColor(31);
    Palette(colors)
}

fn corner_tile() -> Snes4BppTile {
    // index 1 in the top-left pixel, index 0 elsewhere
    let mut bytes = [0u8; 32];
    bytes[0] = 0x80;
    Snes4BppTile::from_bytes(&bytes)
}

fn drawn_tileset(gfx: Vec<Snes4BppTile>, tiletable: Vec<TiletableEntry>) -> Tileset {
    Tileset {
        handle: TilesetRef { idx: 1, version: 1 },
        index: Some(0),
        name: String::from("t"),
        kind: TilesetKind::Sce,
        palette: palette(),
        gfx,
        tiletable,
    }
}

#[test]
fn one_blank_tile_composes_to_the_colour_of_index_zero() {
    let t = drawn_tileset(vec![Snes4BppTile::from_bytes(&[0u8; 32])], Vec::new());
    let layout = detect_sources_layout(&t, None);
    let palettes = t.palette.to_rgba_lines();
    let grid = FullTilesetGfxModel { len: 1, palette_index: 0, tiles_per_row: 1 };
    let (size, pixels) = Snes4BppTile::tiles_to_image(&layout.gfx, &palettes, &grid);
    assert_eq!(size, [8, 8]);
    assert_eq!(pixels.len(), 64);
    assert!(pixels.iter().all(|p| *p == RED));
}

#[test]
fn tiles_are_drawn_side_by_side() {
    let t = drawn_tileset(vec![Snes4BppTile::from_bytes(&[0u8; 32]), corner_tile()], Vec::new());
    let layout = detect_sources_layout(&t, None);
    let palettes = t.palette.to_rgba_lines();
    let grid = FullTilesetGfxModel { len: 3, palette_index: 1, tiles_per_row: 2 };
    let (size, pixels) = Snes4BppTile::tiles_to_image(&layout.gfx, &palettes, &grid);
    assert_eq!(size, [16, 16]);
    assert_eq!(pixels.len(), 256);
    // first tile, palette line 1
    assert_eq!(pixels[0], BLUE);
    assert_eq!(pixels[7 * 16 + 7], BLUE);
    // second tile: its top-left pixel has index 1
    assert_eq!(pixels[8], RED);
    assert_eq!(pixels[9], BLUE);
    assert_eq!(pixels[16 + 8], BLUE);
    // the grid holds a third tile, which the layout still answers for (one
    // past the size) but the tileset does not hold
    assert_eq!(pixels[8 * 16], CLEAR);
    // the fourth cell is empty
    assert_eq!(pixels[8 * 16 + 8], CLEAR);
    assert_eq!(pixels[255], CLEAR);
}

#[test]
fn a_tile_is_written_into_its_square_only() {
    let palette = palette().line_to_rgba(0);
    let mut pixels = vec![CLEAR; 16 * 9];
    corner_tile().write_to_image(&palette, &mut pixels, 16 + 4, 16, false, false);
    assert_eq!(pixels[16 + 4], GREEN);
    assert_eq!(pixels[16 + 5], RED);
    assert_eq!(pixels[16 + 11], RED);
    assert_eq!(pixels[16 + 12], CLEAR);
    assert_eq!(pixels[16 + 3], CLEAR);
    assert_eq!(pixels[4], CLEAR);
    assert_eq!(pixels[8 * 16 + 11], RED);
    assert_eq!(pixels.iter().filter(|p| **p != CLEAR).count(), 64);
}

#[test]
fn index_zero_is_left_out_with_transparency() {
    let palette = palette().line_to_rgba(0);
    let mut pixels = vec![BLUE; 64];
    corner_tile().write_to_image(&palette, &mut pixels, 0, 8, false, true);
    assert_eq!(pixels[0], GREEN);
    assert!(pixels[1..].iter().all(|p| *p == BLUE));
}

#[test]
fn a_tile_is_written_flipped() {
    let palette = palette().line_to_rgba(0);
    let mut pixels = vec![CLEAR; 64];
    corner_tile().write_to_image(&palette, &mut pixels, 0, 8, true, false);
    assert_eq!(pixels[7], GREEN);
    assert_eq!(pixels[0], RED);
    let mut pixels = vec![CLEAR; 64];
    corner_tile().write_to_image_flippable(&palette, &mut pixels, 0, 8, [false, true], false);
    assert_eq!(pixels[56], GREEN);
    let mut pixels = vec![CLEAR; 64];
    corner_tile().write_to_image_flippable(&palette, &mut pixels, 0, 8, [true, true], false);
    assert_eq!(pixels[63], GREEN);
    assert_eq!(pixels[0], RED);
    let mut pixels = vec![CLEAR; 64];
    corner_tile().write_to_image_flippable(&palette, &mut pixels, 0, 8, [false, false], true);
    assert_eq!(pixels[0], GREEN);
    assert_eq!(pixels[1], CLEAR);
}

#[test]
fn palette_lines_are_padded_with_transparent_lines() {
    let lines = palette().to_rgba_lines();
    assert_eq!(lines[0][0], RED);
    assert_eq!(lines[0][1], GREEN);
    assert_eq!(lines[0][2], Rgba { r: 0, g: 0, b: 0, a: 255 });
    assert_eq!(lines[1][0], BLUE);
    assert_eq!(lines[2][0], CLEAR);
    assert_eq!(lines[7][15], CLEAR);
    assert_eq!(palette().line_to_rgba(2)[0], CLEAR);
}

#[test]
fn blocks_compose_from_their_four_tiles() {
    // block 0: blank tile top-left, corner tile elsewhere, the bottom-right
    // one in palette line 1 and flipped both ways
    let block = TiletableEntry([
        TilemapEntry(0),
        TilemapEntry(1),
        TilemapEntry(1),
        TilemapEntry(1 | 1 << 10 | 0xC000),
    ]);
    let t = drawn_tileset(vec![Snes4BppTile::from_bytes(&[0u8; 32]), corner_tile()], vec![block]);
    let layout = detect_sources_layout(&t, None);
    let placed = LevelDataModel { width: 1, entries: vec![LevelDataEntry(0x100)] };
    let (size, pixels) = tiletable_to_image(&layout, &placed);
    assert_eq!(size, [16, 16]);
    assert_eq!(pixels.len(), 256);
    assert_eq!(pixels[0], RED);
    assert_eq!(pixels[8], GREEN);
    assert_eq!(pixels[9], RED);
    assert_eq!(pixels[8 * 16], GREEN);
    assert_eq!(pixels[8 * 16 + 8], BLUE);
    assert_eq!(pixels[15 * 16 + 15], RED);

    let flipped = LevelDataModel { width: 1, entries: vec![LevelDataEntry(0x100 | 0x0800)] };
    let (_, pixels) = tiletable_to_image(&layout, &flipped);
    // left and right tiles change places and are mirrored
    assert_eq!(pixels[7], GREEN);
    assert_eq!(pixels[8], RED);
    assert_eq!(pixels[15], RED);
    assert_eq!(pixels[15 * 16], RED);
    assert_eq!(pixels[8 * 16 + 15], GREEN);
}

#[test]
fn tileset_images_cover_the_whole_layout() {
    let block = TiletableEntry([TilemapEntry(1); 4]);
    let t = drawn_tileset(vec![Snes4BppTile::from_bytes(&[0u8; 32]), corner_tile()], vec![block]);
    let layout = detect_sources_layout(&t, None);

    let (size, pixels) = tileset_gfx_image(&layout, 1);
    // two tiles: the span ends at 2, which is one row of 16
    assert_eq!(size, [128, 8]);
    assert_eq!(pixels.len(), 128 * 8);
    assert_eq!(pixels[0], BLUE);
    assert_eq!(pixels[8], RED);
    assert_eq!(pixels[9], BLUE);
    assert_eq!(pixels[16], CLEAR);

    let (size, pixels) = tileset_ttb_image(&layout);
    // the block table lies at 0x100 and holds one block: the span ends at
    // 0x101, which is nine rows of 32
    assert_eq!(size, [512, 16 * 9]);
    assert_eq!(pixels.len(), 512 * 16 * 9);
    assert_eq!(pixels[0], CLEAR);
    let row8 = 8 * 16 * 512;
    assert_eq!(pixels[row8], GREEN);
    assert_eq!(pixels[row8 + 1], RED);
    assert_eq!(pixels[row8 + 8], GREEN);
    assert_eq!(pixels[row8 + 16], CLEAR);
}
