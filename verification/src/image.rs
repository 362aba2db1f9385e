//! Composing images: tiles drawn into a row-major pixel buffer, one grid cell
//! after the other.

use crate::gfx::{flipped_index, Palette, Rgba, Snes4BppTile, SnesColor};
use crate::grid::{
    tile_at, BlockTilemapModel, FullTilesetGfxModel, FullTiletableModel, GridModel,
};
use crate::tilemap::{LevelDataEntry, TilemapEntry};
use crate::tileset::{
    highest_end, LoadedTilesetLayout, OverlaidLayout, OverlaidLayoutEntry, Tileset,
};
use vstd::arithmetic::div_mod::{lemma_fundamental_div_mod, lemma_fundamental_div_mod_converse};
use vstd::prelude::*;

verus! {

/// Whether the pixel at position `i` of a buffer lies in the 8x8 square whose
/// top-left pixel is at position `origin`, in an image whose rows are `stride`
/// pixels apart.
pub open spec fn in_footprint(origin: int, stride: int, i: int) -> bool {
    i >= origin && (i - origin) / stride < 8 && (i - origin) % stride < 8
}

/// The colour of a tile's pixel in column `x` and row `y` once it is drawn over
/// a pixel that held `under`: the palette's colour for the pixel's index, or
/// `under` where index 0 is to be left transparent.
pub open spec fn painted(
    bytes: Seq<u8>,
    palette: [Rgba; 16],
    h_flip: bool,
    v_flip: bool,
    use_transparency: bool,
    x: int,
    y: int,
    under: Rgba,
) -> Rgba {
    let index = flipped_index(bytes, h_flip, v_flip, x, y);
    if use_transparency && index == 0 {
        under
    } else {
        palette[index]
    }
}

/// Whether `after` is `before` with one tile drawn into the square at `origin`
/// and nothing else changed.
pub open spec fn is_drawn(
    before: Seq<Rgba>,
    after: Seq<Rgba>,
    bytes: Seq<u8>,
    palette: [Rgba; 16],
    origin: int,
    stride: int,
    h_flip: bool,
    v_flip: bool,
    use_transparency: bool,
) -> bool {
    &&& after.len() == before.len()
    &&& forall|i: int|
        0 <= i < before.len() ==> (#[trigger] after[i]) == if in_footprint(origin, stride, i) {
            painted(
                bytes,
                palette,
                h_flip,
                v_flip,
                use_transparency,
                (i - origin) % stride,
                (i - origin) / stride,
                before[i],
            )
        } else {
            before[i]
        }
}

/// Whether position `i` lies in the square at `origin` and before column `col`
/// of row `row` in reading order.
spec fn drawn_before(origin: int, stride: int, row: int, col: int, i: int) -> bool {
    in_footprint(origin, stride, i) && ((i - origin) / stride < row || ((i - origin) / stride
        == row && (i - origin) % stride < col))
}

proof fn lemma_position(stride: int, row: int, col: int)
    requires
        stride >= 8,
        0 <= row < 8,
        0 <= col < 8,
    ensures
        (row * stride + col) / stride == row,
        (row * stride + col) % stride == col,
        0 <= row * stride <= 7 * stride,
{
    lemma_fundamental_div_mod_converse(row * stride + col, stride, row, col);
    assert(0 <= row * stride <= 7 * stride) by (nonlinear_arith)
        requires
            0 <= row <= 7,
            stride >= 8,
    ;
}

proof fn lemma_only_position(origin: int, stride: int, row: int, col: int, i: int)
    requires
        stride >= 8,
        0 <= row < 8,
        0 <= col < 8,
        i >= origin,
        (i - origin) / stride == row,
        (i - origin) % stride == col,
    ensures
        i == origin + row * stride + col,
{
    lemma_fundamental_div_mod(i - origin, stride);
    assert(stride * row == row * stride) by (nonlinear_arith);
}

impl Snes4BppTile {
    fn write_rows(
        &self,
        palette: &[Rgba; 16],
        pixels: &mut Vec<Rgba>,
        origin: usize,
        stride: usize,
        h_flip: bool,
        v_flip: bool,
        use_transparency: bool,
    )
        requires
            stride >= 8,
            origin + 7 * stride + 8 <= old(pixels)@.len(),
        ensures
            is_drawn(
                old(pixels)@,
                final(pixels)@,
                self.0@,
                *palette,
                origin as int,
                stride as int,
                h_flip,
                v_flip,
                use_transparency,
            ),
    {
        let ghost before = pixels@;
        assert(before.len() == pixels.len());
        let mut row: usize = 0;
        while row < 8
            invariant
                stride >= 8,
                origin + 7 * stride + 8 <= before.len() <= usize::MAX,
                row <= 8,
                pixels@.len() == before.len(),
                forall|i: int|
                    0 <= i < before.len() ==> (#[trigger] pixels@[i]) == if drawn_before(
                        origin as int,
                        stride as int,
                        row as int,
                        0,
                        i,
                    ) {
                        painted(
                            self.0@,
                            *palette,
                            h_flip,
                            v_flip,
                            use_transparency,
                            (i - origin) % (stride as int),
                            (i - origin) / (stride as int),
                            before[i],
                        )
                    } else {
                        before[i]
                    },
            decreases 8 - row,
        {
            let indices: [u8; 8] = self.row_indices(row, h_flip, v_flip);
            let mut col: usize = 0;
            while col < 8
                invariant
                    stride >= 8,
                    origin + 7 * stride + 8 <= before.len() <= usize::MAX,
                    row < 8,
                    col <= 8,
                    forall|x: int|
                        0 <= x < 8 ==> (#[trigger] indices[x]) == flipped_index(
                            self.0@,
                            h_flip,
                            v_flip,
                            x,
                            row as int,
                        ),
                    forall|x: int| 0 <= x < 8 ==> (#[trigger] indices[x]) < 16,
                    pixels@.len() == before.len(),
                    forall|i: int|
                        0 <= i < before.len() ==> (#[trigger] pixels@[i]) == if drawn_before(
                            origin as int,
                            stride as int,
                            row as int,
                            col as int,
                            i,
                        ) {
                            painted(
                                self.0@,
                                *palette,
                                h_flip,
                                v_flip,
                                use_transparency,
                                (i - origin) % (stride as int),
                                (i - origin) / (stride as int),
                                before[i],
                            )
                        } else {
                            before[i]
                        },
                decreases 8 - col,
            {
                let index: usize = indices[col] as usize;
                proof {
                    lemma_position(stride as int, row as int, col as int);
                }
                let at: usize = origin + row * stride + col;
                let ghost earlier = pixels@;
                if !(use_transparency && index == 0) {
                    pixels[at] = palette[index];
                }
                proof {
                    assert(index == flipped_index(self.0@, h_flip, v_flip, col as int, row as int));
                    assert forall|i: int| 0 <= i < before.len() implies (#[trigger] pixels@[i])
                        == if drawn_before(
                        origin as int,
                        stride as int,
                        row as int,
                        col + 1,
                        i,
                    ) {
                        painted(
                            self.0@,
                            *palette,
                            h_flip,
                            v_flip,
                            use_transparency,
                            (i - origin) % (stride as int),
                            (i - origin) / (stride as int),
                            before[i],
                        )
                    } else {
                        before[i]
                    } by {
                        if i == at {
                            assert(!drawn_before(
                                origin as int,
                                stride as int,
                                row as int,
                                col as int,
                                i,
                            ));
                            assert(earlier[i] == before[i]);
                        } else {
                            assert(pixels@[i] == earlier[i]);
                            if i >= origin && (i - origin) / (stride as int) == row && (i - origin)
                                % (stride as int) == col {
                                lemma_only_position(
                                    origin as int,
                                    stride as int,
                                    row as int,
                                    col as int,
                                    i,
                                );
                            }
                        }
                    }
                }
                col += 1;
            }
            row += 1;
        }
    }

    /// Draws the tile, unflipped or flipped left to right, into the 8x8 square
    /// of `pixels` that starts at `origin`; the rows of the image are `stride`
    /// pixels apart. With `use_transparency`, pixels of index 0 are left as
    /// they were.
    pub fn write_to_image(
        &self,
        palette: &[Rgba; 16],
        pixels: &mut Vec<Rgba>,
        origin: usize,
        stride: usize,
        h_flip: bool,
        use_transparency: bool,
    )
        requires
            stride >= 8,
            origin + 7 * stride + 8 <= old(pixels)@.len(),
        ensures
            is_drawn(
                old(pixels)@,
                final(pixels)@,
                self.0@,
                *palette,
                origin as int,
                stride as int,
                h_flip,
                false,
                use_transparency,
            ),
    {
        self.write_rows(palette, pixels, origin, stride, h_flip, false, use_transparency);
    }

    /// Draws the tile with the flips `flips`, horizontal first, into the 8x8
    /// square of `pixels` that starts at `origin`.
    pub fn write_to_image_flippable(
        &self,
        palette: &[Rgba; 16],
        pixels: &mut Vec<Rgba>,
        origin: usize,
        stride: usize,
        flips: [bool; 2],
        use_transparency: bool,
    )
        requires
            stride >= 8,
            origin + 7 * stride + 8 <= old(pixels)@.len(),
        ensures
            is_drawn(
                old(pixels)@,
                final(pixels)@,
                self.0@,
                *palette,
                origin as int,
                stride as int,
                flips[0],
                flips[1],
                use_transparency,
            ),
    {
        self.write_rows(palette, pixels, origin, stride, flips[0], flips[1], use_transparency);
    }
}

/// The position in a row-major buffer of the pixel in column `px` of row `py`,
/// for an image `width` pixels wide.
pub open spec fn pixel_position(width: int, px: int, py: int) -> int {
    py * width + px
}

/// The colour of the pixel in column `px` of row `py` of the image of a grid:
/// the pixel's grid cell names a tile, a palette line and flips; the tile's
/// colour index at that pixel picks the colour from the line. Where the cell
/// is empty or the graphics hold no tile under the id, the pixel is
/// transparent.
pub open spec fn composed_pixel<G: GridModel<Item = TilemapEntry>>(
    gfx: Seq<OverlaidLayoutEntry<&Tileset>>,
    colors: spec_fn(int, int) -> Rgba,
    model: &G,
    px: int,
    py: int,
) -> Rgba {
    match model.cell(px / 8, py / 8) {
        Some(entry) => match tile_at(gfx, entry.spec_tile_id()) {
            Some(tile) => colors(
                entry.spec_palette(),
                flipped_index(tile.0@, entry.spec_h_flip(), entry.spec_v_flip(), px % 8, py % 8),
            ),
            None => Rgba::spec_transparent(),
        },
        None => Rgba::spec_transparent(),
    }
}

/// Whether `pixels` is the image of a grid `width` by `height` cells.
pub open spec fn is_image_of<G: GridModel<Item = TilemapEntry>>(
    pixels: Seq<Rgba>,
    gfx: Seq<OverlaidLayoutEntry<&Tileset>>,
    colors: spec_fn(int, int) -> Rgba,
    model: &G,
) -> bool {
    &&& pixels.len() == 64 * model.width() * model.height()
    &&& forall|px: int, py: int|
        0 <= px < 8 * model.width() && 0 <= py < 8 * model.height() ==> (#[trigger] pixels[pixel_position(
            (8 * model.width()) as int,
            px,
            py,
        )]) == composed_pixel(gfx, colors, model, px, py)
}

/// Whether cell (`cx`, `cy`) comes before cell (`gx`, `gy`) in reading order.
spec fn cell_before(cx: int, cy: int, gx: int, gy: int) -> bool {
    cy < gy || (cy == gy && cx < gx)
}

proof fn lemma_pixel_in_buffer(w: int, h: int, px: int, py: int)
    requires
        0 <= px < 8 * w,
        0 <= py < 8 * h,
    ensures
        0 <= pixel_position(8 * w, px, py) < 64 * w * h,
        64 * w * h == (8 * w) * (8 * h),
{
    assert(py * (8 * w) + px < (8 * w) * (8 * h) && 0 <= py * (8 * w) && 64 * w * h == (8 * w) * (
    8 * h)) by (nonlinear_arith)
        requires
            0 <= px < 8 * w,
            0 <= py < 8 * h,
    ;
}

/// The square of cell (`gx`, `gy`) holds exactly the pixels whose cell it is.
proof fn lemma_cell_square(w: int, gx: int, gy: int, px: int, py: int)
    requires
        0 <= gx < w,
        0 <= gy,
        0 <= px < 8 * w,
        0 <= py,
    ensures
        in_footprint(gy * 8 * (8 * w) + gx * 8, 8 * w, pixel_position(8 * w, px, py)) <==> (px / 8
            == gx && py / 8 == gy),
        px / 8 == gx && py / 8 == gy ==> (pixel_position(8 * w, px, py) - (gy * 8 * (8 * w) + gx
            * 8)) % (8 * w) == px % 8 && (pixel_position(8 * w, px, py) - (gy * 8 * (8 * w) + gx
            * 8)) / (8 * w) == py % 8,
{
    let stride = 8 * w;
    let origin = gy * 8 * stride + gx * 8;
    let i = pixel_position(stride, px, py);
    let d = i - origin;
    assert(d == (py - 8 * gy) * stride + (px - 8 * gx)) by (nonlinear_arith)
        requires
            d == py * stride + px - (gy * 8 * stride + gx * 8),
    ;
    if py < 8 * gy {
        assert((py - 8 * gy) * stride <= -stride) by (nonlinear_arith)
            requires
                py - 8 * gy <= -1,
                stride > 0,
        ;
        assert(d < 0);
    } else if px >= 8 * gx {
        lemma_fundamental_div_mod_converse(d, stride, py - 8 * gy, px - 8 * gx);
    } else if py == 8 * gy {
        assert(d < 0);
    } else {
        assert(d == (py - 8 * gy - 1) * stride + (stride + px - 8 * gx)) by (nonlinear_arith)
            requires
                d == (py - 8 * gy) * stride + (px - 8 * gx),
        ;
        lemma_fundamental_div_mod_converse(d, stride, py - 8 * gy - 1, stride + px - 8 * gx);
    }
}

proof fn lemma_square_in_buffer(w: int, h: int, gx: int, gy: int)
    requires
        0 <= gx < w,
        0 <= gy < h,
    ensures
        0 <= gy * 8 <= 8 * h,
        0 <= gy * 8 * (8 * w),
        gy * 8 * (8 * w) + gx * 8 + 7 * (8 * w) + 8 <= 64 * w * h,
{
    assert(0 <= gy * 8 * (8 * w) && gy * 8 * (8 * w) + gx * 8 + 7 * (8 * w) + 8 <= 64 * w * h)
        by (nonlinear_arith)
        requires
            0 <= gx < w,
            0 <= gy < h,
    ;
}

impl Snes4BppTile {
    /// Composes the image of a grid of tile references: for every cell the tile
    /// that `gfx_layout` holds under the cell's tile id, drawn with the cell's
    /// flips in the colours of the cell's palette line. The image is returned
    /// as its width and height in pixels and its pixels, row by row.
    pub fn tiles_to_image<G: GridModel<Item = TilemapEntry>>(
        gfx_layout: &OverlaidLayout<&Tileset>,
        palettes: &[[Rgba; 16]; 8],
        model: &G,
    ) -> (r: ([usize; 2], Vec<Rgba>))
        requires
            model.well_formed(),
            8 * model.width() <= usize::MAX,
            8 * model.height() <= usize::MAX,
            64 * model.width() * model.height() <= usize::MAX,
        ensures
            r.0[0] == 8 * model.width(),
            r.0[1] == 8 * model.height(),
            is_image_of(r.1@, gfx_layout.entries@, |line: int, index: int| palettes[line][index], model),
    {
        let dims: [usize; 2] = model.dimensions();
        let cols: usize = dims[0];
        let rows: usize = dims[1];
        let width: usize = cols * 8;
        let height: usize = rows * 8;
        proof {
            assert(64 * cols * rows == (8 * cols) * (8 * rows)) by (nonlinear_arith);
        }
        let mut pixels: Vec<Rgba> = vec![Rgba::transparent(); width * height];
        let ghost colors = |line: int, index: int| palettes[line][index];
        proof {
            assert forall|px: int, py: int| 0 <= px < width && 0 <= py < height implies (
            #[trigger] pixels@[pixel_position(width as int, px, py)])
                == Rgba::spec_transparent() by {
                lemma_pixel_in_buffer(cols as int, rows as int, px, py);
            }
        }
        let mut gy: usize = 0;
        while gy < rows
            invariant
                model.well_formed(),
                cols == model.width(),
                rows == model.height(),
                width == 8 * cols,
                height == 8 * rows,
                64 * cols * rows <= usize::MAX,
                colors == |line: int, index: int| palettes[line][index],
                gy <= rows,
                pixels@.len() == 64 * cols * rows,
                forall|px: int, py: int|
                    0 <= px < width && 0 <= py < height ==> (#[trigger] pixels@[pixel_position(
                        width as int,
                        px,
                        py,
                    )]) == if cell_before(px / 8, py / 8, 0, gy as int) {
                        composed_pixel(gfx_layout.entries@, colors, model, px, py)
                    } else {
                        Rgba::spec_transparent()
                    },
            decreases rows - gy,
        {
            let mut gx: usize = 0;
            while gx < cols
                invariant
                    model.well_formed(),
                    cols == model.width(),
                    rows == model.height(),
                    width == 8 * cols,
                    height == 8 * rows,
                    64 * cols * rows <= usize::MAX,
                    colors == |line: int, index: int| palettes[line][index],
                    gy < rows,
                    gx <= cols,
                    pixels@.len() == 64 * cols * rows,
                    forall|px: int, py: int|
                        0 <= px < width && 0 <= py < height ==> (#[trigger] pixels@[pixel_position(
                            width as int,
                            px,
                            py,
                        )]) == if cell_before(px / 8, py / 8, gx as int, gy as int) {
                            composed_pixel(gfx_layout.entries@, colors, model, px, py)
                        } else {
                            Rgba::spec_transparent()
                        },
                decreases cols - gx,
            {
                let ghost earlier = pixels@;
                proof {
                    lemma_square_in_buffer(cols as int, rows as int, gx as int, gy as int);
                }
                let origin: usize = gy * 8 * width + gx * 8;
                let drawn: bool = match model.get(gx, gy) {
                    Some(entry) => match gfx_layout.tile(entry.tile_id()) {
                        Some(tile) => {
                            let line: [Rgba; 16] = palettes[entry.palette()];
                            tile.write_to_image_flippable(
                                &line,
                                &mut pixels,
                                origin,
                                width,
                                [entry.h_flip(), entry.v_flip()],
                                false,
                            );
                            true
                        },
                        None => false,
                    },
                    None => false,
                };
                proof {
                    assert forall|px: int, py: int|
                        0 <= px < width && 0 <= py < height implies (#[trigger] pixels@[pixel_position(
                        width as int,
                        px,
                        py,
                    )]) == if cell_before(px / 8, py / 8, gx + 1, gy as int) {
                        composed_pixel(gfx_layout.entries@, colors, model, px, py)
                    } else {
                        Rgba::spec_transparent()
                    } by {
                        let i = pixel_position(width as int, px, py);
                        lemma_pixel_in_buffer(cols as int, rows as int, px, py);
                        lemma_cell_square(cols as int, gx as int, gy as int, px, py);
                        assert(earlier[i] == if cell_before(px / 8, py / 8, gx as int, gy as int) {
                            composed_pixel(gfx_layout.entries@, colors, model, px, py)
                        } else {
                            Rgba::spec_transparent()
                        });
                        if !drawn {
                            assert(pixels@[i] == earlier[i]);
                        }
                    }
                }
                gx += 1;
            }
            gy += 1;
        }
        proof {
            assert forall|px: int, py: int|
                0 <= px < 8 * model.width() && 0 <= py < 8 * model.height() implies (
            #[trigger] pixels@[pixel_position((8 * model.width()) as int, px, py)]) == composed_pixel(
                gfx_layout.entries@,
                colors,
                model,
                px,
                py,
            ) by {
                assert(py / 8 < rows);
            }
        }
        ([width, height], pixels)
    }
}

/// The colour of entry `index` of line `line` of a palette; transparent where
/// the palette has no such complete line.
pub open spec fn line_color(palette: Seq<SnesColor>, line: int, index: int) -> Rgba {
    if 0 <= line < palette.len() / 16 && 0 <= index < 16 {
        palette[16 * line + index].pixel()
    } else {
        Rgba::spec_transparent()
    }
}

/// The colours of a table whose line 0 is line `line` of a palette and whose
/// other lines are transparent.
pub open spec fn single_line_colors(palette: Seq<SnesColor>, line: int) -> spec_fn(int, int) -> Rgba {
    |table_line: int, index: int|
        if table_line == 0 {
            line_color(palette, line, index)
        } else {
            Rgba::spec_transparent()
        }
}

/// The colours of a table that holds the first eight lines of a palette.
pub open spec fn all_line_colors(palette: Seq<SnesColor>) -> spec_fn(int, int) -> Rgba {
    |table_line: int, index: int| line_color(palette, table_line, index)
}

/// The index one past the span of a layout; 0 for a layout without entries.
pub open spec fn span_end<Ref>(entries: Seq<OverlaidLayoutEntry<Ref>>) -> int {
    if entries.len() == 0 {
        0
    } else {
        highest_end(entries)
    }
}

impl Palette {
    /// Line `line` of the palette as pixels; transparent pixels where the
    /// palette has no such complete line.
    pub fn line_to_rgba(&self, line: usize) -> (r: [Rgba; 16])
        ensures
            forall|i: int| 0 <= i < 16 ==> (#[trigger] r[i]) == line_color(self.0@, line as int, i),
    {
        let mut colors: [Rgba; 16] = [Rgba::transparent(); 16];
        if line < self.0.len() / 16 {
            let mut i: usize = 0;
            while i < 16
                invariant
                    line < self.0@.len() / 16,
                    self.0@.len() <= usize::MAX,
                    i <= 16,
                    forall|k: int|
                        0 <= k < i ==> (#[trigger] colors[k]) == line_color(
                            self.0@,
                            line as int,
                            k,
                        ),
                decreases 16 - i,
            {
                colors[i] = self.0[16 * line + i].to_rgba();
                i += 1;
            }
        }
        colors
    }

    /// The first eight lines of the palette as pixels, with transparent lines
    /// where the palette has fewer.
    pub fn to_rgba_lines(&self) -> (r: [[Rgba; 16]; 8])
        ensures
            forall|line: int, i: int|
                0 <= line < 8 && 0 <= i < 16 ==> (#[trigger] r[line][i]) == line_color(
                    self.0@,
                    line,
                    i,
                ),
    {
        let mut table: [[Rgba; 16]; 8] = [[Rgba::transparent(); 16]; 8];
        let mut line: usize = 0;
        while line < 8
            invariant
                line <= 8,
                forall|a: int, i: int|
                    0 <= a < line && 0 <= i < 16 ==> (#[trigger] table[a][i]) == line_color(
                        self.0@,
                        a,
                        i,
                    ),
            decreases 8 - line,
        {
            table[line] = self.line_to_rgba(line);
            line += 1;
        }
        table
    }
}

/// An image depends on the colours of a table only for the lines and indices
/// that a tile reference can name.
proof fn lemma_same_colors<G: GridModel<Item = TilemapEntry>>(
    pixels: Seq<Rgba>,
    gfx: Seq<OverlaidLayoutEntry<&Tileset>>,
    a: spec_fn(int, int) -> Rgba,
    b: spec_fn(int, int) -> Rgba,
    model: &G,
)
    requires
        is_image_of(pixels, gfx, a, model),
        forall|line: int, index: int|
            0 <= line < 8 && 0 <= index < 16 ==> #[trigger] a(line, index) == b(line, index),
    ensures
        is_image_of(pixels, gfx, b, model),
{
    assert forall|px: int, py: int|
        0 <= px < 8 * model.width() && 0 <= py < 8 * model.height() implies (#[trigger] pixels[pixel_position(
        (8 * model.width()) as int,
        px,
        py,
    )]) == composed_pixel(gfx, b, model, px, py) by {
        match model.cell(px / 8, py / 8) {
            Some(entry) => {
                crate::tilemap::lemma_entry_ranges(entry);
                match tile_at(gfx, entry.spec_tile_id()) {
                    Some(tile) => {
                        crate::gfx::lemma_index_range(
                            tile.0@,
                            entry.spec_h_flip(),
                            entry.spec_v_flip(),
                            px % 8,
                            py % 8,
                        );
                    },
                    None => {},
                }
            },
            None => {},
        }
    }
}

/// Composes the image of a grid of placed blocks: every block is resolved
/// through the block-table layout to its four tiles, which are drawn from the
/// graphics layout in the colours of the palette source.
pub fn tiletable_to_image<M: GridModel<Item = LevelDataEntry>>(
    layout: &LoadedTilesetLayout<&Tileset>,
    model: &M,
) -> (r: ([usize; 2], Vec<Rgba>))
    requires
        model.well_formed(),
        16 * model.width() <= usize::MAX,
        16 * model.height() <= usize::MAX,
        256 * model.width() * model.height() <= usize::MAX,
    ensures
        r.0[0] == 16 * model.width(),
        r.0[1] == 16 * model.height(),
        is_image_of(
            r.1@,
            layout.gfx.entries@,
            all_line_colors(layout.palette_source.palette.0@),
            &(BlockTilemapModel { blocks: model, tiletable: &layout.tiletable }),
        ),
{
    let palettes: [[Rgba; 16]; 8] = layout.palette_source.palette.to_rgba_lines();
    let grid = BlockTilemapModel { blocks: model, tiletable: &layout.tiletable };
    proof {
        assert(64 * (2 * model.width()) * (2 * model.height()) == 256 * model.width()
            * model.height()) by (nonlinear_arith);
    }
    let r = Snes4BppTile::tiles_to_image(&layout.gfx, &palettes, &grid);
    proof {
        lemma_same_colors(
            r.1@,
            layout.gfx.entries@,
            |line: int, index: int| palettes[line][index],
            all_line_colors(layout.palette_source.palette.0@),
            &grid,
        );
    }
    r
}

/// The image of every tile of a graphics layout, 16 to a row, in the colours of
/// line `palette_line` of the palette source.
pub fn tileset_gfx_image(layout: &LoadedTilesetLayout<&Tileset>, palette_line: u8) -> (r: (
    [usize; 2],
    Vec<Rgba>,
))
    requires
        layout.gfx.ends_fit(),
        palette_line < layout.palette_source.palette.0@.len() / 16,
        1024 * crate::grid::rows_for(span_end(layout.gfx.entries@) as nat, 16) <= usize::MAX,
    ensures
        r.0[0] == 128,
        r.0[1] == 8 * crate::grid::rows_for(span_end(layout.gfx.entries@) as nat, 16),
        is_image_of(
            r.1@,
            layout.gfx.entries@,
            single_line_colors(layout.palette_source.palette.0@, palette_line as int),
            &(FullTilesetGfxModel {
                len: span_end(layout.gfx.entries@) as usize,
                palette_index: 0,
                tiles_per_row: 16,
            }),
        ),
{
    let mut palettes: [[Rgba; 16]; 8] = [[Rgba::transparent(); 16]; 8];
    palettes[0] = layout.palette_source.palette.line_to_rgba(palette_line as usize);
    let len: usize = match layout.gfx.valid_range() {
        Some((_, end)) => end,
        None => 0,
    };
    let grid = FullTilesetGfxModel::new(len, 0);
    let r = Snes4BppTile::tiles_to_image(&layout.gfx, &palettes, &grid);
    proof {
        lemma_same_colors(
            r.1@,
            layout.gfx.entries@,
            |line: int, index: int| palettes[line][index],
            single_line_colors(layout.palette_source.palette.0@, palette_line as int),
            &grid,
        );
    }
    r
}

/// The image of every block of a block-table layout, 32 to a row.
pub fn tileset_ttb_image(layout: &LoadedTilesetLayout<&Tileset>) -> (r: ([usize; 2], Vec<Rgba>))
    requires
        layout.tiletable.ends_fit(),
        8192 * crate::grid::rows_for(span_end(layout.tiletable.entries@) as nat, 32) <= usize::MAX,
    ensures
        r.0[0] == 512,
        r.0[1] == 16 * crate::grid::rows_for(span_end(layout.tiletable.entries@) as nat, 32),
        is_image_of(
            r.1@,
            layout.gfx.entries@,
            all_line_colors(layout.palette_source.palette.0@),
            &(BlockTilemapModel {
                blocks: &(FullTiletableModel { len: span_end(layout.tiletable.entries@) as usize }),
                tiletable: &layout.tiletable,
            }),
        ),
{
    let len: usize = match layout.tiletable.valid_range() {
        Some((_, end)) => end,
        None => 0,
    };
    let blocks = FullTiletableModel { len };
    tiletable_to_image(layout, &blocks)
}

} // verus!
