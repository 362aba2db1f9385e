//! Grids of entries that an image is composed from.

use crate::gfx::Snes4BppTile;
use crate::tilemap::{LevelDataEntry, TilemapEntry, TiletableEntry};
use crate::tileset::{resolve, OverlaidLayout, OverlaidLayoutEntry, Tileset};
use vstd::prelude::*;

verus! {

/// A grid of cells, each of which holds an entry or nothing.
pub trait GridModel {
    type Item;

    /// What a value must satisfy for its dimensions to be computed.
    spec fn well_formed(&self) -> bool;

    /// Width of the grid, in cells.
    spec fn width(&self) -> nat;

    /// Height of the grid, in cells.
    spec fn height(&self) -> nat;

    /// The entry in column `x` of row `y`; `None` where nothing backs the cell.
    spec fn cell(&self, x: int, y: int) -> Option<Self::Item>;

    /// Width and height, in this order.
    fn dimensions(&self) -> (d: [usize; 2])
        requires
            self.well_formed(),
        ensures
            d[0] == self.width(),
            d[1] == self.height(),
    ;

    fn get(&self, x: usize, y: usize) -> (r: Option<Self::Item>)
        requires
            self.well_formed(),
        ensures
            r == self.cell(x as int, y as int),
    ;
}

/// The number of rows of `per_row` cells that `len` cells fill, the last one
/// perhaps in part.
pub open spec fn rows_for(len: nat, per_row: nat) -> nat
    recommends
        per_row > 0,
{
    if len % per_row == 0 {
        len / per_row
    } else {
        len / per_row + 1
    }
}

fn rows(len: usize, per_row: usize) -> (r: usize)
    requires
        per_row > 0,
    ensures
        r == rows_for(len as nat, per_row as nat),
{
    if len % per_row == 0 {
        len / per_row
    } else {
        assert(len / per_row < usize::MAX) by (nonlinear_arith)
            requires
                len % per_row != 0,
                per_row > 0,
                len <= usize::MAX,
        ;
        len / per_row + 1
    }
}

/// The number `per_row * y + x` where it is below `len`.
fn cell_number(per_row: usize, x: usize, y: usize, len: usize) -> (r: Option<usize>)
    ensures
        r == if per_row * y + x < len {
            Some((per_row * y + x) as usize)
        } else {
            None
        },
{
    match per_row.checked_mul(y) {
        Some(start) => match start.checked_add(x) {
            Some(number) => if number < len {
                Some(number)
            } else {
                None
            },
            None => None,
        },
        None => None,
    }
}

/// All the tiles of a tileset in reading order, every one with the same
/// palette line.
pub struct FullTilesetGfxModel {
    pub len: usize,
    pub palette_index: usize,
    pub tiles_per_row: usize,
}

impl FullTilesetGfxModel {
    pub const TILES_PER_ROW: usize = 16;

    /// The grid of `len` tiles, 16 to a row.
    pub fn new(len: usize, palette_index: usize) -> (r: Self)
        ensures
            r.len == len,
            r.palette_index == palette_index,
            r.tiles_per_row == 16,
    {
        FullTilesetGfxModel { len, palette_index, tiles_per_row: Self::TILES_PER_ROW }
    }
}

impl GridModel for FullTilesetGfxModel {
    type Item = TilemapEntry;

    open spec fn well_formed(&self) -> bool {
        self.tiles_per_row > 0 && self.palette_index < 8
    }

    open spec fn width(&self) -> nat {
        self.tiles_per_row as nat
    }

    open spec fn height(&self) -> nat {
        rows_for(self.len as nat, self.tiles_per_row as nat)
    }

    open spec fn cell(&self, x: int, y: int) -> Option<TilemapEntry> {
        let number = self.tiles_per_row * y + x;
        if number < self.len {
            Some(TilemapEntry::spec_for_tile(number).spec_with_palette(self.palette_index as int))
        } else {
            None
        }
    }

    fn dimensions(&self) -> (d: [usize; 2]) {
        [self.tiles_per_row, rows(self.len, self.tiles_per_row)]
    }

    fn get(&self, x: usize, y: usize) -> (r: Option<TilemapEntry>) {
        match cell_number(self.tiles_per_row, x, y, self.len) {
            Some(tile_id) => Some(TilemapEntry::for_tile(tile_id).with_palette(self.palette_index)),
            None => None,
        }
    }
}

/// All the blocks of a block table in reading order, 32 to a row.
pub struct FullTiletableModel {
    pub len: usize,
}

impl FullTiletableModel {
    pub const BLOCKS_PER_ROW: usize = 32;
}

impl GridModel for FullTiletableModel {
    type Item = LevelDataEntry;

    open spec fn well_formed(&self) -> bool {
        true
    }

    open spec fn width(&self) -> nat {
        32
    }

    open spec fn height(&self) -> nat {
        rows_for(self.len as nat, 32)
    }

    open spec fn cell(&self, x: int, y: int) -> Option<LevelDataEntry> {
        let number = 32 * y + x;
        if number < self.len {
            Some(LevelDataEntry::spec_for_tile(number))
        } else {
            None
        }
    }

    fn dimensions(&self) -> (d: [usize; 2]) {
        [Self::BLOCKS_PER_ROW, rows(self.len, Self::BLOCKS_PER_ROW)]
    }

    fn get(&self, x: usize, y: usize) -> (r: Option<LevelDataEntry>) {
        match cell_number(Self::BLOCKS_PER_ROW, x, y, self.len) {
            Some(tile_id) => {
                let low: u16 = (tile_id % 0x1_0000) as u16;
                assert((low as int) % 1024 == (tile_id as int) % 1024);
                Some(LevelDataEntry::for_tile(low))
            },
            None => None,
        }
    }
}

/// Placed blocks in rows of `width`, as the level data of a room holds them.
pub struct LevelDataModel {
    pub width: usize,
    pub entries: Vec<LevelDataEntry>,
}

impl GridModel for LevelDataModel {
    type Item = LevelDataEntry;

    open spec fn well_formed(&self) -> bool {
        self.width > 0
    }

    open spec fn width(&self) -> nat {
        self.width as nat
    }

    open spec fn height(&self) -> nat {
        rows_for(self.entries@.len(), self.width as nat)
    }

    open spec fn cell(&self, x: int, y: int) -> Option<LevelDataEntry> {
        let number = self.width * y + x;
        if x < self.width && number < self.entries@.len() {
            Some(self.entries@[number])
        } else {
            None
        }
    }

    fn dimensions(&self) -> (d: [usize; 2]) {
        [self.width, rows(self.entries.len(), self.width)]
    }

    fn get(&self, x: usize, y: usize) -> (r: Option<LevelDataEntry>) {
        if x >= self.width {
            return None;
        }
        match cell_number(self.width, x, y, self.entries.len()) {
            Some(number) => Some(self.entries[number]),
            None => None,
        }
    }
}

/// The tile that a graphics layout holds under tile id `id`.
pub open spec fn tile_at(layout: Seq<OverlaidLayoutEntry<&Tileset>>, id: int) -> Option<
    Snes4BppTile,
> {
    match resolve(layout, id) {
        Some((tileset, offset)) => if offset < tileset.gfx@.len() {
            Some(tileset.gfx@[offset as int])
        } else {
            None
        },
        None => None,
    }
}

/// The block that a block-table layout holds under block id `id`.
pub open spec fn block_at(layout: Seq<OverlaidLayoutEntry<&Tileset>>, id: int) -> Option<
    TiletableEntry,
> {
    match resolve(layout, id) {
        Some((tileset, offset)) => if offset < tileset.tiletable@.len() {
            Some(tileset.tiletable@[offset as int])
        } else {
            None
        },
        None => None,
    }
}

impl<'a> OverlaidLayout<&'a Tileset> {
    /// The tile under tile id `id`, if a source answers for the id and holds
    /// that many tiles.
    pub fn tile(&self, id: usize) -> (r: Option<Snes4BppTile>)
        ensures
            r == tile_at(self.entries@, id as int),
    {
        match self.lookup(id) {
            Some((tileset, offset)) => if offset < tileset.gfx.len() {
                Some(tileset.gfx[offset])
            } else {
                None
            },
            None => None,
        }
    }

    /// The block under block id `id`, if a source answers for the id and holds
    /// that many blocks.
    pub fn block(&self, id: usize) -> (r: Option<TiletableEntry>)
        ensures
            r == block_at(self.entries@, id as int),
    {
        match self.lookup(id) {
            Some((tileset, offset)) => if offset < tileset.tiletable.len() {
                Some(tileset.tiletable[offset])
            } else {
                None
            },
            None => None,
        }
    }
}

/// The column or row of a block, 0 or 1, that is shown at column or row `s`
/// when the block is flipped along that axis or not.
pub open spec fn mirrored(flip: bool, s: int) -> int {
    if flip {
        1 - s
    } else {
        s
    }
}

/// The tile reference that a block shows in its column `sx` and row `sy`, each
/// 0 or 1, when the block is placed with the given flips: the flips pick the
/// mirrored subtile and are inverted into that subtile's own flip flags.
pub open spec fn subtile_of(
    block: TiletableEntry,
    h_flip: bool,
    v_flip: bool,
    sx: int,
    sy: int,
) -> TilemapEntry {
    block.0[mirrored(v_flip, sy) * 2 + mirrored(h_flip, sx)].spec_flipped(h_flip, v_flip)
}

/// A grid of blocks seen as a grid of tiles, twice as wide and twice as high.
pub struct BlockTilemapModel<'a, M> {
    pub blocks: &'a M,
    pub tiletable: &'a OverlaidLayout<&'a Tileset>,
}

impl<'a, M: GridModel<Item = LevelDataEntry>> GridModel for BlockTilemapModel<'a, M> {
    type Item = TilemapEntry;

    open spec fn well_formed(&self) -> bool {
        &&& self.blocks.well_formed()
        &&& 2 * self.blocks.width() <= usize::MAX
        &&& 2 * self.blocks.height() <= usize::MAX
    }

    open spec fn width(&self) -> nat {
        2 * self.blocks.width()
    }

    open spec fn height(&self) -> nat {
        2 * self.blocks.height()
    }

    open spec fn cell(&self, x: int, y: int) -> Option<TilemapEntry> {
        match self.blocks.cell(x / 2, y / 2) {
            Some(placed) => match block_at(self.tiletable.entries@, placed.spec_block_id()) {
                Some(block) => Some(
                    subtile_of(block, placed.spec_h_flip(), placed.spec_v_flip(), x % 2, y % 2),
                ),
                None => None,
            },
            None => None,
        }
    }

    fn dimensions(&self) -> (d: [usize; 2]) {
        let inner: [usize; 2] = self.blocks.dimensions();
        [inner[0] * 2, inner[1] * 2]
    }

    fn get(&self, x: usize, y: usize) -> (r: Option<TilemapEntry>) {
        let placed: LevelDataEntry = match self.blocks.get(x / 2, y / 2) {
            Some(placed) => placed,
            None => {
                return None;
            },
        };
        let block: TiletableEntry = match self.tiletable.block(placed.block_id() as usize) {
            Some(block) => block,
            None => {
                return None;
            },
        };
        let mut subtile_x: usize = x % 2;
        let mut subtile_y: usize = y % 2;
        if placed.h_flip() {
            subtile_x = 1 - subtile_x;
        }
        if placed.v_flip() {
            subtile_y = 1 - subtile_y;
        }
        let subtile: TilemapEntry = block.0[subtile_y * 2 + subtile_x];
        Some(subtile.flipped(placed.h_flip(), placed.v_flip()))
    }
}

/// A block placed with a horizontal flip shows in its right column what the
/// block table holds for the left column, and the other way round, with the
/// horizontal flip flag of that tile inverted; likewise for a vertical flip and
/// the rows. Tile id, palette line and priority of the tile stay.
pub proof fn lemma_block_flip(block: TiletableEntry, h_flip: bool, v_flip: bool, sx: int, sy: int)
    requires
        0 <= sx < 2,
        0 <= sy < 2,
    ensures
        mirrored(true, 1) == 0 && mirrored(true, 0) == 1,
        ({
            let source = block.0[mirrored(v_flip, sy) * 2 + mirrored(h_flip, sx)];
            let shown = subtile_of(block, h_flip, v_flip, sx, sy);
            &&& shown.spec_h_flip() == (source.spec_h_flip() != h_flip)
            &&& shown.spec_v_flip() == (source.spec_v_flip() != v_flip)
            &&& shown.spec_tile_id() == source.spec_tile_id()
            &&& shown.spec_palette() == source.spec_palette()
            &&& shown.spec_priority() == source.spec_priority()
        }),
{
    let source = block.0[mirrored(v_flip, sy) * 2 + mirrored(h_flip, sx)];
    crate::tilemap::lemma_flags_inverted(source.0, h_flip, v_flip);
}

} // verus!
