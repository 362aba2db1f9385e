//! Packed 16-bit references: tilemap entries, blocks of four of them, and
//! level-data entries that place one block.

use crate::bits::{bit_at, bit_range, get_bit, get_bits, set_bit, set_bits, with_bit, with_bit_range};
use vstd::prelude::*;

verus! {

/// A reference to one 8x8 tile: tile id in bits 0-9, palette line in bits
/// 10-12, priority in bit 13, horizontal flip in bit 14, vertical flip in bit 15.
#[derive(Copy, Clone)]
pub struct TilemapEntry(pub u16);

impl TilemapEntry {
    pub const H_FLIP_FLAG: u16 = 0x4000;

    pub const V_FLIP_FLAG: u16 = 0x8000;

    /// How many palette lines a tilemap entry can name.
    pub const ADDRESSABLE_PALETTES: usize = 8;

    /// The tile id, 0 to 1023.
    pub open spec fn spec_tile_id(self) -> int {
        (self.0 & 0x03FF) as int
    }

    /// The palette line, 0 to 7.
    pub open spec fn spec_palette(self) -> int {
        ((self.0 >> 10) & 7) as int
    }

    pub open spec fn spec_priority(self) -> bool {
        self.0 & 0x2000 != 0
    }

    pub open spec fn spec_h_flip(self) -> bool {
        self.0 & 0x4000 != 0
    }

    pub open spec fn spec_v_flip(self) -> bool {
        self.0 & 0x8000 != 0
    }

    /// The entry for tile `tile` with palette line 0 and no flags.
    pub open spec fn spec_for_tile(tile: int) -> TilemapEntry {
        TilemapEntry((tile % 1024) as u16)
    }

    /// This entry with its palette line replaced by `pal`.
    pub open spec fn spec_with_palette(self, pal: int) -> TilemapEntry {
        TilemapEntry((self.0 & 0xE3FF) | ((pal as u16) << 10))
    }

    /// This entry with each flip flag inverted where the argument is set.
    pub open spec fn spec_flipped(self, h_flip: bool, v_flip: bool) -> TilemapEntry {
        TilemapEntry(
            self.0 ^ (if h_flip {
                0x4000u16
            } else {
                0u16
            }) ^ (if v_flip {
                0x8000u16
            } else {
                0u16
            }),
        )
    }

    pub fn tile_id(self) -> (r: usize)
        ensures
            r == self.spec_tile_id(),
            r < 1024,
    {
        proof {
            lemma_tilemap_fields(self.0);
        }
        let raw: u16 = get_bits(self.0, 0, 10);
        raw as usize
    }

    pub fn h_flip(self) -> (r: bool)
        ensures
            r == self.spec_h_flip(),
    {
        proof {
            lemma_tilemap_fields(self.0);
        }
        get_bit(self.0, 14)
    }

    pub fn v_flip(self) -> (r: bool)
        ensures
            r == self.spec_v_flip(),
    {
        proof {
            lemma_tilemap_fields(self.0);
        }
        get_bit(self.0, 15)
    }

    pub fn priority(self) -> (r: bool)
        ensures
            r == self.spec_priority(),
    {
        proof {
            lemma_tilemap_fields(self.0);
        }
        get_bit(self.0, 13)
    }

    pub fn palette(self) -> (r: usize)
        ensures
            r == self.spec_palette(),
            r < 8,
    {
        proof {
            lemma_tilemap_fields(self.0);
        }
        let raw: u16 = get_bits(self.0, 10, 13);
        raw as usize
    }

    /// The entry for tile `tile` with palette line 0 and no flags. Only the low
    /// ten bits of `tile` are kept.
    pub fn for_tile(tile: usize) -> (r: Self)
        ensures
            r == Self::spec_for_tile(tile as int),
            r.spec_tile_id() == tile as int % 1024,
            r.spec_palette() == 0,
            !r.spec_priority(),
            !r.spec_h_flip(),
            !r.spec_v_flip(),
    {
        let low: usize = tile & 0x03FF;
        assert(low == tile % 1024 && low < 1024) by (bit_vector)
            requires
                low == tile & 0x03FF,
        ;
        let word: u16 = low as u16;
        proof {
            lemma_low_ten_bits(word);
        }
        Self(word)
    }

    /// The same entry with its palette line replaced by `pal`.
    pub fn with_palette(self, pal: usize) -> (r: Self)
        requires
            pal < 8,
        ensures
            r.spec_palette() == pal,
            r.spec_tile_id() == self.spec_tile_id(),
            r.spec_priority() == self.spec_priority(),
            r.spec_h_flip() == self.spec_h_flip(),
            r.spec_v_flip() == self.spec_v_flip(),
            r == self.spec_with_palette(pal as int),
    {
        let line: u16 = pal as u16;
        proof {
            lemma_palette_replaced(self.0, line);
        }
        Self(set_bits(self.0, 10, 13, line))
    }
}

impl TilemapEntry {
    /// The same entry with each flip flag inverted where the argument is set;
    /// tile id, palette line and priority stay.
    pub fn flipped(self, h_flip: bool, v_flip: bool) -> (r: Self)
        ensures
            r == self.spec_flipped(h_flip, v_flip),
            r.spec_h_flip() == (self.spec_h_flip() != h_flip),
            r.spec_v_flip() == (self.spec_v_flip() != v_flip),
            r.spec_tile_id() == self.spec_tile_id(),
            r.spec_palette() == self.spec_palette(),
            r.spec_priority() == self.spec_priority(),
    {
        let h: u16 = if h_flip {
            Self::H_FLIP_FLAG
        } else {
            0
        };
        let v: u16 = if v_flip {
            Self::V_FLIP_FLAG
        } else {
            0
        };
        proof {
            lemma_flags_inverted(self.0, h_flip, v_flip);
        }
        Self(self.0 ^ h ^ v)
    }
}

/// The tile id of an entry is below 1024 and its palette line below 8.
pub proof fn lemma_entry_ranges(entry: TilemapEntry)
    ensures
        0 <= entry.spec_tile_id() < 1024,
        0 <= entry.spec_palette() < 8,
{
    lemma_tilemap_fields(entry.0);
}

/// Inverting the flip flags of an entry changes nothing else in it.
pub proof fn lemma_flags_inverted(word: u16, h_flip: bool, v_flip: bool)
    ensures
        TilemapEntry(word).spec_flipped(h_flip, v_flip).spec_h_flip() == (TilemapEntry(
            word,
        ).spec_h_flip() != h_flip),
        TilemapEntry(word).spec_flipped(h_flip, v_flip).spec_v_flip() == (TilemapEntry(
            word,
        ).spec_v_flip() != v_flip),
        TilemapEntry(word).spec_flipped(h_flip, v_flip).spec_tile_id() == TilemapEntry(
            word,
        ).spec_tile_id(),
        TilemapEntry(word).spec_flipped(h_flip, v_flip).spec_palette() == TilemapEntry(
            word,
        ).spec_palette(),
        TilemapEntry(word).spec_flipped(h_flip, v_flip).spec_priority() == TilemapEntry(
            word,
        ).spec_priority(),
{
    let h: u16 = if h_flip {
        0x4000
    } else {
        0
    };
    let v: u16 = if v_flip {
        0x8000
    } else {
        0
    };
    assert({
        let p = word ^ h ^ v;
        &&& (p & 0x4000 != 0) == ((word & 0x4000 != 0) != (h != 0))
        &&& (p & 0x8000 != 0) == ((word & 0x8000 != 0) != (v != 0))
        &&& p & 0x03FF == word & 0x03FF
        &&& (p >> 10) & 7 == (word >> 10) & 7
        &&& (p & 0x2000 != 0) == (word & 0x2000 != 0)
    }) by (bit_vector)
        requires
            h == 0 || h == 0x4000,
            v == 0 || v == 0x8000,
    ;
}

/// A 16x16 block: four tile references, in the order top-left, top-right,
/// bottom-left, bottom-right.
#[derive(Copy, Clone)]
pub struct TiletableEntry(pub [TilemapEntry; 4]);

/// A reference to one block: block id in bits 0-9, horizontal flip in bit 11,
/// vertical flip in bit 12, block type in bits 12-15.
#[derive(Copy, Clone)]
pub struct LevelDataEntry(pub u16);

impl LevelDataEntry {
    /// The block id, 0 to 1023.
    pub open spec fn spec_block_id(self) -> int {
        (self.0 & 0x03FF) as int
    }

    pub open spec fn spec_h_flip(self) -> bool {
        self.0 & 0x0800 != 0
    }

    pub open spec fn spec_v_flip(self) -> bool {
        self.0 & 0x1000 != 0
    }

    /// The four highest bits.
    pub open spec fn spec_block_type(self) -> int {
        (self.0 >> 12) as int
    }

    /// The entry for block `tile` with no flags.
    pub open spec fn spec_for_tile(tile: int) -> LevelDataEntry {
        LevelDataEntry((tile % 1024) as u16)
    }

    /// Index of the block in the block table.
    pub fn block_id(self) -> (r: u16)
        ensures
            r == self.spec_block_id(),
            r < 1024,
    {
        proof {
            lemma_level_data_fields(self.0);
        }
        get_bits(self.0, 0, 10)
    }

    pub fn h_flip(self) -> (r: bool)
        ensures
            r == self.spec_h_flip(),
    {
        proof {
            lemma_level_data_fields(self.0);
        }
        get_bit(self.0, 11)
    }

    pub fn v_flip(self) -> (r: bool)
        ensures
            r == self.spec_v_flip(),
    {
        proof {
            lemma_level_data_fields(self.0);
        }
        get_bit(self.0, 12)
    }

    pub fn block_type(self) -> (r: u16)
        ensures
            r == self.spec_block_type(),
            r < 16,
    {
        proof {
            lemma_level_data_fields(self.0);
        }
        get_bits(self.0, 12, 16)
    }

    /// The entry for block `tile` with no flags. Only the low ten bits of `tile`
    /// are kept.
    pub fn for_tile(tile: u16) -> (r: Self)
        ensures
            r == Self::spec_for_tile(tile as int),
            r.spec_block_id() == tile as int % 1024,
            !r.spec_h_flip(),
            !r.spec_v_flip(),
            r.spec_block_type() == 0,
    {
        let word: u16 = tile & 0x03FF;
        proof {
            lemma_low_ten_bits(tile);
            lemma_low_ten_bits(word);
        }
        Self(word)
    }

    /// The same entry with both flip flags replaced.
    pub fn with_flips(self, h_flip: bool, v_flip: bool) -> (r: Self)
        ensures
            r.spec_h_flip() == h_flip,
            r.spec_v_flip() == v_flip,
            r.spec_block_id() == self.spec_block_id(),
            r.0 & 0xE7FF == self.0 & 0xE7FF,
    {
        proof {
            lemma_flips_replaced(self.0, h_flip, v_flip);
        }
        let first: u16 = set_bit(self.0, 11, h_flip);
        Self(set_bit(first, 12, v_flip))
    }
}

/// How the fields of a tilemap entry lie in its word.
proof fn lemma_tilemap_fields(word: u16)
    by (bit_vector)
    ensures
        bit_range(word, 0, 10) == word & 0x03FF,
        (word & 0x03FF) < 1024,
        bit_range(word, 10, 13) == (word >> 10) & 7,
        ((word >> 10) & 7) < 8,
        bit_at(word, 13) == (word & 0x2000 != 0),
        bit_at(word, 14) == (word & 0x4000 != 0),
        bit_at(word, 15) == (word & 0x8000 != 0),
{
}

/// How the fields of a level-data entry lie in its word.
proof fn lemma_level_data_fields(word: u16)
    by (bit_vector)
    ensures
        bit_range(word, 0, 10) == word & 0x03FF,
        (word & 0x03FF) < 1024,
        bit_at(word, 11) == (word & 0x0800 != 0),
        bit_at(word, 12) == (word & 0x1000 != 0),
        bit_range(word, 12, 16) == word >> 12,
        (word >> 12) < 16,
{
}

/// Masking to ten bits is the remainder by 1024, and a word below 1024 has
/// nothing but an id in it.
proof fn lemma_low_ten_bits(word: u16)
    by (bit_vector)
    ensures
        word & 0x03FF == word % 1024,
        word < 1024 ==> word & 0x03FF == word,
        word < 1024 ==> (word >> 10) & 7 == 0,
        word < 1024 ==> word >> 12 == 0,
        word < 1024 ==> word & 0x0800 == 0,
        word < 1024 ==> word & 0x1000 == 0,
        word < 1024 ==> word & 0x2000 == 0,
        word < 1024 ==> word & 0x4000 == 0,
        word < 1024 ==> word & 0x8000 == 0,
{
}

/// Replacing bits 10-12 changes the palette line and nothing else.
proof fn lemma_palette_replaced(word: u16, line: u16)
    by (bit_vector)
    requires
        line < 8,
    ensures
        bit_range(line, 0, 3) == line,
        with_bit_range(word, 10, 13, line) == (word & 0xE3FF) | (line << 10),
        (with_bit_range(word, 10, 13, line) >> 10) & 7 == line,
        with_bit_range(word, 10, 13, line) & 0x03FF == word & 0x03FF,
        (with_bit_range(word, 10, 13, line) & 0x2000 != 0) == (word & 0x2000 != 0),
        (with_bit_range(word, 10, 13, line) & 0x4000 != 0) == (word & 0x4000 != 0),
        (with_bit_range(word, 10, 13, line) & 0x8000 != 0) == (word & 0x8000 != 0),
{
}

/// Setting bits 11 and 12 changes the two flip flags and nothing else.
proof fn lemma_flips_replaced(word: u16, h_flip: bool, v_flip: bool)
    by (bit_vector)
    ensures
        (with_bit(with_bit(word, 11, h_flip), 12, v_flip) & 0x0800 != 0) == h_flip,
        (with_bit(with_bit(word, 11, h_flip), 12, v_flip) & 0x1000 != 0) == v_flip,
        with_bit(with_bit(word, 11, h_flip), 12, v_flip) & 0x03FF == word & 0x03FF,
        with_bit(with_bit(word, 11, h_flip), 12, v_flip) & 0xE7FF == word & 0xE7FF,
{
}

} // verus!
