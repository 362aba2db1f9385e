//! Tilesets, and the layouts that stack several of them into one address space.

use crate::gfx::{Palette, Snes4BppTile};
use crate::smart_xml;
use crate::text::{
    hex_text, lemma_text_order_equal, lemma_text_order_swap, lemma_text_order_transitive, push_hex,
    text_order, zero_padded,
};
use crate::tilemap::{TilemapEntry, TiletableEntry};
use vstd::prelude::*;
use vstd::string::StringExecFns;

verus! {

/// What a tileset is loaded as.
#[derive(Copy, Clone, Ord, PartialOrd, Eq, PartialEq, Structural, Debug)]
pub enum TilesetKind {
    /// Main, area-specific tileset data.
    Sce,
    /// Common room elements: tiles that are loaded together with an
    /// area-specific tileset.
    Cre,
}

/// The stable handle of a tileset in the project's registry: a slot index and
/// the version of that slot. Two handles are the same tileset exactly when both
/// parts agree.
#[derive(Copy, Clone, Ord, PartialOrd, Eq, PartialEq, Structural, Hash, Debug)]
pub struct TilesetRef {
    pub idx: u32,
    pub version: u32,
}

impl TilesetRef {
    /// The handle packed into one word: the version in the high half, the slot
    /// index in the low half.
    pub open spec fn spec_as_ffi(self) -> u64 {
        ((self.version as u64) << 32) | (self.idx as u64)
    }

    /// The handle that a packed word stands for. The version of a handle is
    /// always odd, so bit 32 of the word is read as set.
    pub open spec fn spec_from_ffi(value: u64) -> TilesetRef {
        TilesetRef { idx: (value & 0xffff_ffff) as u32, version: ((value >> 32) | 1) as u32 }
    }

    pub fn as_ffi(self) -> (r: u64)
        ensures
            r == self.spec_as_ffi(),
    {
        ((self.version as u64) << 32) | (self.idx as u64)
    }

    pub fn from_ffi(value: u64) -> (r: Self)
        ensures
            r == Self::spec_from_ffi(value),
    {
        let low: u64 = value & 0xffff_ffff;
        let high: u64 = (value >> 32) | 1;
        assert(low <= 0xffff_ffff && high <= 0xffff_ffff) by (bit_vector)
            requires
                low == value & 0xffff_ffff,
                high == (value >> 32) | 1,
        ;
        TilesetRef { idx: low as u32, version: high as u32 }
    }
}

/// Packing a handle with an odd version and unpacking it again gives the same
/// handle.
pub proof fn lemma_ffi_round_trip(h: TilesetRef)
    requires
        h.version % 2 == 1,
    ensures
        TilesetRef::spec_from_ffi(h.spec_as_ffi()) == h,
{
    let idx = h.idx;
    let version = h.version;
    assert({
        let word = ((version as u64) << 32) | (idx as u64);
        (word & 0xffff_ffff) as u32 == idx && ((word >> 32) | 1) as u32 == version
    }) by (bit_vector)
        requires
            version % 2 == 1,
    ;
}

/// One source in a layout: it answers for the indices `base` to `base + size`,
/// both ends included.
#[derive(Clone, Hash, Eq, PartialEq, Debug)]
pub struct OverlaidLayoutEntry<Ref> {
    pub base: usize,
    pub size: usize,
    pub tileset: Ref,
}

impl<Ref> OverlaidLayoutEntry<Ref> {
    /// Whether this source answers for index `i`. The index one past the
    /// nominal size still counts.
    pub open spec fn covers(&self, i: int) -> bool {
        i >= self.base && i - self.base <= self.size
    }
}

/// Stack of tileset sources that are addressed as one. A later entry hides an
/// earlier one wherever both cover an index.
#[derive(Clone, Hash, Eq, PartialEq, Debug)]
pub struct OverlaidLayout<Ref> {
    pub entries: Vec<OverlaidLayoutEntry<Ref>>,
}

/// The source that answers for index `i` among `entries`, with the offset of
/// `i` from that source's base: the last entry that covers `i`.
pub open spec fn resolve<Ref>(entries: Seq<OverlaidLayoutEntry<Ref>>, i: int) -> Option<
    (Ref, usize),
>
    decreases entries.len(),
{
    if entries.len() == 0 {
        None
    } else if entries.last().covers(i) {
        Some((entries.last().tileset, (i - entries.last().base) as usize))
    } else {
        resolve(entries.drop_last(), i)
    }
}

/// The lowest base among `entries`, which must not be empty.
pub open spec fn lowest_base<Ref>(entries: Seq<OverlaidLayoutEntry<Ref>>) -> int
    decreases entries.len(),
{
    if entries.len() <= 1 {
        entries.last().base as int
    } else {
        let rest = lowest_base(entries.drop_last());
        if rest <= entries.last().base {
            rest
        } else {
            entries.last().base as int
        }
    }
}

/// The highest `base + size` among `entries`, which must not be empty.
pub open spec fn highest_end<Ref>(entries: Seq<OverlaidLayoutEntry<Ref>>) -> int
    decreases entries.len(),
{
    if entries.len() <= 1 {
        entries.last().base + entries.last().size
    } else {
        let rest = highest_end(entries.drop_last());
        if rest >= entries.last().base + entries.last().size {
            rest
        } else {
            entries.last().base + entries.last().size
        }
    }
}

/// What `resolve` finds is the last entry that covers the index; it finds
/// nothing exactly when no entry covers it.
pub proof fn lemma_resolve_last_wins<Ref>(entries: Seq<OverlaidLayoutEntry<Ref>>, i: int)
    ensures
        resolve(entries, i) is None <==> forall|j: int|
            0 <= j < entries.len() ==> !(#[trigger] entries[j]).covers(i),
        resolve(entries, i) is Some ==> exists|j: int|
            {
                &&& 0 <= j < entries.len()
                &&& (#[trigger] entries[j]).covers(i)
                &&& forall|k: int| j < k < entries.len() ==> !(#[trigger] entries[k]).covers(i)
                &&& resolve(entries, i) == Some((entries[j].tileset, (i - entries[j].base) as usize))
            },
    decreases entries.len(),
{
    if entries.len() == 0 {
    } else if entries.last().covers(i) {
        let j = entries.len() - 1;
        assert(entries[j].covers(i));
    } else {
        let rest = entries.drop_last();
        lemma_resolve_last_wins(rest, i);
        assert(forall|j: int| 0 <= j < rest.len() ==> rest[j] == entries[j]);
        if resolve(rest, i) is Some {
            let j = choose|j: int|
                {
                    &&& 0 <= j < rest.len()
                    &&& (#[trigger] rest[j]).covers(i)
                    &&& forall|k: int| j < k < rest.len() ==> !(#[trigger] rest[k]).covers(i)
                    &&& resolve(rest, i) == Some((rest[j].tileset, (i - rest[j].base) as usize))
                };
            assert(entries[j].covers(i));
            assert forall|k: int| j < k < entries.len() implies !(#[trigger] entries[k]).covers(
                i,
            ) by {
                if k < rest.len() {
                    assert(rest[k] == entries[k]);
                }
            }
        } else {
            assert forall|j: int| 0 <= j < entries.len() implies !(#[trigger] entries[j]).covers(
                i,
            ) by {
                if j < rest.len() {
                    assert(rest[j] == entries[j]);
                }
            }
        }
    }
}

/// The span of a layout reaches from a base that an entry has to an end that an
/// entry has, and holds every entry.
pub proof fn lemma_span_bounds<Ref>(entries: Seq<OverlaidLayoutEntry<Ref>>)
    requires
        entries.len() > 0,
    ensures
        forall|j: int|
            0 <= j < entries.len() ==> lowest_base(entries) <= (#[trigger] entries[j]).base
                && entries[j].base + entries[j].size <= highest_end(entries),
        exists|j: int| 0 <= j < entries.len() && lowest_base(entries) == (#[trigger] entries[j]).base,
        exists|j: int|
            0 <= j < entries.len() && highest_end(entries) == (#[trigger] entries[j]).base
                + entries[j].size,
    decreases entries.len(),
{
    let last = entries.len() - 1;
    if entries.len() == 1 {
        assert(lowest_base(entries) == entries[last].base);
        assert(highest_end(entries) == entries[last].base + entries[last].size);
    } else {
        let rest = entries.drop_last();
        lemma_span_bounds(rest);
        assert(forall|j: int| 0 <= j < rest.len() ==> rest[j] == entries[j]);
        let lo = choose|j: int| 0 <= j < rest.len() && lowest_base(rest) == (#[trigger] rest[j]).base;
        let hi = choose|j: int|
            0 <= j < rest.len() && highest_end(rest) == (#[trigger] rest[j]).base + rest[j].size;
        assert(rest[lo] == entries[lo]);
        assert(rest[hi] == entries[hi]);
        if lowest_base(rest) <= entries[last].base {
            assert(lowest_base(entries) == entries[lo].base);
        } else {
            assert(lowest_base(entries) == entries[last].base);
        }
        if highest_end(rest) >= entries[last].base + entries[last].size {
            assert(highest_end(entries) == entries[hi].base + entries[hi].size);
        } else {
            assert(highest_end(entries) == entries[last].base + entries[last].size);
        }
        assert forall|j: int| 0 <= j < entries.len() implies lowest_base(entries) <= (
        #[trigger] entries[j]).base && entries[j].base + entries[j].size <= highest_end(
            entries,
        ) by {
            if j < rest.len() {
                assert(rest[j] == entries[j]);
            }
        }
    }
}

impl<Ref> OverlaidLayout<Ref> {
    /// Whether `base + size` fits in a `usize` for every entry.
    pub open spec fn ends_fit(&self) -> bool {
        forall|j: int|
            0 <= j < self.entries@.len() ==> (#[trigger] self.entries@[j]).base
                + self.entries@[j].size <= usize::MAX
    }
}

impl<Ref> Default for OverlaidLayout<Ref> {
    fn default() -> (r: Self)
        ensures
            r.entries@.len() == 0,
    {
        OverlaidLayout { entries: Vec::new() }
    }
}

impl<Ref: Copy> OverlaidLayout<Ref> {
    /// The source that answers for index `i`, and the offset of `i` in it.
    pub fn lookup(&self, i: usize) -> (r: Option<(Ref, usize)>)
        ensures
            r == resolve(self.entries@, i as int),
    {
        let mut n: usize = self.entries.len();
        assert(self.entries@.take(n as int) =~= self.entries@);
        while n > 0
            invariant
                n <= self.entries@.len(),
                resolve(self.entries@, i as int) == resolve(self.entries@.take(n as int), i as int),
            decreases n,
        {
            let e = &self.entries[n - 1];
            proof {
                let ghost head = self.entries@.take(n as int);
                assert(head.last() == self.entries@[n - 1]);
                assert(head.drop_last() =~= self.entries@.take(n - 1));
            }
            if i >= e.base && i - e.base <= e.size {
                return Some((e.tileset, i - e.base));
            }
            n -= 1;
        }
        assert(self.entries@.take(0).len() == 0);
        None
    }

    /// The span from the lowest base to the highest end of the entries; `None`
    /// for a layout without entries.
    pub fn valid_range(&self) -> (r: Option<(usize, usize)>)
        requires
            self.ends_fit(),
        ensures
            self.entries@.len() == 0 ==> r is None,
            self.entries@.len() > 0 ==> r == Some(
                (lowest_base(self.entries@) as usize, highest_end(self.entries@) as usize),
            ),
            self.entries@.len() > 0 ==> 0 <= lowest_base(self.entries@) <= usize::MAX && 0
                <= highest_end(self.entries@) <= usize::MAX,
    {
        if self.entries.len() == 0 {
            return None;
        }
        let mut lo: usize = self.entries[0].base;
        let mut hi: usize = self.entries[0].base + self.entries[0].size;
        assert(self.entries@.take(1).last() == self.entries@[0]);
        let mut n: usize = 1;
        while n < self.entries.len()
            invariant
                1 <= n <= self.entries@.len(),
                self.ends_fit(),
                lo == lowest_base(self.entries@.take(n as int)),
                hi == highest_end(self.entries@.take(n as int)),
            decreases self.entries@.len() - n,
        {
            let e = &self.entries[n];
            proof {
                let ghost head = self.entries@.take(n + 1);
                assert(head.last() == self.entries@[n as int]);
                assert(head.drop_last() =~= self.entries@.take(n as int));
            }
            if e.base < lo {
                lo = e.base;
            }
            if e.base + e.size > hi {
                hi = e.base + e.size;
            }
            n += 1;
        }
        assert(self.entries@.take(n as int) =~= self.entries@);
        Some((lo, hi))
    }
}

impl<Ref> OverlaidLayout<Ref> {
    /// Tests whether `base + size` fits in a `usize` for every entry.
    pub fn spans_fit(&self) -> (r: bool)
        ensures
            r == self.ends_fit(),
    {
        let mut n: usize = 0;
        while n < self.entries.len()
            invariant
                n <= self.entries@.len(),
                forall|j: int|
                    0 <= j < n ==> (#[trigger] self.entries@[j]).base + self.entries@[j].size
                        <= usize::MAX,
            decreases self.entries@.len() - n,
        {
            let e = &self.entries[n];
            if e.size > usize::MAX - e.base {
                return false;
            }
            n += 1;
        }
        true
    }
}

/// The index by which a tileset is numbered in the project.
pub type TilesetIndex = u8;

/// A named bundle of a palette, tiles and blocks.
pub struct Tileset {
    pub handle: TilesetRef,
    pub index: Option<TilesetIndex>,
    pub name: String,
    pub kind: TilesetKind,
    pub palette: Palette,
    pub gfx: Vec<Snes4BppTile>,
    pub tiletable: Vec<TiletableEntry>,
}

/// Why the raw contents of a tileset directory are no tileset.
#[derive(Copy, Clone, PartialEq, Eq, Structural, Debug)]
pub enum TilesetLoadError {
    /// The palette is shorter than the lines that an entry can name, or has a
    /// colour that is not zero after them.
    PaletteTooLong,
    /// The graphics are not a whole number of tiles.
    UnevenGfx,
    /// The block table is not a whole number of blocks.
    TruncatedTiletable,
}

/// The name of a tileset whose metadata gives none.
pub open spec fn unnamed() -> Seq<char> {
    "Unnamed Tileset"@
}

/// Whether a raw palette can be cut to the lines that a tilemap entry can name:
/// it is empty, or it has all 128 colours and only zero colours after them.
pub open spec fn palette_fits(words: Seq<u16>) -> bool {
    words.len() == 0 || (words.len() >= 128 && forall|i: int|
        128 <= i < words.len() ==> words[i] == 0)
}

/// Whether `gfx` are the tiles that `bytes` hold, 32 bytes each.
pub open spec fn holds_tiles(gfx: Seq<Snes4BppTile>, bytes: Seq<u8>) -> bool {
    &&& gfx.len() == bytes.len() / 32
    &&& forall|t: int, j: int|
        0 <= t < gfx.len() && 0 <= j < 32 ==> (#[trigger] gfx[t].0[j]) == bytes[32 * t + j]
}

/// Whether `tiletable` are the blocks that `words` hold, four words each.
pub open spec fn holds_blocks(tiletable: Seq<TiletableEntry>, words: Seq<u16>) -> bool {
    &&& tiletable.len() == words.len() / 4
    &&& forall|b: int, j: int|
        0 <= b < tiletable.len() && 0 <= j < 4 ==> (#[trigger] tiletable[b].0[j]).0 == words[4 * b
            + j]
}

impl TilesetLoadError {
    /// The sentence that reports this error for the tileset numbered `index`.
    pub open spec fn spec_message(self, index: u8) -> Seq<char> {
        "Tileset "@ + zero_padded(hex_text(index as nat), 2) + match self {
            TilesetLoadError::PaletteTooLong => " palette has too many (non-blank) lines"@,
            TilesetLoadError::UnevenGfx => " gfx not evenly divisible as tiles"@,
            TilesetLoadError::TruncatedTiletable => " tiletable has truncated trailing entry"@,
        }
    }

    pub fn message(self, index: u8) -> (r: String)
        ensures
            r@ == self.spec_message(index),
    {
        let mut s: String = String::from_str("Tileset ");
        push_hex(&mut s, index as u64, 2);
        match self {
            TilesetLoadError::PaletteTooLong => s.append(" palette has too many (non-blank) lines"),
            TilesetLoadError::UnevenGfx => s.append(" gfx not evenly divisible as tiles"),
            TilesetLoadError::TruncatedTiletable => s.append(
                " tiletable has truncated trailing entry",
            ),
        }
        s
    }
}

impl Tileset {
    pub fn handle(&self) -> (r: TilesetRef)
        ensures
            r == self.handle,
    {
        self.handle
    }

    pub fn index(&self) -> (r: Option<TilesetIndex>)
        ensures
            r == self.index,
    {
        self.index
    }

    /// The title of the tileset: its index as two hexadecimal digits in square
    /// brackets, or two question marks where it has none, then its name.
    pub open spec fn spec_title(&self) -> Seq<char> {
        match self.index {
            Some(index) => seq!['['] + zero_padded(hex_text(index as nat), 2) + seq![']', ' ']
                + self.name@,
            None => seq!['[', '?', '?', ']', ' '] + self.name@,
        }
    }

    pub fn title(&self) -> (r: String)
        ensures
            r@ == self.spec_title(),
    {
        proof {
            reveal_strlit("[");
            reveal_strlit("] ");
            reveal_strlit("[??] ");
        }
        match self.index {
            Some(index) => {
                let mut s: String = String::from_str("[");
                push_hex(&mut s, index as u64, 2);
                s.append("] ");
                s.append(self.name.as_str());
                assert(s@ =~= self.spec_title());
                s
            },
            None => {
                let mut s: String = String::from_str("[??] ");
                s.append(self.name.as_str());
                assert(s@ =~= self.spec_title());
                s
            },
        }
    }
}

/// Checks the raw contents of a tileset directory and makes the tileset of
/// them. The palette is cut to 128 colours; the checks are made in the order
/// palette, graphics, block table, and the first that fails is reported.
pub fn load_from_smart(
    kind: TilesetKind,
    index: u8,
    tileset: smart_xml::Tileset,
    handle: TilesetRef,
) -> (r: Result<Tileset, TilesetLoadError>)
    ensures
        r is Ok <==> palette_fits(tileset.palette@) && tileset.gfx@.len() % 32 == 0
            && tileset.tiletable@.len() % 4 == 0,
        r == Err::<Tileset, TilesetLoadError>(TilesetLoadError::PaletteTooLong) <==> !palette_fits(
            tileset.palette@,
        ),
        r == Err::<Tileset, TilesetLoadError>(TilesetLoadError::UnevenGfx) <==> palette_fits(
            tileset.palette@,
        ) && tileset.gfx@.len() % 32 != 0,
        r == Err::<Tileset, TilesetLoadError>(TilesetLoadError::TruncatedTiletable) <==> palette_fits(
            tileset.palette@,
        ) && tileset.gfx@.len() % 32 == 0 && tileset.tiletable@.len() % 4 != 0,
        r matches Ok(t) ==> {
            &&& t.handle == handle
            &&& t.index == Some(index)
            &&& t.kind == kind
            &&& t.name@ == match tileset.metadata {
                Some(meta) => meta.name@,
                None => unnamed(),
            }
            &&& t.palette.0@ == if tileset.palette@.len() == 0 {
                Seq::<crate::gfx::SnesColor>::empty()
            } else {
                Palette::of_words(tileset.palette@).take(128)
            }
            &&& holds_tiles(t.gfx@, tileset.gfx@)
            &&& holds_blocks(t.tiletable@, tileset.tiletable@)
        },
{
    let smart_xml::Tileset { metadata, gfx: gfx_bytes, tiletable: words, palette: raw_palette } =
        tileset;
    let name: String = match metadata {
        Some(meta) => meta.name,
        None => String::from_str("Unnamed Tileset"),
    };
    let ghost raw = raw_palette@;
    let mut palette: Palette = Palette::from_words(raw_palette);
    if !palette.is_empty() {
        let cut = palette.truncate_checked(Palette::LINE_4BPP_LEN * TilemapEntry::ADDRESSABLE_PALETTES);
        proof {
            let ghost colors = Palette::of_words(raw);
            if palette_fits(raw) {
                assert forall|i: int| 128 <= i < colors.len() implies (#[trigger] colors[i]).0
                    == 0 by {
                    assert(raw[i] == 0);
                }
            }
            if cut is Ok {
                assert forall|i: int| 128 <= i < raw.len() implies raw[i] == 0 by {
                    assert(colors[i].0 == 0);
                }
            }
        }
        if cut.is_err() {
            return Err(TilesetLoadError::PaletteTooLong);
        }
    } else {
        assert(palette.0@ =~= Seq::<crate::gfx::SnesColor>::empty());
    }
    if gfx_bytes.len() % 32 != 0 {
        return Err(TilesetLoadError::UnevenGfx);
    }
    let n_tiles: usize = gfx_bytes.len() / 32;
    let mut gfx: Vec<Snes4BppTile> = Vec::new();
    let mut t: usize = 0;
    while t < n_tiles
        invariant
            n_tiles == gfx_bytes@.len() / 32,
            gfx_bytes@.len() <= usize::MAX,
            t <= n_tiles,
            gfx@.len() == t,
            forall|a: int, j: int|
                0 <= a < t && 0 <= j < 32 ==> (#[trigger] gfx@[a].0[j]) == gfx_bytes@[32 * a + j],
        decreases n_tiles - t,
    {
        let mut data: [u8; 32] = [0u8; 32];
        let mut j: usize = 0;
        while j < 32
            invariant
                n_tiles == gfx_bytes@.len() / 32,
                gfx_bytes@.len() <= usize::MAX,
                t < n_tiles,
                j <= 32,
                forall|b: int| 0 <= b < j ==> (#[trigger] data[b]) == gfx_bytes@[32 * t + b],
            decreases 32 - j,
        {
            data[j] = gfx_bytes[32 * t + j];
            j += 1;
        }
        gfx.push(Snes4BppTile::from_bytes(&data));
        t += 1;
    }
    if words.len() % 4 != 0 {
        return Err(TilesetLoadError::TruncatedTiletable);
    }
    let n_blocks: usize = words.len() / 4;
    let mut tiletable: Vec<TiletableEntry> = Vec::new();
    let mut b: usize = 0;
    while b < n_blocks
        invariant
            n_blocks == words@.len() / 4,
            words@.len() <= usize::MAX,
            b <= n_blocks,
            tiletable@.len() == b,
            forall|a: int, j: int|
                0 <= a < b && 0 <= j < 4 ==> (#[trigger] tiletable@[a].0[j]).0 == words@[4 * a + j],
        decreases n_blocks - b,
    {
        let block: [TilemapEntry; 4] = [
            TilemapEntry(words[4 * b]),
            TilemapEntry(words[4 * b + 1]),
            TilemapEntry(words[4 * b + 2]),
            TilemapEntry(words[4 * b + 3]),
        ];
        tiletable.push(TiletableEntry(block));
        b += 1;
    }
    Ok(Tileset { handle, index: Some(index), kind, name, palette, gfx, tiletable })
}

/// The layouts of everything that is loaded together: graphics, block table,
/// and the tileset whose palette is used.
#[derive(Clone, Hash, Eq, PartialEq)]
pub struct LoadedTilesetLayout<Ref> {
    pub gfx: OverlaidLayout<Ref>,
    pub tiletable: OverlaidLayout<Ref>,
    pub palette_source: Ref,
}

/// Above this many blocks an area-specific block table is taken to be loaded
/// alone, from the start of the block address space.
pub const EXTENDED_TILETABLE_THRESHOLD: usize = 0x300;

/// Where the shared tileset's graphics start.
pub const SHARED_GFX_BASE: usize = 0x280;

/// Where the area-specific block table starts when a shared one lies before it.
pub const AREA_TILETABLE_BASE: usize = 0x100;

/// Whether the block table of `sce` is so long that it is loaded alone.
pub open spec fn is_extended(sce: &Tileset) -> bool {
    sce.tiletable@.len() > EXTENDED_TILETABLE_THRESHOLD
}

/// The graphics layout of an area-specific tileset and, where there is one, a
/// shared tileset: the shared graphics from 0x280, then the area-specific
/// graphics from 0, which win where both cover an index.
pub open spec fn gfx_stack<'p>(sce: &'p Tileset, cre: Option<&'p Tileset>) -> Seq<
    OverlaidLayoutEntry<&'p Tileset>,
> {
    let own = OverlaidLayoutEntry { base: 0usize, size: sce.gfx@.len() as usize, tileset: sce };
    match cre {
        Some(c) => seq![
            OverlaidLayoutEntry { base: SHARED_GFX_BASE, size: c.gfx@.len() as usize, tileset: c },
            own,
        ],
        None => seq![own],
    }
}

/// The block-table layout: the shared table from 0 and the area-specific table
/// from 0x100; or, where the area-specific table is extended, that table alone
/// from 0.
pub open spec fn tiletable_stack<'p>(sce: &'p Tileset, cre: Option<&'p Tileset>) -> Seq<
    OverlaidLayoutEntry<&'p Tileset>,
> {
    let own = OverlaidLayoutEntry {
        base: if is_extended(sce) {
            0usize
        } else {
            AREA_TILETABLE_BASE
        },
        size: sce.tiletable@.len() as usize,
        tileset: sce,
    };
    match cre {
        Some(c) if !is_extended(sce) => seq![
            OverlaidLayoutEntry { base: 0usize, size: c.tiletable@.len() as usize, tileset: c },
            own,
        ],
        _ => seq![own],
    }
}

/// In the graphics of an area-specific and a shared tileset, the area-specific
/// tileset answers for every index of its own range, and the shared tileset
/// for what is left of the range from 0x280 on.
pub proof fn lemma_gfx_stack_resolves<'p>(sce: &'p Tileset, cre: &'p Tileset, i: int)
    requires
        0 <= i,
    ensures
        i <= sce.gfx.len() ==> resolve(gfx_stack(sce, Some(cre)), i) == Some((sce, i as usize)),
        sce.gfx.len() < i && SHARED_GFX_BASE <= i <= SHARED_GFX_BASE + cre.gfx.len() ==> resolve(
            gfx_stack(sce, Some(cre)),
            i,
        ) == Some((cre, (i - SHARED_GFX_BASE) as usize)),
        sce.gfx.len() < i && !(SHARED_GFX_BASE <= i <= SHARED_GFX_BASE + cre.gfx.len())
            ==> resolve(gfx_stack(sce, Some(cre)), i) is None,
{
    let stack = gfx_stack(sce, Some(cre));
    assert(stack.len() == 2);
    assert(stack.last() == stack[1]);
    let rest = stack.drop_last();
    assert(rest.len() == 1);
    assert(rest.last() == stack[0]);
    assert(rest.drop_last().len() == 0);
    assert(resolve(rest.drop_last(), i) is None);
    assert(stack[0].size == cre.gfx.len());
    assert(stack[1].size == sce.gfx.len());
    if !stack[1].covers(i) {
        assert(resolve(stack, i) == resolve(rest, i));
        if rest.last().covers(i) {
            assert(resolve(rest, i) == Some((cre, (i - SHARED_GFX_BASE) as usize)));
        } else {
            assert(resolve(rest, i) == resolve(rest.drop_last(), i));
        }
    }
}

/// Lays out an area-specific tileset and an optional shared tileset as the game
/// loads them.
pub fn detect_sources_layout<'p>(selected_sce: &'p Tileset, selected_cre: Option<&'p Tileset>) -> (r:
    LoadedTilesetLayout<&'p Tileset>)
    ensures
        r.gfx.entries@ == gfx_stack(selected_sce, selected_cre),
        r.tiletable.entries@ == tiletable_stack(selected_sce, selected_cre),
        r.palette_source == selected_sce,
{
    // A block table with more than 0x300 entries would not fit the buffer that
    // the plain loader uses.
    let is_ceres_tileset: bool = selected_sce.tiletable.len() > EXTENDED_TILETABLE_THRESHOLD;

    let mut gfx_layout: OverlaidLayout<&'p Tileset> = OverlaidLayout { entries: Vec::new() };
    if let Some(cre) = selected_cre {
        gfx_layout.entries.push(
            OverlaidLayoutEntry { base: SHARED_GFX_BASE, size: cre.gfx.len(), tileset: cre },
        );
    }
    gfx_layout.entries.push(
        OverlaidLayoutEntry { base: 0, size: selected_sce.gfx.len(), tileset: selected_sce },
    );

    let mut ttb_layout: OverlaidLayout<&'p Tileset> = OverlaidLayout { entries: Vec::new() };
    if let Some(cre) = selected_cre {
        if !is_ceres_tileset {
            ttb_layout.entries.push(
                OverlaidLayoutEntry { base: 0, size: cre.tiletable.len(), tileset: cre },
            );
        }
    }
    ttb_layout.entries.push(
        OverlaidLayoutEntry {
            base: if is_ceres_tileset {
                0
            } else {
                AREA_TILETABLE_BASE
            },
            size: selected_sce.tiletable.len(),
            tileset: selected_sce,
        },
    );
    assert(gfx_layout.entries@ =~= gfx_stack(selected_sce, selected_cre));
    assert(ttb_layout.entries@ =~= tiletable_stack(selected_sce, selected_cre));
    LoadedTilesetLayout { gfx: gfx_layout, tiletable: ttb_layout, palette_source: selected_sce }
}

/// Whether `mapped` is `entries` with each source replaced by something that
/// `f` can return for it, bases and sizes kept.
pub open spec fn is_mapped<Ref, T, F: Fn(Ref) -> T>(
    entries: Seq<OverlaidLayoutEntry<Ref>>,
    f: F,
    mapped: Seq<OverlaidLayoutEntry<T>>,
) -> bool {
    &&& mapped.len() == entries.len()
    &&& forall|j: int|
        0 <= j < entries.len() ==> {
            &&& (#[trigger] mapped[j]).base == entries[j].base
            &&& mapped[j].size == entries[j].size
            &&& f.ensures((entries[j].tileset,), mapped[j].tileset)
        }
}

/// Whether `f` may be called on every source of `entries`.
pub open spec fn accepts_all<Ref, T, F: Fn(Ref) -> T>(
    entries: Seq<OverlaidLayoutEntry<Ref>>,
    f: F,
) -> bool {
    forall|j: int| 0 <= j < entries.len() ==> f.requires(((#[trigger] entries[j]).tileset,))
}

fn map_entries<Ref: Copy, T, F: Fn(Ref) -> T>(entries: &Vec<OverlaidLayoutEntry<Ref>>, f: &F) -> (r:
    Vec<OverlaidLayoutEntry<T>>)
    requires
        accepts_all(entries@, *f),
    ensures
        is_mapped(entries@, *f, r@),
{
    let mut mapped: Vec<OverlaidLayoutEntry<T>> = Vec::new();
    let mut n: usize = 0;
    while n < entries.len()
        invariant
            n <= entries@.len(),
            accepts_all(entries@, *f),
            is_mapped(entries@.take(n as int), *f, mapped@),
        decreases entries@.len() - n,
    {
        let e = &entries[n];
        let tileset: T = f(e.tileset);
        mapped.push(OverlaidLayoutEntry { base: e.base, size: e.size, tileset });
        n += 1;
    }
    assert(entries@.take(n as int) =~= entries@);
    mapped
}

impl<Ref: Copy> OverlaidLayout<Ref> {
    /// The same layout with every source replaced by what `f` makes of it.
    pub fn map_ref<T, F: Fn(Ref) -> T>(&self, f: F) -> (r: OverlaidLayout<T>)
        requires
            accepts_all(self.entries@, f),
        ensures
            is_mapped(self.entries@, f, r.entries@),
    {
        OverlaidLayout { entries: map_entries(&self.entries, &f) }
    }
}

impl<Ref: Copy> LoadedTilesetLayout<Ref> {
    /// The same layouts with every source replaced by what `f` makes of it.
    pub fn map_refs<T, F: Fn(Ref) -> T>(&self, f: F) -> (r: LoadedTilesetLayout<T>)
        requires
            accepts_all(self.gfx.entries@, f),
            accepts_all(self.tiletable.entries@, f),
            f.requires((self.palette_source,)),
        ensures
            is_mapped(self.gfx.entries@, f, r.gfx.entries@),
            is_mapped(self.tiletable.entries@, f, r.tiletable.entries@),
            f.ensures((self.palette_source,), r.palette_source),
    {
        let gfx = OverlaidLayout { entries: map_entries(&self.gfx.entries, &f) };
        let tiletable = OverlaidLayout { entries: map_entries(&self.tiletable.entries, &f) };
        let palette_source: T = f(self.palette_source);
        LoadedTilesetLayout { gfx, tiletable, palette_source }
    }
}

/// The place of a kind in a list of tilesets: area-specific tilesets first.
pub open spec fn kind_rank(kind: TilesetKind) -> int {
    match kind {
        TilesetKind::Sce => 0,
        TilesetKind::Cre => 1,
    }
}

/// The place of an index in a list of tilesets: tilesets without an index
/// first, then by index.
pub open spec fn index_rank(index: Option<TilesetIndex>) -> int {
    match index {
        None => -1,
        Some(i) => i as int,
    }
}

/// The sign of `x - y`.
pub open spec fn sign_of(x: int, y: int) -> int {
    if x < y {
        -1
    } else if x > y {
        1
    } else {
        0
    }
}

/// How two tilesets stand to each other in a list: negative where `a` comes
/// first, 0 where neither does, positive where `b` comes first. Tilesets are
/// listed by kind, then by index, then by name, then by handle.
pub open spec fn display_sign(a: &Tileset, b: &Tileset) -> int {
    if kind_rank(a.kind) != kind_rank(b.kind) {
        sign_of(kind_rank(a.kind), kind_rank(b.kind))
    } else if index_rank(a.index) != index_rank(b.index) {
        sign_of(index_rank(a.index), index_rank(b.index))
    } else if text_order(a.name@, b.name@) != 0 {
        text_order(a.name@, b.name@)
    } else if a.handle.idx != b.handle.idx {
        sign_of(a.handle.idx as int, b.handle.idx as int)
    } else {
        sign_of(a.handle.version as int, b.handle.version as int)
    }
}

/// The order of the list is a total order on kind, index, name and handle:
/// two tilesets are level only where all four agree, swapping them turns the
/// order round, and what comes before a tileset comes before everything that
/// the tileset comes before.
pub proof fn lemma_display_order(a: &Tileset, b: &Tileset, c: &Tileset)
    ensures
        -1 <= display_sign(a, b) <= 1,
        display_sign(a, b) == 0 <==> a.kind == b.kind && a.index == b.index && a.name@ == b.name@
            && a.handle == b.handle,
        display_sign(b, a) == -display_sign(a, b),
        display_sign(a, b) <= 0 && display_sign(b, c) <= 0 ==> display_sign(a, c) <= 0,
{
    lemma_text_order_equal(a.name@, b.name@);
    lemma_text_order_equal(b.name@, c.name@);
    lemma_text_order_equal(a.name@, c.name@);
    lemma_text_order_swap(a.name@, b.name@);
    if text_order(a.name@, b.name@) < 0 && text_order(b.name@, c.name@) < 0 {
        lemma_text_order_transitive(a.name@, b.name@, c.name@);
    }
}

} // verus!
