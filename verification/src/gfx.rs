//! Colours, palettes and 4-bit planar tiles.

use vstd::prelude::*;

verus! {

/// Width and height of a tile, in pixels.
pub const TILE_SIZE: usize = 8;

/// A 5-bit channel value widened to 8 bits, rounded to nearest.
pub open spec fn expand(c: int) -> int {
    (c * 255 + 15) / 31
}

/// Widening keeps the order of channel values and maps the ends of the 5-bit
/// range onto the ends of the 8-bit range.
pub proof fn lemma_expand_monotonic(a: int, b: int)
    requires
        0 <= a <= b <= 31,
    ensures
        expand(a) <= expand(b),
        0 <= expand(a) <= 255,
        expand(0) == 0,
        expand(31) == 255,
{
}

/// A 15-bit colour: red in bits 0-4, green in bits 5-9, blue in bits 10-14.
#[derive(Copy, Clone)]
pub struct SnesColor(pub u16);

impl SnesColor {
    pub open spec fn red(self) -> int {
        self.0 as int % 32
    }

    pub open spec fn green(self) -> int {
        (self.0 as int / 32) % 32
    }

    pub open spec fn blue(self) -> int {
        (self.0 as int / 1024) % 32
    }

    /// The three channels, red first, each 0 to 31.
    pub fn as_rgb_5bpc(self) -> (r: [u16; 3])
        ensures
            r[0] == self.red(),
            r[1] == self.green(),
            r[2] == self.blue(),
    {
        let word: u16 = self.0;
        assert(word & 0x1F == word % 32 && (word >> 5) & 0x1F == (word / 32) % 32 && (word >> 10)
            & 0x1F == (word / 1024) % 32) by (bit_vector);
        [word & 0x1F, (word >> 5) & 0x1F, (word >> 10) & 0x1F]
    }

    /// The three channels, red first, each widened to 0 to 255.
    pub fn as_rgb_8bpc(self) -> (r: [u8; 3])
        ensures
            r[0] == expand(self.red()),
            r[1] == expand(self.green()),
            r[2] == expand(self.blue()),
    {
        let c: [u16; 3] = self.as_rgb_5bpc();
        [widen_channel(c[0]), widen_channel(c[1]), widen_channel(c[2])]
    }

    /// The colour as an opaque pixel.
    pub open spec fn pixel(self) -> Rgba {
        Rgba {
            r: expand(self.red()) as u8,
            g: expand(self.green()) as u8,
            b: expand(self.blue()) as u8,
            a: 255,
        }
    }

    pub fn to_rgba(self) -> (p: Rgba)
        ensures
            p == self.pixel(),
    {
        let c: [u8; 3] = self.as_rgb_8bpc();
        Rgba { r: c[0], g: c[1], b: c[2], a: 255 }
    }
}

fn widen_channel(x: u16) -> (r: u8)
    requires
        x < 32,
    ensures
        r == expand(x as int),
{
    ((x * 0xFF + (0x1F / 2)) / 0x1F) as u8
}

/// One pixel of an image: red, green, blue and alpha, 0 to 255 each.
#[derive(Copy, Clone, PartialEq, Eq, Structural, Debug)]
pub struct Rgba {
    pub r: u8,
    pub g: u8,
    pub b: u8,
    pub a: u8,
}

impl Rgba {
    /// The pixel that an image holds where nothing was drawn.
    pub open spec fn spec_transparent() -> Rgba {
        Rgba { r: 0, g: 0, b: 0, a: 0 }
    }

    #[verifier::when_used_as_spec(spec_transparent)]
    pub fn transparent() -> (p: Rgba)
        ensures
            p == Self::spec_transparent(),
    {
        Rgba { r: 0, g: 0, b: 0, a: 0 }
    }
}

/// An ordered list of colours, read in lines of 16 (4-bit indices) or of 4
/// (2-bit indices).
pub struct Palette(pub Vec<SnesColor>);

impl Palette {
    pub const LINE_4BPP_LEN: usize = 16;

    pub const LINE_2BPP_LEN: usize = 4;

    pub fn len(&self) -> (n: usize)
        ensures
            n == self.0@.len(),
    {
        self.0.len()
    }

    pub fn is_empty(&self) -> (r: bool)
        ensures
            r == (self.0@.len() == 0),
    {
        self.0.len() == 0
    }

    /// How many colours are left over after the last complete line of 16.
    pub fn leftover_4bpp(&self) -> (n: usize)
        ensures
            n == self.0@.len() % 16,
    {
        self.0.len() % Self::LINE_4BPP_LEN
    }

    /// How many colours are left over after the last complete line of 4.
    pub fn leftover_2bpp(&self) -> (n: usize)
        ensures
            n == self.0@.len() % 4,
    {
        self.0.len() % Self::LINE_2BPP_LEN
    }

    /// The complete lines of 16 colours, in order. Colours left over after the
    /// last complete line are not part of any line.
    pub fn as_4bpp_lines(&self) -> (lines: Vec<[SnesColor; 16]>)
        ensures
            lines@.len() == self.0@.len() / 16,
            forall|i: int, j: int|
                0 <= i < lines@.len() && 0 <= j < 16 ==> (#[trigger] lines@[i][j]) == self.0@[16 * i
                    + j],
    {
        let n: usize = self.0.len() / 16;
        let mut lines: Vec<[SnesColor; 16]> = Vec::new();
        let mut i: usize = 0;
        while i < n
            invariant
                n == self.0@.len() / 16,
                self.0@.len() <= usize::MAX,
                i <= n,
                lines@.len() == i,
                forall|a: int, b: int|
                    0 <= a < i && 0 <= b < 16 ==> (#[trigger] lines@[a][b]) == self.0@[16 * a + b],
            decreases n - i,
        {
            let mut line: [SnesColor; 16] = [SnesColor(0); 16];
            let mut j: usize = 0;
            while j < 16
                invariant
                    n == self.0@.len() / 16,
                    self.0@.len() <= usize::MAX,
                    i < n,
                    j <= 16,
                    forall|b: int| 0 <= b < j ==> (#[trigger] line[b]) == self.0@[16 * i + b],
                decreases 16 - j,
            {
                line[j] = self.0[16 * i + j];
                j += 1;
            }
            lines.push(line);
            i += 1;
        }
        lines
    }

    /// The complete lines of 4 colours, in order.
    pub fn as_2bpp_lines(&self) -> (lines: Vec<[SnesColor; 4]>)
        ensures
            lines@.len() == self.0@.len() / 4,
            forall|i: int, j: int|
                0 <= i < lines@.len() && 0 <= j < 4 ==> (#[trigger] lines@[i][j]) == self.0@[4 * i
                    + j],
    {
        let n: usize = self.0.len() / 4;
        let mut lines: Vec<[SnesColor; 4]> = Vec::new();
        let mut i: usize = 0;
        while i < n
            invariant
                n == self.0@.len() / 4,
                self.0@.len() <= usize::MAX,
                i <= n,
                lines@.len() == i,
                forall|a: int, b: int|
                    0 <= a < i && 0 <= b < 4 ==> (#[trigger] lines@[a][b]) == self.0@[4 * a + b],
            decreases n - i,
        {
            let mut line: [SnesColor; 4] = [SnesColor(0); 4];
            let mut j: usize = 0;
            while j < 4
                invariant
                    n == self.0@.len() / 4,
                    self.0@.len() <= usize::MAX,
                    i < n,
                    j <= 4,
                    forall|b: int| 0 <= b < j ==> (#[trigger] line[b]) == self.0@[4 * i + b],
                decreases 4 - j,
            {
                line[j] = self.0[4 * i + j];
                j += 1;
            }
            lines.push(line);
            i += 1;
        }
        lines
    }

    /// Whether every colour from position `from` on is zero.
    pub open spec fn blank_from(self, from: int) -> bool {
        forall|i: int| from <= i < self.0@.len() ==> (#[trigger] self.0@[i]).0 == 0
    }

    /// Shortens the palette to `new_len` colours, if that drops nothing but
    /// zero colours. Otherwise the palette stays as it is.
    pub fn truncate_checked(&mut self, new_len: usize) -> (r: Result<(), ()>)
        ensures
            r is Ok <==> new_len <= old(self).0@.len() && old(self).blank_from(new_len as int),
            r is Ok ==> final(self).0@ == old(self).0@.take(new_len as int),
            r is Err ==> final(self).0@ == old(self).0@,
    {
        if new_len > self.0.len() {
            return Err(());
        }
        let mut i: usize = new_len;
        while i < self.0.len()
            invariant
                new_len <= i <= self.0@.len(),
                self.0@ == old(self).0@,
                forall|k: int| new_len <= k < i ==> (#[trigger] self.0@[k]).0 == 0,
            decreases self.0@.len() - i,
        {
            if self.0[i].0 != 0 {
                return Err(());
            }
            i += 1;
        }
        self.0.truncate(new_len);
        Ok(())
    }

    /// The palette that holds the colours of `v`, in order.
    pub open spec fn of_words(v: Seq<u16>) -> Seq<SnesColor> {
        Seq::new(v.len(), |i: int| SnesColor(v[i]))
    }

    pub fn from_words(v: Vec<u16>) -> (p: Self)
        ensures
            p.0@ == Self::of_words(v@),
    {
        let mut colors: Vec<SnesColor> = Vec::new();
        let mut i: usize = 0;
        while i < v.len()
            invariant
                i <= v@.len(),
                colors@.len() == i,
                forall|k: int| 0 <= k < i ==> (#[trigger] colors@[k]) == SnesColor(v@[k]),
            decreases v@.len() - i,
        {
            colors.push(SnesColor(v[i]));
            i += 1;
        }
        assert(colors@ =~= Self::of_words(v@));
        Palette(colors)
    }
}

impl From<SnesColor> for Rgba {
    fn from(value: SnesColor) -> (p: Rgba) {
        value.to_rgba()
    }
}

impl vstd::std_specs::convert::FromSpecImpl<SnesColor> for Rgba {
    open spec fn obeys_from_spec() -> bool {
        true
    }

    open spec fn from_spec(value: SnesColor) -> Rgba {
        value.pixel()
    }
}

impl From<Vec<u16>> for Palette {
    fn from(v: Vec<u16>) -> (p: Self)
        ensures
            p.0@ == Palette::of_words(v@),
    {
        Palette::from_words(v)
    }
}

impl vstd::std_specs::convert::FromSpecImpl<Vec<u16>> for Palette {
    open spec fn obeys_from_spec() -> bool {
        false
    }

    open spec fn from_spec(v: Vec<u16>) -> Self {
        arbitrary()
    }
}

/// Bit `k` of a bitplane byte, as 0 or 1.
pub open spec fn plane_bit(b: u8, k: u32) -> u32 {
    ((b as u32) >> k) & 1
}

/// The byte `x` with three zero bits put in above each of its bits: bit `k` of
/// `x` is bit `4k` of the result.
pub open spec fn spread(x: u8) -> u32 {
    plane_bit(x, 0) | plane_bit(x, 1) << 4 | plane_bit(x, 2) << 8 | plane_bit(x, 3) << 12
        | plane_bit(x, 4) << 16 | plane_bit(x, 5) << 20 | plane_bit(x, 6) << 24 | plane_bit(x, 7)
        << 28
}

/// The colour index that four bitplane bytes hold at bit `k`: plane `p` gives
/// bit `p` of the index.
pub open spec fn interleave(b0: u8, b1: u8, b2: u8, b3: u8, k: u32) -> u32 {
    plane_bit(b0, k) | plane_bit(b1, k) << 1 | plane_bit(b2, k) << 2 | plane_bit(b3, k) << 3
}

/// The row word of four bitplane bytes: bit `k` of plane `p` is bit `4k + p`.
pub open spec fn row_word(b0: u8, b1: u8, b2: u8, b3: u8) -> u32 {
    spread(b0) | spread(b1) << 1 | spread(b2) << 2 | spread(b3) << 3
}

/// The four bits of `word` from bit `4k` up.
pub open spec fn nibble(word: u32, k: u32) -> u32 {
    (word >> (4 * k) as u32) & 0xF
}

proof fn lemma_spread_by_shifts(x: u8)
    by (bit_vector)
    ensures
        ({
            let a = x as u32;
            let b = 0x000F_000Fu32 & (a | a << 12);
            let c = 0x0303_0303u32 & (b | b << 6);
            0x1111_1111u32 & (c | c << 3)
        }) == spread(x),
{
}

/// Each group of four bits of a row word is the colour index of one pixel.
pub proof fn lemma_row_word_nibbles(b0: u8, b1: u8, b2: u8, b3: u8, k: u32)
    by (bit_vector)
    requires
        k < 8,
    ensures
        nibble(row_word(b0, b1, b2, b3), k) == interleave(b0, b1, b2, b3, k),
        interleave(b0, b1, b2, b3, k) < 16,
{
}

/// Spreads the bits of `x` four apart, by three masked shifts.
pub fn spread_u8_x4(x: u8) -> (r: u32)
    ensures
        r == spread(x),
{
    proof {
        lemma_spread_by_shifts(x);
    }
    let mut v: u32 = x as u32;
    v = 0x000F_000F & (v | v << 12);
    v = 0x0303_0303 & (v | v << 6);
    v = 0x1111_1111 & (v | v << 3);
    v
}

/// Interleaves the four bitplane bytes of one pixel row into its row word.
pub fn decode_bitplanes(bitplanes: [u8; 4]) -> (r: u32)
    ensures
        r == row_word(bitplanes[0], bitplanes[1], bitplanes[2], bitplanes[3]),
{
    let s0: u32 = spread_u8_x4(bitplanes[0]);
    let s1: u32 = spread_u8_x4(bitplanes[1]);
    let s2: u32 = spread_u8_x4(bitplanes[2]);
    let s3: u32 = spread_u8_x4(bitplanes[3]);
    s0 | s1 << 1 | s2 << 2 | s3 << 3
}

/// The colour index, 0 to 15, of the pixel in column `x` and row `y` of the
/// tile stored in `bytes`. Row `y` takes its planes 0 and 1 from bytes `2y` and
/// `2y + 1` and its planes 2 and 3 from bytes `16 + 2y` and `17 + 2y`; the
/// leftmost pixel is bit 7 of each plane.
pub open spec fn tile_index(bytes: Seq<u8>, x: int, y: int) -> int
    recommends
        bytes.len() == 32,
        0 <= x < 8,
        0 <= y < 8,
{
    interleave(
        bytes[2 * y],
        bytes[2 * y + 1],
        bytes[16 + 2 * y],
        bytes[17 + 2 * y],
        (7 - x) as u32,
    ) as int
}

/// The colour index that a decoded tile shows in column `x` and row `y` when it
/// is drawn with the given flips.
pub open spec fn flipped_index(bytes: Seq<u8>, h_flip: bool, v_flip: bool, x: int, y: int) -> int
    recommends
        bytes.len() == 32,
        0 <= x < 8,
        0 <= y < 8,
{
    tile_index(bytes, if h_flip { 7 - x } else { x }, if v_flip { 7 - y } else { y })
}

/// A colour index is below 16.
pub proof fn lemma_index_range(bytes: Seq<u8>, h_flip: bool, v_flip: bool, x: int, y: int)
    requires
        0 <= x < 8,
        0 <= y < 8,
    ensures
        0 <= flipped_index(bytes, h_flip, v_flip, x, y) < 16,
{
    let col = if h_flip {
        7 - x
    } else {
        x
    };
    let row = if v_flip {
        7 - y
    } else {
        y
    };
    lemma_row_word_nibbles(
        bytes[2 * row],
        bytes[2 * row + 1],
        bytes[16 + 2 * row],
        bytes[17 + 2 * row],
        (7 - col) as u32,
    );
}

/// Drawing a tile with both flips set shows the unflipped tile with both of its
/// axes reversed.
pub proof fn lemma_flip_symmetry(bytes: Seq<u8>, x: int, y: int)
    requires
        bytes.len() == 32,
        0 <= x < 8,
        0 <= y < 8,
    ensures
        flipped_index(bytes, true, true, x, y) == flipped_index(bytes, false, false, 7 - x, 7 - y),
        flipped_index(bytes, true, false, x, y) == flipped_index(bytes, false, false, 7 - x, y),
        flipped_index(bytes, false, true, x, y) == flipped_index(bytes, false, false, x, 7 - y),
{
}

/// One 8x8 tile of 4-bit colour indices, as 32 bytes of bitplanes.
#[derive(Copy, Clone)]
pub struct Snes4BppTile(pub [u8; 32]);

impl Snes4BppTile {
    pub fn from_bytes(data: &[u8; 32]) -> (t: Self)
        ensures
            t.0 == *data,
    {
        Self(*data)
    }

    /// The four bitplane bytes of pixel row `row`, plane 0 first.
    pub fn bitplane_set(&self, row: usize) -> (r: [u8; 4])
        requires
            row < 8,
        ensures
            r[0] == self.0[2 * row as int],
            r[1] == self.0[2 * row + 1],
            r[2] == self.0[16 + 2 * row],
            r[3] == self.0[17 + 2 * row],
    {
        [self.0[2 * row], self.0[2 * row + 1], self.0[16 + 2 * row], self.0[17 + 2 * row]]
    }

    /// The bitplane bytes of the eight pixel rows, top row first.
    pub fn bitplane_sets(&self) -> (r: [[u8; 4]; 8])
        ensures
            forall|y: int|
                0 <= y < 8 ==> {
                    &&& (#[trigger] r[y])[0] == self.0[2 * y]
                    &&& r[y][1] == self.0[2 * y + 1]
                    &&& r[y][2] == self.0[16 + 2 * y]
                    &&& r[y][3] == self.0[17 + 2 * y]
                },
    {
        let mut sets: [[u8; 4]; 8] = [[0u8; 4]; 8];
        let mut y: usize = 0;
        while y < 8
            invariant
                y <= 8,
                forall|k: int|
                    0 <= k < y ==> {
                        &&& (#[trigger] sets[k])[0] == self.0[2 * k]
                        &&& sets[k][1] == self.0[2 * k + 1]
                        &&& sets[k][2] == self.0[16 + 2 * k]
                        &&& sets[k][3] == self.0[17 + 2 * k]
                    },
            decreases 8 - y,
        {
            sets[y] = self.bitplane_set(y);
            y += 1;
        }
        sets
    }

    /// The colour indices of row `y` of the tile drawn with the given flips,
    /// leftmost pixel first.
    pub fn row_indices(&self, y: usize, h_flip: bool, v_flip: bool) -> (line: [u8; 8])
        requires
            y < 8,
        ensures
            forall|x: int|
                0 <= x < 8 ==> (#[trigger] line[x]) == flipped_index(
                    self.0@,
                    h_flip,
                    v_flip,
                    x,
                    y as int,
                ),
            forall|x: int| 0 <= x < 8 ==> (#[trigger] line[x]) < 16,
    {
        let row: usize = if v_flip {
            7 - y
        } else {
            y
        };
        let planes: [u8; 4] = self.bitplane_set(row);
        let word: u32 = decode_bitplanes(planes);
        let mut line: [u8; 8] = [0u8; 8];
        let mut x: usize = 0;
        while x < 8
            invariant
                y < 8,
                x <= 8,
                row == if v_flip {
                    7 - y
                } else {
                    y as int
                },
                planes[0] == self.0[2 * row as int],
                planes[1] == self.0[2 * row + 1],
                planes[2] == self.0[16 + 2 * row],
                planes[3] == self.0[17 + 2 * row],
                word == row_word(planes[0], planes[1], planes[2], planes[3]),
                forall|a: int|
                    0 <= a < x ==> (#[trigger] line[a]) == flipped_index(
                        self.0@,
                        h_flip,
                        v_flip,
                        a,
                        y as int,
                    ),
                forall|a: int| 0 <= a < x ==> (#[trigger] line[a]) < 16,
            decreases 8 - x,
        {
            // the leftmost pixel is in the highest four bits of the row word
            let k: u32 = if h_flip {
                x as u32
            } else {
                (7 - x) as u32
            };
            proof {
                lemma_row_word_nibbles(planes[0], planes[1], planes[2], planes[3], k);
            }
            line[x] = ((word >> (4 * k)) & 0xF) as u8;
            x += 1;
        }
        line
    }

    /// The colour index shown in column `x` of row `y`, drawn with the given
    /// flips.
    pub fn index_at(&self, x: usize, y: usize, h_flip: bool, v_flip: bool) -> (r: u8)
        requires
            x < 8,
            y < 8,
        ensures
            r == flipped_index(self.0@, h_flip, v_flip, x as int, y as int),
            r < 16,
    {
        self.row_indices(y, h_flip, v_flip)[x]
    }

    /// The grid of colour indices of the tile drawn with the given flips: the
    /// result holds row `y` at position `y`, and in it column `x` at position `x`.
    pub fn decode(&self, h_flip: bool, v_flip: bool) -> (grid: [[u8; 8]; 8])
        ensures
            forall|x: int, y: int|
                0 <= x < 8 && 0 <= y < 8 ==> (#[trigger] grid[y][x]) == flipped_index(
                    self.0@,
                    h_flip,
                    v_flip,
                    x,
                    y,
                ),
    {
        let mut grid: [[u8; 8]; 8] = [[0u8; 8]; 8];
        let mut y: usize = 0;
        while y < 8
            invariant
                y <= 8,
                forall|a: int, b: int|
                    0 <= a < 8 && 0 <= b < y ==> (#[trigger] grid[b][a]) == flipped_index(
                        self.0@,
                        h_flip,
                        v_flip,
                        a,
                        b,
                    ),
            decreases 8 - y,
        {
            grid[y] = self.row_indices(y, h_flip, v_flip);
            y += 1;
        }
        grid
    }
}

} // verus!
