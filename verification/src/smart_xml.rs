//! The project data as it is read from an exported project, before any of it
//! is checked, and the rules by which texts and bytes in it are read.

use crate::gfx::SnesColor;
use crate::hex_types::{HexU16, HexU24, HexU8, HexValue};
use std::collections::BTreeMap;
use std::num::ParseIntError;
use std::str::FromStr;
use vstd::prelude::*;
use vstd::slice::slice_subrange;

verus! {

#[derive(Debug)]
pub struct SaveInDoor {
    pub room_area: HexU8,
    pub room_index: HexU8,
    pub door_index: HexU8,
}

#[derive(Debug)]
pub struct SaveRoom {
    pub saveindex: HexU8,
    pub indoor: SaveInDoor,
    /// Written twice in the project files.
    pub unused: [Option<HexU16>; 2],
    pub screenx: HexU16,
    pub screeny: HexU16,
    pub samusx: HexU16,
    pub samusy: HexU16,
}

#[derive(Debug)]
pub struct ToRoom {
    pub area: HexU8,
    pub index: HexU8,
}

#[derive(Debug)]
pub struct CodeOp {
    pub op: HexU8,
    pub arg: Option<HexValue>,
}

/// What a door runs when it is passed: operations, a change of scroll data, or
/// the address of code. At most one of the three is there.
#[derive(Debug)]
pub struct DoorCode {
    pub ops: Vec<CodeOp>,
    pub scroll_data: Option<ScrollDataChange>,
    pub address: Option<HexU16>,
}

#[derive(Debug)]
pub struct Door {
    pub toroom: ToRoom,
    pub bitflag: HexU8,
    pub direction: HexU8,
    pub tilex: HexU8,
    pub tiley: HexU8,
    pub screenx: HexU8,
    pub screeny: HexU8,
    pub distance: HexU16,
    pub doorcode: DoorCode,
}

#[derive(Debug)]
pub struct Fx1 {
    pub default: bool,
    pub roomarea: Option<HexU8>,
    pub roomindex: Option<HexU8>,
    pub fromdoor: Option<HexU8>,
    pub surfacestart: HexU16,
    pub surfacenew: HexU16,
    pub surfacespeed: HexU16,
    pub surfacedelay: HexU8,
    pub type_: HexU8,
    pub transparency1_a: HexU8,
    pub transparency2_b: HexU8,
    pub liquidflags_c: HexU8,
    pub paletteflags: HexU8,
    pub animationflags: HexU8,
    pub paletteblend: HexU8,
}

#[derive(Debug)]
pub struct Enemy {
    pub id: HexU16,
    pub x: HexU16,
    pub y: HexU16,
    pub tilemap: HexU16,
    pub special: HexU16,
    pub gfx: HexU16,
    pub speed: HexU16,
    pub speed2: HexU16,
}

#[derive(Debug)]
pub struct EnemiesList {
    pub kill_count: HexU8,
    pub enemy: Vec<Enemy>,
}

#[derive(Debug)]
pub struct EnemyType {
    pub gfx: HexU16,
    pub palette: HexU16,
}

#[derive(Debug, Eq, PartialEq)]
pub enum LayerType {
    Layer2,
    BgData,
}

/// The scroll data of a room state: a constant, or one value per screen. At
/// most one of the two is there.
#[derive(Debug)]
pub struct ScrollData {
    pub const_: Option<HexU16>,
    pub data: Vec<HexU8>,
}

#[derive(Debug)]
pub enum ScrollDataChangeEntry {
    Change { screen: HexU8, scroll: HexU8 },
}

#[derive(Debug)]
pub struct ScrollDataChange {
    pub entries: Vec<ScrollDataChangeEntry>,
}

#[derive(Debug)]
pub struct Plm {
    pub type_: HexU16,
    pub x: HexU8,
    pub y: HexU8,
    pub arg: Option<HexU16>,
    pub scroll_data: Option<ScrollDataChange>,
}

#[derive(Debug)]
pub enum DataOrAddress {
    Data(Vec<HexU16>),
    Address(HexU24),
}

#[derive(Debug)]
pub enum DecompSection {
    Gfx,
    Gfx3,
    Tiles2,
    Tiles1,
    Tiles3,
}

#[derive(Copy, Clone, Debug)]
pub enum BgDataType {
    Copy,
    Decomp,
    L3Copy,
    Clear2,
    ClearAll,
    DdbCopy,
}

#[derive(Debug)]
pub struct BgDataEntry {
    pub type_: BgDataType,
    pub source: Option<DataOrAddress>,
    pub dest: Option<HexU16>,
    pub size: Option<HexU16>,
    pub section: Option<DecompSection>,
    pub ddb: Option<HexU16>,
}

#[derive(Debug)]
pub struct Screen<T> {
    pub x: HexU8,
    pub y: HexU8,
    pub data: Vec<T>,
}

#[derive(Debug)]
pub struct LevelDataLayer<T> {
    pub screens: Vec<Screen<T>>,
}

#[derive(Debug)]
pub struct LevelData {
    pub width: HexU8,
    pub height: HexU8,
    pub layer1: LevelDataLayer<HexU16>,
    pub bts: LevelDataLayer<HexU8>,
    pub layer2: Option<LevelDataLayer<HexU16>>,
}

#[derive(Debug)]
pub enum StateCondition {
    Default,
    Short(HexU16),
}

/// An argument of a state condition. Its width is not known when it is read;
/// it may be a byte, a word or an address.
#[derive(Debug)]
pub struct StateConditionArg {
    pub value: HexU24,
}

#[derive(Debug)]
pub struct RoomState {
    pub condition: StateCondition,
    pub condition_args: Vec<StateConditionArg>,
    pub level_data: LevelData,
    pub gfx_set: HexU8,
    pub music: HexU16,
    pub fx1s: Vec<Fx1>,
    pub enemies: EnemiesList,
    pub enemy_types: Vec<EnemyType>,
    pub layer2_type: LayerType,
    pub layer2_xscroll: HexU8,
    pub layer2_yscroll: HexU8,
    pub scroll_data: ScrollData,
    pub roomvar: HexU16,
    pub fx2: HexU16,
    pub plms: Vec<Plm>,
    pub bg_data: Vec<BgDataEntry>,
    pub layer1_2: HexU16,
}

#[derive(Debug)]
pub enum DoorEntry {
    Elevator,
    Door(Door),
}

#[derive(Debug)]
pub struct Room {
    pub index: HexU8,
    pub area: HexU8,
    pub x: HexU8,
    pub y: HexU8,
    pub width: HexU8,
    pub height: HexU8,
    pub upscroll: HexU8,
    pub dnscroll: HexU8,
    /// Bit flags.
    pub special_gfx: HexU8,
    pub saves: Vec<SaveRoom>,
    pub doors: Vec<DoorEntry>,
    pub states: Vec<RoomState>,
}

#[derive(Debug)]
pub struct Label {
    pub x: HexU16,
    pub y: HexU16,
    pub gfx: HexU16,
}

#[derive(Debug)]
pub struct Icon {
    pub x: HexU16,
    pub y: HexU16,
}

/// The map of one area.
#[derive(Debug)]
pub struct AreaMap {
    pub tile_data: Vec<HexU16>,
    pub area_name: Vec<HexU16>,
    pub map_station_data: Vec<HexU8>,
    pub area_labels: Vec<Label>,
    pub boss_icons: Vec<Icon>,
    pub missile_icons: Vec<Icon>,
    pub energy_icons: Vec<Icon>,
    pub map_icons: Vec<Icon>,
    pub save_icons: Vec<Icon>,
}

/// What a tileset's metadata file says of it.
#[derive(Debug)]
pub struct TilesetMetadata {
    pub name: String,
}

/// The raw contents of one tileset directory.
pub struct Tileset {
    pub metadata: Option<TilesetMetadata>,
    /// Tile graphics, 32 bytes a tile.
    pub gfx: Vec<u8>,
    /// Block table, four words a block.
    pub tiletable: Vec<u16>,
    /// Packed colours; empty for a shared tileset.
    pub palette: Vec<u16>,
}

/// The raw tilesets of a project by their numbers, shared and area-specific.
pub struct TilesetsInfo {
    pub cre: BTreeMap<u8, Tileset>,
    pub sce: BTreeMap<u8, Tileset>,
}

/// Whether `c` is one of the five ASCII whitespace characters: space, tab,
/// line feed, form feed, carriage return.
pub open spec fn is_ascii_space(c: char) -> bool {
    c == ' ' || c == '\t' || c == '\n' || c == '\x0C' || c == '\r'
}

/// The words of `s` after the word `current` that has been begun.
pub open spec fn words_after(s: Seq<char>, current: Seq<char>) -> Seq<Seq<char>>
    decreases s.len(),
{
    let done = if current.len() == 0 {
        Seq::<Seq<char>>::empty()
    } else {
        seq![current]
    };
    if s.len() == 0 {
        done
    } else if is_ascii_space(s[0]) {
        done + words_after(s.skip(1), Seq::<char>::empty())
    } else {
        words_after(s.skip(1), current.push(s[0]))
    }
}

/// The words of a text: its longest runs of characters that are no ASCII
/// whitespace, in order.
pub open spec fn ascii_words(s: Seq<char>) -> Seq<Seq<char>> {
    words_after(s, Seq::<char>::empty())
}

/// Calls `str::split_ascii_whitespace`, which gives the pieces of the text
/// between runs of ASCII whitespace, and collects them.
#[verifier::external_body]
fn split_words(s: &str) -> (r: Vec<&str>)
    ensures
        r@.len() == ascii_words(s@).len(),
        forall|i: int| 0 <= i < r@.len() ==> (#[trigger] r@[i])@ == ascii_words(s@)[i],
{
    s.split_ascii_whitespace().collect()
}

/// Whether `values` are the bytes that the words of `s` stand for.
pub open spec fn are_bytes_of(values: Seq<HexU8>, s: Seq<char>) -> bool {
    &&& values.len() == ascii_words(s).len()
    &&& forall|i: int|
        0 <= i < values.len() ==> HexU8::parsed(ascii_words(s)[i]) == Some(#[trigger] values[i])
}

/// Whether `values` are the words that the words of `s` stand for.
pub open spec fn are_words_of(values: Seq<HexU16>, s: Seq<char>) -> bool {
    &&& values.len() == ascii_words(s).len()
    &&& forall|i: int|
        0 <= i < values.len() ==> HexU16::parsed(ascii_words(s)[i]) == Some(#[trigger] values[i])
}

/// Reads a text of hexadecimal bytes that whitespace separates. The text is
/// refused where one of its words is no byte.
pub fn split_xml_whitespace_u8(s: &str) -> (r: Result<Vec<HexU8>, ParseIntError>)
    ensures
        match r {
            Ok(values) => are_bytes_of(values@, s@),
            Err(_) => exists|i: int|
                0 <= i < ascii_words(s@).len() && HexU8::parsed(#[trigger] ascii_words(s@)[i])
                    is None,
        },
{
    let words: Vec<&str> = split_words(s);
    let mut values: Vec<HexU8> = Vec::new();
    let mut n: usize = 0;
    while n < words.len()
        invariant
            n <= words@.len(),
            words@.len() == ascii_words(s@).len(),
            forall|i: int| 0 <= i < words@.len() ==> (#[trigger] words@[i])@ == ascii_words(s@)[i],
            values@.len() == n,
            forall|i: int|
                0 <= i < n ==> HexU8::parsed(ascii_words(s@)[i]) == Some(#[trigger] values@[i]),
        decreases words@.len() - n,
    {
        match HexU8::from_str(words[n]) {
            Ok(v) => {
                values.push(v);
            },
            Err(e) => {
                assert(HexU8::parsed(ascii_words(s@)[n as int]) is None);
                return Err(e);
            },
        }
        n += 1;
    }
    Ok(values)
}

/// Reads a text of hexadecimal words that whitespace separates. The text is
/// refused where one of its words is no 16-bit number.
pub fn split_xml_whitespace_u16(s: &str) -> (r: Result<Vec<HexU16>, ParseIntError>)
    ensures
        match r {
            Ok(values) => are_words_of(values@, s@),
            Err(_) => exists|i: int|
                0 <= i < ascii_words(s@).len() && HexU16::parsed(#[trigger] ascii_words(s@)[i])
                    is None,
        },
{
    let words: Vec<&str> = split_words(s);
    let mut values: Vec<HexU16> = Vec::new();
    let mut n: usize = 0;
    while n < words.len()
        invariant
            n <= words@.len(),
            words@.len() == ascii_words(s@).len(),
            forall|i: int| 0 <= i < words@.len() ==> (#[trigger] words@[i])@ == ascii_words(s@)[i],
            values@.len() == n,
            forall|i: int|
                0 <= i < n ==> HexU16::parsed(ascii_words(s@)[i]) == Some(#[trigger] values@[i]),
        decreases words@.len() - n,
    {
        match HexU16::from_str(words[n]) {
            Ok(v) => {
                values.push(v);
            },
            Err(e) => {
                assert(HexU16::parsed(ascii_words(s@)[n as int]) is None);
                return Err(e);
            },
        }
        n += 1;
    }
    Ok(values)
}

impl DataOrAddress {
    /// Reads the source of a background data entry: an address, where the
    /// whole text is one hexadecimal number, and else the words of data that
    /// the text lists.
    pub fn from_text(s: &str) -> (r: Result<DataOrAddress, ParseIntError>)
        ensures
            match HexU24::parsed(s@) {
                Some(addr) => r matches Ok(DataOrAddress::Address(a)) && a == addr,
                None => match r {
                    Ok(DataOrAddress::Data(values)) => are_words_of(values@, s@),
                    Ok(DataOrAddress::Address(_)) => false,
                    Err(_) => exists|i: int|
                        0 <= i < ascii_words(s@).len() && HexU16::parsed(
                            #[trigger] ascii_words(s@)[i],
                        ) is None,
                },
            },
    {
        match HexU24::from_str(s) {
            Ok(addr) => Ok(DataOrAddress::Address(addr)),
            Err(_) => match split_xml_whitespace_u16(s) {
                Ok(values) => Ok(DataOrAddress::Data(values)),
                Err(e) => Err(e),
            },
        }
    }
}

impl StateCondition {
    /// Reads the condition of a room state: the word `default`, or the number
    /// of the condition.
    pub fn from_text(s: &str) -> (r: Result<StateCondition, ParseIntError>)
        ensures
            s@ == "default"@ ==> r matches Ok(StateCondition::Default),
            s@ != "default"@ ==> match HexU16::parsed(s@) {
                Some(v) => r matches Ok(StateCondition::Short(x)) && x == v,
                None => r is Err,
            },
    {
        let text: String = s.to_owned();
        let word: String = "default".to_owned();
        if text == word {
            Ok(StateCondition::Default)
        } else {
            match HexU16::from_str(s) {
                Ok(v) => Ok(StateCondition::Short(v)),
                Err(e) => Err(e),
            }
        }
    }
}

/// The packed colour of a colour with 8-bit channels: each channel loses its
/// three low bits.
pub open spec fn rgb_word(r: u8, g: u8, b: u8) -> u16 {
    (r / 8 + 32 * (g / 8) + 1024 * (b / 8)) as u16
}

/// Whether packing a colour with 8-bit channels loses anything of it.
pub open spec fn loses_precision(r: u8, g: u8, b: u8) -> bool {
    r % 8 != 0 || g % 8 != 0 || b % 8 != 0
}

/// Tests whether packing the colour loses anything of it.
pub fn rgb_loses_precision(rgb: [u8; 3]) -> (lost: bool)
    ensures
        lost == loses_precision(rgb[0], rgb[1], rgb[2]),
{
    let r: u8 = rgb[0];
    let g: u8 = rgb[1];
    let b: u8 = rgb[2];
    assert(((r | g | b) & 0b111 != 0) == (r % 8 != 0 || g % 8 != 0 || b % 8 != 0)) by (bit_vector);
    (r | g | b) & 0b111 != 0
}

/// Packs a colour with 8-bit channels, red first, into 15 bits. The three low
/// bits of each channel are dropped.
pub fn rgb_to_snes(rgb: [u8; 3]) -> (w: u16)
    ensures
        w == rgb_word(rgb[0], rgb[1], rgb[2]),
        SnesColor(w).red() == rgb[0] / 8,
        SnesColor(w).green() == rgb[1] / 8,
        SnesColor(w).blue() == rgb[2] / 8,
{
    let r: u16 = rgb[0] as u16;
    let g: u16 = rgb[1] as u16;
    let b: u16 = rgb[2] as u16;
    assert((r >> 3) | (g >> 3 << 5) | (b >> 3 << 10) == r / 8 + 32 * (g / 8) + 1024 * (b / 8))
        by (bit_vector)
        requires
            r < 256,
            g < 256,
            b < 256,
    ;
    (r >> 3) | (g >> 3 << 5) | (b >> 3 << 10)
}

/// Whether `words` are the packed colours of the colours that `bytes` hold,
/// three bytes each; bytes after the last whole colour are left out.
pub open spec fn is_packed_palette(words: Seq<u16>, bytes: Seq<u8>) -> bool {
    &&& words.len() == bytes.len() / 3
    &&& forall|i: int|
        0 <= i < words.len() ==> (#[trigger] words[i]) == rgb_word(
            bytes[3 * i],
            bytes[3 * i + 1],
            bytes[3 * i + 2],
        )
}

/// Packs a palette of colours with 8-bit channels.
pub fn rgb_palette_to_snes(contents: &[u8]) -> (words: Vec<u16>)
    ensures
        is_packed_palette(words@, contents@),
{
    let n: usize = contents.len() / 3;
    let mut words: Vec<u16> = Vec::new();
    let mut i: usize = 0;
    while i < n
        invariant
            n == contents@.len() / 3,
            contents@.len() <= usize::MAX,
            i <= n,
            words@.len() == i,
            forall|k: int|
                0 <= k < i ==> (#[trigger] words@[k]) == rgb_word(
                    contents@[3 * k],
                    contents@[3 * k + 1],
                    contents@[3 * k + 2],
                ),
        decreases n - i,
    {
        words.push(rgb_to_snes([contents[3 * i], contents[3 * i + 1], contents[3 * i + 2]]));
        i += 1;
    }
    words
}

/// The word that two bytes make in one of the two byte orders.
pub open spec fn word_of(first: u8, second: u8, big_endian: bool) -> u16 {
    if big_endian {
        (256 * first + second) as u16
    } else {
        (first + 256 * second) as u16
    }
}

/// Whether `words` are `bytes` read two at a time in one byte order; a last
/// byte without a partner is read with a zero byte after it.
pub open spec fn are_words_of_bytes(words: Seq<u16>, bytes: Seq<u8>, big_endian: bool) -> bool {
    &&& words.len() == (bytes.len() + 1) / 2
    &&& forall|i: int|
        0 <= i < words.len() ==> (#[trigger] words[i]) == word_of(
            bytes[2 * i],
            if 2 * i + 1 < bytes.len() {
                bytes[2 * i + 1]
            } else {
                0
            },
            big_endian,
        )
}

/// Whether `words` are `bytes` read two at a time in the byte order of some
/// machine: the low byte first, or the high byte first.
pub open spec fn are_native_words(words: Seq<u16>, bytes: Seq<u8>) -> bool {
    are_words_of_bytes(words, bytes, false) || are_words_of_bytes(words, bytes, true)
}

/// Calls `bytemuck::pod_collect_to_vec` from bytes to 16-bit words. The crate
/// copies the bytes into a zeroed vector of as many words as hold them, so the
/// words are the bytes in pairs, in the byte order of the machine.
#[verifier::external_body]
fn collect_words(bytes: &[u8]) -> (words: Vec<u16>)
    ensures
        are_native_words(words@, bytes@),
{
    bytemuck::pod_collect_to_vec(bytes)
}

/// Reads a block table or a packed palette from the bytes of its file: the
/// bytes in pairs, in the byte order of the machine.
pub fn reinterpret_words(bytes: &[u8]) -> (words: Vec<u16>)
    ensures
        are_native_words(words@, bytes@),
{
    collect_words(bytes)
}

/// Why the bytes of a palette file are no palette.
#[derive(Copy, Clone, PartialEq, Eq, Structural, Debug)]
pub enum PaletteFileError {
    /// The file is shorter than its header.
    MissingHeader,
    /// The file does not start with the letters `TPL`.
    WrongMagic,
    /// The header names a format other than 0 and 2.
    UnsupportedFormat,
}

impl PaletteFileError {
    pub open spec fn spec_message(self) -> Seq<char> {
        match self {
            PaletteFileError::MissingHeader => "Invalid TPL file: missing header"@,
            PaletteFileError::WrongMagic => "Invalid TPL file: wrong magic"@,
            PaletteFileError::UnsupportedFormat => "Invalid TPL file: unsupported format"@,
        }
    }

    /// The sentence that reports this error.
    pub fn message(self) -> (r: &'static str)
        ensures
            r@ == self.spec_message(),
    {
        match self {
            PaletteFileError::MissingHeader => "Invalid TPL file: missing header",
            PaletteFileError::WrongMagic => "Invalid TPL file: wrong magic",
            PaletteFileError::UnsupportedFormat => "Invalid TPL file: unsupported format",
        }
    }
}

/// Whether `contents` start with the letters `TPL`.
pub open spec fn has_tpl_magic(contents: Seq<u8>) -> bool {
    contents.len() >= 3 && contents[0] == 0x54 && contents[1] == 0x50 && contents[2] == 0x4C
}

/// Reads a palette file in the TPL format: four bytes of header, the letters
/// `TPL` and a format byte, then the colours, three bytes each in format 0 and
/// packed in format 2.
pub fn tpl_to_snes(contents: &[u8]) -> (r: Result<Vec<u16>, PaletteFileError>)
    requires
        contents@.len() >= 4 && has_tpl_magic(contents@) && contents@[3] == 2 ==> contents@.len() % 2
            == 0,
    ensures
        r == Err::<Vec<u16>, PaletteFileError>(PaletteFileError::MissingHeader) <==> contents@.len()
            < 4,
        r == Err::<Vec<u16>, PaletteFileError>(PaletteFileError::WrongMagic) <==> contents@.len()
            >= 4 && !has_tpl_magic(contents@),
        r == Err::<Vec<u16>, PaletteFileError>(PaletteFileError::UnsupportedFormat)
            <==> contents@.len() >= 4 && has_tpl_magic(contents@) && contents@[3] != 0
            && contents@[3] != 2,
        r matches Ok(words) ==> contents@[3] == 0 ==> is_packed_palette(words@, contents@.skip(4)),
        r matches Ok(words) ==> contents@[3] != 0 ==> are_native_words(words@, contents@.skip(4)),
{
    if contents.len() < 4 {
        return Err(PaletteFileError::MissingHeader);
    }
    if contents[0] != 0x54 || contents[1] != 0x50 || contents[2] != 0x4C {
        return Err(PaletteFileError::WrongMagic);
    }
    let entries: &[u8] = slice_subrange(contents, 4, contents.len());
    assert(entries@ =~= contents@.skip(4));
    if contents[3] == 0 {
        Ok(rgb_palette_to_snes(entries))
    } else if contents[3] == 2 {
        Ok(reinterpret_words(entries))
    } else {
        Err(PaletteFileError::UnsupportedFormat)
    }
}

} // verus!
