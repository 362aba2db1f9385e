//! Rooms of a project.

use crate::smart_xml;
use crate::text::{hex_text, push_hex, zero_padded};
use heck::ToTitleCase;
use vstd::prelude::*;
use vstd::string::StringExecFns;

verus! {

/// The stable handle of a room in the project's registry: a slot index and the
/// version of that slot.
#[derive(Copy, Clone, Ord, PartialOrd, Eq, PartialEq, Structural, Hash, Debug)]
pub struct RoomRef {
    pub idx: u32,
    pub version: u32,
}

impl RoomRef {
    /// The handle packed into one word: the version in the high half, the slot
    /// index in the low half.
    pub open spec fn spec_as_ffi(self) -> u64 {
        ((self.version as u64) << 32) | (self.idx as u64)
    }

    /// The handle that a packed word stands for. The version of a handle is
    /// always odd, so bit 32 of the word is read as set.
    pub open spec fn spec_from_ffi(value: u64) -> RoomRef {
        RoomRef { idx: (value & 0xffff_ffff) as u32, version: ((value >> 32) | 1) as u32 }
    }

    pub fn as_ffi(self) -> (r: u64)
        ensures
            r == self.spec_as_ffi(),
    {
        ((self.version as u64) << 32) | (self.idx as u64)
    }

    pub fn from_ffi(value: u64) -> (r: Self)
        ensures
            r == Self::spec_from_ffi(value),
    {
        let low: u64 = value & 0xffff_ffff;
        let high: u64 = (value >> 32) | 1;
        assert(low <= 0xffff_ffff && high <= 0xffff_ffff) by (bit_vector)
            requires
                low == value & 0xffff_ffff,
                high == (value >> 32) | 1,
        ;
        RoomRef { idx: low as u32, version: high as u32 }
    }
}

/// The area of a room and its index in the area.
pub type RoomIndex = (u8, u8);

pub struct Room {
    pub handle: RoomRef,
    pub index: Option<RoomIndex>,
    pub name: String,
}

/// A name in title case: its words, each with a capital first letter and the
/// rest in lower case, with one space between them.
pub uninterp spec fn title_case(name: Seq<char>) -> Seq<char>;

/// Calls `heck::ToTitleCase::to_title_case` on a string slice. The crate
/// computes the result from the characters of the text alone.
#[verifier::external_body]
fn to_title_case(name: &str) -> (r: String)
    ensures
        r@ == title_case(name@),
{
    name.to_title_case()
}

/// The title of a room with the index `index` whose name is written
/// `print_name`: area and room as two hexadecimal digits each in square
/// brackets, or question marks where the room has no index, then the name.
pub open spec fn title_text(index: Option<RoomIndex>, print_name: Seq<char>) -> Seq<char> {
    match index {
        Some((area, room)) => seq!['['] + zero_padded(hex_text(area as nat), 2) + seq![',']
            + zero_padded(hex_text(room as nat), 2) + seq![']', ' '] + print_name,
        None => seq!['[', '?', '?', ',', '?', '?', ']', ' '] + print_name,
    }
}

/// Writes the title of a room out of its index and its name as it is to be
/// printed.
pub fn format_title(index: Option<RoomIndex>, print_name: &str) -> (r: String)
    ensures
        r@ == title_text(index, print_name@),
{
    proof {
        reveal_strlit("[");
        reveal_strlit(",");
        reveal_strlit("] ");
        reveal_strlit("[??,??] ");
    }
    match index {
        Some((area, room)) => {
            let mut s: String = String::from_str("[");
            push_hex(&mut s, area as u64, 2);
            s.append(",");
            push_hex(&mut s, room as u64, 2);
            s.append("] ");
            s.append(print_name);
            assert(s@ =~= title_text(index, print_name@));
            s
        },
        None => {
            let mut s: String = String::from_str("[??,??] ");
            s.append(print_name);
            assert(s@ =~= title_text(index, print_name@));
            s
        },
    }
}

impl Room {
    pub fn handle(&self) -> (r: RoomRef)
        ensures
            r == self.handle,
    {
        self.handle
    }

    pub fn index(&self) -> (r: Option<RoomIndex>)
        ensures
            r == self.index,
    {
        self.index
    }

    /// The title of the room: its index, then its name in title case.
    pub fn title(&self) -> (r: String)
        ensures
            r@ == title_text(self.index, title_case(self.name@)),
    {
        let print_name: String = to_title_case(self.name.as_str());
        format_title(self.index, print_name.as_str())
    }
}

/// Makes the room of the raw contents of a room file. Nothing in them is
/// checked so far, so this does not fail.
pub fn load_from_smart(
    index: RoomIndex,
    room_name: String,
    _room: smart_xml::Room,
    handle: RoomRef,
) -> (r: Result<Room, ()>)
    ensures
        r matches Ok(room) && room.handle == handle && room.index == Some(index) && room.name
            == room_name,
{
    Ok(Room { handle, index: Some(index), name: room_name })
}

} // verus!
