//! The windows that edit one thing of a project each, and the rule by which a
//! window is opened once.

use crate::room::{Room, RoomRef};
use crate::text::{key_text, push_key};
use crate::tileset::{Tileset, TilesetRef};
use vstd::prelude::*;
use vstd::string::StringExecFns;

verus! {

/// The window that edits a room.
pub struct RoomEditor {
    pub room: RoomRef,
}

impl RoomEditor {
    pub fn new(room: RoomRef) -> (r: Self)
        ensures
            r.room == room,
    {
        Self { room }
    }

    /// The title of the window: the name of the room, or its handle in angle
    /// brackets where the project has no such room any more.
    pub open spec fn spec_title(&self, room: Option<&Room>) -> Seq<char> {
        "Room: "@ + match room {
            Some(room) => room.name@,
            None => seq!['<'] + key_text("RoomRef"@, self.room.idx, self.room.version) + seq!['>'],
        }
    }

    pub fn title(&self, room: Option<&Room>) -> (r: String)
        ensures
            r@ == self.spec_title(room),
    {
        proof {
            reveal_strlit("<");
            reveal_strlit(">");
        }
        let mut s: String = String::from_str("Room: ");
        match room {
            Some(room) => {
                s.append(room.name.as_str());
            },
            None => {
                s.append("<");
                push_key(&mut s, "RoomRef", self.room.idx, self.room.version);
                s.append(">");
                assert(s@ =~= self.spec_title(room));
            },
        }
        s
    }
}

/// The window that edits a tileset.
pub struct TilesetEditor {
    /// Main tileset being edited. Used for things like the title.
    pub tileset: TilesetRef,
    /// The shared tileset that is edited together with `tileset`.
    pub cre_tileset: Option<TilesetRef>,
    /// The palette line that graphics are shown in.
    pub pal_line: usize,
}

impl TilesetEditor {
    /// The window for `tileset`, with the shared tileset that is offered first
    /// and palette line 0.
    pub fn new(tileset: TilesetRef, default_cre: Option<TilesetRef>) -> (r: Self)
        ensures
            r.tileset == tileset,
            r.cre_tileset == default_cre,
            r.pal_line == 0,
    {
        Self { tileset, cre_tileset: default_cre, pal_line: 0 }
    }

    /// The title of the window: the title of the tileset, or a note where the
    /// project has no such tileset any more.
    pub open spec fn spec_title(tileset: Option<&Tileset>) -> Seq<char> {
        "Tileset: "@ + match tileset {
            Some(t) => t.spec_title(),
            None => "<UNKNOWN>"@,
        }
    }

    pub fn title(&self, tileset: Option<&Tileset>) -> (r: String)
        ensures
            r@ == Self::spec_title(tileset),
    {
        let mut s: String = String::from_str("Tileset: ");
        match tileset {
            Some(t) => {
                let title: String = t.title();
                s.append(title.as_str());
            },
            None => {
                s.append("<UNKNOWN>");
            },
        }
        s
    }
}

/// A window of one of the kinds that there are.
pub enum EditorWindow {
    Room(RoomEditor),
    Tileset(TilesetEditor),
}

impl EditorWindow {
    /// Whether two windows edit the same thing.
    pub open spec fn same_subject(&self, other: &EditorWindow) -> bool {
        match (*self, *other) {
            (EditorWindow::Room(a), EditorWindow::Room(b)) => a.room == b.room,
            (EditorWindow::Tileset(a), EditorWindow::Tileset(b)) => a.tileset == b.tileset,
            _ => false,
        }
    }

    pub fn edits_same(&self, other: &EditorWindow) -> (r: bool)
        ensures
            r == self.same_subject(other),
    {
        match self {
            EditorWindow::Room(a) => match other {
                EditorWindow::Room(b) => a.room == b.room,
                EditorWindow::Tileset(_) => false,
            },
            EditorWindow::Tileset(a) => match other {
                EditorWindow::Room(_) => false,
                EditorWindow::Tileset(b) => a.tileset == b.tileset,
            },
        }
    }
}

/// Opens `editor` among the windows that are open. Where a window edits the
/// same thing already, nothing is added and the position of the first such
/// window is returned, for it to be brought to the front; else `editor` is
/// added at the end.
pub fn open_editor(open_editors: &mut Vec<EditorWindow>, editor: EditorWindow) -> (existing: Option<
    usize,
>)
    ensures
        match existing {
            Some(i) => {
                &&& i < old(open_editors)@.len()
                &&& old(open_editors)@[i as int].same_subject(&editor)
                &&& forall|j: int| 0 <= j < i ==> !(#[trigger] old(open_editors)@[j]).same_subject(&editor)
                &&& final(open_editors)@ == old(open_editors)@
            },
            None => {
                &&& forall|j: int|
                    0 <= j < old(open_editors)@.len() ==> !(#[trigger] old(open_editors)@[j]).same_subject(
                        &editor,
                    )
                &&& final(open_editors)@ == old(open_editors)@.push(editor)
            },
        },
{
    let mut n: usize = 0;
    while n < open_editors.len()
        invariant
            n <= open_editors@.len(),
            open_editors@ == old(open_editors)@,
            forall|j: int| 0 <= j < n ==> !(#[trigger] open_editors@[j]).same_subject(&editor),
        decreases open_editors@.len() - n,
    {
        if open_editors[n].edits_same(&editor) {
            return Some(n);
        }
        n += 1;
    }
    open_editors.push(editor);
    None
}

} // verus!
