use smded::editor::{open_editor, EditorWindow, RoomEditor, TilesetEditor};
use smded::gfx::Palette;
use smded::room::{Room, RoomRef};
use smded::tileset::{Tileset, TilesetKind, TilesetRef};

fn room_window(idx: u32) -> EditorWindow {
    EditorWindow::Room(RoomEditor::new(RoomRef { idx, version: 1 }))
}

fn tileset_window(idx: u32) -> EditorWindow {
    EditorWindow::Tileset(TilesetEditor::new(TilesetRef { idx, version: 1 }, None))
}

#[test]
fn room_editor_title() {
    let editor = RoomEditor::new(RoomRef { idx: 3, version: 5 });
    let room = Room { handle: editor.room, index: Some((0, 1)), name: String::from("parlor") };
    assert_eq!(editor.title(Some(&room)), "Room: parlor");
    assert_eq!(editor.title(None), "Room: <RoomRef(3v5)>");
}

#[test]
fn tileset_editor_title() {
    let handle = TilesetRef { idx: 1, version: 1 };
    let editor = TilesetEditor::new(handle, Some(TilesetRef { idx: 2, version: 1 }));
    assert_eq!(editor.tileset, handle);
    assert_eq!(editor.cre_tileset, Some(TilesetRef { idx: 2, version: 1 }));
    assert_eq!(editor.pal_line, 0);
    let tileset = Tileset {
        handle,
        index: Some(0x0C),
        name: String::from("Brinstar"),
        kind: TilesetKind::Sce,
        palette: Palette(Vec::new()),
        gfx: Vec::new(),
        tiletable: Vec::new(),
    };
    assert_eq!(editor.title(Some(&tileset)), "Tileset: [0C] Brinstar");
    assert_eq!(editor.title(None), "Tileset: <UNKNOWN>");
}

#[test]
fn a_window_is_opened_once() {
    let mut open = Vec::new();
    assert_eq!(open_editor(&mut open, room_window(1)), None);
    assert_eq!(open_editor(&mut open, tileset_window(1)), None);
    assert_eq!(open_editor(&mut open, room_window(2)), None);
    assert_eq!(open.len(), 3);
    assert_eq!(open_editor(&mut open, tileset_window(1)), Some(1));
    assert_eq!(open_editor(&mut open, room_window(2)), Some(2));
    assert_eq!(open.len(), 3);
    assert!(room_window(1).edits_same(&room_window(1)));
    assert!(!room_window(1).edits_same(&tileset_window(1)));
    assert!(!tileset_window(1).edits_same(&tileset_window(2)));
}
