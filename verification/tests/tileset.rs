use smded::display::find_default_cre;
use smded::gfx::{Palette, Snes4BppTile, SnesColor};
use smded::smart_xml;
use smded::tilemap::{TilemapEntry, TiletableEntry};
use smded::tileset::{
    detect_sources_layout, load_from_smart, LoadedTilesetLayout, OverlaidLayout,
    OverlaidLayoutEntry, Tileset, TilesetKind, TilesetLoadError, TilesetRef,
};
use std::cmp::Ordering;

fn handle(idx: u32) -> TilesetRef {
    TilesetRef { idx, version: 1 }
}

fn tileset(
    kind: TilesetKind,
    index: Option<u8>,
    name: &str,
    idx: u32,
    n_tiles: usize,
    n_blocks: usize,
) -> Tileset {
    Tileset {
        handle: handle(idx),
        index,
        name: String::from(name),
        kind,
        palette: Palette(vec![SnesColor(0); 16]),
        gfx: vec![Snes4BppTile::from_bytes(&[0u8; 32]); n_tiles],
        tiletable: vec![TiletableEntry([TilemapEntry(0); 4]); n_blocks],
    }
}

fn raw(palette: Vec<u16>, gfx: Vec<u8>, tiletable: Vec<u16>) -> smart_xml::Tileset {
    smart_xml::Tileset { metadata: None, gfx, tiletable, palette }
}

#[test]
fn lookup_last_registered_wins() {
    let layout = OverlaidLayout {
        entries: vec![
            OverlaidLayoutEntry { base: 0, size: 10, tileset: 'A' },
            OverlaidLayoutEntry { base: 5, size: 10, tileset: 'B' },
        ],
    };
    assert_eq!(layout.lookup(7), Some(('B', 2)));
    assert_eq!(layout.lookup(4), Some(('A', 4)));
    assert_eq!(layout.lookup(5), Some(('B', 0)));
    assert_eq!(layout.lookup(0), Some(('A', 0)));
}

#[test]
fn lookup_admits_one_index_past_the_size() {
    let layout = OverlaidLayout {
        entries: vec![
            OverlaidLayoutEntry { base: 0, size: 10, tileset: 'A' },
            OverlaidLayoutEntry { base: 5, size: 10, tileset: 'B' },
        ],
    };
    assert_eq!(layout.lookup(15), Some(('B', 10)));
    assert_eq!(layout.lookup(16), None);
    let single = OverlaidLayout { entries: vec![OverlaidLayoutEntry { base: 3, size: 2, tileset: 'C' }] };
    assert_eq!(single.lookup(2), None);
    assert_eq!(single.lookup(3), Some(('C', 0)));
    assert_eq!(single.lookup(5), Some(('C', 2)));
    assert_eq!(single.lookup(6), None);
    let empty: OverlaidLayout<char> = OverlaidLayout::default();
    assert_eq!(empty.lookup(0), None);
}

#[test]
fn valid_range_spans_all_entries() {
    let layout = OverlaidLayout {
        entries: vec![
            OverlaidLayoutEntry { base: 0x280, size: 0x40, tileset: 'A' },
            OverlaidLayoutEntry { base: 0, size: 0x300, tileset: 'B' },
            OverlaidLayoutEntry { base: 0x10, size: 1, tileset: 'C' },
        ],
    };
    assert!(layout.spans_fit());
    assert_eq!(layout.valid_range(), Some((0, 0x300)));
    let single = OverlaidLayout { entries: vec![OverlaidLayoutEntry { base: 7, size: 5, tileset: 'A' }] };
    assert_eq!(single.valid_range(), Some((7, 12)));
    let empty: OverlaidLayout<char> = OverlaidLayout::default();
    assert_eq!(empty.valid_range(), None);
    let huge = OverlaidLayout {
        entries: vec![OverlaidLayoutEntry { base: usize::MAX, size: 1, tileset: 'A' }],
    };
    assert!(!huge.spans_fit());
}

#[test]
fn map_ref_keeps_bases_and_sizes() {
    let layout = OverlaidLayout {
        entries: vec![
            OverlaidLayoutEntry { base: 1, size: 2, tileset: 10u32 },
            OverlaidLayoutEntry { base: 3, size: 4, tileset: 20u32 },
        ],
    };
    let mapped = layout.map_ref(|x: u32| u64::from(x) + 1);
    assert_eq!(
        mapped,
        OverlaidLayout {
            entries: vec![
                OverlaidLayoutEntry { base: 1, size: 2, tileset: 11u64 },
                OverlaidLayoutEntry { base: 3, size: 4, tileset: 21u64 },
            ],
        }
    );
    let loaded = LoadedTilesetLayout {
        gfx: layout.clone(),
        tiletable: OverlaidLayout { entries: vec![] },
        palette_source: 30u32,
    };
    let mapped = loaded.map_refs(|x: u32| x * 2);
    assert_eq!(mapped.gfx.entries[1].tileset, 40);
    assert_eq!(mapped.gfx.entries[1].base, 3);
    assert!(mapped.tiletable.entries.is_empty());
    assert_eq!(mapped.palette_source, 60);
}

#[test]
fn detect_layout_of_area_tileset_alone() {
    let sce = tileset(TilesetKind::Sce, Some(0), "sce", 1, 3, 5);
    let layout = detect_sources_layout(&sce, None);
    assert_eq!(layout.gfx.entries.len(), 1);
    assert_eq!(layout.gfx.entries[0].base, 0);
    assert_eq!(layout.gfx.entries[0].size, 3);
    assert_eq!(layout.gfx.entries[0].tileset.handle(), handle(1));
    assert_eq!(layout.tiletable.entries.len(), 1);
    assert_eq!(layout.tiletable.entries[0].base, 0x100);
    assert_eq!(layout.tiletable.entries[0].size, 5);
    assert_eq!(layout.palette_source.handle(), handle(1));
}

#[test]
fn detect_layout_stacks_shared_tileset() {
    let sce = tileset(TilesetKind::Sce, Some(0), "sce", 1, 3, 0x300);
    let cre = tileset(TilesetKind::Cre, Some(0), "cre", 2, 7, 9);
    let layout = detect_sources_layout(&sce, Some(&cre));
    assert_eq!(layout.gfx.entries.len(), 2);
    assert_eq!(layout.gfx.entries[0].base, 0x280);
    assert_eq!(layout.gfx.entries[0].size, 7);
    assert_eq!(layout.gfx.entries[0].tileset.handle(), handle(2));
    assert_eq!(layout.gfx.entries[1].base, 0);
    assert_eq!(layout.gfx.entries[1].size, 3);
    assert_eq!(layout.gfx.entries[1].tileset.handle(), handle(1));
    assert_eq!(layout.tiletable.entries.len(), 2);
    assert_eq!(layout.tiletable.entries[0].base, 0);
    assert_eq!(layout.tiletable.entries[0].size, 9);
    assert_eq!(layout.tiletable.entries[0].tileset.handle(), handle(2));
    assert_eq!(layout.tiletable.entries[1].base, 0x100);
    assert_eq!(layout.tiletable.entries[1].size, 0x300);
    assert_eq!(layout.palette_source.handle(), handle(1));
    // the area-specific graphics win where both cover an index
    assert_eq!(layout.gfx.lookup(2).map(|(t, o)| (t.handle(), o)), Some((handle(1), 2)));
    assert_eq!(layout.gfx.lookup(0x281).map(|(t, o)| (t.handle(), o)), Some((handle(2), 1)));
}

#[test]
fn detect_layout_of_extended_block_table() {
    let sce = tileset(TilesetKind::Sce, Some(0), "sce", 1, 3, 0x301);
    let cre = tileset(TilesetKind::Cre, Some(0), "cre", 2, 7, 9);
    let layout = detect_sources_layout(&sce, Some(&cre));
    assert_eq!(layout.gfx.entries.len(), 2);
    assert_eq!(layout.tiletable.entries.len(), 1);
    assert_eq!(layout.tiletable.entries[0].base, 0);
    assert_eq!(layout.tiletable.entries[0].size, 0x301);
    assert_eq!(layout.tiletable.entries[0].tileset.handle(), handle(1));
    let alone = detect_sources_layout(&sce, None);
    assert_eq!(alone.tiletable.entries.len(), 1);
    assert_eq!(alone.tiletable.entries[0].base, 0);
}

#[test]
fn load_checks_palette_then_graphics_then_blocks() {
    let mut long_palette = vec![1u16; 128];
    long_palette.push(0);
    long_palette.push(3);
    let r = load_from_smart(TilesetKind::Sce, 1, raw(long_palette, vec![0; 31], vec![0; 3]), handle(1));
    assert!(matches!(r, Err(TilesetLoadError::PaletteTooLong)));
    // a palette that is not empty must have all 128 colours
    let r = load_from_smart(TilesetKind::Sce, 1, raw(vec![1u16; 16], vec![], vec![]), handle(1));
    assert!(matches!(r, Err(TilesetLoadError::PaletteTooLong)));
    let r = load_from_smart(TilesetKind::Sce, 1, raw(vec![1u16; 128], vec![0; 31], vec![0; 3]), handle(1));
    assert!(matches!(r, Err(TilesetLoadError::UnevenGfx)));
    let r = load_from_smart(TilesetKind::Sce, 1, raw(vec![], vec![0; 64], vec![0; 3]), handle(1));
    assert!(matches!(r, Err(TilesetLoadError::TruncatedTiletable)));
}

#[test]
fn load_makes_tiles_and_blocks() {
    let mut palette = vec![0u16; 130];
    palette[0] = 31;
    palette[127] = 5;
    let gfx: Vec<u8> = (0..64).collect();
    let tiletable: Vec<u16> = (100..108).collect();
    let source = smart_xml::Tileset {
        metadata: Some(smart_xml::TilesetMetadata { name: String::from("Crateria") }),
        gfx,
        tiletable,
        palette,
    };
    let t = match load_from_smart(TilesetKind::Cre, 0x1A, source, handle(9)) {
        Ok(t) => t,
        Err(e) => panic!("{}", e.message(0x1A)),
    };
    assert_eq!(t.handle(), handle(9));
    assert_eq!(t.index(), Some(0x1A));
    assert_eq!(t.kind, TilesetKind::Cre);
    assert_eq!(t.name, "Crateria");
    assert_eq!(t.palette.len(), 128);
    assert_eq!(t.palette.0[0].0, 31);
    assert_eq!(t.palette.0[127].0, 5);
    assert_eq!(t.gfx.len(), 2);
    assert_eq!(t.gfx[1].0[0], 32);
    assert_eq!(t.gfx[1].0[31], 63);
    assert_eq!(t.tiletable.len(), 2);
    assert_eq!(t.tiletable[0].0[3].0, 103);
    assert_eq!(t.tiletable[1].0[0].0, 104);
    assert_eq!(t.title(), "[1A] Crateria");
}

#[test]
fn load_names_a_tileset_without_metadata() {
    let t = load_from_smart(TilesetKind::Sce, 3, raw(vec![], vec![], vec![]), handle(1));
    let t = match t {
        Ok(t) => t,
        Err(_) => panic!("an empty tileset is a tileset"),
    };
    assert_eq!(t.name, "Unnamed Tileset");
    assert!(t.palette.is_empty());
    assert_eq!(t.title(), "[03] Unnamed Tileset");
}

#[test]
fn load_error_messages() {
    assert_eq!(
        TilesetLoadError::PaletteTooLong.message(0x0B),
        "Tileset 0B palette has too many (non-blank) lines"
    );
    assert_eq!(
        TilesetLoadError::UnevenGfx.message(0xFF),
        "Tileset FF gfx not evenly divisible as tiles"
    );
    assert_eq!(
        TilesetLoadError::TruncatedTiletable.message(0),
        "Tileset 00 tiletable has truncated trailing entry"
    );
}

#[test]
fn title_of_a_tileset_without_index() {
    let t = tileset(TilesetKind::Sce, None, "Loose", 1, 0, 0);
    assert_eq!(t.title(), "[??] Loose");
}

#[test]
fn handle_packs_into_one_word() {
    let h = TilesetRef { idx: 7, version: 3 };
    assert_eq!(h.as_ffi(), 3 << 32 | 7);
    assert_eq!(TilesetRef::from_ffi(h.as_ffi()), h);
    // an even version is read as the odd one above it
    assert_eq!(TilesetRef::from_ffi(2 << 32 | 5), TilesetRef { idx: 5, version: 3 });
}

#[test]
fn display_order_goes_by_kind_index_name_handle() {
    let a = tileset(TilesetKind::Sce, Some(9), "zz", 9, 0, 0);
    let b = tileset(TilesetKind::Cre, Some(0), "aa", 0, 0, 0);
    assert_eq!(a.display_cmp(&b), Ordering::Less);
    assert_eq!(b.display_cmp(&a), Ordering::Greater);

    let none = tileset(TilesetKind::Sce, None, "zz", 9, 0, 0);
    let zero = tileset(TilesetKind::Sce, Some(0), "aa", 0, 0, 0);
    assert_eq!(none.display_cmp(&zero), Ordering::Less);
    let one = tileset(TilesetKind::Sce, Some(1), "aa", 0, 0, 0);
    assert_eq!(one.display_cmp(&zero), Ordering::Greater);

    let ab = tileset(TilesetKind::Sce, Some(1), "ab", 5, 0, 0);
    let abc = tileset(TilesetKind::Sce, Some(1), "abc", 1, 0, 0);
    let b = tileset(TilesetKind::Sce, Some(1), "b", 0, 0, 0);
    assert_eq!(ab.display_cmp(&abc), Ordering::Less);
    assert_eq!(abc.display_cmp(&b), Ordering::Less);
    assert_eq!(b.display_cmp(&ab), Ordering::Greater);

    let low = tileset(TilesetKind::Sce, Some(1), "ab", 4, 0, 0);
    assert_eq!(low.display_cmp(&ab), Ordering::Less);
    let mut newer = tileset(TilesetKind::Sce, Some(1), "ab", 5, 0, 0);
    newer.handle.version = 3;
    assert_eq!(newer.display_cmp(&ab), Ordering::Greater);
    assert_eq!(ab.display_cmp(&ab), Ordering::Equal);
}

#[test]
fn default_cre_is_the_first_shared_tileset_in_display_order() {
    let sce = tileset(TilesetKind::Sce, Some(0), "a", 1, 0, 0);
    let cre2 = tileset(TilesetKind::Cre, Some(2), "a", 2, 0, 0);
    let cre0 = tileset(TilesetKind::Cre, Some(0), "b", 3, 0, 0);
    let cre0_again = tileset(TilesetKind::Cre, Some(0), "b", 4, 0, 0);
    let all = vec![&sce, &cre2, &cre0_again, &cre0];
    assert_eq!(find_default_cre(None, &all), Some(3));
    // the tileset that was used last is offered first, whatever its kind
    assert_eq!(find_default_cre(Some(handle(2)), &all), Some(1));
    assert_eq!(find_default_cre(Some(handle(1)), &all), Some(0));
    // a handle that no tileset has is passed over
    assert_eq!(find_default_cre(Some(handle(77)), &all), Some(3));
    assert_eq!(find_default_cre(None, &vec![&sce]), None);
    assert_eq!(find_default_cre(None, &Vec::new()), None);
}
