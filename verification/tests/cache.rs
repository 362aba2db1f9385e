use smded::cache::{TileCacheKey, TileTextureCache, MAX_AGE};
use smded::tileset::{LoadedTilesetLayout, OverlaidLayout, OverlaidLayoutEntry, TilesetRef};

fn slot(idx: u32, version: u32) -> TilesetRef {
    TilesetRef { idx, version }
}

fn gfx_key(line: u8) -> TileCacheKey {
    TileCacheKey::LoadedGfxLayout {
        gfx_layout: OverlaidLayout {
            entries: vec![
                OverlaidLayoutEntry { base: 0x280, size: 64, tileset: slot(1, 1) },
                OverlaidLayoutEntry { base: 0, size: 640, tileset: slot(2, 3) },
            ],
        },
        palette_source: slot(2, 3),
        palette_line: line,
    }
}

fn ttb_key() -> TileCacheKey {
    TileCacheKey::LoadedTilesetLayout {
        layout: LoadedTilesetLayout {
            gfx: OverlaidLayout { entries: Vec::new() },
            tiletable: OverlaidLayout {
                entries: vec![OverlaidLayoutEntry { base: 0x100, size: 9, tileset: slot(u32::MAX, 1) }],
            },
            palette_source: slot(2, 3),
        },
    }
}

#[test]
fn same_key_is_computed_once() {
    let mut cache: TileTextureCache<u32> = TileTextureCache::new();
    let mut calls = 0;
    let first = *cache.get_or_insert_with(gfx_key(1), |_| {
        calls += 1;
        7
    });
    let second = *cache.get_or_insert_with(gfx_key(1), |_| {
        calls += 1;
        8
    });
    assert_eq!(first, 7);
    assert_eq!(second, 7);
    assert_eq!(calls, 1);
    assert_eq!(cache.len(), 1);
}

#[test]
fn different_keys_are_computed_each() {
    let mut cache: TileTextureCache<String> = TileTextureCache::default();
    let a = cache.get_or_insert_with(gfx_key(1), |k| k.texture_name()).clone();
    let b = cache.get_or_insert_with(gfx_key(2), |k| k.texture_name()).clone();
    let c = cache.get_or_insert_with(ttb_key(), |k| k.texture_name()).clone();
    assert_eq!(a, "layout-0x280[TilesetRef(1v1)]-0x0[TilesetRef(2v3)]-pal1[TilesetRef(2v3)]");
    assert_eq!(b, "layout-0x280[TilesetRef(1v1)]-0x0[TilesetRef(2v3)]-pal2[TilesetRef(2v3)]");
    assert_eq!(c, "layout-0x100[TilesetRef(null)]-ttb");
    assert_eq!(cache.len(), 3);
}

#[test]
fn keys_are_the_same_when_everything_in_them_agrees() {
    assert!(gfx_key(1).same(&gfx_key(1)));
    assert!(!gfx_key(1).same(&gfx_key(2)));
    assert!(!gfx_key(1).same(&ttb_key()));
    assert!(ttb_key().same(&ttb_key()));
    let mut other = gfx_key(1);
    if let TileCacheKey::LoadedGfxLayout { gfx_layout, .. } = &mut other {
        gfx_layout.entries[1].size = 641;
    }
    assert!(!gfx_key(1).same(&other));
    let mut other = gfx_key(1);
    if let TileCacheKey::LoadedGfxLayout { gfx_layout, .. } = &mut other {
        gfx_layout.entries[0].tileset.version = 3;
    }
    assert!(!gfx_key(1).same(&other));
    let mut other = gfx_key(1);
    if let TileCacheKey::LoadedGfxLayout { gfx_layout, .. } = &mut other {
        gfx_layout.entries.pop();
    }
    assert!(!gfx_key(1).same(&other));
}

#[test]
fn texture_name_writes_numbers_in_hexadecimal() {
    assert_eq!(
        gfx_key(0xAB).texture_name(),
        "layout-0x280[TilesetRef(1v1)]-0x0[TilesetRef(2v3)]-palAB[TilesetRef(2v3)]"
    );
    let empty = TileCacheKey::LoadedGfxLayout {
        gfx_layout: OverlaidLayout { entries: Vec::new() },
        palette_source: slot(0, 4_000_000_001),
        palette_line: 0,
    };
    assert_eq!(empty.texture_name(), "layout-pal0[TilesetRef(0v4000000001)]");
}

#[test]
fn entry_is_gone_after_sixteen_passes_without_use() {
    let mut cache: TileTextureCache<u32> = TileTextureCache::new();
    cache.get_or_insert_with(gfx_key(1), |_| 7);
    for _ in 0..15 {
        cache.update();
    }
    assert_eq!(cache.len(), 1);
    cache.update();
    assert_eq!(cache.len(), 0);
    assert_eq!(cache.get(&gfx_key(1)), None);
}

#[test]
fn entry_stays_while_it_is_used() {
    assert_eq!(MAX_AGE, 15);
    let mut cache: TileTextureCache<u32> = TileTextureCache::new();
    cache.get_or_insert_with(gfx_key(1), |_| 7);
    cache.get_or_insert_with(gfx_key(2), |_| 8);
    for _ in 0..40 {
        for _ in 0..15 {
            cache.update();
        }
        assert_eq!(cache.get(&gfx_key(1)), Some(&7));
    }
    assert_eq!(cache.len(), 1);
    assert_eq!(cache.get(&gfx_key(2)), None);
    let mut calls = 0;
    let again = *cache.get_or_insert_with(gfx_key(2), |_| {
        calls += 1;
        9
    });
    assert_eq!(again, 9);
    assert_eq!(calls, 1);
}

#[test]
fn insert_keeps_the_result_that_is_there() {
    let mut cache: TileTextureCache<u32> = TileTextureCache::new();
    assert_eq!(*cache.insert(gfx_key(1), 7), 7);
    assert_eq!(*cache.insert(gfx_key(1), 8), 7);
    assert_eq!(cache.len(), 1);
    // inserting counts as a use
    for _ in 0..15 {
        cache.update();
    }
    assert_eq!(*cache.insert(gfx_key(1), 9), 7);
    for _ in 0..15 {
        cache.update();
    }
    assert_eq!(cache.get(&gfx_key(1)), Some(&7));
}

#[test]
fn invalidate_drops_one_entry() {
    let mut cache: TileTextureCache<u32> = TileTextureCache::new();
    cache.insert(gfx_key(1), 7);
    cache.insert(gfx_key(2), 8);
    cache.insert(ttb_key(), 9);
    cache.invalidate(&gfx_key(2));
    assert_eq!(cache.len(), 2);
    assert_eq!(cache.get(&gfx_key(2)), None);
    assert_eq!(cache.get(&gfx_key(1)), Some(&7));
    assert_eq!(cache.get(&ttb_key()), Some(&9));
    cache.invalidate(&gfx_key(2));
    assert_eq!(cache.len(), 2);
}
