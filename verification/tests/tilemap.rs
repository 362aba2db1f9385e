use smded::tilemap::{LevelDataEntry, TilemapEntry};

#[test]
fn tilemap_entry_fields() {
    let all = TilemapEntry(0xFFFF);
    assert_eq!(all.tile_id(), 1023);
    assert_eq!(all.palette(), 7);
    assert!(all.priority());
    assert!(all.h_flip());
    assert!(all.v_flip());

    let e = TilemapEntry(0x4C13);
    assert_eq!(e.tile_id(), 0x13);
    assert_eq!(e.palette(), 3);
    assert!(!e.priority());
    assert!(e.h_flip());
    assert!(!e.v_flip());
    assert_eq!(TilemapEntry::H_FLIP_FLAG, 1 << 14);
    assert_eq!(TilemapEntry::V_FLIP_FLAG, 1 << 15);
}

#[test]
fn tile_id_above_ten_bits_is_cut() {
    assert_eq!(TilemapEntry::for_tile(5).0, 5);
    assert_eq!(TilemapEntry::for_tile(1023).0, 1023);
    assert_eq!(TilemapEntry::for_tile(1024).0, 0);
    assert_eq!(TilemapEntry::for_tile(1025).0, 1);
    assert_eq!(TilemapEntry::for_tile(usize::MAX).0, 1023);
}

#[test]
fn with_palette_replaces_the_line_only() {
    let e = TilemapEntry(0xFFFF).with_palette(0);
    assert_eq!(e.0, 0xE3FF);
    let e = TilemapEntry::for_tile(19).with_palette(3);
    assert_eq!(e.0, 19 | 3 << 10);
    assert_eq!(e.with_palette(7).palette(), 7);
    assert_eq!(e.with_palette(7).tile_id(), 19);
}

#[test]
fn flipped_inverts_the_flags() {
    let e = TilemapEntry(0x4002);
    assert_eq!(e.flipped(true, false).0, 0x0002);
    assert_eq!(e.flipped(false, true).0, 0xC002);
    assert_eq!(e.flipped(true, true).0, 0x8002);
    assert_eq!(e.flipped(false, false).0, 0x4002);
}

#[test]
fn level_data_entry_fields() {
    let e = LevelDataEntry(0x1C05);
    assert_eq!(e.block_id(), 5);
    assert!(e.h_flip());
    assert!(e.v_flip());
    assert_eq!(e.block_type(), 1);

    let e = LevelDataEntry(0xF3FF);
    assert_eq!(e.block_id(), 1023);
    assert!(!e.h_flip());
    assert!(e.v_flip());
    assert_eq!(e.block_type(), 15);
}

#[test]
fn block_id_above_ten_bits_is_cut() {
    assert_eq!(LevelDataEntry::for_tile(1023).0, 1023);
    assert_eq!(LevelDataEntry::for_tile(1024).0, 0);
    assert_eq!(LevelDataEntry::for_tile(0xFFFF).0, 1023);
}

#[test]
fn with_flips_sets_both_flags() {
    let e = LevelDataEntry::for_tile(7);
    assert_eq!(e.with_flips(true, false).0, 7 | 0x0800);
    assert_eq!(e.with_flips(false, true).0, 7 | 0x1000);
    assert_eq!(e.with_flips(true, true).with_flips(false, false).0, 7);
}
