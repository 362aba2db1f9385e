use smded::hex_types::{HexU16, HexU24, HexU8};
use smded::smart_xml::{
    reinterpret_words, rgb_loses_precision, rgb_palette_to_snes, rgb_to_snes,
    split_xml_whitespace_u16, split_xml_whitespace_u8, tpl_to_snes, DataOrAddress,
    PaletteFileError, StateCondition,
};
use std::num::IntErrorKind;

#[test]
fn rgb_packs_into_fifteen_bits() {
    assert_eq!(rgb_to_snes([255, 0, 0]), 31);
    assert_eq!(rgb_to_snes([0, 255, 0]), 31 << 5);
    assert_eq!(rgb_to_snes([0, 0, 255]), 31 << 10);
    assert_eq!(rgb_to_snes([8, 16, 24]), 1 | 2 << 5 | 3 << 10);
    // the three low bits of each channel are dropped
    assert_eq!(rgb_to_snes([15, 23, 31]), 1 | 2 << 5 | 3 << 10);
    assert_eq!(rgb_to_snes([255, 255, 255]), 0x7FFF);
}

#[test]
fn rgb_precision_loss_is_noticed() {
    assert!(!rgb_loses_precision([8, 16, 248]));
    assert!(!rgb_loses_precision([0, 0, 0]));
    assert!(rgb_loses_precision([9, 16, 24]));
    assert!(rgb_loses_precision([8, 20, 24]));
    assert!(rgb_loses_precision([8, 16, 255]));
}

#[test]
fn rgb_palette_drops_an_unfinished_colour() {
    assert_eq!(rgb_palette_to_snes(&[255, 0, 0, 0, 255, 0, 1, 2]), vec![31, 31 << 5]);
    assert_eq!(rgb_palette_to_snes(&[1, 2]), Vec::<u16>::new());
    assert_eq!(rgb_palette_to_snes(&[]), Vec::<u16>::new());
}

#[test]
fn bytes_are_read_as_words_in_machine_order() {
    assert_eq!(
        reinterpret_words(&[0x34, 0x12, 0xCD, 0xAB]),
        vec![u16::from_ne_bytes([0x34, 0x12]), u16::from_ne_bytes([0xCD, 0xAB])]
    );
    // a last byte without a partner is read with a zero byte after it
    assert_eq!(
        reinterpret_words(&[0x34, 0x12, 0x56]),
        vec![u16::from_ne_bytes([0x34, 0x12]), u16::from_ne_bytes([0x56, 0])]
    );
    assert_eq!(reinterpret_words(&[]), Vec::<u16>::new());
}

#[test]
fn tpl_palette_in_rgb_format() {
    let file = [b'T', b'P', b'L', 0, 255, 0, 0, 0, 255, 0, 7];
    assert_eq!(tpl_to_snes(&file), Ok(vec![31, 31 << 5]));
    assert_eq!(tpl_to_snes(&[b'T', b'P', b'L', 0]), Ok(Vec::new()));
}

#[test]
fn tpl_palette_in_packed_format() {
    let file = [b'T', b'P', b'L', 2, 0x1F, 0x00, 0xE0, 0x03];
    assert_eq!(
        tpl_to_snes(&file),
        Ok(vec![u16::from_ne_bytes([0x1F, 0x00]), u16::from_ne_bytes([0xE0, 0x03])])
    );
}

#[test]
fn tpl_palette_errors() {
    assert_eq!(tpl_to_snes(&[]), Err(PaletteFileError::MissingHeader));
    assert_eq!(tpl_to_snes(&[b'T', b'P', b'L']), Err(PaletteFileError::MissingHeader));
    assert_eq!(tpl_to_snes(&[b'T', b'P', b'X', 0, 1, 2, 3]), Err(PaletteFileError::WrongMagic));
    assert_eq!(tpl_to_snes(&[b't', b'p', b'l', 2]), Err(PaletteFileError::WrongMagic));
    assert_eq!(tpl_to_snes(&[b'T', b'P', b'L', 1, 1, 2, 3]), Err(PaletteFileError::UnsupportedFormat));
    assert_eq!(tpl_to_snes(&[b'T', b'P', b'L', 3]), Err(PaletteFileError::UnsupportedFormat));
    assert_eq!(PaletteFileError::MissingHeader.message(), "Invalid TPL file: missing header");
    assert_eq!(PaletteFileError::WrongMagic.message(), "Invalid TPL file: wrong magic");
    assert_eq!(
        PaletteFileError::UnsupportedFormat.message(),
        "Invalid TPL file: unsupported format"
    );
}

#[test]
fn lists_are_split_at_whitespace() {
    assert_eq!(
        split_xml_whitespace_u8("01  02\n\t$FF \r\n a"),
        Ok(vec![HexU8(1), HexU8(2), HexU8(0xFF), HexU8(0x0A)])
    );
    assert_eq!(split_xml_whitespace_u8(""), Ok(Vec::new()));
    assert_eq!(split_xml_whitespace_u8("  \n "), Ok(Vec::new()));
    assert_eq!(
        split_xml_whitespace_u16(" 1234 $ABCD 0 "),
        Ok(vec![HexU16(0x1234), HexU16(0xABCD), HexU16(0)])
    );
}

#[test]
fn lists_with_a_bad_word_are_refused() {
    let e = split_xml_whitespace_u8("01 XY 03");
    assert_eq!(e.map_err(|e| e.kind().clone()), Err(IntErrorKind::InvalidDigit));
    let e = split_xml_whitespace_u8("01 100");
    assert_eq!(e.map_err(|e| e.kind().clone()), Err(IntErrorKind::PosOverflow));
    let e = split_xml_whitespace_u16("FFFF 10000");
    assert_eq!(e.map_err(|e| e.kind().clone()), Err(IntErrorKind::PosOverflow));
    let e = split_xml_whitespace_u16("$");
    assert_eq!(e.map_err(|e| e.kind().clone()), Err(IntErrorKind::Empty));
}

#[test]
fn source_is_an_address_or_data() {
    match DataOrAddress::from_text("$7E2000") {
        Ok(DataOrAddress::Address(a)) => assert_eq!(a, HexU24(0x7E2000)),
        other => panic!("{:?}", other),
    }
    // one word alone is read as an address
    match DataOrAddress::from_text("0001") {
        Ok(DataOrAddress::Address(a)) => assert_eq!(a, HexU24(1)),
        other => panic!("{:?}", other),
    }
    match DataOrAddress::from_text("0001 0002\n$FFFF") {
        Ok(DataOrAddress::Data(d)) => assert_eq!(d, vec![HexU16(1), HexU16(2), HexU16(0xFFFF)]),
        other => panic!("{:?}", other),
    }
    // a word with a space is data of one word
    match DataOrAddress::from_text(" 0001") {
        Ok(DataOrAddress::Data(d)) => assert_eq!(d, vec![HexU16(1)]),
        other => panic!("{:?}", other),
    }
    match DataOrAddress::from_text("") {
        Ok(DataOrAddress::Data(d)) => assert_eq!(d, Vec::new()),
        other => panic!("{:?}", other),
    }
    assert!(DataOrAddress::from_text("0001 zz").is_err());
    assert!(DataOrAddress::from_text("0001 10000").is_err());
}

#[test]
fn state_condition_is_default_or_a_number() {
    assert!(matches!(StateCondition::from_text("default"), Ok(StateCondition::Default)));
    match StateCondition::from_text("$E5E6") {
        Ok(StateCondition::Short(v)) => assert_eq!(v, HexU16(0xE5E6)),
        other => panic!("{:?}", other),
    }
    match StateCondition::from_text("def") {
        Ok(StateCondition::Short(v)) => assert_eq!(v, HexU16(0xDEF)),
        other => panic!("{:?}", other),
    }
    assert!(StateCondition::from_text("Default").is_err());
    assert!(StateCondition::from_text("default ").is_err());
    assert!(StateCondition::from_text("").is_err());
}
