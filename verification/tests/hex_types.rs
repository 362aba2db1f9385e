use smded::hex_types::{HexU16, HexU24, HexU8, HexValue};
use std::str::FromStr;

#[test]
fn test_hexvalue_fromstr() {
    assert_eq!(HexValue::from_str("$A"), Ok(HexValue::Byte(HexU8(0x0A))));
    assert_eq!(HexValue::from_str("$AB"), Ok(HexValue::Byte(HexU8(0xAB))));
    assert_eq!(
        HexValue::from_str("$ABC"),
        Ok(HexValue::Word(HexU16(0x0ABC)))
    );
    assert_eq!(
        HexValue::from_str("$ABCD"),
        Ok(HexValue::Word(HexU16(0xABCD)))
    );
    assert_eq!(
        HexValue::from_str("$ABCDE"),
        Ok(HexValue::Long(HexU24(0x0ABCDE)))
    );
    assert_eq!(
        HexValue::from_str("$ABCDEF"),
        Ok(HexValue::Long(HexU24(0xABCDEF)))
    );

    assert_eq!(HexValue::from_str("1234"), HexValue::from_str("$1234"));
    assert_eq!(
        HexValue::from_str("$").unwrap_err().kind(),
        &std::num::IntErrorKind::Empty
    );
    assert_eq!(
        HexValue::from_str("$ABCDEF0").unwrap_err().kind(),
        &std::num::IntErrorKind::PosOverflow
    );
}

#[test]
fn hex_numbers_are_written_with_fixed_width() {
    assert_eq!(HexU8(0x0A).to_string(), "$0A");
    assert_eq!(HexU8(0xFF).to_upper_hex(), "FF");
    assert_eq!(HexU8(0xAB).to_lower_hex(), "ab");
    assert_eq!(HexU16(0x0ABC).to_string(), "$0ABC");
    assert_eq!(HexU16(0).to_upper_hex(), "0000");
    assert_eq!(HexU16(0xBEEF).to_lower_hex(), "beef");
    assert_eq!(HexU24(0x7E2000).to_string(), "$7E2000");
    assert_eq!(HexU24(0xABC).to_upper_hex(), "000ABC");
    assert_eq!(HexU24(0xabcdef).to_lower_hex(), "abcdef");
    // a number wider than 24 bits is written in full
    assert_eq!(HexU24(0x1234_5678).to_string(), "$12345678");
    assert_eq!(HexValue::Byte(HexU8(1)).to_string(), "$01");
    assert_eq!(HexValue::Word(HexU16(1)).to_upper_hex(), "0001");
    assert_eq!(HexValue::Long(HexU24(0xA)).to_lower_hex(), "00000a");
}

#[test]
fn hex_numbers_of_each_width_are_parsed() {
    assert_eq!(HexU8::from_str("$7f"), Ok(HexU8(0x7F)));
    assert_eq!(HexU8::from_str("+7F"), Ok(HexU8(0x7F)));
    assert_eq!(HexU8::from_str("0000007F"), Ok(HexU8(0x7F)));
    assert_eq!(HexU16::from_str("FFFF"), Ok(HexU16(0xFFFF)));
    assert_eq!(HexU24::from_str("$FFFFFFFF"), Ok(HexU24(0xFFFF_FFFF)));
    assert_eq!(HexU8::from_str("100").unwrap_err().kind(), &std::num::IntErrorKind::PosOverflow);
    assert_eq!(HexU16::from_str("10000").unwrap_err().kind(), &std::num::IntErrorKind::PosOverflow);
    assert_eq!(HexU24::from_str("100000000").unwrap_err().kind(), &std::num::IntErrorKind::PosOverflow);
    assert_eq!(HexU8::from_str("").unwrap_err().kind(), &std::num::IntErrorKind::Empty);
    assert_eq!(HexU8::from_str("$$1").unwrap_err().kind(), &std::num::IntErrorKind::InvalidDigit);
    assert_eq!(HexU8::from_str("+").unwrap_err().kind(), &std::num::IntErrorKind::InvalidDigit);
    assert_eq!(HexU8::from_str("-1").unwrap_err().kind(), &std::num::IntErrorKind::InvalidDigit);
    assert_eq!(HexU8::from_str(" 1").unwrap_err().kind(), &std::num::IntErrorKind::InvalidDigit);
    assert_eq!(HexU8::from_str("1G").unwrap_err().kind(), &std::num::IntErrorKind::InvalidDigit);
}

#[test]
fn hex_value_width_goes_by_the_number_of_characters() {
    assert_eq!(HexValue::from_str("00"), Ok(HexValue::Byte(HexU8(0))));
    assert_eq!(HexValue::from_str("000"), Ok(HexValue::Word(HexU16(0))));
    assert_eq!(HexValue::from_str("$00000"), Ok(HexValue::Long(HexU24(0))));
    assert_eq!(HexValue::from_str("+F"), Ok(HexValue::Byte(HexU8(0xF))));
    assert_eq!(HexValue::from_str("+FF"), Ok(HexValue::Word(HexU16(0xFF))));
    assert_eq!(
        HexValue::from_str("0000000").unwrap_err().kind(),
        &std::num::IntErrorKind::PosOverflow
    );
    assert_eq!(
        HexValue::from_str("$12G4").unwrap_err().kind(),
        &std::num::IntErrorKind::InvalidDigit
    );
}

#[test]
fn hex_numbers_convert_from_and_to_integers() {
    assert_eq!(HexU8::from(7u8), HexU8(7));
    assert_eq!(u8::from(HexU8(7)), 7);
    assert_eq!(HexU16::from(0x1234u16), HexU16(0x1234));
    assert_eq!(u16::from(HexU16(0x1234)), 0x1234);
    // only 24 bits of a 32-bit number are kept
    assert_eq!(HexU24::from(0x1234_5678u32), HexU24(0x34_5678));
    assert_eq!(u32::from(HexU24(0x34_5678)), 0x34_5678);
    assert_eq!(HexU8::try_from(255u64), Ok(HexU8(255)));
    assert!(HexU8::try_from(256u64).is_err());
    assert_eq!(HexU16::try_from(65535u64), Ok(HexU16(65535)));
    assert!(HexU16::try_from(65536u64).is_err());
    assert_eq!(HexU24::try_from(0xFFFF_FFFFu64), Ok(HexU24(0xFFFF_FFFF)));
    assert!(HexU24::try_from(0x1_0000_0000u64).is_err());
    assert_eq!(HexValue::from(HexU8(1)), HexValue::Byte(HexU8(1)));
    assert_eq!(HexValue::from(HexU16(1)), HexValue::Word(HexU16(1)));
    assert_eq!(HexValue::from(HexU24(1)), HexValue::Long(HexU24(1)));
}
