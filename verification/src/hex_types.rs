//! Numbers that are written in hexadecimal with a `$` in front: bytes, words
//! and 24-bit addresses.

use crate::text::{hex_digit_cased, hex_text_cased, push_hex_cased, zero_padded};
use std::num::{ParseIntError, TryFromIntError};
use std::str::FromStr;
use vstd::prelude::*;
use vstd::std_specs::convert::{FromSpecImpl, TryFromSpecImpl};
use vstd::string::{StrSliceExecFns, StringExecFns};

verus! {

/// The error of the standard library's integer parsing. Nothing is known of a
/// value of it here.
#[verifier::external_type_specification]
#[verifier::external_body]
pub struct ExParseIntError(ParseIntError);

/// The value of a hexadecimal digit in either case; `None` for any other
/// character.
pub open spec fn hex_digit_value(c: char) -> Option<nat> {
    let v = c as int;
    if 48 <= v <= 57 {
        Some((v - 48) as nat)
    } else if 65 <= v <= 70 {
        Some((v - 55) as nat)
    } else if 97 <= v <= 102 {
        Some((v - 87) as nat)
    } else {
        None
    }
}

/// The number that a sequence of hexadecimal digits stands for; `None` where a
/// character is no digit. The empty sequence stands for 0.
pub open spec fn hex_digits_value(s: Seq<char>) -> Option<nat>
    decreases s.len(),
{
    if s.len() == 0 {
        Some(0)
    } else {
        match (hex_digits_value(s.drop_last()), hex_digit_value(s.last())) {
            (Some(high), Some(low)) => Some(16 * high + low),
            _ => None,
        }
    }
}

/// The number that a text stands for as the standard library parses it in base
/// 16: an optional `+`, then at least one digit, and nothing else.
pub open spec fn hex_number(s: Seq<char>) -> Option<nat> {
    let digits = if s.len() > 0 && s[0] == '+' {
        s.skip(1)
    } else {
        s
    };
    if digits.len() == 0 {
        None
    } else {
        hex_digits_value(digits)
    }
}

/// What parsing `s` in base 16 into an unsigned integer of at most `max` comes
/// to: the number, where `s` stands for one that is not above `max`.
pub open spec fn parses_to(s: Seq<char>, max: nat, r: Option<nat>) -> bool {
    r == match hex_number(s) {
        Some(n) => if n <= max {
            Some(n)
        } else {
            None
        },
        None => None,
    }
}

/// Calls `u8::from_str_radix` with radix 16. It accepts an optional `+` and
/// then digits only, and fails on an empty text, on any other character and on
/// a number above 255.
#[verifier::external_body]
fn parse_hex_u8(s: &str) -> (r: Result<u8, ParseIntError>)
    ensures
        parses_to(
            s@,
            u8::MAX as nat,
            match r {
                Ok(v) => Some(v as nat),
                Err(_) => None,
            },
        ),
{
    u8::from_str_radix(s, 16)
}

/// Calls `u16::from_str_radix` with radix 16. It accepts an optional `+` and
/// then digits only, and fails on an empty text, on any other character and on
/// a number above 65535.
#[verifier::external_body]
fn parse_hex_u16(s: &str) -> (r: Result<u16, ParseIntError>)
    ensures
        parses_to(
            s@,
            u16::MAX as nat,
            match r {
                Ok(v) => Some(v as nat),
                Err(_) => None,
            },
        ),
{
    u16::from_str_radix(s, 16)
}

/// Calls `u32::from_str_radix` with radix 16. It accepts an optional `+` and
/// then digits only, and fails on an empty text, on any other character and on
/// a number above 4294967295.
#[verifier::external_body]
fn parse_hex_u32(s: &str) -> (r: Result<u32, ParseIntError>)
    ensures
        parses_to(
            s@,
            u32::MAX as nat,
            match r {
                Ok(v) => Some(v as nat),
                Err(_) => None,
            },
        ),
{
    u32::from_str_radix(s, 16)
}

/// The text without the `$` that it may start with.
pub open spec fn without_dollar(s: Seq<char>) -> Seq<char> {
    if s.len() > 0 && s[0] == '$' {
        s.skip(1)
    } else {
        s
    }
}

fn strip_dollar(s: &str) -> (r: &str)
    ensures
        r@ == without_dollar(s@),
{
    let n: usize = s.unicode_len();
    if n > 0 && s.get_char(0) == '$' {
        let rest = s.substring_char(1, n);
        assert(rest@ =~= s@.skip(1));
        rest
    } else {
        s
    }
}

/// 16 to the power `n`.
pub open spec fn pow16(n: nat) -> nat
    decreases n,
{
    if n == 0 {
        1
    } else {
        16 * pow16((n - 1) as nat)
    }
}

/// A number of `n` hexadecimal digits is below 16 to the power `n`.
pub proof fn lemma_digits_bound(s: Seq<char>)
    requires
        hex_digits_value(s) is Some,
    ensures
        hex_digits_value(s)->0 < pow16(s.len()),
    decreases s.len(),
{
    if s.len() > 0 {
        lemma_digits_bound(s.drop_last());
    }
}

/// A hexadecimal digit in either case has the value that it was written for.
pub proof fn lemma_digit_value(d: int, upper: bool)
    requires
        0 <= d < 16,
    ensures
        hex_digit_value(hex_digit_cased(d, upper)) == Some(d as nat),
        hex_digit_cased(d, upper) != '+',
        hex_digit_cased(d, upper) != '$',
{
    let c = hex_digit_cased(d, upper);
    if d < 10 {
        assert(c as int == 48 + d);
    } else if upper {
        assert(c as int == 55 + d);
    } else {
        assert(c as int == 87 + d);
    }
}

/// A number written in hexadecimal is read back as the same number.
pub proof fn lemma_text_value(n: nat, upper: bool)
    ensures
        hex_digits_value(hex_text_cased(n, upper)) == Some(n),
        hex_text_cased(n, upper).len() > 0,
        hex_text_cased(n, upper)[0] != '+',
        hex_text_cased(n, upper)[0] != '$',
    decreases n,
{
    let text = hex_text_cased(n, upper);
    if n < 16 {
        lemma_digit_value(n as int, upper);
        assert(text.drop_last().len() == 0);
        assert(hex_digits_value(text.drop_last()) == Some(0nat));
        assert(text.last() == hex_digit_cased(n as int, upper));
    } else {
        lemma_text_value(n / 16, upper);
        lemma_digit_value((n % 16) as int, upper);
        let high = hex_text_cased(n / 16, upper);
        assert(text.drop_last() =~= high);
        assert(text.last() == hex_digit_cased((n % 16) as int, upper));
        assert(text[0] == high[0]);
    }
}

/// Zeros in front of a number in hexadecimal do not change what it is read as.
pub proof fn lemma_zeros_in_front(zeros: nat, digits: Seq<char>)
    requires
        hex_digits_value(digits) is Some,
    ensures
        hex_digits_value(Seq::new(zeros, |i: int| '0') + digits) == hex_digits_value(digits),
    decreases digits.len(), zeros,
{
    let front = Seq::new(zeros, |i: int| '0');
    let all = front + digits;
    if digits.len() > 0 {
        lemma_zeros_in_front(zeros, digits.drop_last());
        assert(all.drop_last() =~= front + digits.drop_last());
        assert(all.last() == digits.last());
    } else if zeros > 0 {
        lemma_zeros_in_front((zeros - 1) as nat, digits);
        assert(all.drop_last() =~= Seq::new((zeros - 1) as nat, |i: int| '0') + digits);
        assert(all.last() == '0');
    } else {
        assert(all =~= digits);
    }
}

/// A number written with a fixed least width, with or without `$` in front, is
/// read back as the same number.
pub proof fn lemma_hex_round_trip(n: nat, width: nat, upper: bool)
    ensures
        hex_number(hex_fixed(n, width, upper)) == Some(n),
        hex_number(without_dollar(seq!['$'] + hex_fixed(n, width, upper))) == Some(n),
{
    let digits = hex_text_cased(n, upper);
    let zeros: nat = if width > digits.len() {
        (width - digits.len()) as nat
    } else {
        0
    };
    let text = hex_fixed(n, width, upper);
    lemma_text_value(n, upper);
    lemma_zeros_in_front(zeros, digits);
    assert(text == Seq::new(zeros, |i: int| '0') + digits);
    assert(text.len() > 0);
    assert(text[0] != '+') by {
        if zeros > 0 {
            assert(text[0] == '0');
        } else {
            assert(text[0] == digits[0]);
        }
    }
    assert(text[0] != '$') by {
        if zeros > 0 {
            assert(text[0] == '0');
        } else {
            assert(text[0] == digits[0]);
        }
    }
    assert((seq!['$'] + text).skip(1) =~= text);
}

/// A byte that is written with two hexadecimal digits.
#[derive(Copy, Clone, Ord, PartialOrd, Eq, PartialEq, Structural, Hash, Debug)]
pub struct HexU8(pub u8);

/// A word that is written with four hexadecimal digits.
#[derive(Copy, Clone, Ord, PartialOrd, Eq, PartialEq, Structural, Hash, Debug)]
pub struct HexU16(pub u16);

/// A 24-bit address that is written with six hexadecimal digits.
#[derive(Copy, Clone, Ord, PartialOrd, Eq, PartialEq, Structural, Hash, Debug)]
pub struct HexU24(pub u32);

/// A hexadecimal number of one of the three widths.
#[derive(Copy, Clone, Eq, PartialEq, Structural, Hash, Debug)]
pub enum HexValue {
    Byte(HexU8),
    Word(HexU16),
    Long(HexU24),
}

/// `n` as at least `width` hexadecimal digits.
pub open spec fn hex_fixed(n: nat, width: nat, upper: bool) -> Seq<char> {
    zero_padded(hex_text_cased(n, upper), width)
}

fn hex_string(n: u64, width: usize, upper: bool, dollar: bool) -> (r: String)
    ensures
        r@ == (if dollar {
            seq!['$']
        } else {
            Seq::<char>::empty()
        }) + hex_fixed(n as nat, width as nat, upper),
{
    proof {
        reveal_strlit("$");
    }
    let mut s: String = String::new();
    if dollar {
        s.append("$");
    }
    let ghost start = s@;
    push_hex_cased(&mut s, n, width, upper);
    assert(start =~= if dollar {
        seq!['$']
    } else {
        Seq::<char>::empty()
    });
    s
}

impl HexU8 {
    /// The byte as `$` and two upper-case digits.
    pub fn to_string(&self) -> (r: String)
        ensures
            r@ == seq!['$'] + hex_fixed(self.0 as nat, 2, true),
    {
        hex_string(self.0 as u64, 2, true, true)
    }

    /// The byte as two upper-case digits.
    pub fn to_upper_hex(&self) -> (r: String)
        ensures
            r@ == hex_fixed(self.0 as nat, 2, true),
    {
        let r = hex_string(self.0 as u64, 2, true, false);
        assert(r@ =~= hex_fixed(self.0 as nat, 2, true));
        r
    }

    /// The byte as two lower-case digits.
    pub fn to_lower_hex(&self) -> (r: String)
        ensures
            r@ == hex_fixed(self.0 as nat, 2, false),
    {
        let r = hex_string(self.0 as u64, 2, false, false);
        assert(r@ =~= hex_fixed(self.0 as nat, 2, false));
        r
    }

    /// The byte that a text of hexadecimal digits, with or without `$` in front,
    /// stands for.
    pub open spec fn parsed(s: Seq<char>) -> Option<HexU8> {
        match hex_number(without_dollar(s)) {
            Some(n) => if n <= u8::MAX {
                Some(HexU8(n as u8))
            } else {
                None
            },
            None => None,
        }
    }
}

impl HexU16 {
    /// The word as `$` and four upper-case digits.
    pub fn to_string(&self) -> (r: String)
        ensures
            r@ == seq!['$'] + hex_fixed(self.0 as nat, 4, true),
    {
        hex_string(self.0 as u64, 4, true, true)
    }

    /// The word as four upper-case digits.
    pub fn to_upper_hex(&self) -> (r: String)
        ensures
            r@ == hex_fixed(self.0 as nat, 4, true),
    {
        let r = hex_string(self.0 as u64, 4, true, false);
        assert(r@ =~= hex_fixed(self.0 as nat, 4, true));
        r
    }

    /// The word as four lower-case digits.
    pub fn to_lower_hex(&self) -> (r: String)
        ensures
            r@ == hex_fixed(self.0 as nat, 4, false),
    {
        let r = hex_string(self.0 as u64, 4, false, false);
        assert(r@ =~= hex_fixed(self.0 as nat, 4, false));
        r
    }

    /// The word that a text of hexadecimal digits, with or without `$` in front,
    /// stands for.
    pub open spec fn parsed(s: Seq<char>) -> Option<HexU16> {
        match hex_number(without_dollar(s)) {
            Some(n) => if n <= u16::MAX {
                Some(HexU16(n as u16))
            } else {
                None
            },
            None => None,
        }
    }
}

impl HexU24 {
    /// The address as `$` and at least six upper-case digits.
    pub fn to_string(&self) -> (r: String)
        ensures
            r@ == seq!['$'] + hex_fixed(self.0 as nat, 6, true),
    {
        hex_string(self.0 as u64, 6, true, true)
    }

    /// The address as at least six upper-case digits.
    pub fn to_upper_hex(&self) -> (r: String)
        ensures
            r@ == hex_fixed(self.0 as nat, 6, true),
    {
        let r = hex_string(self.0 as u64, 6, true, false);
        assert(r@ =~= hex_fixed(self.0 as nat, 6, true));
        r
    }

    /// The address as at least six lower-case digits.
    pub fn to_lower_hex(&self) -> (r: String)
        ensures
            r@ == hex_fixed(self.0 as nat, 6, false),
    {
        let r = hex_string(self.0 as u64, 6, false, false);
        assert(r@ =~= hex_fixed(self.0 as nat, 6, false));
        r
    }

    /// The number that a text of hexadecimal digits, with or without `$` in
    /// front, stands for. It may be wider than 24 bits.
    pub open spec fn parsed(s: Seq<char>) -> Option<HexU24> {
        match hex_number(without_dollar(s)) {
            Some(n) => if n <= u32::MAX {
                Some(HexU24(n as u32))
            } else {
                None
            },
            None => None,
        }
    }
}

impl FromStr for HexU8 {
    type Err = ParseIntError;

    fn from_str(s: &str) -> (r: Result<Self, ParseIntError>)
        ensures
            match Self::parsed(s@) {
                Some(v) => r == Ok::<HexU8, ParseIntError>(v),
                None => r is Err,
            },
    {
        match parse_hex_u8(strip_dollar(s)) {
            Ok(v) => Ok(HexU8(v)),
            Err(e) => Err(e),
        }
    }
}

impl FromStr for HexU16 {
    type Err = ParseIntError;

    fn from_str(s: &str) -> (r: Result<Self, ParseIntError>)
        ensures
            match Self::parsed(s@) {
                Some(v) => r == Ok::<HexU16, ParseIntError>(v),
                None => r is Err,
            },
    {
        match parse_hex_u16(strip_dollar(s)) {
            Ok(v) => Ok(HexU16(v)),
            Err(e) => Err(e),
        }
    }
}

impl FromStr for HexU24 {
    type Err = ParseIntError;

    fn from_str(s: &str) -> (r: Result<Self, ParseIntError>)
        ensures
            match Self::parsed(s@) {
                Some(v) => r == Ok::<HexU24, ParseIntError>(v),
                None => r is Err,
            },
    {
        match parse_hex_u32(strip_dollar(s)) {
            Ok(v) => Ok(HexU24(v)),
            Err(e) => Err(e),
        }
    }
}

impl HexValue {
    /// The value that a text of hexadecimal digits, with or without `$` in front,
    /// stands for. The width of the value goes by the number of characters
    /// after the `$`: up to two make a byte, up to four a word, up to six an
    /// address; more are too many.
    pub open spec fn parsed(s: Seq<char>) -> Option<HexValue> {
        let text = without_dollar(s);
        match hex_number(text) {
            Some(n) => if n > u32::MAX {
                None
            } else if text.len() <= 2 {
                Some(HexValue::Byte(HexU8(n as u8)))
            } else if text.len() <= 4 {
                Some(HexValue::Word(HexU16(n as u16)))
            } else if text.len() <= 6 {
                Some(HexValue::Long(HexU24(n as u32)))
            } else {
                None
            },
            None => None,
        }
    }

    /// The value as `$` and the digits of its width.
    pub fn to_string(&self) -> (r: String)
        ensures
            r@ == seq!['$'] + match *self {
                HexValue::Byte(x) => hex_fixed(x.0 as nat, 2, true),
                HexValue::Word(x) => hex_fixed(x.0 as nat, 4, true),
                HexValue::Long(x) => hex_fixed(x.0 as nat, 6, true),
            },
    {
        match self {
            HexValue::Byte(x) => x.to_string(),
            HexValue::Word(x) => x.to_string(),
            HexValue::Long(x) => x.to_string(),
        }
    }

    /// The value as the upper-case digits of its width.
    pub fn to_upper_hex(&self) -> (r: String)
        ensures
            r@ == match *self {
                HexValue::Byte(x) => hex_fixed(x.0 as nat, 2, true),
                HexValue::Word(x) => hex_fixed(x.0 as nat, 4, true),
                HexValue::Long(x) => hex_fixed(x.0 as nat, 6, true),
            },
    {
        match self {
            HexValue::Byte(x) => x.to_upper_hex(),
            HexValue::Word(x) => x.to_upper_hex(),
            HexValue::Long(x) => x.to_upper_hex(),
        }
    }

    /// The value as the lower-case digits of its width.
    pub fn to_lower_hex(&self) -> (r: String)
        ensures
            r@ == match *self {
                HexValue::Byte(x) => hex_fixed(x.0 as nat, 2, false),
                HexValue::Word(x) => hex_fixed(x.0 as nat, 4, false),
                HexValue::Long(x) => hex_fixed(x.0 as nat, 6, false),
            },
    {
        match self {
            HexValue::Byte(x) => x.to_lower_hex(),
            HexValue::Word(x) => x.to_lower_hex(),
            HexValue::Long(x) => x.to_lower_hex(),
        }
    }
}

/// The text `FFF` stands for 4095.
proof fn lemma_three_digits()
    ensures
        hex_number("FFF"@) == Some(4095nat),
{
    reveal_strlit("FFF");
    let s = "FFF"@;
    assert(s =~= seq!['F', 'F', 'F']);
    let two = s.drop_last();
    let one = two.drop_last();
    let none = one.drop_last();
    assert(none.len() == 0);
    assert(hex_digits_value(none) == Some(0nat));
    assert(one.last() == 'F');
    assert(hex_digit_value('F') == Some(15nat));
    assert(hex_digits_value(one) == Some(15nat));
    assert(two.last() == 'F');
    assert(hex_digits_value(two) == Some(255nat));
    assert(s.last() == 'F');
    assert(hex_digits_value(s) == Some(4095nat));
}

/// A number of at most six hexadecimal characters is below 16 to the power of
/// their count.
proof fn lemma_number_bound(text: Seq<char>)
    requires
        hex_number(text) is Some,
    ensures
        text.len() <= 2 ==> hex_number(text)->0 < 0x100,
        text.len() <= 4 ==> hex_number(text)->0 < 0x1_0000,
        text.len() <= 6 ==> hex_number(text)->0 < 0x100_0000,
        text.len() > 0,
{
    let digits = if text.len() > 0 && text[0] == '+' {
        text.skip(1)
    } else {
        text
    };
    lemma_digits_bound(digits);
    reveal_with_fuel(pow16, 8);
    assert(pow16(0) == 1);
    assert(pow16(1) == 16);
    assert(pow16(2) == 0x100);
    assert(pow16(3) == 0x1000);
    assert(pow16(4) == 0x1_0000);
    assert(pow16(5) == 0x10_0000);
    assert(pow16(6) == 0x100_0000);
}

impl FromStr for HexValue {
    type Err = ParseIntError;

    fn from_str(s: &str) -> (r: Result<Self, ParseIntError>)
        ensures
            match Self::parsed(s@) {
                Some(v) => r == Ok::<HexValue, ParseIntError>(v),
                None => r is Err,
            },
    {
        let trimmed: &str = strip_dollar(s);
        let val: u32 = match parse_hex_u32(trimmed) {
            Ok(v) => v,
            Err(e) => {
                return Err(e);
            },
        };
        proof {
            lemma_number_bound(trimmed@);
        }
        let count: usize = trimmed.unicode_len();
        if count <= 2 {
            Ok(HexValue::Byte(HexU8(val as u8)))
        } else if count <= 4 {
            Ok(HexValue::Word(HexU16(val as u16)))
        } else if count <= 6 {
            Ok(HexValue::Long(HexU24(val)))
        } else {
            // A text too long for any width is reported as a number too large.
            proof {
                lemma_three_digits();
            }
            match parse_hex_u8("FFF") {
                Ok(_) => vstd::pervasive::unreached(),
                Err(e) => Err(e),
            }
        }
    }
}

impl From<u8> for HexU8 {
    fn from(val: u8) -> (r: HexU8) {
        HexU8(val)
    }
}

impl FromSpecImpl<u8> for HexU8 {
    open spec fn obeys_from_spec() -> bool {
        true
    }

    open spec fn from_spec(val: u8) -> HexU8 {
        HexU8(val)
    }
}

impl From<HexU8> for u8 {
    fn from(val: HexU8) -> (r: u8) {
        val.0
    }
}

impl FromSpecImpl<HexU8> for u8 {
    open spec fn obeys_from_spec() -> bool {
        true
    }

    open spec fn from_spec(val: HexU8) -> u8 {
        val.0
    }
}

impl TryFrom<u64> for HexU8 {
    type Error = TryFromIntError;

    fn try_from(value: u64) -> (r: Result<HexU8, TryFromIntError>)
        ensures
            r is Ok <==> value <= u8::MAX,
            r matches Ok(v) ==> v.0 == value,
    {
        match u8::try_from(value) {
            Ok(v) => Ok(HexU8(v)),
            Err(e) => Err(e),
        }
    }
}

impl TryFromSpecImpl<u64> for HexU8 {
    open spec fn obeys_try_from_spec() -> bool {
        false
    }

    open spec fn try_from_spec(value: u64) -> Result<HexU8, TryFromIntError> {
        arbitrary()
    }
}

impl From<u16> for HexU16 {
    fn from(val: u16) -> (r: HexU16) {
        HexU16(val)
    }
}

impl FromSpecImpl<u16> for HexU16 {
    open spec fn obeys_from_spec() -> bool {
        true
    }

    open spec fn from_spec(val: u16) -> HexU16 {
        HexU16(val)
    }
}

impl From<HexU16> for u16 {
    fn from(val: HexU16) -> (r: u16) {
        val.0
    }
}

impl FromSpecImpl<HexU16> for u16 {
    open spec fn obeys_from_spec() -> bool {
        true
    }

    open spec fn from_spec(val: HexU16) -> u16 {
        val.0
    }
}

impl TryFrom<u64> for HexU16 {
    type Error = TryFromIntError;

    fn try_from(value: u64) -> (r: Result<HexU16, TryFromIntError>)
        ensures
            r is Ok <==> value <= u16::MAX,
            r matches Ok(v) ==> v.0 == value,
    {
        match u16::try_from(value) {
            Ok(v) => Ok(HexU16(v)),
            Err(e) => Err(e),
        }
    }
}

impl TryFromSpecImpl<u64> for HexU16 {
    open spec fn obeys_try_from_spec() -> bool {
        false
    }

    open spec fn try_from_spec(value: u64) -> Result<HexU16, TryFromIntError> {
        arbitrary()
    }
}

impl From<u32> for HexU24 {
    fn from(val: u32) -> (r: HexU24) {
        HexU24(val & 0xFF_FFFF)
    }
}

impl FromSpecImpl<u32> for HexU24 {
    open spec fn obeys_from_spec() -> bool {
        true
    }

    open spec fn from_spec(val: u32) -> HexU24 {
        HexU24(val & 0xFF_FFFF)
    }
}

impl From<HexU24> for u32 {
    fn from(val: HexU24) -> (r: u32) {
        val.0
    }
}

impl FromSpecImpl<HexU24> for u32 {
    open spec fn obeys_from_spec() -> bool {
        true
    }

    open spec fn from_spec(val: HexU24) -> u32 {
        val.0
    }
}

impl TryFrom<u64> for HexU24 {
    type Error = TryFromIntError;

    fn try_from(value: u64) -> (r: Result<HexU24, TryFromIntError>)
        ensures
            r is Ok <==> value <= u32::MAX,
            r matches Ok(v) ==> v.0 == value,
    {
        match u32::try_from(value) {
            Ok(v) => Ok(HexU24(v)),
            Err(e) => Err(e),
        }
    }
}

impl TryFromSpecImpl<u64> for HexU24 {
    open spec fn obeys_try_from_spec() -> bool {
        false
    }

    open spec fn try_from_spec(value: u64) -> Result<HexU24, TryFromIntError> {
        arbitrary()
    }
}

impl From<HexU8> for HexValue {
    fn from(val: HexU8) -> (r: HexValue) {
        HexValue::Byte(val)
    }
}

impl FromSpecImpl<HexU8> for HexValue {
    open spec fn obeys_from_spec() -> bool {
        true
    }

    open spec fn from_spec(val: HexU8) -> HexValue {
        HexValue::Byte(val)
    }
}

impl From<HexU16> for HexValue {
    fn from(val: HexU16) -> (r: HexValue) {
        HexValue::Word(val)
    }
}

impl FromSpecImpl<HexU16> for HexValue {
    open spec fn obeys_from_spec() -> bool {
        true
    }

    open spec fn from_spec(val: HexU16) -> HexValue {
        HexValue::Word(val)
    }
}

impl From<HexU24> for HexValue {
    fn from(val: HexU24) -> (r: HexValue) {
        HexValue::Long(val)
    }
}

impl FromSpecImpl<HexU24> for HexValue {
    open spec fn obeys_from_spec() -> bool {
        true
    }

    open spec fn from_spec(val: HexU24) -> HexValue {
        HexValue::Long(val)
    }
}

} // verus!
