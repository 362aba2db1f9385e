//! Numbers written out as text: hexadecimal and decimal.

use vstd::prelude::*;
use vstd::string::StringExecFns;

verus! {

/// The hexadecimal digit for `d`, 0 to 15, with the letters in upper or in
/// lower case.
pub open spec fn hex_digit_cased(d: int, upper: bool) -> char
    recommends
        0 <= d < 16,
{
    if d < 10 {
        (48 + d) as char
    } else if upper {
        (55 + d) as char
    } else {
        (87 + d) as char
    }
}

/// The upper-case hexadecimal digit for `d`, 0 to 15.
pub open spec fn hex_digit(d: int) -> char
    recommends
        0 <= d < 16,
{
    hex_digit_cased(d, true)
}

/// The decimal digit for `d`, 0 to 9.
pub open spec fn dec_digit(d: int) -> char
    recommends
        0 <= d < 10,
{
    (48 + d) as char
}

/// `n` in hexadecimal, without leading zeros; 0 is `"0"`.
pub open spec fn hex_text_cased(n: nat, upper: bool) -> Seq<char>
    decreases n,
{
    if n < 16 {
        seq![hex_digit_cased(n as int, upper)]
    } else {
        hex_text_cased(n / 16, upper).push(hex_digit_cased((n % 16) as int, upper))
    }
}

/// `n` in upper-case hexadecimal, without leading zeros; 0 is `"0"`.
pub open spec fn hex_text(n: nat) -> Seq<char> {
    hex_text_cased(n, true)
}

/// `n` in decimal, without leading zeros; 0 is `"0"`.
pub open spec fn dec_text(n: nat) -> Seq<char>
    decreases n,
{
    if n < 10 {
        seq![dec_digit(n as int)]
    } else {
        dec_text(n / 10).push(dec_digit((n % 10) as int))
    }
}

/// `s` with zeros put in front of it where it is shorter than `width`.
pub open spec fn zero_padded(s: Seq<char>, width: nat) -> Seq<char> {
    Seq::new(
        if width > s.len() {
            (width - s.len()) as nat
        } else {
            0
        },
        |i: int| '0',
    ) + s
}

/// Calls `String::push`, which appends one character.
#[verifier::external_body]
pub(crate) fn push_char(s: &mut String, c: char)
    ensures
        final(s)@ == old(s)@.push(c),
{
    s.push(c);
}

fn hex_digit_char(d: u8, upper: bool) -> (c: char)
    requires
        d < 16,
    ensures
        c == hex_digit_cased(d as int, upper),
{
    if d < 10 {
        (48 + d) as char
    } else if upper {
        (55 + d) as char
    } else {
        (87 + d) as char
    }
}

/// Appends `n` in hexadecimal, at least `width` digits wide.
pub fn push_hex_cased(s: &mut String, n: u64, width: usize, upper: bool)
    ensures
        final(s)@ == old(s)@ + zero_padded(hex_text_cased(n as nat, upper), width as nat),
{
    let mut digits: Vec<char> = Vec::new();
    let mut rest: u64 = n;
    while rest >= 16
        invariant
            hex_text_cased(n as nat, upper) == hex_text_cased(rest as nat, upper)
                + digits@.reverse(),
        decreases rest,
    {
        let d: u8 = (rest % 16) as u8;
        digits.push(hex_digit_char(d, upper));
        proof {
            let ghost before = digits@.drop_last();
            assert(digits@.reverse() =~= seq![hex_digit_cased(d as int, upper)]
                + before.reverse());
            assert(hex_text_cased(rest as nat, upper) == hex_text_cased(
                (rest / 16) as nat,
                upper,
            ).push(hex_digit_cased(d as int, upper)));
            assert(hex_text_cased(rest as nat, upper) + before.reverse() =~= hex_text_cased(
                (rest / 16) as nat,
                upper,
            ) + digits@.reverse());
        }
        rest = rest / 16;
    }
    digits.push(hex_digit_char(rest as u8, upper));
    proof {
        let ghost before = digits@.drop_last();
        assert(digits@.reverse() =~= seq![hex_digit_cased(rest as int, upper)]
            + before.reverse());
        assert(hex_text_cased(n as nat, upper) =~= digits@.reverse());
    }
    push_padded(s, &digits, width);
}

/// Appends `n` in upper-case hexadecimal, at least `width` digits wide.
pub fn push_hex(s: &mut String, n: u64, width: usize)
    ensures
        final(s)@ == old(s)@ + zero_padded(hex_text(n as nat), width as nat),
{
    push_hex_cased(s, n, width, true);
}

/// Appends `n` in decimal.
pub fn push_dec(s: &mut String, n: u64)
    ensures
        final(s)@ == old(s)@ + dec_text(n as nat),
{
    let mut digits: Vec<char> = Vec::new();
    let mut rest: u64 = n;
    while rest >= 10
        invariant
            dec_text(n as nat) == dec_text(rest as nat) + digits@.reverse(),
        decreases rest,
    {
        let d: u8 = (rest % 10) as u8;
        digits.push((48 + d) as char);
        proof {
            let ghost before = digits@.drop_last();
            assert(digits@.reverse() =~= seq![dec_digit(d as int)] + before.reverse());
            assert(dec_text(rest as nat) == dec_text((rest / 10) as nat).push(
                dec_digit(d as int),
            ));
            assert(dec_text(rest as nat) + before.reverse() =~= dec_text((rest / 10) as nat)
                + digits@.reverse());
        }
        rest = rest / 10;
    }
    digits.push((48 + (rest as u8)) as char);
    proof {
        let ghost before = digits@.drop_last();
        assert(digits@.reverse() =~= seq![dec_digit(rest as int)] + before.reverse());
        assert(dec_text(n as nat) =~= digits@.reverse());
    }
    push_padded(s, &digits, 0);
}

/// Appends the characters of `digits` in reverse order, with zeros in front of
/// them up to `width`.
fn push_padded(s: &mut String, digits: &Vec<char>, width: usize)
    ensures
        final(s)@ == old(s)@ + zero_padded(digits@.reverse(), width as nat),
{
    let ghost text = digits@.reverse();
    let count: usize = if width > digits.len() {
        width - digits.len()
    } else {
        0
    };
    let ghost zeros = Seq::new(count as nat, |i: int| '0');
    let mut k: usize = 0;
    while k < count
        invariant
            k <= count,
            zeros == Seq::new(count as nat, |i: int| '0'),
            s@ == old(s)@ + zeros.take(k as int),
        decreases count - k,
    {
        push_char(s, '0');
        k += 1;
        assert(s@ =~= old(s)@ + zeros.take(k as int));
    }
    assert(zeros.take(count as int) =~= zeros);
    let mut i: usize = digits.len();
    while i > 0
        invariant
            i <= digits@.len(),
            text == digits@.reverse(),
            s@ == old(s)@ + zeros + text.take(digits@.len() - i),
        decreases i,
    {
        i -= 1;
        push_char(s, digits[i]);
        assert(s@ =~= old(s)@ + zeros + text.take(digits@.len() - i));
    }
    assert(text.take(digits@.len() as int) =~= text);
    assert(old(s)@ + zeros + text =~= old(s)@ + zero_padded(text, width as nat));
}

/// How two texts stand to each other in the order of a dictionary that goes by
/// character codes: negative where `a` comes first, 0 where they are equal,
/// positive where `b` comes first. A text comes before every text that it
/// starts.
pub open spec fn text_order(a: Seq<char>, b: Seq<char>) -> int
    decreases a.len(),
{
    if a.len() == 0 {
        if b.len() == 0 {
            0
        } else {
            -1
        }
    } else if b.len() == 0 {
        1
    } else if (a[0] as int) < (b[0] as int) {
        -1
    } else if (a[0] as int) > (b[0] as int) {
        1
    } else {
        text_order(a.skip(1), b.skip(1))
    }
}

/// Only equal texts are level in the order.
pub proof fn lemma_text_order_equal(a: Seq<char>, b: Seq<char>)
    ensures
        text_order(a, b) == 0 <==> a == b,
        -1 <= text_order(a, b) <= 1,
    decreases a.len(),
{
    if a.len() > 0 && b.len() > 0 {
        lemma_text_order_equal(a.skip(1), b.skip(1));
        if a[0] == b[0] {
            if a.skip(1) == b.skip(1) {
                assert(a =~= seq![a[0]] + a.skip(1));
                assert(b =~= seq![b[0]] + b.skip(1));
            }
        }
    } else if a.len() == 0 && b.len() == 0 {
        assert(a =~= b);
    }
}

/// Swapping the two texts turns the order round.
pub proof fn lemma_text_order_swap(a: Seq<char>, b: Seq<char>)
    ensures
        text_order(b, a) == -text_order(a, b),
    decreases a.len(),
{
    if a.len() > 0 && b.len() > 0 {
        lemma_text_order_swap(a.skip(1), b.skip(1));
    }
}

/// What comes before a text comes before everything that the text comes
/// before.
pub proof fn lemma_text_order_transitive(a: Seq<char>, b: Seq<char>, c: Seq<char>)
    requires
        text_order(a, b) < 0,
        text_order(b, c) < 0,
    ensures
        text_order(a, c) < 0,
    decreases a.len(),
{
    if a.len() > 0 && b.len() > 0 && c.len() > 0 {
        if a[0] == b[0] && b[0] == c[0] {
            lemma_text_order_transitive(a.skip(1), b.skip(1), c.skip(1));
        }
    }
}

/// A registry handle as it is written for a reader: the name of its type, then
/// in round brackets slot index and version with a `v` between them, or the
/// word `null` for the handle of no slot.
pub open spec fn key_text(kind_name: Seq<char>, idx: u32, version: u32) -> Seq<char> {
    kind_name + seq!['('] + (if idx == u32::MAX {
        seq!['n', 'u', 'l', 'l']
    } else {
        dec_text(idx as nat) + seq!['v'] + dec_text(version as nat)
    }) + seq![')']
}

/// Appends a registry handle as it is written for a reader.
pub fn push_key(s: &mut String, kind_name: &str, idx: u32, version: u32)
    ensures
        final(s)@ == old(s)@ + key_text(kind_name@, idx, version),
{
    proof {
        reveal_strlit("(");
        reveal_strlit(")");
        reveal_strlit("v");
        reveal_strlit("null");
    }
    s.append(kind_name);
    s.append("(");
    if idx == u32::MAX {
        s.append("null");
    } else {
        push_dec(s, idx as u64);
        s.append("v");
        push_dec(s, version as u64);
    }
    s.append(")");
    assert(s@ =~= old(s)@ + key_text(kind_name@, idx, version));
}

} // verus!
