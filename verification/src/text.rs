//! Numbers as text.

use vstd::prelude::*;

verus! {

/// The character of a hexadecimal digit.
pub open spec fn digit_char(d: nat) -> char {
    seq![
        '0',
        '1',
        '2',
        '3',
        '4',
        '5',
        '6',
        '7',
        '8',
        '9',
        'a',
        'b',
        'c',
        'd',
        'e',
        'f',
    ][d as int]
}

/// The last `width` hexadecimal digits of `value`.
pub open spec fn hex(value: nat, width: nat) -> Seq<char>
    decreases width,
{
    if width == 0 {
        Seq::empty()
    } else {
        hex(value / 16, (width - 1) as nat).push(digit_char(value % 16))
    }
}

/// `value` in decimal.
pub open spec fn decimal(value: nat) -> Seq<char>
    decreases value,
{
    if value < 10 {
        seq![digit_char(value)]
    } else {
        decimal(value / 10).push(digit_char(value % 10))
    }
}

fn digit_text(d: u64) -> (r: &'static str)
    requires
        d < 16,
    ensures
        r@ == seq![digit_char(d as nat)],
{
    proof {
        reveal_strlit("0");
        reveal_strlit("1");
        reveal_strlit("2");
        reveal_strlit("3");
        reveal_strlit("4");
        reveal_strlit("5");
        reveal_strlit("6");
        reveal_strlit("7");
        reveal_strlit("8");
        reveal_strlit("9");
        reveal_strlit("a");
        reveal_strlit("b");
        reveal_strlit("c");
        reveal_strlit("d");
        reveal_strlit("e");
        reveal_strlit("f");
    }
    let r = match d {
        0 => "0",
        1 => "1",
        2 => "2",
        3 => "3",
        4 => "4",
        5 => "5",
        6 => "6",
        7 => "7",
        8 => "8",
        9 => "9",
        10 => "a",
        11 => "b",
        12 => "c",
        13 => "d",
        14 => "e",
        _ => "f",
    };
    assert(r@ =~= seq![digit_char(d as nat)]);
    r
}

pub(crate) fn put_hex(out: &mut String, value: u64, width: usize)
    ensures
        final(out)@ == old(out)@ + hex(value as nat, width as nat),
    decreases width,
{
    if width > 0 {
        put_hex(out, value / 16, width - 1);
        out.append(digit_text(value % 16));
        assert(out@ =~= old(out)@ + hex(value as nat, width as nat));
    } else {
        assert(out@ =~= old(out)@ + hex(value as nat, width as nat));
    }
}

pub(crate) fn put_decimal(out: &mut String, value: u64)
    ensures
        final(out)@ == old(out)@ + decimal(value as nat),
    decreases value,
{
    if value < 10 {
        out.append(digit_text(value));
    } else {
        put_decimal(out, value / 10);
        out.append(digit_text(value % 10));
        assert(out@ =~= old(out)@ + decimal(value as nat));
    }
}

/// What a digit is worth: the ten figures, and then the letters from `a`.
pub open spec fn worth(digit: char) -> int {
    if '0' <= digit <= '9' {
        digit as int - '0' as int
    } else {
        digit as int - 'a' as int + 10
    }
}

/// The number that digits stand for in a base, the most significant first.
pub open spec fn read(digits: Seq<char>, base: int) -> int
    decreases digits.len(),
{
    if digits.len() == 0 {
        0
    } else {
        read(digits.drop_last(), base) * base + worth(digits.last())
    }
}

/// A number in decimal is read back as it was, from figures alone and without a zero in front.
pub proof fn law_decimals_are_read_back(value: nat)
    ensures
        read(decimal(value), 10) == value,
        decimal(value).len() > 0,
        decimal(value).len() > 1 ==> decimal(value)[0] != '0',
        value > 0 ==> decimal(value)[0] != '0',
        forall|i: int| 0 <= i < decimal(value).len() ==> '0' <= #[trigger] decimal(value)[i] <= '9',
    decreases value,
{
    let s = decimal(value);
    if value < 10 {
        reveal_with_fuel(read, 2);
        assert(s.drop_last().len() == 0);
    } else {
        law_decimals_are_read_back(value / 10);
        assert(s.drop_last() =~= decimal(value / 10));
    }
}

/// A number in hexadecimal has as many digits as were asked for, and is read back as far as they go.
pub proof fn law_hexadecimals_are_read_back(value: nat, width: nat)
    requires
        width == 4 && value < 0x1_0000 || width == 8 && value < 0x1_0000_0000,
    ensures
        hex(value, width).len() == width,
        read(hex(value, width), 16) == value,
{
    reveal_with_fuel(fits_in, 9);
    lemma_hex(value, width);
}

/// The digits before the last are those of a sixteenth.
proof fn lemma_hex(value: nat, width: nat)
    ensures
        hex(value, width).len() == width,
        width == 0 && value == 0 ==> read(hex(value, width), 16) == 0,
        fits_in(value, width) ==> read(hex(value, width), 16) == value,
    decreases width,
{
    if width > 0 {
        lemma_hex(value / 16, (width - 1) as nat);
        let s = hex(value, width);
        assert(s.drop_last() =~= hex(value / 16, (width - 1) as nat));
    }
}

/// Whether a number has no more hexadecimal digits than this.
pub open spec fn fits_in(value: nat, width: nat) -> bool
    decreases width,
{
    if width == 0 {
        value == 0
    } else {
        fits_in(value / 16, (width - 1) as nat)
    }
}

} // verus!
