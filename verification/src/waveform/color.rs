//! Fill colors of waveform columns, as `#rrggbb` text.
use vstd::prelude::*;
use vstd::string::*;

verus! {

/// The lower-case hexadecimal digits.
pub open spec fn hex_digits() -> Seq<char> {
    seq!['0', '1', '2', '3', '4', '5', '6', '7', '8', '9', 'a', 'b', 'c', 'd', 'e', 'f']
}

/// A byte as two lower-case hexadecimal digits.
pub open spec fn hex_byte(x: u8) -> Seq<char> {
    seq![hex_digits()[x as int / 16], hex_digits()[x as int % 16]]
}

/// The `#rrggbb` text of a color.
pub open spec fn color_text(r: u8, g: u8, b: u8) -> Seq<char> {
    seq!['#'] + hex_byte(r) + hex_byte(g) + hex_byte(b)
}

/// A channel raised towards white: `whiteness` (capped at 7) sevenths of the distance to 255,
/// rounded, and saturated at 255.
pub open spec fn brighten(value: u8, whiteness: u8) -> u8 {
    let w: int = if whiteness < 7 {
        whiteness as int
    } else {
        7
    };
    let add: int = ((255 - value) * w + 3) / 7;
    if value + add > 255 {
        255
    } else {
        (value + add) as u8
    }
}

/// The color of a monochrome preview column: the base blue `#2563eb` brightened by the
/// column's whiteness.
pub open spec fn blue_text(whiteness: u8) -> Seq<char> {
    color_text(brighten(0x25, whiteness), brighten(0x63, whiteness), brighten(0xeb, whiteness))
}

/// One energy channel scaled by the column's total energy to the range 0 to 255, rounded.
pub open spec fn channel(value: u8, total: int) -> int {
    (value * 255 + total / 2) / total
}

/// The color of a colored preview column: high, mid and low energy as red, green and blue,
/// each normalized by the total energy; black for a silent column.
pub open spec fn rgb_text(low: u8, mid: u8, high: u8) -> Seq<char> {
    let total: int = low + mid + high;
    if total == 0 {
        color_text(0, 0, 0)
    } else {
        color_text(
            channel(high, total) as u8,
            channel(mid, total) as u8,
            channel(low, total) as u8,
        )
    }
}

fn push_hex_digit(s: &mut String, d: u8)
    requires
        d < 16,
    ensures
        final(s)@ == old(s)@ + seq![hex_digits()[d as int]],
{
    let digit: &str = match d {
        0 => "0",
        1 => "1",
        2 => "2",
        3 => "3",
        4 => "4",
        5 => "5",
        6 => "6",
        7 => "7",
        8 => "8",
        9 => "9",
        10 => "a",
        11 => "b",
        12 => "c",
        13 => "d",
        14 => "e",
        _ => "f",
    };
    proof {
        reveal_strlit("0");
        reveal_strlit("1");
        reveal_strlit("2");
        reveal_strlit("3");
        reveal_strlit("4");
        reveal_strlit("5");
        reveal_strlit("6");
        reveal_strlit("7");
        reveal_strlit("8");
        reveal_strlit("9");
        reveal_strlit("a");
        reveal_strlit("b");
        reveal_strlit("c");
        reveal_strlit("d");
        reveal_strlit("e");
        reveal_strlit("f");
    }
    assert(digit@ =~= seq![hex_digits()[d as int]]);
    s.append(digit);
}

/// The `#rrggbb` text of a color.
pub fn color_string(r: u8, g: u8, b: u8) -> (s: String)
    ensures
        s@ == color_text(r, g, b),
{
    let mut s = String::from_str("#");
    proof {
        reveal_strlit("#");
    }
    push_hex_digit(&mut s, r / 16);
    push_hex_digit(&mut s, r % 16);
    push_hex_digit(&mut s, g / 16);
    push_hex_digit(&mut s, g % 16);
    push_hex_digit(&mut s, b / 16);
    push_hex_digit(&mut s, b % 16);
    assert(s@ =~= color_text(r, g, b));
    s
}

fn brighten_channel(value: u8, whiteness: u8) -> (r: u8)
    ensures
        r == brighten(value, whiteness),
{
    let w: u16 = if whiteness < 7 {
        whiteness as u16
    } else {
        7
    };
    let d: u16 = 255 - value as u16;
    assert(d * w <= 255 * 7) by (nonlinear_arith)
        requires
            d <= 255,
            w <= 7,
    ;
    let add: u16 = (d * w + 3) / 7;
    let sum: u16 = value as u16 + add;
    if sum > 255 {
        255
    } else {
        sum as u8
    }
}

/// The color of a monochrome preview column with the given whiteness.
pub fn blue_color(whiteness: u8) -> (s: String)
    ensures
        s@ == blue_text(whiteness),
{
    let r = brighten_channel(0x25, whiteness);
    let g = brighten_channel(0x63, whiteness);
    let b = brighten_channel(0xeb, whiteness);
    color_string(r, g, b)
}

proof fn lemma_channel_bound(value: u8, total: int)
    requires
        0 < total <= 765,
        value <= total,
    ensures
        0 <= channel(value, total) <= 255,
        value * 255 + total / 2 <= 65407,
{
    assert(value * 255 <= total * 255) by (nonlinear_arith)
        requires
            value <= total,
    ;
    assert(value * 255 + total / 2 < 256 * total);
    assert((value * 255 + total / 2) / total < 256) by (nonlinear_arith)
        requires
            value * 255 + total / 2 < 256 * total,
            total > 0,
            value * 255 + total / 2 >= 0,
    ;
    assert(0 <= (value * 255 + total / 2) / total) by (nonlinear_arith)
        requires
            value * 255 + total / 2 >= 0,
            total > 0,
    ;
}

fn scale_channel(value: u8, total: u16) -> (r: u8)
    requires
        0 < total <= 765,
        value <= total,
    ensures
        r == channel(value, total as int),
{
    proof {
        lemma_channel_bound(value, total as int);
    }
    ((value as u16 * 255 + total / 2) / total) as u8
}

/// The color of a colored preview column with the given low, mid and high energies.
pub fn rgb_color(low: u8, mid: u8, high: u8) -> (s: String)
    ensures
        s@ == rgb_text(low, mid, high),
{
    let total: u16 = low as u16 + mid as u16 + high as u16;
    if total == 0 {
        return color_string(0, 0, 0);
    }
    let r = scale_channel(high, total);
    let g = scale_channel(mid, total);
    let b = scale_channel(low, total);
    color_string(r, g, b)
}

/// Brightening never darkens a channel, brightens more with more whiteness, and stops
/// changing at whiteness 7, where every channel is white.
pub proof fn lemma_brighten_monotone(v: u8, w1: u8, w2: u8)
    ensures
        brighten(v, w1) >= v,
        w1 <= w2 ==> brighten(v, w1) <= brighten(v, w2),
        brighten(v, w1) == brighten(v, if w1 < 7 { w1 } else { 7 }),
        w1 >= 7 ==> brighten(v, w1) == 255,
{
    let d: int = 255 - v;
    let a: int = if w1 < 7 { w1 as int } else { 7 };
    let b: int = if w2 < 7 { w2 as int } else { 7 };
    assert(0 <= d * a <= d * 7) by (nonlinear_arith)
        requires
            0 <= d <= 255,
            0 <= a <= 7,
    ;
    if w1 <= w2 {
        assert(d * a <= d * b) by (nonlinear_arith)
            requires
                0 <= d,
                a <= b,
        ;
    }
}

/// The color of a preview column is `#` and six lower-case hexadecimal digits; each channel
/// brightens from the base blue `#2563eb` with whiteness and reaches white at 7.
pub proof fn lemma_blue_color_brightens(w1: u8, w2: u8)
    ensures
        blue_text(w1).len() == 7,
        blue_text(w1)[0] == '#',
        forall|i: int| 1 <= i < 7 ==> hex_digits().contains(#[trigger] blue_text(w1)[i]),
        blue_text(w1) == blue_text(if w1 < 7 { w1 } else { 7 }),
        w1 >= 7 ==> blue_text(w1) == color_text(255, 255, 255),
        brighten(0x25, w1) >= 0x25 && brighten(0x63, w1) >= 0x63 && brighten(0xeb, w1) >= 0xeb,
        w1 <= w2 ==> {
            &&& brighten(0x25, w1) <= brighten(0x25, w2)
            &&& brighten(0x63, w1) <= brighten(0x63, w2)
            &&& brighten(0xeb, w1) <= brighten(0xeb, w2)
        },
{
    lemma_brighten_monotone(0x25, w1, w2);
    lemma_brighten_monotone(0x63, w1, w2);
    lemma_brighten_monotone(0xeb, w1, w2);
    let t = blue_text(w1);
    assert forall|i: int| 1 <= i < 7 implies hex_digits().contains(#[trigger] t[i]) by {
        let r = brighten(0x25, w1);
        let g = brighten(0x63, w1);
        let b = brighten(0xeb, w1);
        let x: u8 = if i < 3 { r } else if i < 5 { g } else { b };
        let j: int = if i % 2 == 1 { x as int / 16 } else { x as int % 16 };
        assert(0 <= j < 16);
        assert(t[i] == hex_digits()[j]);
    }
}

} // verus!
