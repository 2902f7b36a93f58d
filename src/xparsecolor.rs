//! The subset of X11 color strings that terminals send in reply to the color queries:
//! `#RGB` (1 to 4 hex digits per channel, shifted), `rgb:R/G/B` and `rgba:R/G/B/A`
//! (1 to 4 hex digits per channel, scaled).
use vstd::prelude::*;

use crate::bytes::has_prefix;
use crate::color::Color;

verus! {

/// `0-9`, `a-f` or `A-F`.
pub open spec fn is_hex_digit(b: u8) -> bool {
    (0x30 <= b <= 0x39) || (0x61 <= b <= 0x66) || (0x41 <= b <= 0x46)
}

pub open spec fn hex_digit_value(b: u8) -> nat {
    if b <= 0x39 {
        (b - 0x30) as nat
    } else if b >= 0x61 {
        (b - 0x61 + 10) as nat
    } else {
        (b - 0x41 + 10) as nat
    }
}

pub open spec fn is_hex(s: Seq<u8>) -> bool {
    forall|i: int| 0 <= i < s.len() ==> is_hex_digit(#[trigger] s[i])
}

/// The number that a string of hex digits denotes, most significant digit first.
pub open spec fn hex_value(s: Seq<u8>) -> nat
    decreases s.len(),
{
    if s.len() == 0 {
        0
    } else {
        hex_value(s.drop_last()) * 16 + hex_digit_value(s.last())
    }
}

pub open spec fn pow16(n: nat) -> nat
    decreases n,
{
    if n == 0 {
        1
    } else {
        16 * pow16((n - 1) as nat)
    }
}

/// A channel of the `#` form: 1 to 4 hex digits that give the most significant bits
/// of the 16-bit value (`3` is `0x3000`).
pub open spec fn shifted_channel(d: Seq<u8>) -> Option<u16> {
    if 1 <= d.len() <= 4 && is_hex(d) {
        Some((hex_value(d) * pow16((4 - d.len()) as nat)) as u16)
    } else {
        None
    }
}

/// A channel of the `rgb:` form: 1 to 4 hex digits scaled to 16 bits (`3` is `0x3333`).
pub open spec fn scaled_channel(d: Seq<u8>) -> Option<u16> {
    if 1 <= d.len() <= 4 && is_hex(d) {
        Some((hex_value(d) * 0xffff / ((pow16(d.len()) - 1) as nat)) as u16)
    } else {
        None
    }
}

/// The fields of `s` between the `/` (0x2f) separators; an empty string has one empty field.
pub open spec fn split_fields(s: Seq<u8>) -> Seq<Seq<u8>>
    decreases s.len(),
{
    if s.len() == 0 {
        seq![Seq::empty()]
    } else {
        let front = split_fields(s.drop_last());
        if s.last() == 0x2f {
            front.push(Seq::empty())
        } else {
            front.update(front.len() - 1, front.last().push(s.last()))
        }
    }
}

/// The color of the `#` form, given the digits after `#`: three groups of equal length.
pub open spec fn sharp_color(s: Seq<u8>) -> Option<Color> {
    let k = (s.len() / 3) as int;
    if s.len() % 3 == 0 && s.len() <= 12 {
        match (
            shifted_channel(s.subrange(0, k)),
            shifted_channel(s.subrange(k, 2 * k)),
            shifted_channel(s.subrange(2 * k, s.len() as int)),
        ) {
            (Some(red), Some(green), Some(blue)) => Some(Color { red, green, blue, alpha: 0xffff }),
            _ => None,
        }
    } else {
        None
    }
}

/// The color of the `rgb:` form (three fields) or the `rgba:` form (four fields).
pub open spec fn scaled_color(fields: Seq<Seq<u8>>, with_alpha: bool) -> Option<Color> {
    if fields.len() == (if with_alpha { 4int } else { 3int }) && (forall|i: int|
        0 <= i < fields.len() ==> #[trigger] scaled_channel(fields[i]) is Some) {
        Some(
            Color {
                red: scaled_channel(fields[0]).unwrap(),
                green: scaled_channel(fields[1]).unwrap(),
                blue: scaled_channel(fields[2]).unwrap(),
                alpha: if with_alpha {
                    scaled_channel(fields[3]).unwrap()
                } else {
                    0xffff
                },
            },
        )
    } else {
        None
    }
}

/// The color that an X11 color string denotes, if it is of one of the accepted forms
/// (`#` is 0x23, `r` 0x72, `g` 0x67, `b` 0x62, `a` 0x61, `:` 0x3a).
pub open spec fn parsed_color(s: Seq<u8>) -> Option<Color> {
    if has_prefix(s, seq![0x23]) {
        sharp_color(s.subrange(1, s.len() as int))
    } else if has_prefix(s, seq![0x72, 0x67, 0x62, 0x3a]) {
        scaled_color(split_fields(s.subrange(4, s.len() as int)), false)
    } else if has_prefix(s, seq![0x72, 0x67, 0x62, 0x61, 0x3a]) {
        scaled_color(split_fields(s.subrange(5, s.len() as int)), true)
    } else {
        None
    }
}

pub proof fn lemma_pow16_values()
    ensures
        pow16(0) == 1,
        pow16(1) == 16,
        pow16(2) == 256,
        pow16(3) == 4096,
        pow16(4) == 65536,
{
    reveal_with_fuel(pow16, 5);
}

proof fn lemma_pow16_small(n: nat)
    requires
        n <= 3,
    ensures
        pow16(n) <= 4096,
{
    lemma_pow16_values();
    if n == 0 {
    } else if n == 1 {
    } else if n == 2 {
    } else {
    }
}

proof fn lemma_pow16_split(n: nat)
    requires
        n <= 4,
    ensures
        pow16(n) * pow16((4 - n) as nat) == 65536,
{
    lemma_pow16_values();
    let m = (4 - n) as nat;
    if n == 0 {
        assert(m == 4);
        assert(pow16(n) == 1 && pow16(m) == 65536);
        let (x, y) = (pow16(n), pow16(m));
        assert(x * y == 65536) by (nonlinear_arith)
            requires
                x == 1,
                y == 65536,
        ;
    } else if n == 1 {
        assert(m == 3);
        assert(pow16(n) == 16 && pow16(m) == 4096);
        let (x, y) = (pow16(n), pow16(m));
        assert(x * y == 65536) by (nonlinear_arith)
            requires
                x == 16,
                y == 4096,
        ;
    } else if n == 2 {
        assert(m == 2);
        assert(pow16(n) == 256 && pow16(m) == 256);
        let (x, y) = (pow16(n), pow16(m));
        assert(x * y == 65536) by (nonlinear_arith)
            requires
                x == 256,
                y == 256,
        ;
    } else if n == 3 {
        assert(m == 1);
        assert(pow16(n) == 4096 && pow16(m) == 16);
        let (x, y) = (pow16(n), pow16(m));
        assert(x * y == 65536) by (nonlinear_arith)
            requires
                x == 4096,
                y == 16,
        ;
    } else {
        assert(m == 0);
        assert(pow16(n) == 65536 && pow16(m) == 1);
        let (x, y) = (pow16(n), pow16(m));
        assert(x * y == 65536) by (nonlinear_arith)
            requires
                x == 65536,
                y == 1,
        ;
    }
}

proof fn lemma_hex_value_bound(s: Seq<u8>)
    requires
        is_hex(s),
    ensures
        hex_value(s) < pow16(s.len()),
    decreases s.len(),
{
    if s.len() > 0 {
        let front = s.drop_last();
        assert(is_hex(front)) by {
            assert forall|i: int| 0 <= i < front.len() implies is_hex_digit(#[trigger] front[i]) by {
                assert(front[i] == s[i]);
            }
        }
        lemma_hex_value_bound(front);
        assert(is_hex_digit(s[s.len() - 1]));
        assert(hex_digit_value(s.last()) < 16);
    }
}

proof fn lemma_split_fields_nonempty(s: Seq<u8>)
    ensures
        split_fields(s).len() >= 1,
    decreases s.len(),
{
    if s.len() > 0 {
        lemma_split_fields_nonempty(s.drop_last());
    }
}

fn hex_digit(b: u8) -> (r: Option<u16>)
    ensures
        r == (if is_hex_digit(b) {
            Some(hex_digit_value(b) as u16)
        } else {
            None::<u16>
        }),
{
    if 0x30 <= b && b <= 0x39 {
        Some((b - 0x30) as u16)
    } else if 0x61 <= b && b <= 0x66 {
        Some((b - 0x61 + 10) as u16)
    } else if 0x41 <= b && b <= 0x46 {
        Some((b - 0x41 + 10) as u16)
    } else {
        None
    }
}

/// The value of the hex digits `s[lo..hi]`; an empty range gives zero.
fn parse_hex(s: &[u8], lo: usize, hi: usize) -> (r: Option<u16>)
    requires
        lo <= hi <= s@.len(),
        hi - lo <= 4,
    ensures
        r == (if is_hex(s@.subrange(lo as int, hi as int)) {
            Some(hex_value(s@.subrange(lo as int, hi as int)) as u16)
        } else {
            None::<u16>
        }),
{
    proof {
        lemma_pow16_values();
    }
    let mut value: u16 = 0;
    let mut i: usize = lo;
    while i < hi
        invariant
            lo <= i <= hi <= s@.len(),
            hi - lo <= 4,
            is_hex(s@.subrange(lo as int, i as int)),
            value as nat == hex_value(s@.subrange(lo as int, i as int)),
        decreases hi - i,
    {
        let ghost done = s@.subrange(lo as int, i as int);
        let ghost next = s@.subrange(lo as int, i + 1);
        assert(next.drop_last() =~= done);
        match hex_digit(s[i]) {
            None => {
                assert(!is_hex_digit(s@.subrange(lo as int, hi as int)[i - lo]));
                return None;
            },
            Some(d) => {
                proof {
                    lemma_hex_value_bound(done);
                    assert(done.len() <= 3);
                    lemma_pow16_small(done.len());
                    assert(is_hex(next)) by {
                        assert forall|k: int| 0 <= k < next.len() implies is_hex_digit(
                            #[trigger] next[k],
                        ) by {
                            if k < done.len() {
                                assert(next[k] == done[k]);
                            }
                        }
                    }
                }
                value = value * 16 + d;
            },
        }
        i = i + 1;
    }
    Some(value)
}

/// A channel of the `#` form, from the digits `s[lo..hi]`.
fn parse_channel_shifted(s: &[u8], lo: usize, hi: usize) -> (r: Option<u16>)
    requires
        lo <= hi <= s@.len(),
        hi - lo <= 4,
    ensures
        r == shifted_channel(s@.subrange(lo as int, hi as int)),
{
    let ghost d = s@.subrange(lo as int, hi as int);
    if lo == hi {
        return None;
    }
    match parse_hex(s, lo, hi) {
        None => None,
        Some(value) => {
            proof {
                lemma_pow16_values();
                lemma_hex_value_bound(d);
            }
            let len = hi - lo;
            let factor: u16 = if len == 1 {
                4096
            } else if len == 2 {
                256
            } else if len == 3 {
                16
            } else {
                1
            };
            assert(factor as nat == pow16((4 - d.len()) as nat));
            proof {
                lemma_pow16_split(d.len());
            }
            assert((value as nat) * (factor as nat) < 65536) by (nonlinear_arith)
                requires
                    (value as nat) < pow16(d.len()),
                    pow16(d.len()) * (factor as nat) == 65536,
            ;
            Some(value * factor)
        },
    }
}

/// A channel of the `rgb:` form, from the digits `s[lo..hi]`.
fn parse_channel_scaled(s: &[u8], lo: usize, hi: usize) -> (r: Option<u16>)
    requires
        lo <= hi <= s@.len(),
    ensures
        r == scaled_channel(s@.subrange(lo as int, hi as int)),
{
    let ghost d = s@.subrange(lo as int, hi as int);
    let len = hi - lo;
    if len < 1 || len > 4 {
        return None;
    }
    match parse_hex(s, lo, hi) {
        None => None,
        Some(value) => {
            proof {
                lemma_pow16_values();
                lemma_hex_value_bound(d);
            }
            let max: u32 = if len == 1 {
                0xf
            } else if len == 2 {
                0xff
            } else if len == 3 {
                0xfff
            } else {
                0xffff
            };
            assert(max as nat == (pow16(d.len()) - 1) as nat);
            assert(0xffff * (value as nat) / (max as nat) <= 0xffff) by (nonlinear_arith)
                requires
                    value as nat <= max as nat,
                    max > 0,
            ;
            assert(0xffff * (value as nat) == (value as nat) * 0xffff) by (nonlinear_arith);
            Some((0xffffu32 * value as u32 / max) as u16)
        },
    }
}

/// The fields that a list of bounds cuts out of `s`.
pub open spec fn fields_at(s: Seq<u8>, bounds: Seq<(usize, usize)>) -> Seq<Seq<u8>> {
    bounds.map_values(|b: (usize, usize)| s.subrange(b.0 as int, b.1 as int))
}

/// The bounds of the `/`-separated fields of `s[lo..]`.
fn field_bounds(s: &[u8], lo: usize) -> (r: Vec<(usize, usize)>)
    requires
        lo <= s@.len(),
    ensures
        fields_at(s@, r@) == split_fields(s@.subrange(lo as int, s@.len() as int)),
        forall|k: int| 0 <= k < r@.len() ==> #[trigger] r@[k].0 <= r@[k].1 <= s@.len(),
{
    let mut bounds: Vec<(usize, usize)> = Vec::new();
    let mut start: usize = lo;
    let mut i: usize = lo;
    assert(s@.subrange(lo as int, lo as int) =~= Seq::<u8>::empty());
    assert(fields_at(s@, bounds@).push(s@.subrange(start as int, i as int)) =~= seq![Seq::<u8>::empty()]);
    while i < s.len()
        invariant
            lo <= start <= i <= s@.len(),
            forall|k: int| 0 <= k < bounds@.len() ==> #[trigger] bounds@[k].0 <= bounds@[k].1 <= s@.len(),
            split_fields(s@.subrange(lo as int, i as int)) == fields_at(s@, bounds@).push(
                s@.subrange(start as int, i as int),
            ),
        decreases s@.len() - i,
    {
        let ghost prefix = s@.subrange(lo as int, i + 1);
        assert(prefix.drop_last() =~= s@.subrange(lo as int, i as int));
        assert(prefix.last() == s@[i as int]);
        if s[i] == 0x2f {
            let ghost old_bounds = bounds@;
            bounds.push((start, i));
            start = i + 1;
            assert(s@.subrange(start as int, i + 1) =~= Seq::<u8>::empty());
            assert(fields_at(s@, bounds@) =~= fields_at(s@, old_bounds).push(
                s@.subrange(bounds@.last().0 as int, bounds@.last().1 as int),
            ));
        } else {
            assert(s@.subrange(start as int, i + 1) =~= s@.subrange(start as int, i as int).push(
                s@[i as int],
            ));
        }
        i = i + 1;
    }
    let ghost before = bounds@;
    bounds.push((start, s.len()));
    assert(fields_at(s@, bounds@) =~= fields_at(s@, before).push(
        s@.subrange(start as int, s@.len() as int),
    ));
    bounds
}

/// The color of the `rgb:` form (three fields) or `rgba:` form (four fields),
/// from the fields of `s[lo..]`.
fn parse_scaled(s: &[u8], lo: usize, with_alpha: bool) -> (r: Option<Color>)
    requires
        lo <= s@.len(),
    ensures
        r == scaled_color(split_fields(s@.subrange(lo as int, s@.len() as int)), with_alpha),
{
    let bounds = field_bounds(s, lo);
    let ghost fields = split_fields(s@.subrange(lo as int, s@.len() as int));
    let count: usize = if with_alpha {
        4
    } else {
        3
    };
    if bounds.len() != count {
        return None;
    }
    assert(fields[0] == s@.subrange(bounds@[0].0 as int, bounds@[0].1 as int));
    assert(fields[1] == s@.subrange(bounds@[1].0 as int, bounds@[1].1 as int));
    assert(fields[2] == s@.subrange(bounds@[2].0 as int, bounds@[2].1 as int));
    let red = match parse_channel_scaled(s, bounds[0].0, bounds[0].1) {
        Some(v) => v,
        None => return None,
    };
    let green = match parse_channel_scaled(s, bounds[1].0, bounds[1].1) {
        Some(v) => v,
        None => return None,
    };
    let blue = match parse_channel_scaled(s, bounds[2].0, bounds[2].1) {
        Some(v) => v,
        None => return None,
    };
    let alpha = if with_alpha {
        assert(fields[3] == s@.subrange(bounds@[3].0 as int, bounds@[3].1 as int));
        match parse_channel_scaled(s, bounds[3].0, bounds[3].1) {
            Some(v) => v,
            None => return None,
        }
    } else {
        0xffff
    };
    assert forall|i: int| 0 <= i < fields.len() implies #[trigger] scaled_channel(fields[i]) is Some by {
        if i == 3 {
            assert(fields[3] == s@.subrange(bounds@[3].0 as int, bounds@[3].1 as int));
        }
    }
    Some(Color { red, green, blue, alpha })
}

/// The color of the `#` form, from the digits `s[lo..]`.
fn parse_sharp(s: &[u8], lo: usize) -> (r: Option<Color>)
    requires
        lo <= s@.len(),
    ensures
        r == sharp_color(s@.subrange(lo as int, s@.len() as int)),
{
    let ghost d = s@.subrange(lo as int, s@.len() as int);
    let len = s.len() - lo;
    if len % 3 != 0 || len > 12 {
        return None;
    }
    let k = len / 3;
    assert(d.subrange(0, k as int) =~= s@.subrange(lo as int, (lo + k) as int));
    assert(d.subrange(k as int, 2 * k) =~= s@.subrange((lo + k) as int, (lo + 2 * k) as int));
    assert(d.subrange(2 * k, d.len() as int) =~= s@.subrange((lo + 2 * k) as int, s@.len() as int));
    let red = match parse_channel_shifted(s, lo, lo + k) {
        Some(v) => v,
        None => return None,
    };
    let green = match parse_channel_shifted(s, lo + k, lo + 2 * k) {
        Some(v) => v,
        None => return None,
    };
    let blue = match parse_channel_shifted(s, lo + 2 * k, s.len()) {
        Some(v) => v,
        None => return None,
    };
    Some(Color::rgb(red, green, blue))
}

/// Parses an X11 color string of the `#`, `rgb:` or `rgba:` form.
pub fn xparsecolor(input: &[u8]) -> (r: Option<Color>)
    ensures
        r == parsed_color(input@),
{
    let n = input.len();
    if n >= 1 && input[0] == 0x23 {
        assert(input@.subrange(0, 1) =~= seq![0x23u8]);
        parse_sharp(input, 1)
    } else if n >= 4 && input[0] == 0x72 && input[1] == 0x67 && input[2] == 0x62 && input[3] == 0x3a {
        assert(input@.subrange(0, 4) =~= seq![0x72u8, 0x67, 0x62, 0x3a]);
        parse_scaled(input, 4, false)
    } else if n >= 5 && input[0] == 0x72 && input[1] == 0x67 && input[2] == 0x62 && input[3] == 0x61
        && input[4] == 0x3a {
        assert(input@.subrange(0, 5) =~= seq![0x72u8, 0x67, 0x62, 0x61, 0x3a]);
        assert(!has_prefix(input@, seq![0x72, 0x67, 0x62, 0x3a])) by {
            if has_prefix(input@, seq![0x72, 0x67, 0x62, 0x3a]) {
                assert(input@.subrange(0, 4)[3] == input@[3]);
            }
        }
        parse_scaled(input, 5, true)
    } else {
        assert(!has_prefix(input@, seq![0x23])) by {
            if has_prefix(input@, seq![0x23]) {
                assert(input@.subrange(0, 1)[0] == input@[0]);
            }
        }
        assert(!has_prefix(input@, seq![0x72, 0x67, 0x62, 0x3a])) by {
            if has_prefix(input@, seq![0x72, 0x67, 0x62, 0x3a]) {
                let p = input@.subrange(0, 4);
                assert(p[0] == input@[0] && p[1] == input@[1] && p[2] == input@[2] && p[3] == input@[3]);
            }
        }
        assert(!has_prefix(input@, seq![0x72, 0x67, 0x62, 0x61, 0x3a])) by {
            if has_prefix(input@, seq![0x72, 0x67, 0x62, 0x61, 0x3a]) {
                let p = input@.subrange(0, 5);
                assert(p[0] == input@[0] && p[1] == input@[1] && p[2] == input@[2] && p[3] == input@[3]
                    && p[4] == input@[4]);
            }
        }
        None
    }
}

/// The lowercase hex digit for `d < 16`.
pub open spec fn hex_char(d: u16) -> u8 {
    if d < 10 {
        (0x30 + d) as u8
    } else {
        (0x61 + d - 10) as u8
    }
}

/// `v` written as exactly four lowercase hex digits.
pub open spec fn hex4(v: u16) -> Seq<u8> {
    seq![hex_char((v >> 12) & 0xf), hex_char((v >> 8) & 0xf), hex_char((v >> 4) & 0xf), hex_char(v & 0xf)]
}

/// The string `rgb:RRRR/GGGG/BBBB`, each channel in four hex digits.
pub open spec fn rgb_text(red: u16, green: u16, blue: u16) -> Seq<u8> {
    seq![0x72u8, 0x67, 0x62, 0x3a] + hex4(red) + seq![0x2fu8] + hex4(green) + seq![0x2fu8] + hex4(blue)
}

pub proof fn lemma_hex4_value(v: u16)
    ensures
        is_hex(hex4(v)),
        hex4(v).len() == 4,
        hex_value(hex4(v)) == v,
        forall|i: int| 0 <= i < 4 ==> #[trigger] hex4(v)[i] != 0x2f,
{
    let (d3, d2, d1, d0) = ((v >> 12) & 0xf, (v >> 8) & 0xf, (v >> 4) & 0xf, v & 0xf);
    assert(d3 < 16 && d2 < 16 && d1 < 16 && d0 < 16) by (bit_vector)
        requires
            d3 == (v >> 12) & 0xf,
            d2 == (v >> 8) & 0xf,
            d1 == (v >> 4) & 0xf,
            d0 == v & 0xf,
    ;
    assert(d3 * 4096 + d2 * 256 + d1 * 16 + d0 == v) by (bit_vector)
        requires
            d3 == (v >> 12) & 0xf,
            d2 == (v >> 8) & 0xf,
            d1 == (v >> 4) & 0xf,
            d0 == v & 0xf,
    ;
    let h = hex4(v);
    assert(hex_digit_value(hex_char(d3)) == d3);
    assert(hex_digit_value(hex_char(d2)) == d2);
    assert(hex_digit_value(hex_char(d1)) == d1);
    assert(hex_digit_value(hex_char(d0)) == d0);
    assert(h.drop_last().drop_last().drop_last().drop_last() =~= Seq::<u8>::empty());
    assert(h.drop_last().drop_last().drop_last() =~= seq![hex_char(d3)]);
    assert(h.drop_last().drop_last() =~= seq![hex_char(d3), hex_char(d2)]);
    assert(h.drop_last() =~= seq![hex_char(d3), hex_char(d2), hex_char(d1)]);
    assert(hex_value(seq![hex_char(d3)]) == d3) by {
        assert(seq![hex_char(d3)].drop_last() =~= Seq::<u8>::empty());
        assert(hex_value(Seq::<u8>::empty()) == 0);
    }
    assert(hex_value(seq![hex_char(d3), hex_char(d2)]) == d3 * 16 + d2) by {
        assert(seq![hex_char(d3), hex_char(d2)].drop_last() =~= seq![hex_char(d3)]);
    }
    assert(hex_value(seq![hex_char(d3), hex_char(d2), hex_char(d1)]) == (d3 * 16 + d2) * 16 + d1) by {
        assert(seq![hex_char(d3), hex_char(d2), hex_char(d1)].drop_last() =~= seq![hex_char(d3), hex_char(d2)]);
    }
    assert(hex_value(h) == ((d3 * 16 + d2) * 16 + d1) * 16 + d0);
}

/// Appending bytes without a `/` extends the last field.
proof fn lemma_split_extend(x: Seq<u8>, y: Seq<u8>)
    requires
        forall|i: int| 0 <= i < y.len() ==> #[trigger] y[i] != 0x2f,
    ensures
        split_fields(x + y) == split_fields(x).update(
            split_fields(x).len() - 1,
            split_fields(x).last() + y,
        ),
    decreases y.len(),
{
    lemma_split_fields_nonempty(x);
    if y.len() == 0 {
        assert(x + y =~= x);
        assert(split_fields(x).last() + y =~= split_fields(x).last());
        assert(split_fields(x).update(split_fields(x).len() - 1, split_fields(x).last())
            =~= split_fields(x));
    } else {
        let y0 = y.drop_last();
        lemma_split_extend(x, y0);
        assert((x + y).drop_last() =~= x + y0);
        assert((x + y).last() == y.last());
        lemma_split_fields_nonempty(x + y0);
        assert(split_fields(x).last() + y =~= (split_fields(x).last() + y0).push(y.last()));
        assert(split_fields(x + y) =~= split_fields(x).update(
            split_fields(x).len() - 1,
            split_fields(x).last() + y,
        ));
    }
}

/// A string of bytes without `/` is one field.
proof fn lemma_split_single(y: Seq<u8>)
    requires
        forall|i: int| 0 <= i < y.len() ==> #[trigger] y[i] != 0x2f,
    ensures
        split_fields(y) == seq![y],
{
    lemma_split_extend(Seq::empty(), y);
    assert(Seq::<u8>::empty() + y =~= y);
    assert(seq![Seq::<u8>::empty()].update(0, Seq::<u8>::empty() + y) =~= seq![y]);
}

/// Parsing `rgb:RRRR/GGGG/BBBB`, with four hex digits per channel, gives back exactly
/// those channels, with the default alpha.
pub proof fn lemma_rgb_round_trip(red: u16, green: u16, blue: u16)
    ensures
        parsed_color(rgb_text(red, green, blue)) == Some(
            Color { red, green, blue, alpha: 0xffff },
        ),
{
    lemma_pow16_values();
    lemma_hex4_value(red);
    lemma_hex4_value(green);
    lemma_hex4_value(blue);
    let s = rgb_text(red, green, blue);
    let body = hex4(red) + seq![0x2fu8] + hex4(green) + seq![0x2fu8] + hex4(blue);
    assert(s.subrange(0, 4) =~= seq![0x72u8, 0x67, 0x62, 0x3a]);
    assert(s.subrange(4, s.len() as int) =~= body);
    assert(!has_prefix(s, seq![0x23])) by {
        assert(s.subrange(0, 1)[0] == s[0]);
    }
    lemma_split_single(hex4(red));
    assert(split_fields(hex4(red) + seq![0x2fu8]) == seq![hex4(red), Seq::<u8>::empty()]) by {
        assert((hex4(red) + seq![0x2fu8]).drop_last() =~= hex4(red));
    }
    lemma_split_extend(hex4(red) + seq![0x2fu8], hex4(green));
    let x2 = hex4(red) + seq![0x2fu8] + hex4(green);
    assert(split_fields(x2) =~= seq![hex4(red), hex4(green)]);
    assert(split_fields(x2 + seq![0x2fu8]) =~= seq![hex4(red), hex4(green), Seq::<u8>::empty()]) by {
        assert((x2 + seq![0x2fu8]).drop_last() =~= x2);
    }
    lemma_split_extend(x2 + seq![0x2fu8], hex4(blue));
    assert(split_fields(body) =~= seq![hex4(red), hex4(green), hex4(blue)]);
    let f = split_fields(body);
    assert forall|x: nat| x <= 0xffff implies #[trigger] (x * 0xffff / 0xffff) == x by {
        assert(x * 0xffff / 0xffff == x) by (nonlinear_arith);
    }
    assert(hex_value(hex4(red)) * 0xffff / 0xffff == red as nat);
    assert(hex_value(hex4(green)) * 0xffff / 0xffff == green as nat);
    assert(hex_value(hex4(blue)) * 0xffff / 0xffff == blue as nat);
    assert(scaled_channel(f[0]) == Some(red));
    assert(scaled_channel(f[1]) == Some(green));
    assert(scaled_channel(f[2]) == Some(blue));
}

} // verus!
