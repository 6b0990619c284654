//! Colors: three 8-bit channels, read from and written as text.

use crate::text::{dec_digits, hex_pair, push_dec, push_hex_pair};
use vstd::prelude::*;
use vstd::string::*;

verus! {

/// A color of red, green and blue channels.
#[derive(Debug, Clone, Copy, PartialEq, Eq, Structural)]
pub struct Color {
    red: u8,
    green: u8,
    blue: u8,
}

impl View for Color {
    type V = (u8, u8, u8);

    closed spec fn view(&self) -> (u8, u8, u8) {
        (self.red, self.green, self.blue)
    }
}

/// The value of one hexadecimal digit given as an ASCII byte, either case.
pub open spec fn hex_digit_value(c: u8) -> Option<u8> {
    if 48 <= c <= 57 {
        Some((c - 48) as u8)
    } else if 97 <= c <= 102 {
        Some((c - 87) as u8)
    } else if 65 <= c <= 70 {
        Some((c - 55) as u8)
    } else {
        None
    }
}

/// A channel read from two bytes the way base-16 integer parsing reads them:
/// two digits, or a `+` sign and one digit.
pub open spec fn channel_of(a: u8, b: u8) -> Option<u8> {
    if a == 43 {
        hex_digit_value(b)
    } else {
        match (hex_digit_value(a), hex_digit_value(b)) {
            (Some(x), Some(y)) => Some((x * 16 + y) as u8),
            _ => None,
        }
    }
}

/// The three channels held by six bytes from `start` on.
pub open spec fn channels_at(s: Seq<u8>, start: int) -> Option<(u8, u8, u8)> {
    match (
        channel_of(s[start], s[start + 1]),
        channel_of(s[start + 2], s[start + 3]),
        channel_of(s[start + 4], s[start + 5]),
    ) {
        (Some(r), Some(g), Some(b)) => Some((r, g, b)),
        _ => None,
    }
}

/// The color that a hex color text, `rrggbb` or `#rrggbb`, stands for.
pub open spec fn parse_hex_color(s: Seq<u8>) -> Option<(u8, u8, u8)> {
    if s.len() == 6 {
        channels_at(s, 0)
    } else if s.len() == 7 && s[0] == 35 {
        channels_at(s, 1)
    } else {
        None
    }
}

/// `rgb(r, g, b)` with each channel in base 10.
pub open spec fn rgb_text(c: (u8, u8, u8)) -> Seq<char> {
    seq!['r', 'g', 'b', '('] + dec_digits(c.0 as nat) + seq![',', ' '] + dec_digits(c.1 as nat)
        + seq![',', ' '] + dec_digits(c.2 as nat) + seq![')']
}

/// `#rrggbb`, two lower-case base-16 digits for each channel.
pub open spec fn hex_text(c: (u8, u8, u8)) -> Seq<char> {
    seq!['#'] + hex_pair(c.0) + hex_pair(c.1) + hex_pair(c.2)
}

fn hex_digit(c: u8) -> (r: Option<u8>)
    ensures
        r == hex_digit_value(c),
{
    if 48 <= c && c <= 57 {
        Some(c - 48)
    } else if 97 <= c && c <= 102 {
        Some(c - 87)
    } else if 65 <= c && c <= 70 {
        Some(c - 55)
    } else {
        None
    }
}

fn channel(a: u8, b: u8) -> (r: Option<u8>)
    ensures
        r == channel_of(a, b),
{
    if a == 43 {
        hex_digit(b)
    } else {
        match (hex_digit(a), hex_digit(b)) {
            (Some(x), Some(y)) => Some(x * 16 + y),
            _ => None,
        }
    }
}

impl Color {
    /// A color of the three given channels.
    pub fn new(red: u8, green: u8, blue: u8) -> (c: Color)
        ensures
            c@ == (red, green, blue),
    {
        Color { red, green, blue }
    }

    /// Reads a color from six hexadecimal digits, with or without a leading `#`;
    /// `None` for any other text.
    pub fn from_hex(input_string: &str) -> (r: Option<Color>)
        ensures
            match r {
                Some(c) => parse_hex_color(input_string.spec_bytes()) == Some(c@),
                None => parse_hex_color(input_string.spec_bytes()) is None,
            },
    {
        let bytes = input_string.as_bytes();
        let len = bytes.len();
        let start: usize;
        if len == 6 {
            start = 0;
        } else if len == 7 && bytes[0] == 35 {
            start = 1;
        } else {
            return None;
        }
        let red = channel(bytes[start], bytes[start + 1]);
        let green = channel(bytes[start + 2], bytes[start + 3]);
        let blue = channel(bytes[start + 4], bytes[start + 5]);
        match (red, green, blue) {
            (Some(r), Some(g), Some(b)) => Some(Color::new(r, g, b)),
            _ => None,
        }
    }

    /// The red channel.
    pub fn r(&self) -> (r: u8)
        ensures
            r == self@.0,
    {
        self.red
    }

    /// The red channel.
    pub fn red(&self) -> (r: u8)
        ensures
            r == self@.0,
    {
        self.red
    }

    /// The green channel.
    pub fn g(&self) -> (g: u8)
        ensures
            g == self@.1,
    {
        self.green
    }

    /// The green channel.
    pub fn green(&self) -> (g: u8)
        ensures
            g == self@.1,
    {
        self.green
    }

    /// The blue channel.
    pub fn b(&self) -> (b: u8)
        ensures
            b == self@.2,
    {
        self.blue
    }

    /// The blue channel.
    pub fn blue(&self) -> (b: u8)
        ensures
            b == self@.2,
    {
        self.blue
    }

    /// Red, green and blue, in that order.
    pub fn rgb(&self) -> (t: (u8, u8, u8))
        ensures
            t == self@,
    {
        (self.r(), self.g(), self.b())
    }

    /// The color as `rgb(r, g, b)`.
    pub fn to_rgb_string(&self) -> (s: String)
        ensures
            s@ == rgb_text(self@),
    {
        proof {
            reveal_strlit("rgb(");
            reveal_strlit(", ");
            reveal_strlit(")");
        }
        let mut s = String::new();
        s.append("rgb(");
        push_dec(&mut s, self.red as u64);
        s.append(", ");
        push_dec(&mut s, self.green as u64);
        s.append(", ");
        push_dec(&mut s, self.blue as u64);
        s.append(")");
        assert(s@ =~= rgb_text(self@));
        s
    }

    /// The color as `#rrggbb`, lower case.
    pub fn to_hex_string(&self) -> (s: String)
        ensures
            s@ == hex_text(self@),
    {
        proof {
            reveal_strlit("#");
        }
        let mut s = String::new();
        s.append("#");
        push_hex_pair(&mut s, self.red);
        push_hex_pair(&mut s, self.green);
        push_hex_pair(&mut s, self.blue);
        assert(s@ =~= hex_text(self@));
        s
    }
}

/// Black: every channel zero.
pub fn black() -> (c: Color)
    ensures
        c@ == (0u8, 0u8, 0u8),
{
    Color::new(0, 0, 0)
}

/// White: every channel full.
pub fn white() -> (c: Color)
    ensures
        c@ == (255u8, 255u8, 255u8),
{
    Color::new(255, 255, 255)
}

/// A color, or no paint at all.
#[derive(Debug, Clone, Copy, PartialEq, Eq, Structural)]
pub enum TransparentableColor {
    Color(Color),
    Transparent,
}

/// The text of a paint: a color's `#rrggbb`, or `transparent`.
pub open spec fn paint_text(c: TransparentableColor) -> Seq<char> {
    match c {
        TransparentableColor::Color(color) => hex_text(color@),
        TransparentableColor::Transparent => seq!['t', 'r', 'a', 'n', 's', 'p', 'a', 'r', 'e', 'n', 't'],
    }
}

impl TransparentableColor {
    /// The hex text of the color, or `transparent`.
    pub fn to_string(&self) -> (s: String)
        ensures
            s@ == paint_text(*self),
    {
        match self {
            TransparentableColor::Color(color) => color.to_hex_string(),
            TransparentableColor::Transparent => {
                proof {
                    reveal_strlit("transparent");
                }
                String::from_str("transparent")
            },
        }
    }
}

} // verus!
