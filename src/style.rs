use vstd::prelude::*;
use vstd::string::StringSliceAdditionalSpecFns;

use crate::ansi::{
    ascii_chars, ascii_string, concat, is_ascii, lemma_concat_ascii, lemma_csi_ascii, push_csi,
    ToAnsi,
};
use crate::control::csi_of;

verus! {

/// A terminal color.
#[derive(Debug, Clone, Copy, PartialEq, Eq, Structural)]
pub enum Color {
    /// Uses the last color that was defined.
    Unset,
    /// Uses the terminal default colors.
    Uncolored,
    Black,
    Red,
    Green,
    Yellow,
    Blue,
    Magenta,
    Cyan,
    White,
    BrightBlack,
    BrightRed,
    BrightGreen,
    BrightYellow,
    BrightBlue,
    BrightMagenta,
    BrightCyan,
    BrightWhite,
    /// A TrueColor value: red, green, blue.
    RGB(u8, u8, u8),
    /// A value of the 256-color palette.
    Index(u8),
}

/// The value of the hexadecimal digit `b`, upper or lower case.
pub open spec fn hex_value(b: u8) -> Option<u8> {
    if 0x30 <= b <= 0x39 {
        Some((b - 0x30) as u8)
    } else if 0x41 <= b <= 0x46 {
        Some((b - 0x41 + 10) as u8)
    } else if 0x61 <= b <= 0x66 {
        Some((b - 0x61 + 10) as u8)
    } else {
        None
    }
}

/// The value of two bytes read as an unsigned hexadecimal number: two digits, or a `+` sign
/// followed by one digit.
pub open spec fn hex_pair_value(hi: u8, lo: u8) -> Option<u8> {
    match (hex_value(hi), hex_value(lo)) {
        (Some(h), Some(l)) => Some((h * 16 + l) as u8),
        (None, Some(l)) => if hi == 0x2b {
            Some(l)
        } else {
            None
        },
        _ => None,
    }
}

/// The color that six bytes `rrggbb` name, if each pair is a hexadecimal number.
pub open spec fn hex_color(s: Seq<u8>) -> Option<Color> {
    if s.len() != 6 {
        None
    } else {
        match (
            hex_pair_value(s[0], s[1]),
            hex_pair_value(s[2], s[3]),
            hex_pair_value(s[4], s[5]),
        ) {
            (Some(r), Some(g), Some(b)) => Some(Color::RGB(r, g, b)),
            _ => None,
        }
    }
}

fn hex_digit(b: u8) -> (r: Option<u8>)
    ensures
        r == hex_value(b),
{
    if 0x30 <= b && b <= 0x39 {
        Some(b - 0x30)
    } else if 0x41 <= b && b <= 0x46 {
        Some(b - 0x41 + 10)
    } else if 0x61 <= b && b <= 0x66 {
        Some(b - 0x61 + 10)
    } else {
        None
    }
}

fn hex_pair(hi: u8, lo: u8) -> (r: Option<u8>)
    ensures
        r == hex_pair_value(hi, lo),
{
    match (hex_digit(hi), hex_digit(lo)) {
        (Some(h), Some(l)) => Some(h * 16 + l),
        (None, Some(l)) => if hi == 0x2b {
            Some(l)
        } else {
            None
        },
        _ => None,
    }
}

impl Color {
    /// Reads a string like `"rrggbb"` as an RGB color.
    pub fn try_from_hex(data: &str) -> (r: Option<Color>)
        ensures
            r == hex_color(data.spec_bytes()),
    {
        let b = data.as_bytes();
        if b.len() != 6 {
            return None;
        }
        let red = hex_pair(b[0], b[1]);
        let green = hex_pair(b[2], b[3]);
        let blue = hex_pair(b[4], b[5]);
        match (red, green, blue) {
            (Some(r), Some(g), Some(bl)) => Some(Color::RGB(r, g, bl)),
            _ => None,
        }
    }
}

/// The select-graphic-rendition final byte, `m`.
pub const SGR: u8 = 0x6d;

impl Color {
    /// The offset of a named color from the first code of its layer (30 for the foreground, 40
    /// for the background).
    pub open spec fn palette_offset(self) -> Option<u32> {
        match self {
            Color::Black => Some(0),
            Color::Red => Some(1),
            Color::Green => Some(2),
            Color::Yellow => Some(3),
            Color::Blue => Some(4),
            Color::Magenta => Some(5),
            Color::Cyan => Some(6),
            Color::White => Some(7),
            Color::BrightBlack => Some(60),
            Color::BrightRed => Some(61),
            Color::BrightGreen => Some(62),
            Color::BrightYellow => Some(63),
            Color::BrightBlue => Some(64),
            Color::BrightMagenta => Some(65),
            Color::BrightCyan => Some(66),
            Color::BrightWhite => Some(67),
            _ => None,
        }
    }

    /// The rendition parameters that select this color on the layer whose codes start at
    /// `base`: none for `Unset` and `Uncolored`.
    pub open spec fn codes(self, base: u32) -> Seq<u32> {
        match self {
            Color::Index(i) => seq![(base + 8) as u32, 5, i as u32],
            Color::RGB(r, g, b) => seq![(base + 8) as u32, 2, r as u32, g as u32, b as u32],
            _ => match self.palette_offset() {
                Some(k) => seq![(base + k) as u32],
                None => seq![],
            },
        }
    }

    /// The bytes that select this color on the layer whose codes start at `base`: the layer's
    /// default for `Uncolored`, nothing for `Unset`.
    pub open spec fn layer_bytes(self, base: u32) -> Seq<u8> {
        match self {
            Color::Uncolored => csi_of(seq![], seq![(base + 9) as u32], SGR),
            Color::Unset => Seq::empty(),
            _ => csi_of(seq![], self.codes(base), SGR),
        }
    }

    fn palette(self) -> (r: Option<u32>)
        ensures
            r == self.palette_offset(),
    {
        match self {
            Color::Black => Some(0),
            Color::Red => Some(1),
            Color::Green => Some(2),
            Color::Yellow => Some(3),
            Color::Blue => Some(4),
            Color::Magenta => Some(5),
            Color::Cyan => Some(6),
            Color::White => Some(7),
            Color::BrightBlack => Some(60),
            Color::BrightRed => Some(61),
            Color::BrightGreen => Some(62),
            Color::BrightYellow => Some(63),
            Color::BrightBlue => Some(64),
            Color::BrightMagenta => Some(65),
            Color::BrightCyan => Some(66),
            Color::BrightWhite => Some(67),
            _ => None,
        }
    }

    fn layer_codes(self, base: u32) -> (r: Vec<u32>)
        requires
            base <= 40,
        ensures
            r@ == self.codes(base),
    {
        match self {
            Color::Index(i) => vec![base + 8, 5, i as u32],
            Color::RGB(r, g, b) => vec![base + 8, 2, r as u32, g as u32, b as u32],
            _ => match self.palette() {
                Some(k) => vec![base + k],
                None => Vec::new(),
            },
        }
    }

    fn push_layer(self, out: &mut Vec<u8>, base: u32)
        requires
            base <= 40,
        ensures
            final(out)@ == old(out)@ + self.layer_bytes(base),
            is_ascii(self.layer_bytes(base)),
    {
        match self {
            Color::Uncolored => {
                push_csi(out, &[], &[base + 9], SGR);
                proof {
                    lemma_csi_ascii(seq![], seq![(base + 9) as u32].map_values(|p: u32| p as nat), SGR);
                }
            },
            Color::Unset => {
                assert(old(out)@ + Seq::<u8>::empty() =~= old(out)@);
            },
            _ => {
                let codes = self.layer_codes(base);
                push_csi(out, &[], codes.as_slice(), SGR);
                proof {
                    lemma_csi_ascii(seq![], codes@.map_values(|p: u32| p as nat), SGR);
                }
            },
        }
    }

    /// The escape sequence that makes this the text color.
    pub fn as_fg(self) -> (r: String)
        ensures
            r@ == ascii_chars(self.layer_bytes(30)),
    {
        let mut out: Vec<u8> = Vec::new();
        self.push_layer(&mut out, 30);
        assert(out@ =~= self.layer_bytes(30));
        ascii_string(out)
    }

    /// The escape sequence that makes this the background color.
    pub fn as_bg(self) -> (r: String)
        ensures
            r@ == ascii_chars(self.layer_bytes(40)),
    {
        let mut out: Vec<u8> = Vec::new();
        self.push_layer(&mut out, 40);
        assert(out@ =~= self.layer_bytes(40));
        ascii_string(out)
    }
}

/// `a` where it is set, else `b`.
pub open spec fn or_else<T>(a: Option<T>, b: Option<T>) -> Option<T> {
    match a {
        Some(_) => a,
        None => b,
    }
}

fn first_set<T>(a: Option<T>, b: Option<T>) -> (r: Option<T>)
    ensures
        r == or_else(a, b),
{
    match a {
        Some(v) => Some(v),
        None => b,
    }
}

/// Text attributes; an attribute that is `None` is left to an enclosing style.
#[derive(Debug, Clone, Copy, PartialEq, Eq, Structural)]
pub struct Style {
    pub fg: Option<Color>,
    pub bg: Option<Color>,
    pub bold: Option<bool>,
}

impl Default for Style {
    fn default() -> (r: Style)
        ensures
            r == Style::unset(),
    {
        Style { fg: None, bg: None, bold: None }
    }
}

/// The style that a stack of nested styles gives: each style, from the bottom of the stack
/// up, fills its unset attributes from the ones below it.
pub open spec fn stacked(stack: Seq<Style>) -> Style
    decreases stack.len(),
{
    if stack.len() == 0 {
        Style::unset()
    } else {
        stack.last().inherited(stacked(stack.drop_last()))
    }
}

impl Style {
    /// The style that sets no attribute.
    pub open spec fn unset() -> Style {
        Style { fg: None, bg: None, bold: None }
    }

    /// This style, with its unset attributes taken from `other`.
    pub open spec fn inherited(self, other: Style) -> Style {
        Style {
            fg: or_else(self.fg, other.fg),
            bg: or_else(self.bg, other.bg),
            bold: or_else(self.bold, other.bold),
        }
    }

    /// The bytes that apply this style: bold on or off (off where unset), then the foreground
    /// and background colors that are set.
    pub open spec fn ansi_bytes(self) -> Seq<u8> {
        let weight = if self.bold == Some(true) {
            csi_of(seq![], seq![1], SGR)
        } else {
            csi_of(seq![], seq![22], SGR)
        };
        let fg = match self.fg {
            Some(c) => c.layer_bytes(30),
            None => Seq::empty(),
        };
        let bg = match self.bg {
            Some(c) => c.layer_bytes(40),
            None => Seq::empty(),
        };
        weight + fg + bg
    }

    /// `data` with this style's escape sequence in front of it.
    pub fn stylize(&self, data: &str) -> (r: String)
        ensures
            r@ == self.ansi() + data@,
    {
        concat(self.to_ansi(), data)
    }

    /// A style that sets only the foreground color.
    pub fn fg(color: Color) -> (r: Style)
        ensures
            r == (Style { fg: Some(color), bg: None, bold: None }),
    {
        Style { fg: Some(color), bg: None, bold: None }
    }

    /// A style that sets only the background color.
    pub fn bg(color: Color) -> (r: Style)
        ensures
            r == (Style { fg: None, bg: Some(color), bold: None }),
    {
        Style { fg: None, bg: Some(color), bold: None }
    }

    /// A new style, with unset values taken from `other`.
    pub fn inherit(self, other: Style) -> (r: Style)
        ensures
            r == self.inherited(other),
    {
        Style {
            fg: first_set(self.fg, other.fg),
            bg: first_set(self.bg, other.bg),
            bold: first_set(self.bold, other.bold),
        }
    }

    /// The style that a set of nested styling rules gives, outermost first.
    pub fn from_stack(stack: &Vec<Style>) -> (r: Style)
        ensures
            r == stacked(stack@),
    {
        let mut base = Style::default();
        let mut k: usize = 0;
        while k < stack.len()
            invariant
                k <= stack@.len(),
                base == stacked(stack@.take(k as int)),
            decreases stack@.len() - k,
        {
            assert(stack@.take(k + 1).drop_last() == stack@.take(k as int));
            base = stack[k].inherit(base);
            k = k + 1;
        }
        assert(stack@.take(stack@.len() as int) == stack@);
        base
    }
}

impl ToAnsi for Style {
    open spec fn ansi(&self) -> Seq<char> {
        ascii_chars(self.ansi_bytes())
    }

    fn to_ansi(&self) -> (r: String) {
        let mut out: Vec<u8> = Vec::new();
        let weight: u32 = if self.bold == Some(true) {
            1
        } else {
            22
        };
        push_csi(&mut out, &[], &[weight], SGR);
        proof {
            lemma_csi_ascii(seq![], seq![weight].map_values(|p: u32| p as nat), SGR);
        }
        let ghost head = out@;
        match self.fg {
            Some(c) => c.push_layer(&mut out, 30),
            None => {},
        }
        proof {
            if self.fg is Some {
                lemma_concat_ascii(head, self.fg->Some_0.layer_bytes(30));
            } else {
                assert(out@ =~= head);
            }
        }
        let ghost middle = out@;
        match self.bg {
            Some(c) => c.push_layer(&mut out, 40),
            None => {},
        }
        proof {
            if self.bg is Some {
                lemma_concat_ascii(middle, self.bg->Some_0.layer_bytes(40));
            } else {
                assert(out@ =~= middle);
            }
        }
        assert(out@ =~= self.ansi_bytes());
        ascii_string(out)
    }
}

} // verus!
