use vstd::prelude::*;

use crate::ansi::{
    ascii_chars, ascii_string, csi, is_ascii, lemma_concat_ascii, lemma_csi_ascii, push_csi, ToAnsi,
};

verus! {

/// A control sequence over `u32` parameters.
pub open spec fn csi_of(prefix: Seq<u8>, params: Seq<u32>, fin: u8) -> Seq<u8> {
    csi(prefix, params.map_values(|p: u32| p as nat), fin)
}

/// A cursor movement.
#[derive(Debug, Clone, Copy, PartialEq, Eq, Structural)]
pub enum Motion {
    /// No movement: the empty sequence.
    Stay,
    Up,
    Down,
    Left,
    Right,
    UpBy(u16),
    DownBy(u16),
    LeftBy(u16),
    RightBy(u16),
    NextLine,
    PrevLine,
    NextLines(u16),
    PrevLines(u16),
    RelativeLine(i16),
    LineStart,
    /// To the given column of the current line.
    LineAbsolute(u16),
    ScreenStart,
    /// Expects `(x, y)` as opposed to `(row, col)`. Zero-indexed.
    ToPosition(u16, u16),
    ScrollUp,
    ScrollDown,
}

impl Motion {
    /// The bytes of the escape sequence that performs this movement.
    pub open spec fn ansi_bytes(self) -> Seq<u8> {
        match self {
            Motion::Stay => Seq::empty(),
            Motion::Up => csi_of(seq![], seq![], 0x41),
            Motion::Down => csi_of(seq![], seq![], 0x42),
            Motion::Left => csi_of(seq![], seq![], 0x43),
            Motion::Right => csi_of(seq![], seq![], 0x44),
            Motion::UpBy(n) => csi_of(seq![], seq![n as u32], 0x41),
            Motion::DownBy(n) => csi_of(seq![], seq![n as u32], 0x42),
            Motion::LeftBy(n) => csi_of(seq![], seq![n as u32], 0x43),
            Motion::RightBy(n) => csi_of(seq![], seq![n as u32], 0x44),
            Motion::NextLine => csi_of(seq![], seq![], 0x45),
            Motion::PrevLine => csi_of(seq![], seq![], 0x46),
            Motion::NextLines(n) => csi_of(seq![], seq![n as u32], 0x45),
            Motion::PrevLines(n) => csi_of(seq![], seq![n as u32], 0x45),
            Motion::RelativeLine(n) => if n > 0 {
                csi_of(seq![], seq![n as u32], 0x45)
            } else {
                csi_of(seq![], seq![(-n) as u32], 0x46)
            },
            Motion::LineStart => csi_of(seq![], seq![], 0x47),
            Motion::LineAbsolute(n) => csi_of(seq![], seq![n as u32], 0x47),
            Motion::ScreenStart => csi_of(seq![], seq![], 0x48),
            Motion::ToPosition(x, y) => csi_of(seq![], seq![(y + 1) as u32, (x + 1) as u32], 0x48),
            Motion::ScrollUp => csi_of(seq![], seq![], 0x53),
            Motion::ScrollDown => csi_of(seq![], seq![], 0x54),
        }
    }

    /// The escape sequence that performs this movement.
    pub fn as_ansi(&self) -> (r: String)
        ensures
            r@ == ascii_chars(self.ansi_bytes()),
    {
        self.to_ansi()
    }
}

impl Default for Motion {
    fn default() -> (r: Motion)
        ensures
            r == Motion::Stay,
    {
        Motion::Stay
    }
}

fn sequence(params: &[u32], fin: u8) -> (r: String)
    requires
        fin < 0x80,
    ensures
        r@ == ascii_chars(csi_of(seq![], params@, fin)),
{
    let mut out: Vec<u8> = Vec::new();
    push_csi(&mut out, &[], params, fin);
    proof {
        lemma_csi_ascii(seq![], params@.map_values(|p: u32| p as nat), fin);
        assert(out@ =~= csi_of(seq![], params@, fin));
    }
    ascii_string(out)
}

impl ToAnsi for Motion {
    open spec fn ansi(&self) -> Seq<char> {
        ascii_chars(self.ansi_bytes())
    }

    fn to_ansi(&self) -> (r: String) {
        match *self {
            Motion::Stay => String::new(),
            Motion::Up => sequence(&[], 0x41),
            Motion::Down => sequence(&[], 0x42),
            Motion::Left => sequence(&[], 0x43),
            Motion::Right => sequence(&[], 0x44),
            Motion::UpBy(n) => sequence(&[n as u32], 0x41),
            Motion::DownBy(n) => sequence(&[n as u32], 0x42),
            Motion::LeftBy(n) => sequence(&[n as u32], 0x43),
            Motion::RightBy(n) => sequence(&[n as u32], 0x44),
            Motion::NextLine => sequence(&[], 0x45),
            Motion::PrevLine => sequence(&[], 0x46),
            Motion::NextLines(n) => sequence(&[n as u32], 0x45),
            Motion::PrevLines(n) => sequence(&[n as u32], 0x45),
            Motion::RelativeLine(n) => if n > 0 {
                sequence(&[n as u32], 0x45)
            } else {
                sequence(&[(0 - (n as i32)) as u32], 0x46)
            },
            Motion::LineStart => sequence(&[], 0x47),
            Motion::LineAbsolute(n) => sequence(&[n as u32], 0x47),
            Motion::ScreenStart => sequence(&[], 0x48),
            Motion::ToPosition(x, y) => sequence(&[y as u32 + 1, x as u32 + 1], 0x48),
            Motion::ScrollUp => sequence(&[], 0x53),
            Motion::ScrollDown => sequence(&[], 0x54),
        }
    }
}

/// A terminal action other than a movement.
#[derive(Debug, Clone, Copy, PartialEq, Eq, Structural)]
pub enum Action {
    EraseToScreenEnd,
    EraseToScreenStart,
    EraseToLineEnd,
    EraseToLineStart,
    EraseLine,
    /// Also moves the cursor to the top-left corner for compatibility.
    EraseScreen,
    /// Also moves the cursor to the top-left corner for compatibility.
    EraseScrollback,
    CursorVisible(bool),
    AlternateBuffer(bool),
    BracketPaste(bool),
    FocusReport(bool),
}

/// A private-mode switch: ESC `[?`, the mode number, then `h` to set it or `l` to reset it.
pub open spec fn mode_switch(mode: u32, on: bool) -> Seq<u8> {
    csi_of(seq![0x3f], seq![mode], if on { 0x68 } else { 0x6c })
}

impl Action {
    /// The bytes of the escape sequence that performs this action.
    pub open spec fn ansi_bytes(self) -> Seq<u8> {
        match self {
            Action::EraseToLineEnd => csi_of(seq![], seq![0], 0x4b),
            Action::EraseToLineStart => csi_of(seq![], seq![1], 0x4b),
            Action::EraseLine => csi_of(seq![], seq![2], 0x4b),
            Action::EraseToScreenEnd => csi_of(seq![], seq![0], 0x4a),
            Action::EraseToScreenStart => csi_of(seq![], seq![1], 0x4a),
            Action::EraseScreen => csi_of(seq![], seq![2], 0x4a) + csi_of(seq![], seq![], 0x48),
            Action::EraseScrollback => csi_of(seq![], seq![3], 0x4a) + csi_of(seq![], seq![], 0x48),
            Action::CursorVisible(v) => mode_switch(25, v),
            Action::AlternateBuffer(b) => mode_switch(1049, b),
            Action::BracketPaste(b) => mode_switch(2004, b),
            Action::FocusReport(r) => mode_switch(1004, r),
        }
    }
}

proof fn lemma_action_ascii(a: Action)
    ensures
        is_ascii(a.ansi_bytes()),
{
    let none: Seq<u8> = seq![];
    let private: Seq<u8> = seq![0x3f];
    assert(is_ascii(none));
    assert(is_ascii(private));
    let map = |p: u32| p as nat;
    match a {
        Action::EraseToLineEnd => lemma_csi_ascii(none, seq![0u32].map_values(map), 0x4b),
        Action::EraseToLineStart => lemma_csi_ascii(none, seq![1u32].map_values(map), 0x4b),
        Action::EraseLine => lemma_csi_ascii(none, seq![2u32].map_values(map), 0x4b),
        Action::EraseToScreenEnd => lemma_csi_ascii(none, seq![0u32].map_values(map), 0x4a),
        Action::EraseToScreenStart => lemma_csi_ascii(none, seq![1u32].map_values(map), 0x4a),
        Action::EraseScreen => {
            lemma_csi_ascii(none, seq![2u32].map_values(map), 0x4a);
            lemma_csi_ascii(none, Seq::<u32>::empty().map_values(map), 0x48);
            lemma_concat_ascii(csi_of(none, seq![2], 0x4a), csi_of(none, seq![], 0x48));
        },
        Action::EraseScrollback => {
            lemma_csi_ascii(none, seq![3u32].map_values(map), 0x4a);
            lemma_csi_ascii(none, Seq::<u32>::empty().map_values(map), 0x48);
            lemma_concat_ascii(csi_of(none, seq![3], 0x4a), csi_of(none, seq![], 0x48));
        },
        Action::CursorVisible(v) => lemma_csi_ascii(
            private,
            seq![25u32].map_values(map),
            if v { 0x68 } else { 0x6c },
        ),
        Action::AlternateBuffer(b) => lemma_csi_ascii(
            private,
            seq![1049u32].map_values(map),
            if b { 0x68 } else { 0x6c },
        ),
        Action::BracketPaste(b) => lemma_csi_ascii(
            private,
            seq![2004u32].map_values(map),
            if b { 0x68 } else { 0x6c },
        ),
        Action::FocusReport(r) => lemma_csi_ascii(
            private,
            seq![1004u32].map_values(map),
            if r { 0x68 } else { 0x6c },
        ),
    }
}

fn switch_final(on: bool) -> (r: u8)
    ensures
        r == (if on { 0x68u8 } else { 0x6cu8 }),
{
    if on {
        0x68
    } else {
        0x6c
    }
}

impl ToAnsi for Action {
    open spec fn ansi(&self) -> Seq<char> {
        ascii_chars(self.ansi_bytes())
    }

    fn to_ansi(&self) -> (r: String) {
        let mut out: Vec<u8> = Vec::new();
        match *self {
            Action::EraseToLineEnd => push_csi(&mut out, &[], &[0], 0x4b),
            Action::EraseToLineStart => push_csi(&mut out, &[], &[1], 0x4b),
            Action::EraseLine => push_csi(&mut out, &[], &[2], 0x4b),
            Action::EraseToScreenEnd => push_csi(&mut out, &[], &[0], 0x4a),
            Action::EraseToScreenStart => push_csi(&mut out, &[], &[1], 0x4a),
            Action::EraseScreen => {
                push_csi(&mut out, &[], &[2], 0x4a);
                push_csi(&mut out, &[], &[], 0x48);
            },
            Action::EraseScrollback => {
                push_csi(&mut out, &[], &[3], 0x4a);
                push_csi(&mut out, &[], &[], 0x48);
            },
            Action::CursorVisible(v) => push_csi(&mut out, &[0x3f], &[25], switch_final(v)),
            Action::AlternateBuffer(b) => push_csi(&mut out, &[0x3f], &[1049], switch_final(b)),
            Action::BracketPaste(b) => push_csi(&mut out, &[0x3f], &[2004], switch_final(b)),
            Action::FocusReport(f) => push_csi(&mut out, &[0x3f], &[1004], switch_final(f)),
        }
        proof {
            lemma_action_ascii(*self);
            assert(out@ =~= self.ansi_bytes());
        }
        ascii_string(out)
    }
}

} // verus!
