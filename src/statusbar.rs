use vstd::prelude::*;

use vstd::string::StringSliceAdditionalSpecFns;
use vstd::utf8::encode_utf8;

use crate::ansi::{ascii_chars, concat, strip, stripped, ToAnsi};
use crate::control::{Action, Motion};
use crate::editor::Mode;
use crate::style::{Color, Style};

verus! {

/// One piece of the status bar.
#[derive(Debug, Clone)]
pub enum StatusbarModule {
    Whitespace { length: u16 },
    /// Ends a section: the sections are spread over the width of the bar.
    Flex,
    Text { content: String, style: Option<Style> },
    Row,
    Column,
    Filename,
    RowPercent,
    Mode,
}

/// The bar at the bottom of the screen: its colors and its pieces, left to right.
#[derive(Debug, Clone)]
pub struct Statusbar {
    pub background: Color,
    pub foreground: Color,
    pub modules: Vec<StatusbarModule>,
}

/// The colors of the editor and the layout of its status bar.
#[derive(Debug, Clone)]
pub struct Stylesheet {
    pub background: Color,
    pub text: Color,
    pub statusbar: Statusbar,
}

impl Default for Stylesheet {
    /// Terminal colors for the text; a black-on-white bar that shows the mode and the file name.
    fn default() -> (r: Stylesheet)
        ensures
            r.background == Color::Uncolored,
            r.text == Color::Uncolored,
            r.statusbar.background == Color::White,
            r.statusbar.foreground == Color::Black,
            r.statusbar.modules@.len() == 4,
            r.statusbar.modules@[0] == (StatusbarModule::Whitespace { length: 1 }),
            r.statusbar.modules@[1] == StatusbarModule::Mode,
            r.statusbar.modules@[2] == (StatusbarModule::Whitespace { length: 1 }),
            r.statusbar.modules@[3] == StatusbarModule::Filename,
    {
        Stylesheet {
            background: Color::Uncolored,
            text: Color::Uncolored,
            statusbar: Statusbar {
                background: Color::White,
                foreground: Color::Black,
                modules: vec![
                    StatusbarModule::Whitespace { length: 1 },
                    StatusbarModule::Mode,
                    StatusbarModule::Whitespace { length: 1 },
                    StatusbarModule::Filename,
                ],
            },
        }
    }
}

/// The name of a mode, as the status bar shows it.
pub open spec fn mode_name(mode: Mode) -> Seq<char> {
    match mode {
        Mode::Normal => "Normal"@,
        Mode::Insert => "Insert"@,
        Mode::Select => "Select"@,
    }
}

/// The text that a module adds to its section (a `Flex` adds none: it ends the section).
/// Modules that have no text of their own yet show `@`.
pub open spec fn module_text(m: StatusbarModule, mode: Mode) -> Seq<char> {
    match m {
        StatusbarModule::Whitespace { length } => Seq::new(length as nat, |k: int| ' '),
        StatusbarModule::Flex => Seq::empty(),
        StatusbarModule::Text { content, style } => content@,
        StatusbarModule::Mode => mode_name(mode),
        _ => seq!['@'],
    }
}

/// The texts of the sections of `modules`: each `Flex` ends one section and starts the next.
pub open spec fn section_texts(modules: Seq<StatusbarModule>, mode: Mode) -> Seq<Seq<char>>
    decreases modules.len(),
{
    if modules.len() == 0 {
        seq![Seq::empty()]
    } else {
        let before = section_texts(modules.drop_last(), mode);
        if modules.last() is Flex {
            before.push(Seq::empty())
        } else {
            before.update(
                before.len() - 1,
                before.last() + module_text(modules.last(), mode),
            )
        }
    }
}

/// The sections that the bar lays out: at least two, so that the last one is right-aligned.
pub open spec fn laid_out(modules: Seq<StatusbarModule>, mode: Mode) -> Seq<Seq<char>> {
    let s = section_texts(modules, mode);
    if s.len() == 1 {
        s.push(Seq::empty())
    } else {
        s
    }
}

/// The number of bytes that a section takes on screen: its UTF-8 length without escape
/// sequences.
pub open spec fn visible_len(section: Seq<char>) -> int {
    encode_utf8(stripped(section)).len() as usize as int
}

/// The column where section `i` of `count` starts on a bar `width` columns wide: the last one
/// ends at the right edge, the others are centred on evenly spaced points; a column that would
/// fall left of the edge is the edge.
pub open spec fn column(i: int, count: int, width: int, visible: int) -> int {
    if i == count - 1 {
        if visible >= width {
            0
        } else {
            width - visible
        }
    } else {
        let point = i * (width / (count - 1));
        if visible / 2 >= point {
            0
        } else {
            point - visible / 2
        }
    }
}

/// The movement to the start of section `i` of `secs`.
pub open spec fn section_motion(secs: Seq<Seq<char>>, i: int, width: int) -> Motion {
    if i == 0 {
        Motion::LineStart
    } else {
        Motion::LineAbsolute(column(i, secs.len() as int, width, visible_len(secs[i])) as u16)
    }
}

/// The first `n` sections of `secs`, each after the movement to its start.
pub open spec fn placed(secs: Seq<Seq<char>>, n: int, width: int) -> Seq<char>
    decreases n,
{
    if n <= 0 {
        Seq::empty()
    } else {
        placed(secs, n - 1, width) + section_motion(secs, n - 1, width).ansi() + secs[n - 1]
    }
}

impl Statusbar {
    /// The characters that draw this bar in `mode` on a line `width` columns wide.
    pub open spec fn drawn(&self, mode: Mode, width: u16) -> Seq<char> {
        ascii_chars(self.background.layer_bytes(40)) + ascii_chars(self.foreground.layer_bytes(30))
            + Action::EraseToLineEnd.ansi() + placed(
            laid_out(self.modules@, mode),
            laid_out(self.modules@, mode).len() as int,
            width as int,
        )
    }

    /// Draws the bar on the current line: its colors, then each section at its column.
    pub fn render(&self, mode: Mode, width: u16) -> (r: String)
        ensures
            r@ == self.drawn(mode, width),
    {
        let mut sections: Vec<String> = Vec::new();
        let mut section = String::new();
        let mut k: usize = 0;
        while k < self.modules.len()
            invariant
                k <= self.modules@.len(),
                sections@.map_values(|t: String| t@).push(section@) == section_texts(
                    self.modules@.take(k as int),
                    mode,
                ),
            decreases self.modules@.len() - k,
        {
            let ghost before = section_texts(self.modules@.take(k as int), mode);
            let ghost done = sections@.map_values(|t: String| t@);
            let ghost current = section@;
            assert(self.modules@.take(k + 1).drop_last() == self.modules@.take(k as int));
            assert(self.modules@.take(k + 1).last() == self.modules@[k as int]);
            match &self.modules[k] {
                StatusbarModule::Flex => {
                    sections.push(section);
                    section = String::new();
                    assert(sections@.map_values(|t: String| t@) =~= done.push(current));
                },
                StatusbarModule::Text { content, style } => {
                    section = concat(section, content.as_str());
                },
                StatusbarModule::Mode => {
                    proof {
                        reveal_strlit("Normal");
                        reveal_strlit("Insert");
                        reveal_strlit("Select");
                    }
                    section = match mode {
                        Mode::Normal => concat(section, "Normal"),
                        Mode::Insert => concat(section, "Insert"),
                        Mode::Select => concat(section, "Select"),
                    };
                },
                StatusbarModule::Whitespace { length } => {
                    let ghost start = section@;
                    let mut j: u16 = 0;
                    while j < *length
                        invariant
                            j <= *length,
                            section@ == start + Seq::new(j as nat, |i: int| ' '),
                        decreases *length - j,
                    {
                        proof {
                            reveal_strlit(" ");
                        }
                        section = concat(section, " ");
                        j = j + 1;
                        assert(section@ =~= start + Seq::new(j as nat, |i: int| ' '));
                    }
                },
                _ => {
                    proof {
                        reveal_strlit("@");
                    }
                    section = concat(section, "@");
                },
            }
            proof {
                if !(self.modules@[k as int] is Flex) {
                    assert(section@ == current + module_text(self.modules@[k as int], mode));
                    assert(sections@.map_values(|t: String| t@) == done);
                }
            }
            k = k + 1;
            assert(sections@.map_values(|t: String| t@).push(section@) =~= section_texts(
                self.modules@.take(k as int),
                mode,
            ));
        }
        assert(self.modules@.take(self.modules@.len() as int) == self.modules@);
        sections.push(section);
        if sections.len() == 1 {
            sections.push(String::new());
        }
        let ghost secs = laid_out(self.modules@, mode);
        assert(sections@.map_values(|t: String| t@) =~= secs);

        let mut out = self.background.as_bg();
        out = concat(out, self.foreground.as_fg().as_str());
        out = concat(out, Action::EraseToLineEnd.to_ansi().as_str());
        let ghost head = out@;
        let count = sections.len();
        let spacing = width as usize / (count - 1);
        let mut i: usize = 0;
        while i < count
            invariant
                count == sections@.len(),
                count >= 2,
                i <= count,
                spacing == width as int / (count - 1),
                sections@.map_values(|t: String| t@) == secs,
                out@ == head + placed(secs, i as int, width as int),
            decreases count - i,
        {
            let sec = &sections[i];
            assert(sec@ == secs[i as int]);
            let motion = if i == 0 {
                Motion::LineStart
            } else {
                let plain = strip(sec.as_str());
                let plain_text = plain.as_str();
                let visible = plain_text.len();
                assert(plain_text@ == stripped(secs[i as int]));
                let col: usize = if i == count - 1 {
                    if visible >= width as usize {
                        0
                    } else {
                        width as usize - visible
                    }
                } else {
                    assert(i * spacing <= width) by (nonlinear_arith)
                        requires
                            i < count - 1,
                            spacing == width as int / (count - 1),
                            count >= 2,
                    ;
                    let point = i * spacing;
                    if visible / 2 >= point {
                        0
                    } else {
                        point - visible / 2
                    }
                };
                Motion::LineAbsolute(col as u16)
            };
            assert(motion == section_motion(secs, i as int, width as int));
            out = concat(out, motion.to_ansi().as_str());
            out = concat(out, sec.as_str());
            i = i + 1;
            assert(out@ =~= head + placed(secs, i as int, width as int));
        }
        out
    }
}

} // verus!
