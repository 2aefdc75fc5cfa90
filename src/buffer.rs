use vstd::prelude::*;
use vstd::utf8::encode_utf8;
use vstd::string::StringSliceAdditionalSpecFns;

use crate::editor::{Mode, Source};
use crate::input::{Event, SpecialKey};
use crate::rope::{Rope, RopeIterator};

verus! {

/// A cursor position: line and column, and the column that vertical moves aim for.
#[derive(Debug, Clone, Copy, PartialEq, Eq, Structural)]
pub struct SelectionPoint {
    pub line: u32,
    pub col: u32,
    pub target_col: u32,
}

/// A cursor, or a range from a start position to a cursor.
#[derive(Debug, Clone, Copy, PartialEq, Eq, Structural)]
pub enum Selection {
    Point(SelectionPoint),
    Range { start_line: u32, start_col: u32, end: SelectionPoint },
}

impl Selection {
    /// The cursor at the first column of the first line.
    pub open spec fn start() -> Selection {
        Selection::Point(SelectionPoint { line: 1, col: 1, target_col: 1 })
    }

    /// Moves the selection by columns and lines. Moving needs the lengths of the lines around
    /// the selection, so that the cursor can wrap and set its target column; a selection does
    /// not know them, so it stays where it is.
    pub fn move_by(&mut self, offset_x: i32, offset_y: i32)
        ensures
            *final(self) == *old(self),
    {
    }
}

/// The bytes a buffer starts with: the text itself for a string source, else what was read
/// from the file.
pub open spec fn initial_content(source: Source, file_data: Seq<u8>) -> Seq<u8> {
    match source {
        Source::String(s) => encode_utf8(s@),
        Source::File(_) => file_data,
    }
}

/// An open document: its content, where it came from, and its selections.
pub struct Buffer {
    selections: Vec<Selection>,
    source: Source,
    rope: Rope,
}

impl Buffer {
    /// The bytes of the document.
    pub closed spec fn content(&self) -> Seq<u8> {
        self.rope@
    }

    /// The selections, in order.
    pub closed spec fn selections(&self) -> Seq<Selection> {
        self.selections@
    }

    /// Where the content came from.
    pub closed spec fn origin(&self) -> Source {
        self.source
    }

    /// A buffer over `source`, with one cursor at the start. `file_data` is what was read from
    /// the file where `source` is one; it is not used for a string source.
    pub fn new(source: Source, file_data: &[u8]) -> (r: Buffer)
        ensures
            r.content() == initial_content(source, file_data@),
            r.selections() == seq![Selection::start()],
            r.origin() == source,
    {
        let mut rope = Rope::new();
        match &source {
            Source::File(_) => {
                // Asking for the length brings the fact that it fits in a `usize`.
                let _ = file_data.len();
                let _ = rope.insert_bytes(file_data, 0);
                assert(rope@ =~= file_data@);
            },
            Source::String(s) => {
                let text = s.as_str().as_bytes();
                let _ = text.len();
                let _ = rope.insert_bytes(text, 0);
                assert(rope@ =~= text@);
            },
        }
        let mut selections: Vec<Selection> = Vec::with_capacity(1);
        selections.push(
            Selection::Point(SelectionPoint { line: 1, col: 1, target_col: 1 }),
        );
        Buffer { selections, source, rope }
    }

    fn move_cursor(&mut self, offset_x: i32, offset_y: i32)
        ensures
            final(self).selections() == old(self).selections(),
            final(self).content() == old(self).content(),
            final(self).origin() == old(self).origin(),
    {
        let mut k: usize = 0;
        while k < self.selections.len()
            invariant
                k <= self.selections@.len(),
                self.selections@ == old(self).selections@,
                self.rope@ == old(self).rope@,
                self.source == old(self).source,
            decreases self.selections@.len() - k,
        {
            let mut sel = self.selections[k];
            sel.move_by(offset_x, offset_y);
            self.selections.set(k, sel);
            assert(self.selections@ =~= old(self).selections@);
            k = k + 1;
        }
    }

    /// Applies an event: the arrow keys move every selection by one column or line. The
    /// content is never changed by an event here.
    pub fn trigger_event(&mut self, event: Event, mode: &Mode)
        ensures
            final(self).selections() == old(self).selections(),
            final(self).content() == old(self).content(),
            final(self).origin() == old(self).origin(),
    {
        match event {
            Event::SpecialKey(SpecialKey::Up) => self.move_cursor(0, -1),
            Event::SpecialKey(SpecialKey::Down) => self.move_cursor(0, 1),
            Event::SpecialKey(SpecialKey::Left) => self.move_cursor(-1, 0),
            Event::SpecialKey(SpecialKey::Right) => self.move_cursor(1, 0),
            _ => {},
        }
    }

    /// A forward iterator over the bytes of the document.
    pub fn iter(&self) -> (r: RopeIterator<'_>)
        ensures
            r.source() == self.content(),
            r.position() == 0,
    {
        self.rope.iter()
    }
}

} // verus!
