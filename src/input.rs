use vstd::prelude::*;

verus! {

/// A key that does not stand for text.
#[derive(Debug, Clone, Copy, PartialEq, Eq, Structural)]
pub enum SpecialKey {
    Escape,
    Backspace,
    Insert,
    Delete,
    Up,
    Down,
    Left,
    Right,
    Home,
    End,
    PgUp,
    PgDn,
    Fn(u8),
}

/// Something that the user did at the terminal.
#[derive(Debug, Clone)]
pub enum Event {
    /// A single character of valid unicode (e.g. a UTF-8 sequence). Should only contain printable characters.
    TextChar(char),
    /// A single byte that isn't valid unicode (e.g. ASCII past 127).
    Byte(u8),
    Paste(Vec<u8>),
    Focus(bool),
    SpecialKey(SpecialKey),
    Unknown,
}

/// The byte at `k` of a read buffer, or 0 past its end.
pub open spec fn at(s: Seq<u8>, k: int) -> u8 {
    if 0 <= k < s.len() {
        s[k]
    } else {
        0
    }
}

/// The event of a special key.
pub open spec fn key(k: SpecialKey) -> Option<Event> {
    Some(Event::SpecialKey(k))
}

/// The buffer holds the start of a bracketed paste: ESC `[200~`.
pub open spec fn is_paste_start(s: Seq<u8>, len: int) -> bool {
    &&& len > 1
    &&& at(s, 0) == 0x1b
    &&& at(s, 1) == 0x5b
    &&& at(s, 2) == 0x32
    &&& at(s, 3) == 0x30
    &&& at(s, 4) == 0x30
    &&& at(s, 5) == 0x7e
}

/// The event of an escape sequence, from the bytes that follow ESC (a paste excepted).
pub open spec fn escape_event(s: Seq<u8>) -> Option<Event> {
    let a = at(s, 1);
    let b = at(s, 2);
    let c = at(s, 3);
    let d = at(s, 4);
    if a == 0x5b && b == 0x32 && c == 0x7e {
        key(SpecialKey::Insert)
    } else if a == 0x5b && b == 0x33 && c == 0x7e {
        key(SpecialKey::Delete)
    } else if a == 0x5b && b == 0x48 {
        key(SpecialKey::Home)
    } else if a == 0x5b && b == 0x46 {
        key(SpecialKey::End)
    } else if a == 0x5b && b == 0x35 && c == 0x7e {
        key(SpecialKey::PgUp)
    } else if a == 0x5b && b == 0x36 && c == 0x7e {
        key(SpecialKey::PgDn)
    } else if a == 0x5b && b == 0x41 {
        key(SpecialKey::Up)
    } else if a == 0x5b && b == 0x42 {
        key(SpecialKey::Down)
    } else if a == 0x5b && b == 0x43 {
        key(SpecialKey::Right)
    } else if a == 0x5b && b == 0x44 {
        key(SpecialKey::Left)
    } else if a == 0x4f && 0x50 <= b <= 0x53 {
        key(SpecialKey::Fn((b - 0x4f) as u8))
    } else if a == 0x5b && b == 0x31 && d == 0x7e && (c == 0x35 || c == 0x37 || c == 0x38 || c
        == 0x39) {
        key(SpecialKey::Fn(if c == 0x35 { 5u8 } else { (c - 0x31) as u8 }))
    } else if a == 0x5b && b == 0x32 && d == 0x7e && (c == 0x30 || c == 0x31 || c == 0x33 || c
        == 0x34) {
        key(SpecialKey::Fn(if c <= 0x31 { (c - 0x30 + 9) as u8 } else { (c - 0x33 + 11) as u8 }))
    } else if a == 0x5b && b == 0x49 {
        Some(Event::Focus(true))
    } else if a == 0x5b && b == 0x4f {
        Some(Event::Focus(false))
    } else {
        Some(Event::Unknown)
    }
}

/// The event of a single byte that is not ESC.
pub open spec fn byte_event(u: u8) -> Option<Event> {
    if u == 127 {
        key(SpecialKey::Backspace)
    } else if u == 9 {
        Some(Event::TextChar('\t'))
    } else if u == 13 {
        Some(Event::TextChar('\n'))
    } else if 32 <= u <= 126 {
        Some(Event::TextChar(u as char))
    } else {
        Some(Event::Byte(u))
    }
}

/// The number that the first four bytes of `s` give, least significant first.
pub open spec fn le_word(s: Seq<u8>) -> nat {
    (at(s, 0) + at(s, 1) * 0x100 + at(s, 2) * 0x10000 + at(s, 3) * 0x1000000) as nat
}

/// `x` is the code of a Unicode scalar value: at most 0x10FFFF, and no surrogate.
pub open spec fn is_scalar(x: nat) -> bool {
    x <= 0x10ffff && !(0xd800 <= x <= 0xdfff)
}

/// A read of several bytes that do not start with ESC: the first four bytes, as a
/// little-endian number, give the code of a character.
pub open spec fn is_char_read(s: Seq<u8>, len: int) -> bool {
    len > 1 && at(s, 0) != 0x1b
}

/// The event that a read of `len` bytes into the buffer `s` stands for; `None` where nothing
/// was read. Not used for a paste, whose bytes come in further reads, nor for a character read.
pub open spec fn decoded(s: Seq<u8>, len: int) -> Option<Event> {
    if len == 0 {
        None
    } else if at(s, 0) == 0x1b {
        if len == 1 {
            key(SpecialKey::Escape)
        } else {
            escape_event(s)
        }
    } else {
        byte_event(at(s, 0))
    }
}

/// Relies on `char::from_u32`: the character with code `x` where `x` is a Unicode scalar
/// value, else `None`.
#[verifier::external_body]
fn char_of(x: u32) -> (r: Option<char>)
    ensures
        is_scalar(x as nat) <==> r is Some,
        r is Some ==> r->Some_0 as u32 == x,
{
    char::from_u32(x)
}

fn pad(data: &[u8], k: usize) -> (r: u8)
    ensures
        r == at(data@, k as int),
{
    if k < data.len() {
        data[k]
    } else {
        0
    }
}

fn escape_key(data: &[u8]) -> (r: Option<Event>)
    ensures
        r == escape_event(data@),
{
    let a = pad(data, 1);
    let b = pad(data, 2);
    let c = pad(data, 3);
    let d = pad(data, 4);
    if a == 0x5b && b == 0x32 && c == 0x7e {
        Some(Event::SpecialKey(SpecialKey::Insert))
    } else if a == 0x5b && b == 0x33 && c == 0x7e {
        Some(Event::SpecialKey(SpecialKey::Delete))
    } else if a == 0x5b && b == 0x48 {
        Some(Event::SpecialKey(SpecialKey::Home))
    } else if a == 0x5b && b == 0x46 {
        Some(Event::SpecialKey(SpecialKey::End))
    } else if a == 0x5b && b == 0x35 && c == 0x7e {
        Some(Event::SpecialKey(SpecialKey::PgUp))
    } else if a == 0x5b && b == 0x36 && c == 0x7e {
        Some(Event::SpecialKey(SpecialKey::PgDn))
    } else if a == 0x5b && b == 0x41 {
        Some(Event::SpecialKey(SpecialKey::Up))
    } else if a == 0x5b && b == 0x42 {
        Some(Event::SpecialKey(SpecialKey::Down))
    } else if a == 0x5b && b == 0x43 {
        Some(Event::SpecialKey(SpecialKey::Right))
    } else if a == 0x5b && b == 0x44 {
        Some(Event::SpecialKey(SpecialKey::Left))
    } else if a == 0x4f && 0x50 <= b && b <= 0x53 {
        Some(Event::SpecialKey(SpecialKey::Fn(b - 0x4f)))
    } else if a == 0x5b && b == 0x31 && d == 0x7e && (c == 0x35 || c == 0x37 || c == 0x38 || c
        == 0x39) {
        Some(
            Event::SpecialKey(
                SpecialKey::Fn(
                    if c == 0x35 {
                        5
                    } else {
                        c - 0x31
                    },
                ),
            ),
        )
    } else if a == 0x5b && b == 0x32 && d == 0x7e && (c == 0x30 || c == 0x31 || c == 0x33 || c
        == 0x34) {
        Some(
            Event::SpecialKey(
                SpecialKey::Fn(
                    if c <= 0x31 {
                        c - 0x30 + 9
                    } else {
                        c - 0x33 + 11
                    },
                ),
            ),
        )
    } else if a == 0x5b && b == 0x49 {
        Some(Event::Focus(true))
    } else if a == 0x5b && b == 0x4f {
        Some(Event::Focus(false))
    } else {
        Some(Event::Unknown)
    }
}

/// The event that a read of `len` bytes into `data` stands for (bytes past the end of `data`
/// count as 0). A paste comes out as `Event::Paste` of the buffer's bytes after ESC `[200~`:
/// the caller reads on until `paste_finished` holds of them, then calls `paste_body`.
pub fn decode_event(data: &[u8], len: usize) -> (r: Option<Event>)
    ensures
        is_paste_start(data@, len as int) ==> r is Some && r->Some_0 is Paste && r->Some_0->Paste_0@
            == (if data@.len() >= 6 { data@.skip(6) } else { Seq::empty() }),
        is_char_read(data@, len as int) ==> if is_scalar(le_word(data@)) {
            r is Some && r->Some_0 is TextChar && r->Some_0->TextChar_0 as u32 == le_word(data@)
        } else {
            r == Some(Event::Unknown)
        },
        !is_paste_start(data@, len as int) && !is_char_read(data@, len as int) ==> r == decoded(
            data@,
            len as int,
        ),
{
    let first = pad(data, 0);
    if len == 0 {
        None
    } else if first == 0x1b {
        if len == 1 {
            Some(Event::SpecialKey(SpecialKey::Escape))
        } else if pad(data, 1) == 0x5b && pad(data, 2) == 0x32 && pad(data, 3) == 0x30 && pad(
            data,
            4,
        ) == 0x30 && pad(data, 5) == 0x7e {
            let mut rest: Vec<u8> = Vec::new();
            let mut k: usize = 6;
            while k < data.len()
                invariant
                    6 <= k <= data@.len(),
                    rest@ == data@.subrange(6, k as int),
                decreases data@.len() - k,
            {
                rest.push(data[k]);
                k = k + 1;
            }
            Some(Event::Paste(rest))
        } else {
            escape_key(data)
        }
    } else if len == 1 {
        if first == 127 {
            Some(Event::SpecialKey(SpecialKey::Backspace))
        } else if first == 9 {
            Some(Event::TextChar('\t'))
        } else if first == 13 {
            Some(Event::TextChar('\n'))
        } else if 32 <= first && first <= 126 {
            Some(Event::TextChar(first as char))
        } else {
            Some(Event::Byte(first))
        }
    } else {
        let word: u32 = pad(data, 0) as u32 + pad(data, 1) as u32 * 0x100 + pad(data, 2) as u32
            * 0x10000 + pad(data, 3) as u32 * 0x1000000;
        match char_of(word) {
            Some(c) => Some(Event::TextChar(c)),
            None => Some(Event::Unknown),
        }
    }
}

/// Whether `event` ends the editing session: the Escape key does.
pub fn ends_session(event: &Event) -> (r: bool)
    ensures
        r == (*event == Event::SpecialKey(SpecialKey::Escape)),
{
    match event {
        Event::SpecialKey(SpecialKey::Escape) => true,
        _ => false,
    }
}

/// The bytes that end a bracketed paste: ESC `[201~`.
pub open spec fn paste_end() -> Seq<u8> {
    seq![0x1b, 0x5b, 0x32, 0x30, 0x31, 0x7e]
}

/// Whether the bytes of a paste so far end with the closing sequence ESC `[201~`.
pub fn paste_finished(data: &[u8]) -> (r: bool)
    ensures
        r == (data@.len() >= 6 && data@.skip(data@.len() - 6) == paste_end()),
{
    let n = data.len();
    if n < 6 {
        return false;
    }
    let r = data[n - 6] == 0x1b && data[n - 5] == 0x5b && data[n - 4] == 0x32 && data[n - 3]
        == 0x30 && data[n - 2] == 0x31 && data[n - 1] == 0x7e;
    assert(r == (data@.skip(n - 6) =~= paste_end()));
    r
}

/// The pasted bytes: all but the last six, the closing sequence.
pub fn paste_body(data: Vec<u8>) -> (r: Vec<u8>)
    requires
        data@.len() >= 6,
    ensures
        r@ == data@.take(data@.len() - 6),
{
    let mut data = data;
    let n = data.len();
    data.truncate(n - 6);
    data
}

} // verus!
