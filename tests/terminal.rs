use rope_editor::ansi::ToAnsi;
use rope_editor::buffer::Buffer;
use rope_editor::control::{Action, Motion};
use rope_editor::editor::{File, Mode, Source};
use rope_editor::input::{decode_event, paste_body, paste_finished, Event, SpecialKey};
use rope_editor::statusbar::{StatusbarModule, Stylesheet};
use rope_editor::style::{Color, Style};

#[test]
fn hex_colors() {
    assert_eq!(Color::try_from_hex("ff8000"), Some(Color::RGB(255, 128, 0)));
    assert_eq!(Color::try_from_hex("0A0b0C"), Some(Color::RGB(10, 11, 12)));
    assert_eq!(Color::try_from_hex("+f0000"), Some(Color::RGB(15, 0, 0)));
    assert_eq!(Color::try_from_hex("zz0000"), None);
    assert_eq!(Color::try_from_hex("fff"), None);
    assert_eq!(Color::try_from_hex("-10000"), None);
    assert_eq!(Color::try_from_hex("a\u{e9}bcd"), None);
}

#[test]
fn color_sequences() {
    assert_eq!(Color::Red.as_fg(), "\x1b[31m");
    assert_eq!(Color::BrightWhite.as_bg(), "\x1b[107m");
    assert_eq!(Color::Uncolored.as_fg(), "\x1b[39m");
    assert_eq!(Color::Uncolored.as_bg(), "\x1b[49m");
    assert_eq!(Color::Unset.as_fg(), "");
    assert_eq!(Color::Index(200).as_fg(), "\x1b[38;5;200m");
    assert_eq!(Color::RGB(1, 2, 3).as_bg(), "\x1b[48;2;1;2;3m");
}

#[test]
fn styles() {
    let red = Style::fg(Color::Red);
    assert_eq!(red.stylize("hi"), "\x1b[22m\x1b[31mhi");
    let bold = Style { fg: None, bg: None, bold: Some(true) };
    assert_eq!(bold.to_ansi(), "\x1b[1m");
    let both = Style::bg(Color::Blue).inherit(red);
    assert_eq!(both, Style { fg: Some(Color::Red), bg: Some(Color::Blue), bold: None });
    assert_eq!(both.to_ansi(), "\x1b[22m\x1b[31m\x1b[44m");
    let stack = vec![red, bold, Style::fg(Color::Green)];
    assert_eq!(
        Style::from_stack(&stack),
        Style { fg: Some(Color::Green), bg: None, bold: Some(true) }
    );
    assert_eq!(Style::from_stack(&Vec::new()), Style::default());
}

#[test]
fn motions_and_actions() {
    assert_eq!(Motion::ToPosition(0, 9).as_ansi(), "\x1b[10;1H");
    assert_eq!(Motion::RelativeLine(-3).to_ansi(), "\x1b[3F");
    assert_eq!(Motion::RelativeLine(4).to_ansi(), "\x1b[4E");
    assert_eq!(Motion::RelativeLine(0).to_ansi(), "\x1b[0F");
    assert_eq!(Motion::UpBy(12).to_ansi(), "\x1b[12A");
    assert_eq!(Motion::LineStart.to_ansi(), "\x1b[G");
    assert_eq!(Motion::default().to_ansi(), "");
    assert_eq!(Action::EraseScreen.to_ansi(), "\x1b[2J\x1b[H");
    assert_eq!(Action::EraseToLineEnd.to_ansi(), "\x1b[0K");
    assert_eq!(Action::CursorVisible(false).to_ansi(), "\x1b[?25l");
    assert_eq!(Action::AlternateBuffer(true).to_ansi(), "\x1b[?1049h");
}

fn read(bytes: &[u8]) -> Option<Event> {
    let mut data = [0u8; 16];
    data[..bytes.len()].copy_from_slice(bytes);
    decode_event(&data, bytes.len())
}

#[test]
fn decoding_input() {
    assert!(read(b"").is_none());
    assert!(matches!(read(b"\x1b"), Some(Event::SpecialKey(SpecialKey::Escape))));
    assert!(matches!(read(b"\x1b[A"), Some(Event::SpecialKey(SpecialKey::Up))));
    assert!(matches!(read(b"\x1b[C"), Some(Event::SpecialKey(SpecialKey::Right))));
    assert!(matches!(read(b"\x1b[3~"), Some(Event::SpecialKey(SpecialKey::Delete))));
    assert!(matches!(read(b"\x1bOQ"), Some(Event::SpecialKey(SpecialKey::Fn(2)))));
    assert!(matches!(read(b"\x1b[15~"), Some(Event::SpecialKey(SpecialKey::Fn(5)))));
    assert!(matches!(read(b"\x1b[19~"), Some(Event::SpecialKey(SpecialKey::Fn(8)))));
    assert!(matches!(read(b"\x1b[21~"), Some(Event::SpecialKey(SpecialKey::Fn(10)))));
    assert!(matches!(read(b"\x1b[24~"), Some(Event::SpecialKey(SpecialKey::Fn(12)))));
    assert!(matches!(read(b"\x1b[I"), Some(Event::Focus(true))));
    assert!(matches!(read(b"\x1b[Z"), Some(Event::Unknown)));
    assert!(matches!(read(b"a"), Some(Event::TextChar('a'))));
    assert!(matches!(read(b"\r"), Some(Event::TextChar('\n'))));
    assert!(matches!(read(b"\x7f"), Some(Event::SpecialKey(SpecialKey::Backspace))));
    assert!(matches!(read(b"\x01"), Some(Event::Byte(1))));
    assert!(matches!(read(b"\xc3\xa9"), Some(Event::TextChar('\u{a9c3}'))));
    assert!(matches!(read(b"\x00\xd8"), Some(Event::Unknown)));
}

#[test]
fn pasting() {
    let ev = read(b"\x1b[200~abc");
    let mut data = match ev {
        Some(Event::Paste(d)) => d,
        _ => panic!("expected a paste"),
    };
    assert_eq!(data, b"abc\0\0\0\0\0\0\0");
    assert!(!paste_finished(&data));
    data.clear();
    data.extend_from_slice(b"xyz\x1b[201~");
    assert!(paste_finished(&data));
    assert_eq!(paste_body(data), b"xyz");
    assert!(!paste_finished(b"\x1b[201"));
}

#[test]
fn buffers() {
    let mut b = Buffer::new(Source::String("h\u{e9}".to_string()), b"ignored");
    assert_eq!(b.iter().rest(), "h\u{e9}".as_bytes());
    b.trigger_event(Event::SpecialKey(SpecialKey::Up), &Mode::default());
    assert_eq!(b.iter().rest(), "h\u{e9}".as_bytes());
    let f = File::open("notes.txt", true);
    assert_eq!(f.path, "notes.txt");
    assert!(f.is_readonly);
    let b = Buffer::new(Source::File(f), b"file text");
    assert_eq!(b.iter().rest(), b"file text");
}

#[test]
fn default_stylesheet() {
    let s = Stylesheet::default();
    assert_eq!(s.background, Color::Uncolored);
    assert_eq!(s.statusbar.background, Color::White);
    assert_eq!(s.statusbar.modules.len(), 4);
    assert!(matches!(s.statusbar.modules[1], StatusbarModule::Mode));
    assert!(matches!(s.statusbar.modules[3], StatusbarModule::Filename));
}

#[test]
fn stripping_escape_codes() {
    assert_eq!(rope_editor::ansi::strip("\x1b[31mred\x1b[0m text"), "red text");
    assert_eq!(rope_editor::ansi::strip("plain"), "plain");
}

#[test]
fn statusbar_layout() {
    let bar = Stylesheet::default().statusbar;
    assert_eq!(
        bar.render(Mode::Normal, 20),
        "\x1b[47m\x1b[30m\x1b[0K\x1b[G Normal @\x1b[20G"
    );
    let bar = rope_editor::statusbar::Statusbar {
        background: Color::Unset,
        foreground: Color::Unset,
        modules: vec![
            StatusbarModule::Text { content: "a".to_string(), style: None },
            StatusbarModule::Flex,
            StatusbarModule::Text { content: "bb".to_string(), style: None },
            StatusbarModule::Flex,
            StatusbarModule::Text { content: "\x1b[1mccc".to_string(), style: None },
        ],
    };
    assert_eq!(
        bar.render(Mode::Insert, 30),
        "\x1b[0K\x1b[Ga\x1b[14Gbb\x1b[27G\x1b[1mccc"
    );
    assert_eq!(Motion::LineAbsolute(7).to_ansi(), "\x1b[7G");
}

#[test]
fn escape_ends_the_session() {
    assert!(rope_editor::input::ends_session(&Event::SpecialKey(SpecialKey::Escape)));
    assert!(!rope_editor::input::ends_session(&Event::SpecialKey(SpecialKey::Up)));
    assert!(!rope_editor::input::ends_session(&Event::Byte(0x1b)));
}
