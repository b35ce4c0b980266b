use diy_terminal::keys::{clear_line, escape_key, get_key, move_cursor_left_n, move_cursor_right_n};
use diy_terminal::{KbKey, KeyStart, OffByOneError};

fn key(b: u8) -> KbKey {
    match get_key(b) {
        KeyStart::Key(k) => k,
        KeyStart::Escape => panic!("unexpected escape"),
    }
}

#[test]
fn single_byte_keys() {
    assert!(matches!(key(b'\r'), KbKey::Enter));
    assert!(matches!(key(b'\n'), KbKey::Enter));
    assert!(matches!(key(3), KbKey::CtrlC));
    assert!(matches!(key(0x7f), KbKey::Backspace));
    assert!(matches!(key(8), KbKey::Backspace));
    assert!(matches!(key(b'a'), KbKey::Char('a')));
    assert!(matches!(key(b' '), KbKey::Char(' ')));
    assert!(matches!(key(b'~'), KbKey::Char('~')));
    assert!(matches!(key(b'!'), KbKey::Char('!')));
    assert!(matches!(key(0x80), KbKey::Unknown(0x80)));
    assert!(matches!(key(9), KbKey::Unknown(9)));
    assert!(matches!(get_key(0x1b), KeyStart::Escape));
}

#[test]
fn arrow_sequences() {
    assert!(matches!(escape_key(b'[', b'A'), KbKey::Up));
    assert!(matches!(escape_key(b'[', b'B'), KbKey::Down));
    assert!(matches!(escape_key(b'[', b'C'), KbKey::Right));
    assert!(matches!(escape_key(b'[', b'D'), KbKey::Left));
    assert!(matches!(escape_key(b'O', b'A'), KbKey::Up));
}

#[test]
fn unknown_sequences_are_reported_whole() {
    match escape_key(b'[', b'Z') {
        KbKey::UnknownMultiByte(v) => assert_eq!(v, vec![0x1b, b'[', b'Z']),
        k => panic!("got {:?}", k),
    }
    // the complement of 0x64 is the control sequence introducer
    match escape_key(0x64, b'A') {
        KbKey::UnknownMultiByte(v) => assert_eq!(v, vec![0x1b, 0x64, b'A']),
        k => panic!("got {:?}", k),
    }
}

#[test]
fn cursor_moves() {
    assert_eq!(move_cursor_right_n(1).unwrap(), "\x1b[1C");
    assert_eq!(move_cursor_left_n(12).unwrap(), "\x1b[12D");
    assert_eq!(move_cursor_right_n(100).unwrap(), "\x1b[100C");
}

#[test]
fn cursor_moves_count_from_one() {
    let e = move_cursor_right_n(0).unwrap_err();
    assert_eq!(e.0, 0);
    let e = move_cursor_left_n(0).unwrap_err();
    assert_eq!(e.message(), "off-by-one-error: ANSI counts from one, got: 0");
    assert_eq!(OffByOneError(42).message(), "off-by-one-error: ANSI counts from one, got: 42");
}

#[test]
fn clear_line_sequence() {
    assert_eq!(clear_line(), "\r\x1b[K");
}
