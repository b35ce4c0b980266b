use vstd::prelude::*;

use crate::text::{decimal, decimal_string, push_char};

verus! {

/// ANSI control sequence introducer.
pub const CSI: u8 = 0x9b;

/// ANSI escape.
pub const ESC: u8 = 0x1b;

/// A key read from the terminal in raw mode.
#[derive(Debug)]
pub enum KbKey {
    Char(char),
    Up,
    Down,
    Left,
    Right,
    Backspace,
    Enter,
    CtrlC,
    Unknown(u8),
    UnknownMultiByte(Vec<u8>),
}

/// What the first byte of a key tells: the key itself, or that an escape
/// sequence has begun whose next two bytes decide the key.
#[derive(Debug)]
pub enum KeyStart {
    Key(KbKey),
    Escape,
}

/// Whether a byte is a printable ASCII character other than space.
pub open spec fn is_ascii_graphic(b: u8) -> bool {
    0x21 <= b <= 0x7e
}

/// The key that a single byte stands for, or `Escape` where it starts a
/// sequence.
pub open spec fn key_of_byte(b: u8) -> KeyStart {
    if b == 0x0d || b == 0x0a {
        KeyStart::Key(KbKey::Enter)
    } else if b == 0x03 {
        KeyStart::Key(KbKey::CtrlC)
    } else if b == 0x7f || b == 0x08 {
        KeyStart::Key(KbKey::Backspace)
    } else if is_ascii_graphic(b) || b == 0x20 {
        KeyStart::Key(KbKey::Char((b as u32) as char))
    } else if b == ESC {
        KeyStart::Escape
    } else {
        KeyStart::Key(KbKey::Unknown(b))
    }
}

fn byte_char(b: u8) -> (c: char)
    ensures
        c == (b as u32) as char,
{
    b as char
}

/// Decodes the first byte of a key.
pub fn get_key(raw_key: u8) -> (res: KeyStart)
    ensures
        res == key_of_byte(raw_key),
{
    if raw_key == 0x0d || raw_key == 0x0a {
        KeyStart::Key(KbKey::Enter)
    } else if raw_key == 0x03 {
        KeyStart::Key(KbKey::CtrlC)
    } else if raw_key == 0x7f || raw_key == 0x08 {
        KeyStart::Key(KbKey::Backspace)
    } else if (0x21 <= raw_key && raw_key <= 0x7e) || raw_key == 0x20 {
        KeyStart::Key(KbKey::Char(byte_char(raw_key)))
    } else if raw_key == ESC {
        KeyStart::Escape
    } else {
        KeyStart::Key(KbKey::Unknown(raw_key))
    }
}

/// The key of an escape sequence, from the two bytes that follow the escape:
/// an arrow for `A`, `B`, `C` or `D` as second byte, unless the bitwise
/// complement of the first byte is the control sequence introducer (the
/// first byte is then `d`, 0x64); every other sequence is reported whole.
pub open spec fn escape_key_spec(b0: u8, b1: u8) -> Option<KbKey> {
    if b0 == 0x64 {
        None
    } else if b1 == 0x41 {
        Some(KbKey::Up)
    } else if b1 == 0x42 {
        Some(KbKey::Down)
    } else if b1 == 0x43 {
        Some(KbKey::Right)
    } else if b1 == 0x44 {
        Some(KbKey::Left)
    } else {
        None
    }
}

fn unknown_sequence(b0: u8, b1: u8) -> (res: KbKey)
    ensures
        res matches KbKey::UnknownMultiByte(v) && v@ == seq![ESC, b0, b1],
{
    let mut v: Vec<u8> = Vec::new();
    v.push(ESC);
    v.push(b0);
    v.push(b1);
    KbKey::UnknownMultiByte(v)
}

/// Decodes the two bytes that follow an escape.
pub fn escape_key(b0: u8, b1: u8) -> (res: KbKey)
    ensures
        escape_key_spec(b0, b1) matches Some(k) ==> res == k,
        escape_key_spec(b0, b1) is None ==> (res matches KbKey::UnknownMultiByte(v) && v@
            == seq![ESC, b0, b1]),
{
    assert((!b0 == CSI) == (b0 == 0x64u8)) by (bit_vector);
    if !b0 == CSI {
        return unknown_sequence(b0, b1);
    }
    if b1 == 0x41 {
        KbKey::Up
    } else if b1 == 0x42 {
        KbKey::Down
    } else if b1 == 0x43 {
        KbKey::Right
    } else if b1 == 0x44 {
        KbKey::Left
    } else {
        unknown_sequence(b0, b1)
    }
}

/// A cursor movement by zero columns, which ANSI cannot express: its
/// sequences count from one.
#[derive(Debug)]
pub struct OffByOneError(pub usize);

impl OffByOneError {
    /// The message that describes the error.
    pub fn message(&self) -> (res: String)
        ensures
            res@ == "off-by-one-error: ANSI counts from one, got: "@ + decimal(self.0 as nat),
    {
        let mut res = String::new();
        res.append("off-by-one-error: ANSI counts from one, got: ");
        let n = decimal_string(self.0);
        res.append(n.as_str());
        res
    }
}

/// The sequence `ESC [ n letter` of an ANSI cursor movement.
pub open spec fn cursor_move_sequence(n: nat, letter: char) -> Seq<char> {
    seq!['\x1b', '['] + decimal(n) + seq![letter]
}

fn cursor_move(n: usize, letter: char) -> (res: Result<String, OffByOneError>)
    ensures
        match res {
            Ok(s) => n >= 1 && s@ == cursor_move_sequence(n as nat, letter),
            Err(e) => n < 1 && e.0 == n,
        },
{
    if n < 1 {
        return Err(OffByOneError(n));
    }
    let mut s = String::new();
    push_char(&mut s, '\x1b');
    push_char(&mut s, '[');
    let digits = decimal_string(n);
    s.append(digits.as_str());
    push_char(&mut s, letter);
    Ok(s)
}

/// The sequence that moves the terminal cursor `n` columns right.
pub fn move_cursor_right_n(n: usize) -> (res: Result<String, OffByOneError>)
    ensures
        match res {
            Ok(s) => n >= 1 && s@ == cursor_move_sequence(n as nat, 'C'),
            Err(e) => n < 1 && e.0 == n,
        },
{
    cursor_move(n, 'C')
}

/// The sequence that moves the terminal cursor `n` columns left.
pub fn move_cursor_left_n(n: usize) -> (res: Result<String, OffByOneError>)
    ensures
        match res {
            Ok(s) => n >= 1 && s@ == cursor_move_sequence(n as nat, 'D'),
            Err(e) => n < 1 && e.0 == n,
        },
{
    cursor_move(n, 'D')
}

/// The sequence that clears the current terminal line: a carriage return,
/// then erase to the end of the line.
pub fn clear_line() -> (res: String)
    ensures
        res@ == seq!['\r', '\x1b', '[', 'K'],
{
    let mut s = String::new();
    push_char(&mut s, '\r');
    push_char(&mut s, '\x1b');
    push_char(&mut s, '[');
    push_char(&mut s, 'K');
    s
}

/// Every printable ASCII byte, space included, is typed as the character
/// with that code; no other byte is.
pub proof fn lemma_printable_bytes_are_typed(b: u8)
    ensures
        0x20 <= b <= 0x7e ==> key_of_byte(b) == KeyStart::Key(KbKey::Char((b as u32) as char)),
        key_of_byte(b) matches KeyStart::Key(KbKey::Char(c)) ==> 0x20 <= b <= 0x7e && c as u32
            == b as u32,
{
}

/// Carriage return and line feed end the line; only they do.
pub proof fn lemma_enter_bytes(b: u8)
    ensures
        key_of_byte(b) == KeyStart::Key(KbKey::Enter) <==> (b == 0x0d || b == 0x0a),
{
}

/// After an escape, `A`, `B`, `C` and `D` are the up, down, right and left
/// arrows, whatever the first byte (but for `d`, whose complement is the
/// control sequence introducer); no other second byte gives a key.
pub proof fn lemma_arrow_sequences(b0: u8, b1: u8)
    ensures
        b0 != 0x64 ==> escape_key_spec(b0, 0x41) == Some(KbKey::Up),
        b0 != 0x64 ==> escape_key_spec(b0, 0x42) == Some(KbKey::Down),
        b0 != 0x64 ==> escape_key_spec(b0, 0x43) == Some(KbKey::Right),
        b0 != 0x64 ==> escape_key_spec(b0, 0x44) == Some(KbKey::Left),
        escape_key_spec(b0, b1) is Some ==> b0 != 0x64 && 0x41 <= b1 <= 0x44,
{
}

/// A byte reported as unknown is reported as itself, and is none of the
/// bytes that stand for a key or start an escape sequence.
pub proof fn lemma_unknown_bytes(b: u8)
    ensures
        key_of_byte(b) matches KeyStart::Key(KbKey::Unknown(x)) ==> x == b,
        key_of_byte(b) matches KeyStart::Key(KbKey::Unknown(_)) <==> !(0x20 <= b <= 0x7e || b
            == 0x0d || b == 0x0a || b == 0x03 || b == 0x7f || b == 0x08 || b == ESC),
        key_of_byte(b) is Escape <==> b == ESC,
{
}

} // verus!
