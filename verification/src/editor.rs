use vstd::prelude::*;

use crate::history::{step_newer, step_older, History};
use crate::keys::KbKey;
use crate::text::{
    byte_len, char_bytes, char_index, char_index_of, char_len, chars_of, lemma_byte_len_edit,
    lemma_byte_len_prefix, lemma_char_index, line_bytes, string_of,
};

verus! {

/// The line being typed at the prompt.
pub struct LineEditor {
    /// The characters of the line.
    pub buffer: Vec<char>,
    /// Where the next character goes, as a byte offset into the line's UTF-8
    /// form; a key moves it by one byte whatever the character. It may stand
    /// past the end of a line recalled from the history, or inside a
    /// character of more than one byte.
    pub cursor: usize,
    /// The line as typed before the history was browsed, to come back to.
    pub saved: Option<Vec<char>>,
}

/// What the terminal is to show after a key.
#[derive(Debug)]
pub enum EditOutcome {
    /// The line is complete: run it.
    Submit,
    /// Leave the shell.
    Quit,
    /// Nothing to show.
    Ignore,
    /// Clear the line, print the prompt and the buffer, then move the
    /// terminal cursor `back` columns left (not at all where it is zero):
    /// as many as the line has bytes after the cursor.
    Redraw { back: usize },
    /// Move the terminal cursor one column left.
    CursorLeft,
    /// Move the terminal cursor one column right.
    CursorRight,
    /// Report a byte that stands for no key.
    ReportByte(u8),
    /// Report an escape sequence that stands for no key.
    ReportSequence(Vec<u8>),
}

/// The view of an optional line.
pub open spec fn opt_chars(o: Option<Vec<char>>) -> Option<Seq<char>> {
    match o {
        Some(v) => Some(v@),
        None => None,
    }
}

/// The up arrow: the line, the saved line and the browsing index after
/// recalling the next older entry, and whether an entry was recalled. The
/// line as typed is saved on the first recall.
pub open spec fn recall_older(
    buffer: Seq<char>,
    saved: Option<Seq<char>>,
    entries: Seq<Seq<char>>,
    index: Option<usize>,
) -> (Seq<char>, Option<Seq<char>>, Option<usize>, bool) {
    let (next_index, entry) = step_older(entries, index);
    match entry {
        None => (buffer, saved, next_index, false),
        Some(e) => (e, if saved is None { Some(buffer) } else { saved }, next_index, true),
    }
}

/// The down arrow: the line, the saved line and the browsing index after
/// recalling the next newer entry, and whether the line is to be shown
/// again. Past the newest entry the browsing ends and the saved line, or an
/// empty one, comes back.
pub open spec fn recall_newer(
    buffer: Seq<char>,
    saved: Option<Seq<char>>,
    entries: Seq<Seq<char>>,
    index: Option<usize>,
) -> (Seq<char>, Option<Seq<char>>, Option<usize>, bool) {
    let (next_index, entry) = step_newer(entries, index);
    match entry {
        None => (
            match saved {
                Some(v) => v,
                None => Seq::empty(),
            },
            None,
            None,
            true,
        ),
        Some(e) => (e, saved, next_index, true),
    }
}

/// Whether a key can be handled in the given state without a fault.
/// A backspace on a non-empty line needs: with the cursor at the end of the
/// line, a last character of one byte (the cursor then stays at the end);
/// elsewhere, a character starting one byte before the cursor. A typed
/// character needs the cursor on a character boundary. Counting the bytes
/// of the line, and moving the cursor right, must not pass what a `usize`
/// holds.
pub open spec fn key_allowed(s: Seq<char>, cursor: usize, key: KbKey) -> bool {
    match key {
        KbKey::Backspace => s.len() == 0 || (byte_len(s) <= usize::MAX && if cursor == byte_len(s) {
            char_len(s.last()) == 1
        } else {
            0 < cursor && (char_index(s, cursor - 1) matches Some(k) && k < s.len())
        }),
        KbKey::Char(c) => byte_len(s) + char_len(c) <= usize::MAX && char_index(s, cursor as int) is Some,
        KbKey::Right => cursor < usize::MAX && byte_len(s) <= usize::MAX,
        _ => true,
    }
}

impl LineEditor {
    /// An empty line, with nothing saved.
    pub fn new() -> (res: LineEditor)
        ensures
            res.buffer@ == Seq::<char>::empty(),
            res.cursor == 0,
            res.saved is None,
    {
        LineEditor { buffer: Vec::new(), cursor: 0, saved: None }
    }

    /// The line typed so far.
    pub fn line(&self) -> (res: String)
        ensures
            res@ == self.buffer@,
    {
        string_of(&self.buffer)
    }

    /// Whether `handle_key` can take this key in the present state.
    pub fn accepts_key(&self, key: &KbKey) -> (res: bool)
        ensures
            res == key_allowed(self.buffer@, self.cursor, *key),
    {
        let total = line_bytes(&self.buffer);
        match key {
            KbKey::Backspace => {
                if self.buffer.len() == 0 {
                    return true;
                }
                let len = match total {
                    Some(n) => n,
                    None => {
                        return false;
                    },
                };
                if self.cursor == len {
                    char_bytes(self.buffer[self.buffer.len() - 1]) == 1
                } else if self.cursor == 0 {
                    false
                } else {
                    match char_index_of(&self.buffer, self.cursor - 1) {
                        Some(k) => k < self.buffer.len(),
                        None => false,
                    }
                }
            },
            KbKey::Char(c) => {
                let len = match total {
                    Some(n) => n,
                    None => {
                        return false;
                    },
                };
                match len.checked_add(char_bytes(*c)) {
                    Some(_) => char_index_of(&self.buffer, self.cursor).is_some(),
                    None => false,
                }
            },
            KbKey::Right => self.cursor < usize::MAX && total.is_some(),
            _ => true,
        }
    }

    /// Handles one key: edits the line, browses the history, and says what
    /// the terminal is to show.
    pub fn handle_key(&mut self, key: &KbKey, history: &mut History) -> (res: EditOutcome)
        requires
            key_allowed(old(self).buffer@, old(self).cursor, *key),
        ensures
            final(history).entries() == old(history).entries(),
            final(history).file() == old(history).file(),
            match *key {
                KbKey::Enter => {
                    &&& res is Submit
                    &&& *final(self) == *old(self)
                    &&& final(history).browse_index() is None
                },
                KbKey::CtrlC => {
                    &&& res is Quit
                    &&& *final(self) == *old(self)
                    &&& final(history).browse_index() == old(history).browse_index()
                },
                KbKey::Backspace => {
                    &&& final(history).browse_index() == old(history).browse_index()
                    &&& final(self).saved == old(self).saved
                    &&& if old(self).buffer@.len() == 0 {
                        res is Ignore && *final(self) == *old(self)
                    } else if old(self).cursor == byte_len(old(self).buffer@) {
                        &&& final(self).buffer@ == old(self).buffer@.drop_last()
                        &&& final(self).cursor == old(self).cursor - 1
                        &&& res == EditOutcome::Redraw { back: 0 }
                    } else {
                        &&& final(self).buffer@ == old(self).buffer@.remove(
                            char_index(old(self).buffer@, old(self).cursor - 1).unwrap(),
                        )
                        &&& final(self).cursor == old(self).cursor - 1
                        &&& res == EditOutcome::Redraw {
                            back: (byte_len(final(self).buffer@) - final(self).cursor) as usize,
                        }
                    }
                },
                KbKey::Char(c) => {
                    &&& final(history).browse_index() == old(history).browse_index()
                    &&& final(self).saved == old(self).saved
                    &&& final(self).buffer@ == old(self).buffer@.insert(
                        char_index(old(self).buffer@, old(self).cursor as int).unwrap(),
                        c,
                    )
                    &&& final(self).cursor == old(self).cursor + 1
                    &&& res == EditOutcome::Redraw {
                        back: (byte_len(final(self).buffer@) - final(self).cursor) as usize,
                    }
                },
                KbKey::Left => {
                    &&& final(history).browse_index() == old(history).browse_index()
                    &&& if old(self).cursor == 0 {
                        res is Ignore && *final(self) == *old(self)
                    } else {
                        &&& res is CursorLeft
                        &&& final(self).cursor == old(self).cursor - 1
                        &&& final(self).buffer == old(self).buffer
                        &&& final(self).saved == old(self).saved
                    }
                },
                KbKey::Right => {
                    &&& final(history).browse_index() == old(history).browse_index()
                    &&& res is CursorRight
                    &&& final(self).cursor == old(self).cursor + 1
                    &&& final(self).buffer@ == if byte_len(old(self).buffer@) <= old(self).cursor + 1 {
                        old(self).buffer@.push(' ')
                    } else {
                        old(self).buffer@
                    }
                    &&& final(self).saved == old(self).saved
                },
                KbKey::Up => {
                    let (buffer, saved, index, shown) = recall_older(
                        old(self).buffer@,
                        opt_chars(old(self).saved),
                        old(history).entries(),
                        old(history).browse_index(),
                    );
                    &&& final(self).buffer@ == buffer
                    &&& opt_chars(final(self).saved) == saved
                    &&& final(history).browse_index() == index
                    &&& final(self).cursor == old(self).cursor
                    &&& if shown {
                        res == EditOutcome::Redraw { back: 0 }
                    } else {
                        res is Ignore && *final(self) == *old(self)
                    }
                },
                KbKey::Down => {
                    let (buffer, saved, index, shown) = recall_newer(
                        old(self).buffer@,
                        opt_chars(old(self).saved),
                        old(history).entries(),
                        old(history).browse_index(),
                    );
                    &&& final(self).buffer@ == buffer
                    &&& opt_chars(final(self).saved) == saved
                    &&& final(history).browse_index() == index
                    &&& final(self).cursor == old(self).cursor
                    &&& shown
                    &&& res == EditOutcome::Redraw { back: 0 }
                },
                KbKey::Unknown(b) => {
                    &&& res == EditOutcome::ReportByte(b)
                    &&& *final(self) == *old(self)
                    &&& final(history).browse_index() == old(history).browse_index()
                },
                KbKey::UnknownMultiByte(v) => {
                    &&& res matches EditOutcome::ReportSequence(w) && w@ == v@
                    &&& *final(self) == *old(self)
                    &&& final(history).browse_index() == old(history).browse_index()
                },
            },
    {
        match key {
            KbKey::Enter => {
                history.reset_browsing();
                EditOutcome::Submit
            },
            KbKey::CtrlC => EditOutcome::Quit,
            KbKey::Backspace => {
                if self.buffer.len() == 0 {
                    return EditOutcome::Ignore;
                }
                let len = line_bytes(&self.buffer).unwrap();
                if self.cursor == len {
                    self.buffer.pop();
                    self.cursor = self.cursor - 1;
                    return EditOutcome::Redraw { back: 0 };
                }
                let k = char_index_of(&self.buffer, self.cursor - 1).unwrap();
                proof {
                    lemma_char_index(self.buffer@, self.cursor - 1);
                    lemma_byte_len_edit(self.buffer@, k as int, ' ');
                    lemma_byte_len_prefix(self.buffer@, k + 1, self.buffer@.len() as int);
                    assert(self.buffer@.take(self.buffer@.len() as int) == self.buffer@);
                }
                let removed = self.buffer.remove(k);
                let new_len = len - char_bytes(removed);
                self.cursor = self.cursor - 1;
                EditOutcome::Redraw { back: new_len - self.cursor }
            },
            KbKey::Char(c) => {
                let len = line_bytes(&self.buffer).unwrap();
                let k = char_index_of(&self.buffer, self.cursor).unwrap();
                proof {
                    lemma_char_index(self.buffer@, self.cursor as int);
                    lemma_byte_len_edit(self.buffer@, k as int, *c);
                    lemma_byte_len_prefix(self.buffer@, k as int, self.buffer@.len() as int);
                    assert(self.buffer@.take(self.buffer@.len() as int) == self.buffer@);
                }
                self.buffer.insert(k, *c);
                let new_len = len + char_bytes(*c);
                self.cursor = self.cursor + 1;
                EditOutcome::Redraw { back: new_len - self.cursor }
            },
            KbKey::Left => {
                if self.cursor != 0 {
                    self.cursor = self.cursor - 1;
                    EditOutcome::CursorLeft
                } else {
                    EditOutcome::Ignore
                }
            },
            KbKey::Right => {
                let len = line_bytes(&self.buffer).unwrap();
                self.cursor = self.cursor + 1;
                if len <= self.cursor {
                    self.buffer.push(' ');
                }
                EditOutcome::CursorRight
            },
            KbKey::Up => {
                let entry = match history.next() {
                    Some(cmd) => chars_of(cmd),
                    None => {
                        return EditOutcome::Ignore;
                    },
                };
                if self.saved.is_none() {
                    self.saved = Some(self.buffer.clone());
                }
                self.buffer = entry;
                EditOutcome::Redraw { back: 0 }
            },
            KbKey::Down => {
                let entry = match history.prev() {
                    Some(cmd) => Some(chars_of(cmd)),
                    None => None,
                };
                match entry {
                    Some(line) => {
                        self.buffer = line;
                    },
                    None => {
                        history.reset_browsing();
                        self.buffer = match self.saved.take() {
                            Some(v) => v,
                            None => Vec::new(),
                        };
                    },
                }
                EditOutcome::Redraw { back: 0 }
            },
            KbKey::Unknown(b) => EditOutcome::ReportByte(*b),
            KbKey::UnknownMultiByte(v) => EditOutcome::ReportSequence(v.clone()),
        }
    }
}

/// Typing a one-byte character (as every typed key is) and then erasing it
/// with backspace gives the line back, with the cursor where it was: the
/// backspace is allowed, and it takes out exactly the character typed.
pub proof fn lemma_backspace_undoes_char(buffer: Seq<char>, cursor: usize, c: char)
    requires
        char_len(c) == 1,
        char_index(buffer, cursor as int) is Some,
        byte_len(buffer) + 1 <= usize::MAX,
    ensures
        ({
            let k = char_index(buffer, cursor as int).unwrap();
            let typed = buffer.insert(k, c);
            &&& key_allowed(typed, (cursor + 1) as usize, KbKey::Backspace)
            &&& if cursor + 1 == byte_len(typed) {
                typed.drop_last() == buffer
            } else {
                typed.remove(char_index(typed, cursor as int).unwrap()) == buffer
            }
        }),
{
    let k = char_index(buffer, cursor as int).unwrap();
    let typed = buffer.insert(k, c);
    lemma_char_index(buffer, cursor as int);
    lemma_byte_len_edit(buffer, k, c);
    assert(typed.take(k) == buffer.take(k));
    lemma_char_index(typed, cursor as int);
    assert(char_index(typed, cursor as int) == Some(k));
    assert(typed.remove(k) =~= buffer);
    lemma_byte_len_prefix(buffer, k, buffer.len() as int);
    assert(buffer.take(buffer.len() as int) == buffer);
    if cursor + 1 == byte_len(typed) {
        // the character went in at the end of the line
        if k < buffer.len() {
            lemma_byte_len_edit(typed, k + 1, c);
            assert(typed.take(k + 1) == buffer.take(k).push(c));
            assert(buffer.take(k).push(c).drop_last() == buffer.take(k));
            lemma_byte_len_prefix(typed, k + 1, typed.len() as int);
            assert(typed.take(typed.len() as int) == typed);
            assert(typed.take(k + 2) == typed.take(k + 1).push(typed[k + 1]));
            assert(typed.take(k + 2).drop_last() == typed.take(k + 1));
            lemma_byte_len_prefix(typed, k + 2, typed.len() as int);
        }
        assert(typed.drop_last() =~= buffer);
        assert(typed.last() == c);
    }
}

/// Recalling the newest entry with the up arrow and coming back with the
/// down arrow restores the line as typed and ends the browsing.
pub proof fn lemma_down_undoes_up(buffer: Seq<char>, entries: Seq<Seq<char>>)
    requires
        0 < entries.len() <= usize::MAX,
    ensures
        recall_older(buffer, None, entries, None) == (
            entries.last(),
            Some(buffer),
            Some((entries.len() - 1) as usize),
            true,
        ),
        ({
            let (b, s, i, _) = recall_older(buffer, None, entries, None);
            recall_newer(b, s, entries, i)
        }) == (buffer, None::<Seq<char>>, None::<usize>, true),
{
}

/// Without a recalled entry to leave, the down arrow clears the line: an
/// empty line comes back where nothing was saved.
pub proof fn lemma_down_without_browsing_clears(buffer: Seq<char>, entries: Seq<Seq<char>>)
    ensures
        recall_newer(buffer, None, entries, None) == (Seq::<char>::empty(), None::<Seq<char>>, None::<usize>, true),
{
}

/// Keys that never fault are taken in every state: the arrows other than
/// right (left at the start of the line included), enter, Ctrl-C and the
/// unknown bytes and sequences.
pub proof fn lemma_harmless_keys_always_accepted(s: Seq<char>, cursor: usize, b: u8, v: Vec<u8>)
    ensures
        key_allowed(s, cursor, KbKey::Left),
        key_allowed(s, cursor, KbKey::Up),
        key_allowed(s, cursor, KbKey::Down),
        key_allowed(s, cursor, KbKey::Enter),
        key_allowed(s, cursor, KbKey::CtrlC),
        key_allowed(s, cursor, KbKey::Unknown(b)),
        key_allowed(s, cursor, KbKey::UnknownMultiByte(v)),
{
}

/// Typing is taken wherever the cursor is on a character boundary (the end
/// of the line included), within the machine's limit on the line's length.
pub proof fn lemma_typing_accepted_on_boundaries(s: Seq<char>, k: int, c: char)
    requires
        0 <= k <= s.len(),
        byte_len(s.take(k)) <= usize::MAX,
        byte_len(s) + char_len(c) <= usize::MAX,
    ensures
        key_allowed(s, byte_len(s.take(k)) as usize, KbKey::Char(c)),
{
    lemma_char_index(s, byte_len(s.take(k)) as int);
}

/// Backspace on an empty line is taken (and ignored), and the cursor may
/// always move right while there is room to count it.
pub proof fn lemma_backspace_and_right_taken(s: Seq<char>, cursor: usize)
    ensures
        s.len() == 0 ==> key_allowed(s, cursor, KbKey::Backspace),
        cursor < usize::MAX && byte_len(s) <= usize::MAX ==> key_allowed(s, cursor, KbKey::Right),
{
}

} // verus!
