use diy_terminal::{EditOutcome, History, KbKey, LineEditor};

fn empty_history() -> History {
    History::with_path("/tmp/none".to_string(), Vec::new())
}

fn type_str(ed: &mut LineEditor, h: &mut History, s: &str) {
    for c in s.chars() {
        ed.handle_key(&KbKey::Char(c), h);
    }
}

#[test]
fn typing_builds_the_line() {
    let mut h = empty_history();
    let mut ed = LineEditor::new();
    let r = ed.handle_key(&KbKey::Char('l'), &mut h);
    assert!(matches!(r, EditOutcome::Redraw { back: 0 }));
    type_str(&mut ed, &mut h, "s -a");
    assert_eq!(ed.line(), "ls -a");
    assert_eq!(ed.cursor, 5);
}

#[test]
fn insert_in_the_middle_moves_cursor_back() {
    let mut h = empty_history();
    let mut ed = LineEditor::new();
    type_str(&mut ed, &mut h, "ac");
    assert!(matches!(ed.handle_key(&KbKey::Left, &mut h), EditOutcome::CursorLeft));
    let r = ed.handle_key(&KbKey::Char('b'), &mut h);
    assert!(matches!(r, EditOutcome::Redraw { back: 1 }));
    assert_eq!(ed.line(), "abc");
    assert_eq!(ed.cursor, 2);
}

#[test]
fn backspace_undoes_typing() {
    let mut h = empty_history();
    let mut ed = LineEditor::new();
    type_str(&mut ed, &mut h, "abc");
    ed.handle_key(&KbKey::Left, &mut h);
    ed.handle_key(&KbKey::Char('x'), &mut h);
    assert_eq!(ed.line(), "abxc");
    let r = ed.handle_key(&KbKey::Backspace, &mut h);
    assert!(matches!(r, EditOutcome::Redraw { back: 1 }));
    assert_eq!(ed.line(), "abc");
    assert_eq!(ed.cursor, 2);
    ed.handle_key(&KbKey::Backspace, &mut h);
    assert_eq!(ed.line(), "ac");
    assert_eq!(ed.cursor, 1);
}

#[test]
fn backspace_on_empty_line_does_nothing() {
    let mut h = empty_history();
    let mut ed = LineEditor::new();
    assert!(matches!(ed.handle_key(&KbKey::Backspace, &mut h), EditOutcome::Ignore));
    assert_eq!(ed.line(), "");
}

#[test]
fn left_stops_at_start_and_right_pads_with_space() {
    let mut h = empty_history();
    let mut ed = LineEditor::new();
    assert!(matches!(ed.handle_key(&KbKey::Left, &mut h), EditOutcome::Ignore));
    assert!(matches!(ed.handle_key(&KbKey::Right, &mut h), EditOutcome::CursorRight));
    assert_eq!(ed.line(), " ");
    assert_eq!(ed.cursor, 1);
    type_str(&mut ed, &mut h, "ab");
    ed.handle_key(&KbKey::Left, &mut h);
    ed.handle_key(&KbKey::Left, &mut h);
    ed.handle_key(&KbKey::Right, &mut h);
    assert_eq!(ed.line(), " ab");
    assert_eq!(ed.cursor, 2);
}

#[test]
fn enter_submits_and_ends_browsing() {
    let mut h = History::with_path("/tmp/none".to_string(), vec!["old".to_string()]);
    let mut ed = LineEditor::new();
    ed.handle_key(&KbKey::Up, &mut h);
    assert!(matches!(ed.handle_key(&KbKey::Enter, &mut h), EditOutcome::Submit));
    assert_eq!(ed.line(), "old");
    // browsing starts again from the newest entry
    assert_eq!(h.next().unwrap(), "old");
}

#[test]
fn ctrl_c_quits() {
    let mut h = empty_history();
    let mut ed = LineEditor::new();
    assert!(matches!(ed.handle_key(&KbKey::CtrlC, &mut h), EditOutcome::Quit));
}

#[test]
fn up_and_down_browse_and_restore_typed_line() {
    let mut h = History::with_path(
        "/tmp/none".to_string(),
        vec!["first".to_string(), "second".to_string()],
    );
    let mut ed = LineEditor::new();
    type_str(&mut ed, &mut h, "draft");
    assert!(matches!(ed.handle_key(&KbKey::Up, &mut h), EditOutcome::Redraw { back: 0 }));
    assert_eq!(ed.line(), "second");
    ed.handle_key(&KbKey::Up, &mut h);
    assert_eq!(ed.line(), "first");
    assert!(matches!(ed.handle_key(&KbKey::Up, &mut h), EditOutcome::Ignore));
    assert_eq!(ed.line(), "first");
    ed.handle_key(&KbKey::Down, &mut h);
    assert_eq!(ed.line(), "second");
    ed.handle_key(&KbKey::Down, &mut h);
    assert_eq!(ed.line(), "draft");
    assert!(ed.saved.is_none());
    // the cursor stays where it was
    assert_eq!(ed.cursor, 5);
}

#[test]
fn down_without_browsing_clears_the_line() {
    let mut h = empty_history();
    let mut ed = LineEditor::new();
    type_str(&mut ed, &mut h, "abc");
    assert!(matches!(ed.handle_key(&KbKey::Down, &mut h), EditOutcome::Redraw { back: 0 }));
    assert_eq!(ed.line(), "");
}

#[test]
fn up_on_empty_history_is_ignored() {
    let mut h = empty_history();
    let mut ed = LineEditor::new();
    type_str(&mut ed, &mut h, "x");
    assert!(matches!(ed.handle_key(&KbKey::Up, &mut h), EditOutcome::Ignore));
    assert_eq!(ed.line(), "x");
    assert!(ed.saved.is_none());
}

#[test]
fn unknown_keys_are_reported() {
    let mut h = empty_history();
    let mut ed = LineEditor::new();
    assert!(matches!(ed.handle_key(&KbKey::Unknown(9), &mut h), EditOutcome::ReportByte(9)));
    match ed.handle_key(&KbKey::UnknownMultiByte(vec![0x1b, b'[', b'Z']), &mut h) {
        EditOutcome::ReportSequence(v) => assert_eq!(v, vec![0x1b, b'[', b'Z']),
        r => panic!("got {:?}", r),
    }
    assert_eq!(ed.line(), "");
}

#[test]
fn keys_that_cannot_be_applied_are_refused() {
    let mut h = empty_history();
    let mut ed = LineEditor::new();
    assert!(ed.accepts_key(&KbKey::Backspace));
    type_str(&mut ed, &mut h, "ab");
    ed.handle_key(&KbKey::Left, &mut h);
    ed.handle_key(&KbKey::Left, &mut h);
    assert_eq!(ed.cursor, 0);
    assert!(!ed.accepts_key(&KbKey::Backspace));
    assert!(ed.accepts_key(&KbKey::Char('x')));
    // a short line recalled from the history leaves the cursor past its end
    let mut h = History::with_path("/tmp/none".to_string(), vec!["l".to_string()]);
    let mut ed = LineEditor::new();
    type_str(&mut ed, &mut h, "abc");
    ed.handle_key(&KbKey::Up, &mut h);
    assert_eq!(ed.line(), "l");
    assert_eq!(ed.cursor, 3);
    assert!(!ed.accepts_key(&KbKey::Char('x')));
    assert!(!ed.accepts_key(&KbKey::Backspace));
    assert!(ed.accepts_key(&KbKey::Right));
}

#[test]
fn cursor_counts_bytes_of_recalled_line() {
    let mut h = History::with_path("/tmp/none".to_string(), vec!["é".to_string()]);
    let mut ed = LineEditor::new();
    ed.handle_key(&KbKey::Up, &mut h);
    assert_eq!(ed.line(), "é");
    // one byte right, still inside the two bytes of 'é': no padding
    assert!(matches!(ed.handle_key(&KbKey::Right, &mut h), EditOutcome::CursorRight));
    assert_eq!(ed.line(), "é");
    assert_eq!(ed.cursor, 1);
    // a character cannot go inside 'é'
    assert!(!ed.accepts_key(&KbKey::Char('x')));
    // backspace takes out the character that starts one byte before
    assert!(ed.accepts_key(&KbKey::Backspace));
    assert!(matches!(ed.handle_key(&KbKey::Backspace, &mut h), EditOutcome::Redraw { back: 0 }));
    assert_eq!(ed.line(), "");
    assert_eq!(ed.cursor, 0);
}

#[test]
fn redraw_moves_back_by_bytes() {
    let mut h = History::with_path("/tmp/none".to_string(), vec!["éa".to_string()]);
    let mut ed = LineEditor::new();
    ed.handle_key(&KbKey::Up, &mut h);
    let r = ed.handle_key(&KbKey::Char('x'), &mut h);
    assert_eq!(ed.line(), "xéa");
    assert_eq!(ed.cursor, 1);
    assert!(matches!(r, EditOutcome::Redraw { back: 3 }));
}

#[test]
fn backspace_at_end_after_wide_character_is_refused() {
    let mut h = History::with_path("/tmp/none".to_string(), vec!["aé".to_string()]);
    let mut ed = LineEditor::new();
    type_str(&mut ed, &mut h, "abc");
    ed.handle_key(&KbKey::Up, &mut h);
    assert_eq!(ed.line(), "aé");
    assert_eq!(ed.cursor, 3);
    assert!(!ed.accepts_key(&KbKey::Backspace));
    assert!(ed.accepts_key(&KbKey::Char('z')));
    ed.handle_key(&KbKey::Char('z'), &mut h);
    assert_eq!(ed.line(), "aéz");
    assert_eq!(ed.cursor, 4);
    assert!(ed.accepts_key(&KbKey::Backspace));
    assert!(matches!(ed.handle_key(&KbKey::Backspace, &mut h), EditOutcome::Redraw { back: 0 }));
    assert_eq!(ed.line(), "aé");
}
