use diy_terminal::shell::plan_line;
use diy_terminal::text::{char_index_of, decimal_string, join_strs, line_bytes, split_words};
use diy_terminal::{BinCache, BuiltinAction, CommandParsingError, LinePlan};

#[test]
fn splits_on_any_whitespace() {
    assert_eq!(split_words("  ls   -l\t/tmp \n"), vec!["ls", "-l", "/tmp"]);
    assert_eq!(split_words("a\u{3000}b\u{a0}c"), vec!["a", "b", "c"]);
    assert!(split_words(" \t ").is_empty());
    assert!(split_words("").is_empty());
}

#[test]
fn splitting_agrees_with_std() {
    for s in ["", " x ", "a  b", "\u{2003}q\u{85}r", "one two\tthree\r\nfour"] {
        let std: Vec<String> = s.split_whitespace().map(|w| w.to_string()).collect();
        assert_eq!(split_words(s), std);
    }
}

#[test]
fn joins_with_separator() {
    assert_eq!(join_strs(&vec!["a", "b", "c"], ", "), "a, b, c");
    assert_eq!(join_strs(&vec!["a"], " "), "a");
    assert_eq!(join_strs(&vec![], " "), "");
}

#[test]
fn writes_decimal() {
    assert_eq!(decimal_string(0), "0");
    assert_eq!(decimal_string(7), "7");
    assert_eq!(decimal_string(120), "120");
    assert_eq!(decimal_string(usize::MAX), usize::MAX.to_string());
}

fn cache() -> BinCache {
    let mut c = BinCache::new();
    c.insert_if_absent("ls".to_string(), "/bin/ls".to_string());
    c
}

#[test]
fn blank_line_is_empty_plan() {
    assert!(matches!(plan_line("   ", &cache()), LinePlan::Empty));
    assert!(matches!(plan_line("", &cache()), LinePlan::Empty));
}

#[test]
fn builtin_line() {
    match plan_line(" echo  hi there ", &cache()) {
        LinePlan::Builtin { cmd, args, action: BuiltinAction::Print(s) } => {
            assert_eq!(cmd, "echo");
            assert_eq!(args, vec!["hi", "there"]);
            assert_eq!(s, "hi there");
        }
        p => panic!("got {:?}", p),
    }
}

#[test]
fn external_and_missing_commands() {
    match plan_line("ls -l", &cache()) {
        LinePlan::External { cmd, args } => {
            assert_eq!(cmd, "ls");
            assert_eq!(args, vec!["-l"]);
        }
        p => panic!("got {:?}", p),
    }
    match plan_line("frobnicate", &cache()) {
        LinePlan::NotFound(n) => assert_eq!(n, "frobnicate"),
        p => panic!("got {:?}", p),
    }
    // `type` of an unknown name reports that name as not found
    match plan_line("type frobnicate", &cache()) {
        LinePlan::NotFound(n) => assert_eq!(n, "frobnicate"),
        p => panic!("got {:?}", p),
    }
}

#[test]
fn refused_arguments_fail() {
    match plan_line("type", &cache()) {
        LinePlan::Failed(CommandParsingError::InvalidArgCount { arg_count, .. }) => {
            assert_eq!(arg_count, 0)
        }
        p => panic!("got {:?}", p),
    }
}

#[test]
fn byte_lengths_and_boundaries() {
    for s in ["", "abc", "é", "aé€😀"] {
        let v: Vec<char> = s.chars().collect();
        assert_eq!(line_bytes(&v), Some(s.len()));
        for b in 0..=s.len() + 1 {
            let expected = if s.is_char_boundary(b) { Some(s[..b].chars().count()) } else { None };
            assert_eq!(char_index_of(&v, b), expected, "{} {}", s, b);
        }
    }
}
