use std::path::Path;
use diy_terminal::bins::is_executable_mode;
use diy_terminal::builtins::{handle_builtin_cmd, names_home, type_cmd};
use diy_terminal::{BinCache, BuiltinAction, BuiltinCmd, CommandParsingError};

#[test]
fn parses_builtin_names() {
    assert_eq!("type".parse::<BuiltinCmd>().unwrap(), BuiltinCmd::Type);
    assert_eq!("echo".parse::<BuiltinCmd>().unwrap(), BuiltinCmd::Echo);
    assert_eq!("exit".parse::<BuiltinCmd>().unwrap(), BuiltinCmd::Exit);
    assert_eq!("pwd".parse::<BuiltinCmd>().unwrap(), BuiltinCmd::PrintWorkingDirectory);
    assert_eq!("cd".parse::<BuiltinCmd>().unwrap(), BuiltinCmd::ChangeDirectory);
    assert_eq!(BuiltinCmd::from_name("history").unwrap(), BuiltinCmd::History);
}

#[test]
fn unknown_name_is_not_found() {
    match BuiltinCmd::from_name("ls") {
        Err(CommandParsingError::CommandNotFound(n)) => assert_eq!(n, "ls"),
        r => panic!("got {:?}", r),
    }
    assert!(BuiltinCmd::from_name("Type").is_err());
    assert!(BuiltinCmd::from_name("").is_err());
}

#[test]
fn error_messages() {
    assert_eq!(CommandParsingError::CommandNotFound("foo".to_string()).message(), "foo: not found");
    let e = CommandParsingError::TooManyArgs { cmd_name: "cd".to_string(), max_arg_count: 1 };
    assert_eq!(e.message(), "cd: accepts max 1 arguments!");
    let e = CommandParsingError::InvalidArgCount {
        cmd_name: "type".to_string(),
        min_arg_count: 1,
        arg_count: 3,
        max_arg_count: 1,
    };
    assert_eq!(e.message(), "type: takes from 1 to 1 arguments, got 3");
}

fn cache_with_ls() -> BinCache {
    let mut cache = BinCache::new();
    cache.insert_if_absent("ls".to_string(), "/usr/bin/ls".to_string());
    cache
}

#[test]
fn type_reports_builtins_and_executables() {
    let cache = cache_with_ls();
    assert_eq!(type_cmd(&vec!["echo"], &cache).unwrap(), "echo is a shell builtin");
    assert_eq!(type_cmd(&vec!["ls"], &cache).unwrap(), "ls is /usr/bin/ls");
    match type_cmd(&vec!["nope"], &cache) {
        Err(CommandParsingError::CommandNotFound(n)) => assert_eq!(n, "nope"),
        r => panic!("got {:?}", r),
    }
}

#[test]
fn type_takes_exactly_one_argument() {
    let cache = cache_with_ls();
    for args in [vec![], vec!["ls", "echo"]] {
        match type_cmd(&args, &cache) {
            Err(CommandParsingError::InvalidArgCount { cmd_name, min_arg_count, arg_count, max_arg_count }) => {
                assert_eq!(cmd_name, "type");
                assert_eq!((min_arg_count, arg_count, max_arg_count), (1, args.len(), 1));
            }
            r => panic!("got {:?}", r),
        }
    }
}

#[test]
fn builtin_actions() {
    let cache = cache_with_ls();
    assert!(matches!(handle_builtin_cmd("exit", &vec![], &cache), Ok(BuiltinAction::Exit)));
    match handle_builtin_cmd("echo", &vec!["hello", "world"], &cache) {
        Ok(BuiltinAction::Print(s)) => assert_eq!(s, "hello world"),
        r => panic!("got {:?}", r),
    }
    match handle_builtin_cmd("echo", &vec![], &cache) {
        Ok(BuiltinAction::Print(s)) => assert_eq!(s, ""),
        r => panic!("got {:?}", r),
    }
    match handle_builtin_cmd("type", &vec!["ls"], &cache) {
        Ok(BuiltinAction::Print(s)) => assert_eq!(s, "ls is /usr/bin/ls"),
        r => panic!("got {:?}", r),
    }
    assert!(matches!(
        handle_builtin_cmd("pwd", &vec![], &cache),
        Ok(BuiltinAction::PrintWorkingDirectory)
    ));
    assert!(matches!(handle_builtin_cmd("history", &vec![], &cache), Ok(BuiltinAction::ShowHistory)));
    assert!(matches!(handle_builtin_cmd("cd", &vec![], &cache), Ok(BuiltinAction::CdUsage)));
    assert!(matches!(handle_builtin_cmd("cd", &vec!["~"], &cache), Ok(BuiltinAction::ChangeToHome)));
    match handle_builtin_cmd("cd", &vec!["/tmp", "x"], &cache) {
        Ok(BuiltinAction::ChangeTo(p)) => assert_eq!(p, "/tmp"),
        r => panic!("got {:?}", r),
    }
    match handle_builtin_cmd("ls", &vec!["-l"], &cache) {
        Err(CommandParsingError::CommandNotFound(n)) => assert_eq!(n, "ls"),
        r => panic!("got {:?}", r),
    }
}

#[test]
fn home_path_forms() {
    assert!(names_home("~"));
    assert!(names_home("~/"));
    assert!(names_home("~//"));
    assert!(names_home("~/."));
    assert!(names_home("~/./"));
    assert!(!names_home("~."));
    assert!(!names_home("~/.."));
    assert!(!names_home("~/x"));
    assert!(!names_home("./~"));
    assert!(!names_home(""));
}

#[test]
fn home_path_agrees_with_path_comparison() {
    for p in ["~", "~/", "~//", "~/.", "~/./", "~.", "~/..", "~/x", "./~", "~~", "/~"] {
        assert_eq!(names_home(p), Path::new(p) == Path::new("~"), "{}", p);
    }
}

#[test]
fn executable_mode_bit() {
    assert!(is_executable_mode(0o755));
    assert!(is_executable_mode(0o100));
    assert!(!is_executable_mode(0o644));
    assert!(!is_executable_mode(0o011));
}
