use vstd::prelude::*;

use crate::bins::BinCache;
use crate::text::{chars_of, decimal, decimal_string, join_strs, joined, str_views};

verus! {

/// The commands that the shell runs itself.
#[derive(Clone, Copy, Debug, PartialEq, Eq, Structural)]
pub enum BuiltinCmd {
    Echo,
    Type,
    Exit,
    PrintWorkingDirectory,
    ChangeDirectory,
    History,
}

/// Why a command line could not be run.
#[derive(Debug)]
pub enum CommandParsingError {
    CommandNotFound(String),
    TooManyArgs { cmd_name: String, max_arg_count: usize },
    InvalidArgCount { cmd_name: String, min_arg_count: usize, arg_count: usize, max_arg_count: usize },
}

/// The builtin that a command name names, if any.
pub open spec fn builtin_named(s: Seq<char>) -> Option<BuiltinCmd> {
    if s == "type"@ {
        Some(BuiltinCmd::Type)
    } else if s == "echo"@ {
        Some(BuiltinCmd::Echo)
    } else if s == "exit"@ {
        Some(BuiltinCmd::Exit)
    } else if s == "pwd"@ {
        Some(BuiltinCmd::PrintWorkingDirectory)
    } else if s == "cd"@ {
        Some(BuiltinCmd::ChangeDirectory)
    } else if s == "history"@ {
        Some(BuiltinCmd::History)
    } else {
        None
    }
}

/// Whether `e` reports that no command is named `name`.
pub open spec fn is_not_found(e: &CommandParsingError, name: Seq<char>) -> bool {
    e matches CommandParsingError::CommandNotFound(n) && n@ == name
}

/// Whether `e` reports that the command `cmd` got `count` arguments where
/// it takes from `min` to `max`.
pub open spec fn is_invalid_arg_count(
    e: &CommandParsingError,
    cmd: Seq<char>,
    min: usize,
    count: usize,
    max: usize,
) -> bool {
    &&& e matches CommandParsingError::InvalidArgCount {
        cmd_name,
        min_arg_count,
        arg_count,
        max_arg_count,
    }
    &&& cmd_name@ == cmd
    &&& min_arg_count == min
    &&& arg_count == count
    &&& max_arg_count == max
}

/// The message that describes an error.
pub open spec fn error_message(e: &CommandParsingError) -> Seq<char> {
    match e {
        CommandParsingError::CommandNotFound(name) => name@ + ": not found"@,
        CommandParsingError::TooManyArgs { cmd_name, max_arg_count } => cmd_name@
            + ": accepts max "@ + decimal(*max_arg_count as nat) + " arguments!"@,
        CommandParsingError::InvalidArgCount {
            cmd_name,
            min_arg_count,
            arg_count,
            max_arg_count,
        } => cmd_name@ + ": takes from "@ + decimal(*min_arg_count as nat) + " to "@ + decimal(
            *max_arg_count as nat,
        ) + " arguments, got "@ + decimal(*arg_count as nat),
    }
}

impl CommandParsingError {
    /// The message that describes the error.
    pub fn message(&self) -> (res: String)
        ensures
            res@ == error_message(self),
    {
        let mut res = String::new();
        match self {
            CommandParsingError::CommandNotFound(name) => {
                res.append(name.as_str());
                res.append(": not found");
            },
            CommandParsingError::TooManyArgs { cmd_name, max_arg_count } => {
                res.append(cmd_name.as_str());
                res.append(": accepts max ");
                res.append(decimal_string(*max_arg_count).as_str());
                res.append(" arguments!");
            },
            CommandParsingError::InvalidArgCount {
                cmd_name,
                min_arg_count,
                arg_count,
                max_arg_count,
            } => {
                res.append(cmd_name.as_str());
                res.append(": takes from ");
                res.append(decimal_string(*min_arg_count).as_str());
                res.append(" to ");
                res.append(decimal_string(*max_arg_count).as_str());
                res.append(" arguments, got ");
                res.append(decimal_string(*arg_count).as_str());
            },
        }
        res
    }
}

impl BuiltinCmd {
    /// The builtin named `s`, or `CommandNotFound` where none is.
    pub fn from_name(s: &str) -> (res: Result<BuiltinCmd, CommandParsingError>)
        ensures
            match res {
                Ok(c) => builtin_named(s@) == Some(c),
                Err(e) => builtin_named(s@) is None && is_not_found(&e, s@),
            },
    {
        let key = s.to_owned();
        if key == "type".to_owned() {
            Ok(BuiltinCmd::Type)
        } else if key == "echo".to_owned() {
            Ok(BuiltinCmd::Echo)
        } else if key == "exit".to_owned() {
            Ok(BuiltinCmd::Exit)
        } else if key == "pwd".to_owned() {
            Ok(BuiltinCmd::PrintWorkingDirectory)
        } else if key == "cd".to_owned() {
            Ok(BuiltinCmd::ChangeDirectory)
        } else if key == "history".to_owned() {
            Ok(BuiltinCmd::History)
        } else {
            Err(CommandParsingError::CommandNotFound(key))
        }
    }
}

impl core::str::FromStr for BuiltinCmd {
    type Err = CommandParsingError;

    fn from_str(s: &str) -> (res: Result<BuiltinCmd, CommandParsingError>)
        ensures
            match res {
                Ok(c) => builtin_named(s@) == Some(c),
                Err(e) => builtin_named(s@) is None && is_not_found(&e, s@),
            },
    {
        BuiltinCmd::from_name(s)
    }
}

/// What `type` says of a name: that it is a builtin, or where the executable
/// of that name was found; nothing where it is neither.
pub open spec fn type_report(name: Seq<char>, cache: Map<Seq<char>, Seq<char>>) -> Option<Seq<char>> {
    if builtin_named(name) is Some {
        Some(name + " is a shell builtin"@)
    } else if cache.dom().contains(name) {
        Some(name + " is "@ + cache[name])
    } else {
        None
    }
}

/// The `type` builtin: the line it prints for its single argument.
pub fn type_cmd(args: &Vec<&str>, cache: &BinCache) -> (res: Result<String, CommandParsingError>)
    ensures
        match res {
            Ok(line) => args@.len() == 1 && type_report(args@[0]@, cache@) == Some(line@),
            Err(e) => if args@.len() != 1 {
                is_invalid_arg_count(&e, "type"@, 1, args@.len() as usize, 1)
            } else {
                type_report(args@[0]@, cache@) is None && is_not_found(&e, args@[0]@)
            },
        },
{
    if args.len() > 1 || args.len() == 0 {
        return Err(
            CommandParsingError::InvalidArgCount {
                cmd_name: "type".to_owned(),
                min_arg_count: 1,
                arg_count: args.len(),
                max_arg_count: 1,
            },
        );
    }
    let name = args[0];
    if BuiltinCmd::from_name(name).is_ok() {
        let mut line = name.to_owned();
        line.append(" is a shell builtin");
        return Ok(line);
    }
    match cache.get(name) {
        Some(path) => {
            let mut line = name.to_owned();
            line.append(" is ");
            line.append(path.as_str());
            Ok(line)
        },
        None => Err(CommandParsingError::CommandNotFound(name.to_owned())),
    }
}

/// Whether a path names the directory `~` itself: a `~`, then only
/// separators and `.` components, which path comparison disregards.
pub open spec fn is_home_path(p: Seq<char>) -> bool {
    &&& p.len() >= 1
    &&& p[0] == '~'
    &&& forall|i: int|
        1 <= i < p.len() ==> (#[trigger] p[i] == '/' || (p[i] == '.' && p[i - 1] == '/' && (i
            + 1 == p.len() || p[i + 1] == '/')))
}

/// Tests whether a path names the directory `~` itself.
pub fn names_home(p: &str) -> (res: bool)
    ensures
        res == is_home_path(p@),
{
    let c = chars_of(p);
    let n = c.len();
    if n == 0 || c[0] != '~' {
        return false;
    }
    let mut i: usize = 1;
    while i < n
        invariant
            1 <= i <= n,
            n == c@.len(),
            c@ == p@,
            c@[0] == '~',
            forall|j: int|
                1 <= j < i ==> (#[trigger] c@[j] == '/' || (c@[j] == '.' && c@[j - 1] == '/' && (j
                    + 1 == n || c@[j + 1] == '/'))),
        decreases n - i,
    {
        let ok = c[i] == '/' || (c[i] == '.' && c[i - 1] == '/' && (i + 1 == n || c[i + 1] == '/'));
        if !ok {
            return false;
        }
        i = i + 1;
    }
    true
}

/// What the shell does for a builtin command.
#[derive(Debug)]
pub enum BuiltinAction {
    /// Leave the shell.
    Exit,
    /// Print this line.
    Print(String),
    /// Print the working directory.
    PrintWorkingDirectory,
    /// Show the recorded commands.
    ShowHistory,
    /// Change to the home directory.
    ChangeToHome,
    /// Change to this directory.
    ChangeTo(String),
    /// Tell that `cd` needs a directory.
    CdUsage,
}

/// How a builtin command and its arguments are answered: the action, or
/// the error.
pub open spec fn builtin_result(
    cmd: Seq<char>,
    args: Seq<Seq<char>>,
    cache: Map<Seq<char>, Seq<char>>,
    res: &Result<BuiltinAction, CommandParsingError>,
) -> bool {
    match builtin_named(cmd) {
        None => *res matches Err(e) && is_not_found(&e, cmd),
        Some(BuiltinCmd::Exit) => *res matches Ok(BuiltinAction::Exit),
        Some(BuiltinCmd::Echo) => *res matches Ok(BuiltinAction::Print(s)) && s@ == joined(
            args,
            " "@,
        ),
        Some(BuiltinCmd::Type) => match *res {
            Ok(BuiltinAction::Print(line)) => args.len() == 1 && type_report(
                args[0],
                cache,
            ) == Some(line@),
            Ok(_) => false,
            Err(e) => if args.len() != 1 {
                is_invalid_arg_count(&e, "type"@, 1, args.len() as usize, 1)
            } else {
                type_report(args[0], cache) is None && is_not_found(&e, args[0])
            },
        },
        Some(BuiltinCmd::PrintWorkingDirectory) => *res matches Ok(
            BuiltinAction::PrintWorkingDirectory,
        ),
        Some(BuiltinCmd::History) => *res matches Ok(BuiltinAction::ShowHistory),
        Some(BuiltinCmd::ChangeDirectory) => if args.len() == 0 {
            *res matches Ok(BuiltinAction::CdUsage)
        } else if is_home_path(args[0]) {
            *res matches Ok(BuiltinAction::ChangeToHome)
        } else {
            *res matches Ok(BuiltinAction::ChangeTo(p)) && p@ == args[0]
        },
    }
}

/// Decides what a builtin command does with its arguments.
pub fn handle_builtin_cmd(cmd: &str, args: &Vec<&str>, cache: &BinCache) -> (res: Result<
    BuiltinAction,
    CommandParsingError,
>)
    ensures
        builtin_result(cmd@, str_views(args@), cache@, &res),
{
    let builtin = match BuiltinCmd::from_name(cmd) {
        Ok(b) => b,
        Err(e) => {
            return Err(e);
        },
    };
    match builtin {
        BuiltinCmd::Exit => Ok(BuiltinAction::Exit),
        BuiltinCmd::Echo => Ok(BuiltinAction::Print(join_strs(args, " "))),
        BuiltinCmd::Type => match type_cmd(args, cache) {
            Ok(line) => Ok(BuiltinAction::Print(line)),
            Err(e) => Err(e),
        },
        BuiltinCmd::PrintWorkingDirectory => Ok(BuiltinAction::PrintWorkingDirectory),
        BuiltinCmd::History => Ok(BuiltinAction::ShowHistory),
        BuiltinCmd::ChangeDirectory => {
            if args.len() == 0 {
                Ok(BuiltinAction::CdUsage)
            } else if names_home(args[0]) {
                Ok(BuiltinAction::ChangeToHome)
            } else {
                Ok(BuiltinAction::ChangeTo(args[0].to_owned()))
            }
        },
    }
}

/// `type` names a builtin as a builtin, whatever the cache holds for that
/// name: an executable of the same name on the search path does not change
/// the answer.
pub proof fn lemma_type_prefers_builtins(name: Seq<char>, cache: Map<Seq<char>, Seq<char>>)
    requires
        builtin_named(name) is Some,
    ensures
        type_report(name, cache) == Some(name + " is a shell builtin"@),
        forall|other: Map<Seq<char>, Seq<char>>| type_report(name, other) == type_report(name, cache),
{
}

/// For a name that names no builtin, `type` tells the path the cache holds
/// for it, and fails exactly where the cache holds none.
pub proof fn lemma_type_reports_cached_path(name: Seq<char>, cache: Map<Seq<char>, Seq<char>>)
    requires
        builtin_named(name) is None,
    ensures
        cache.dom().contains(name) ==> type_report(name, cache) == Some(name + " is "@ + cache[name]),
        !cache.dom().contains(name) ==> type_report(name, cache) is None,
{
}

/// The name under which a builtin is typed.
pub open spec fn builtin_name(b: BuiltinCmd) -> Seq<char> {
    match b {
        BuiltinCmd::Echo => "echo"@,
        BuiltinCmd::Type => "type"@,
        BuiltinCmd::Exit => "exit"@,
        BuiltinCmd::PrintWorkingDirectory => "pwd"@,
        BuiltinCmd::ChangeDirectory => "cd"@,
        BuiltinCmd::History => "history"@,
    }
}

/// Each builtin is found under its own name, and a name finds a builtin
/// only where it is that builtin's name.
pub proof fn lemma_builtin_names(b: BuiltinCmd, n: Seq<char>)
    ensures
        builtin_named(builtin_name(b)) == Some(b),
        builtin_named(n) == Some(b) ==> n == builtin_name(b),
{
    reveal_strlit("echo");
    reveal_strlit("type");
    reveal_strlit("exit");
    reveal_strlit("pwd");
    reveal_strlit("cd");
    reveal_strlit("history");
    assert("echo"@.len() == 4 && "type"@.len() == 4 && "exit"@.len() == 4);
    assert("pwd"@.len() == 3 && "cd"@.len() == 2 && "history"@.len() == 7);
    assert("echo"@[0] != "type"@[0] && "exit"@[0] != "type"@[0] && "exit"@[1] != "echo"@[1]);
}

/// `~` followed only by separators names the home directory; a path that
/// does not start with `~`, or holds any other character than `/` and a
/// lone `.` component after it, does not.
pub proof fn lemma_home_paths(p: Seq<char>, k: nat)
    ensures
        is_home_path(seq!['~'] + Seq::new(k, |i: int| '/')),
        p.len() == 0 || p[0] != '~' ==> !is_home_path(p),
        (exists|i: int| 1 <= i < p.len() && p[i] != '/' && p[i] != '.') ==> !is_home_path(p),
{
    let q = seq!['~'] + Seq::new(k, |i: int| '/');
    assert forall|i: int| 1 <= i < q.len() implies #[trigger] q[i] == '/' by {}
}

/// What the builtins do with their arguments: `exit` leaves, `echo` prints
/// its arguments joined by single spaces, `pwd` and `history` print, and
/// `cd` goes to its first argument, home for `~`, or tells its usage where
/// it has none.
pub proof fn lemma_builtin_actions(
    args: Seq<Seq<char>>,
    cache: Map<Seq<char>, Seq<char>>,
    res: Result<BuiltinAction, CommandParsingError>,
)
    ensures
        builtin_result(builtin_name(BuiltinCmd::Exit), args, cache, &res) <==> res matches Ok(
            BuiltinAction::Exit,
        ),
        builtin_result(builtin_name(BuiltinCmd::Echo), args, cache, &res) <==> (res matches Ok(
            BuiltinAction::Print(s),
        ) && s@ == joined(args, " "@)),
        builtin_result(builtin_name(BuiltinCmd::PrintWorkingDirectory), args, cache, &res) <==> res matches Ok(
            BuiltinAction::PrintWorkingDirectory,
        ),
        builtin_result(builtin_name(BuiltinCmd::History), args, cache, &res) <==> res matches Ok(
            BuiltinAction::ShowHistory,
        ),
        args.len() == 0 ==> (builtin_result(builtin_name(BuiltinCmd::ChangeDirectory), args, cache, &res)
            <==> res matches Ok(BuiltinAction::CdUsage)),
        args.len() > 0 && args[0] == "~"@ ==> (builtin_result(
            builtin_name(BuiltinCmd::ChangeDirectory),
            args,
            cache,
            &res,
        ) <==> res matches Ok(BuiltinAction::ChangeToHome)),
        args.len() > 0 && !is_home_path(args[0]) ==> (builtin_result(
            builtin_name(BuiltinCmd::ChangeDirectory),
            args,
            cache,
            &res,
        ) <==> (res matches Ok(BuiltinAction::ChangeTo(p)) && p@ == args[0])),
{
    lemma_builtin_names(BuiltinCmd::Exit, Seq::empty());
    lemma_builtin_names(BuiltinCmd::Echo, Seq::empty());
    lemma_builtin_names(BuiltinCmd::PrintWorkingDirectory, Seq::empty());
    lemma_builtin_names(BuiltinCmd::History, Seq::empty());
    lemma_builtin_names(BuiltinCmd::ChangeDirectory, Seq::empty());
    reveal_strlit("~");
}

} // verus!
