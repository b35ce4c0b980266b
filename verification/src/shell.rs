use vstd::prelude::*;

use crate::bins::BinCache;
use crate::builtins::{
    builtin_named, builtin_result, handle_builtin_cmd, BuiltinAction, CommandParsingError,
};
use crate::text::{is_space, lemma_no_words_iff_blank, split_words, str_views, views, words};

verus! {

/// What the shell does with a line typed at the prompt.
#[derive(Debug)]
pub enum LinePlan {
    /// The line holds no command: prompt again.
    Empty,
    /// Carry out a builtin's action, then record the command.
    Builtin { cmd: String, args: Vec<String>, action: BuiltinAction },
    /// Run the executable named `cmd`, then record the command.
    External { cmd: String, args: Vec<String> },
    /// Report that no command is named so.
    NotFound(String),
    /// Report that a builtin refused its arguments.
    Failed(CommandParsingError),
}

/// Whether a plan fits the words of a line: the first word is the command,
/// the others its arguments. A builtin's action is carried out; a name that
/// no builtin has runs as an executable where the cache knows it.
pub open spec fn plan_fits(ws: Seq<Seq<char>>, cache: Map<Seq<char>, Seq<char>>, plan: &LinePlan) -> bool {
    match *plan {
        LinePlan::Empty => ws.len() == 0,
        LinePlan::Builtin { cmd, args, action } => {
            &&& ws.len() > 0
            &&& cmd@ == ws[0]
            &&& views(args@) == ws.skip(1)
            &&& builtin_result(ws[0], ws.skip(1), cache, &Ok(action))
        },
        LinePlan::External { cmd, args } => {
            &&& ws.len() > 0
            &&& views(args@) == ws.skip(1)
            &&& builtin_result(ws[0], ws.skip(1), cache, &Err(CommandParsingError::CommandNotFound(cmd)))
            &&& cache.dom().contains(cmd@)
        },
        LinePlan::NotFound(name) => {
            &&& ws.len() > 0
            &&& builtin_result(ws[0], ws.skip(1), cache, &Err(CommandParsingError::CommandNotFound(name)))
            &&& !cache.dom().contains(name@)
        },
        LinePlan::Failed(e) => {
            &&& ws.len() > 0
            &&& builtin_result(ws[0], ws.skip(1), cache, &Err(e))
            &&& !(e is CommandNotFound)
        },
    }
}

fn as_strs(v: &Vec<String>) -> (res: Vec<&str>)
    ensures
        str_views(res@) == views(v@),
{
    let mut res: Vec<&str> = Vec::new();
    let n = v.len();
    for i in 0..n
        invariant
            n == v@.len(),
            str_views(res@) == views(v@).take(i as int),
    {
        res.push(v[i].as_str());
        assert(views(v@).take(i + 1) == views(v@).take(i as int).push(v@[i as int]@));
    }
    res
}

/// Decides what to do with a line typed at the prompt.
pub fn plan_line(line: &str, cache: &BinCache) -> (res: LinePlan)
    ensures
        plan_fits(words(line@), cache@, &res),
{
    let mut ws = split_words(line);
    if ws.len() == 0 {
        return LinePlan::Empty;
    }
    let ghost all = views(ws@);
    let cmd = ws.remove(0);
    assert(views(ws@) == all.skip(1));
    let result = {
        let args = as_strs(&ws);
        handle_builtin_cmd(cmd.as_str(), &args, cache)
    };
    match result {
        Ok(action) => LinePlan::Builtin { cmd, args: ws, action },
        Err(CommandParsingError::CommandNotFound(name)) => {
            if cache.get(name.as_str()).is_some() {
                LinePlan::External { cmd: name, args: ws }
            } else {
                LinePlan::NotFound(name)
            }
        },
        Err(e) => LinePlan::Failed(e),
    }
}

/// A blank line is skipped and only a blank one; a first word that names no
/// builtin runs as the executable of that name where the cache knows it,
/// and is reported as not found where it does not.
pub proof fn lemma_plan_outline(line: Seq<char>, cache: Map<Seq<char>, Seq<char>>, plan: LinePlan)
    requires
        plan_fits(words(line), cache, &plan),
    ensures
        plan is Empty <==> (forall|i: int| 0 <= i < line.len() ==> is_space(#[trigger] line[i])),
        words(line).len() > 0 && builtin_named(words(line)[0]) is None && cache.dom().contains(
            words(line)[0],
        ) ==> (plan matches LinePlan::External { cmd, args } && cmd@ == words(line)[0] && views(
            args@,
        ) == words(line).skip(1)),
        words(line).len() > 0 && builtin_named(words(line)[0]) is None && !cache.dom().contains(
            words(line)[0],
        ) ==> (plan matches LinePlan::NotFound(name) && name@ == words(line)[0]),
{
    lemma_no_words_iff_blank(line);
}

} // verus!
