use std::collections::VecDeque;
use vstd::prelude::*;

use crate::text::{join_strs, joined, str_views, views};

verus! {

/// How many commands the history keeps before it drops the oldest.
pub const DEFAULT_HISTORY_LENGTH: usize = 10_000;

/// The line that the history records for a command and its arguments:
/// the command, one space, then the arguments joined by single spaces.
pub open spec fn history_line(cmd: Seq<char>, args: Seq<Seq<char>>) -> Seq<char> {
    cmd + " "@ + joined(args, " "@)
}

/// The entries after one more line is recorded: the line goes last, and the
/// oldest entry leaves first where the history already holds its limit.
pub open spec fn entries_after_add(entries: Seq<Seq<char>>, line: Seq<char>) -> Seq<Seq<char>> {
    if entries.len() >= DEFAULT_HISTORY_LENGTH {
        entries.drop_first().push(line)
    } else {
        entries.push(line)
    }
}

/// The entries after a series of lines is recorded, one by one.
pub open spec fn entries_after_adds(entries: Seq<Seq<char>>, lines: Seq<Seq<char>>) -> Seq<Seq<char>>
    decreases lines.len(),
{
    if lines.len() == 0 {
        entries
    } else {
        entries_after_add(entries_after_adds(entries, lines.drop_last()), lines.last())
    }
}

/// One step towards older entries (what the up arrow asks for): the new
/// browsing index and the entry it lands on, or the index unchanged and
/// nothing where there is no older entry.
pub open spec fn step_older(entries: Seq<Seq<char>>, index: Option<usize>) -> (Option<usize>, Option<Seq<char>>) {
    let i: int = match index {
        Some(i) => i as int,
        None => entries.len() as int,
    };
    if i == 0 {
        (index, None)
    } else if i - 1 < entries.len() {
        (Some((i - 1) as usize), Some(entries[i - 1]))
    } else {
        (index, None)
    }
}

/// One step towards newer entries (what the down arrow asks for): the new
/// browsing index and the entry it lands on, or the index unchanged and
/// nothing where the browsing has not started or no newer entry exists.
pub open spec fn step_newer(entries: Seq<Seq<char>>, index: Option<usize>) -> (Option<usize>, Option<Seq<char>>) {
    match index {
        None => (index, None),
        Some(i) => {
            if i < usize::MAX && i as int + 1 < entries.len() {
                (Some((i + 1) as usize), Some(entries[i + 1]))
            } else {
                (index, None)
            }
        },
    }
}

/// The view of an optional string slice.
pub open spec fn opt_view(r: Option<&str>) -> Option<Seq<char>> {
    match r {
        Some(s) => Some(s@),
        None => None,
    }
}

/// The command history of the shell, with a position for browsing it.
pub struct History {
    path: String,
    history: VecDeque<String>,
    index: Option<usize>,
}

impl History {
    /// The recorded lines, oldest first.
    pub closed spec fn entries(&self) -> Seq<Seq<char>> {
        self.history@.map_values(|s: String| s@)
    }

    /// Where the browsing stands: the index of the entry shown last, if any.
    pub closed spec fn browse_index(&self) -> Option<usize> {
        self.index
    }

    /// The file that the history is written to.
    pub closed spec fn file(&self) -> Seq<char> {
        self.path@
    }

    /// A history kept in the file `path`, holding the lines read from it.
    pub fn with_path(path: String, lines: Vec<String>) -> (res: History)
        ensures
            res.entries() == views(lines@),
            res.browse_index() is None,
            res.file() == path@,
    {
        let mut history: VecDeque<String> = VecDeque::new();
        let n = lines.len();
        for i in 0..n
            invariant
                n == lines@.len(),
                history@.map_values(|s: String| s@) == views(lines@).take(i as int),
        {
            history.push_back(lines[i].clone());
            assert(views(lines@).take(i + 1) == views(lines@).take(i as int).push(lines@[i as int]@));
        }
        History { path, history, index: None }
    }

    /// The recorded lines, oldest first.
    pub fn get_history(&self) -> (res: &VecDeque<String>)
        ensures
            res@.map_values(|s: String| s@) == self.entries(),
    {
        &self.history
    }

    /// The file that the history is written to.
    pub fn path(&self) -> (res: &String)
        ensures
            res@ == self.file(),
    {
        &self.path
    }

    /// Records a command and its arguments as one line, dropping the oldest
    /// line where the history already holds its limit.
    pub fn add_cmd(&mut self, cmd: &str, args: Vec<&str>)
        ensures
            final(self).entries() == entries_after_add(
                old(self).entries(),
                history_line(cmd@, str_views(args@)),
            ),
            final(self).browse_index() == old(self).browse_index(),
            final(self).file() == old(self).file(),
    {
        if self.history.len() >= DEFAULT_HISTORY_LENGTH {
            self.history.pop_front();
        }
        let mut line = String::new();
        line.append(cmd);
        line.append(" ");
        let rest = join_strs(&args, " ");
        line.append(rest.as_str());
        self.history.push_back(line);
    }

    /// Steps towards newer entries and gives the entry reached.
    pub fn prev(&mut self) -> (res: Option<&str>)
        ensures
            (final(self).browse_index(), opt_view(res)) == step_newer(
                old(self).entries(),
                old(self).browse_index(),
            ),
            final(self).entries() == old(self).entries(),
            final(self).file() == old(self).file(),
    {
        let index = match self.index {
            Some(i) => i,
            None => {
                return None;
            },
        };
        let len = self.history.len();
        let next = match index.checked_add(1) {
            Some(j) => j,
            None => {
                return None;
            },
        };
        if next < len {
            self.index = Some(next);
            Some(self.history[next].as_str())
        } else {
            None
        }
    }

    /// Steps towards older entries and gives the entry reached.
    pub fn next(&mut self) -> (res: Option<&str>)
        ensures
            (final(self).browse_index(), opt_view(res)) == step_older(
                old(self).entries(),
                old(self).browse_index(),
            ),
            final(self).entries() == old(self).entries(),
            final(self).file() == old(self).file(),
    {
        let index = match self.index {
            Some(i) => i,
            None => self.history.len(),
        };
        let before = match index.checked_sub(1) {
            Some(j) => j,
            None => {
                return None;
            },
        };
        if before < self.history.len() {
            self.index = Some(before);
            Some(self.history[before].as_str())
        } else {
            None
        }
    }

    /// Ends the browsing: the next step towards older entries starts again
    /// from the newest one.
    pub fn reset_browsing(&mut self)
        ensures
            final(self).browse_index() is None,
            final(self).entries() == old(self).entries(),
            final(self).file() == old(self).file(),
    {
        self.index = None;
    }
}

/// Recording a line never takes the history past its limit, unless it was
/// already past it (as a file read at start-up may put it), and then it does
/// not grow; the line recorded is always the newest entry.
pub proof fn lemma_add_respects_limit(entries: Seq<Seq<char>>, line: Seq<char>)
    ensures
        entries_after_add(entries, line).len() == if entries.len() >= DEFAULT_HISTORY_LENGTH {
            entries.len()
        } else {
            entries.len() + 1
        },
        entries.len() <= DEFAULT_HISTORY_LENGTH ==> entries_after_add(entries, line).len()
            <= DEFAULT_HISTORY_LENGTH,
        entries_after_add(entries, line).last() == line,
{
}

/// While the limit is not reached, recording lines one by one keeps every
/// entry and puts the lines after them in the order recorded: the history
/// reads back what was loaded, then what was added, newest last.
pub proof fn lemma_adds_append(entries: Seq<Seq<char>>, lines: Seq<Seq<char>>)
    requires
        entries.len() + lines.len() <= DEFAULT_HISTORY_LENGTH,
    ensures
        entries_after_adds(entries, lines) == entries + lines,
    decreases lines.len(),
{
    if lines.len() > 0 {
        lemma_adds_append(entries, lines.drop_last());
        assert(entries + lines == (entries + lines.drop_last()).push(lines.last()));
    } else {
        assert(entries + lines == entries);
    }
}

/// A step towards newer entries undoes a step towards older ones that moved
/// away from an entry being shown.
pub proof fn lemma_newer_undoes_older(entries: Seq<Seq<char>>, i: usize)
    requires
        0 < i < entries.len(),
    ensures
        step_older(entries, Some(i)) == (Some((i - 1) as usize), Some(entries[i - 1])),
        step_newer(entries, step_older(entries, Some(i)).0) == (Some(i), Some(entries[i as int])),
{
}

/// A step towards older entries undoes a step towards newer ones.
pub proof fn lemma_older_undoes_newer(entries: Seq<Seq<char>>, i: usize)
    requires
        entries.len() <= usize::MAX,
        i + 1 < entries.len(),
    ensures
        step_newer(entries, Some(i)) == (Some((i + 1) as usize), Some(entries[i + 1])),
        step_older(entries, step_newer(entries, Some(i)).0) == (Some(i), Some(entries[i as int])),
{
}

/// Browsing that has not started, or was reset, begins at the newest entry;
/// there is nothing newer to step to.
pub proof fn lemma_browse_starts_at_newest(entries: Seq<Seq<char>>)
    requires
        entries.len() <= usize::MAX,
    ensures
        entries.len() > 0 ==> step_older(entries, None) == (
            Some((entries.len() - 1) as usize),
            Some(entries.last()),
        ),
        entries.len() == 0 ==> step_older(entries, None) == (None::<usize>, None::<Seq<char>>),
        step_newer(entries, None) == (None::<usize>, None::<Seq<char>>),
{
}

/// The browsing stops at both ends: past the oldest and past the newest entry
/// a step gives nothing and leaves the position where it is.
pub proof fn lemma_browse_stops_at_ends(entries: Seq<Seq<char>>)
    requires
        entries.len() > 0,
        entries.len() <= usize::MAX,
    ensures
        step_older(entries, Some(0)) == (Some(0usize), None::<Seq<char>>),
        step_newer(entries, Some((entries.len() - 1) as usize)) == (
            Some((entries.len() - 1) as usize),
            None::<Seq<char>>,
        ),
{
}

/// Every step lands on an index of an entry, and gives exactly that entry.
pub proof fn lemma_steps_give_indexed_entry(entries: Seq<Seq<char>>, index: Option<usize>)
    requires
        entries.len() <= usize::MAX,
    ensures
        step_older(entries, index).1 matches Some(e) ==> step_older(entries, index).0 matches Some(
            j,
        ) && j < entries.len() && e == entries[j as int],
        step_newer(entries, index).1 matches Some(e) ==> step_newer(entries, index).0 matches Some(
            j,
        ) && j < entries.len() && e == entries[j as int],
{
}

/// Recording a line keeps the newest entries, in order, and puts the line
/// after them: only the oldest entry may leave, and only where the history
/// holds its limit.
pub proof fn lemma_add_keeps_newest(entries: Seq<Seq<char>>, line: Seq<char>)
    ensures
        ({
            let r = entries_after_add(entries, line);
            &&& r.last() == line
            &&& r.len() >= 1
            &&& r.drop_last() == entries.subrange(entries.len() - (r.len() - 1), entries.len() as int)
            &&& (r.len() - 1 < entries.len() <==> entries.len() >= DEFAULT_HISTORY_LENGTH)
        }),
{
    let r = entries_after_add(entries, line);
    if entries.len() >= DEFAULT_HISTORY_LENGTH {
        assert(r.drop_last() == entries.drop_first());
    } else {
        assert(r.drop_last() == entries);
    }
}

} // verus!
