//! Commands: a line of input is read into the command it specifies, and a
//! list of lines into the list of commands to run.
//!
//! A line is `[options] || command`. The separator ` || ` parts the options
//! from the command; a line without it is a command with default options.
//! The command text is never cut into words: it goes to a shell as it is.

use vstd::prelude::*;
use vstd::string::*;
use crate::options::{CmdOpts, OptsView, parse_outcome};
use crate::text::{chars_of, decimal, decimal_text, is_blank, is_blank_line};

verus! {

/// How the tasks of a run are scheduled.
#[derive(Clone, Copy, Debug, PartialEq, Eq)]
pub enum Threading {
    /// All tasks share one thread and take turns.
    Local,
    /// Tasks may run on several threads.
    Multi,
}

impl Threading {
    /// The scheduling that the user's choice asks for.
    pub fn select(threads: bool) -> (t: Threading)
        ensures
            threads ==> t == Threading::Multi,
            !threads ==> t == Threading::Local,
    {
        if threads {
            Threading::Multi
        } else {
            Threading::Local
        }
    }
}

/// A command as plain values.
pub struct CmdView {
    /// The options from before the separator.
    pub opts: OptsView,
    /// The text that goes to the shell.
    pub command: Seq<char>,
}

/// All that is needed to run one of the commands whose output is zipped.
#[derive(Debug)]
pub struct Cmd {
    /// The options from before the separator.
    opts: CmdOpts,
    /// Command text to pass to the shell.
    command: String,
}

impl View for Cmd {
    type V = CmdView;

    closed spec fn view(&self) -> CmdView {
        CmdView { opts: self.opts@, command: self.command@ }
    }
}

impl DeepView for Cmd {
    type V = CmdView;

    open spec fn deep_view(&self) -> CmdView {
        self@
    }
}

/// Whether the separator ` || ` stands at index `at` of a line.
pub open spec fn separator_at(line: Seq<char>, at: int) -> bool {
    &&& 0 <= at
    &&& at + 4 <= line.len()
    &&& line[at] == ' '
    &&& line[at + 1] == '|'
    &&& line[at + 2] == '|'
    &&& line[at + 3] == ' '
}

/// The index of the first separator in a line at or after `from`; the
/// length of the line where there is none.
pub open spec fn find_separator(line: Seq<char>, from: int) -> int
    decreases line.len() - from,
{
    if from < 0 || from + 4 > line.len() {
        line.len() as int
    } else if separator_at(line, from) {
        from
    } else {
        find_separator(line, from + 1)
    }
}

/// The separator between the options and the command.
pub open spec fn separator() -> Seq<char> {
    seq![' ', '|', '|', ' ']
}

/// The error of a line without command text.
pub open spec fn no_command_text() -> Seq<char> {
    "must supply a command"@
}

/// The error of a line whose options cannot be read: it names the line and
/// gives the reason.
pub open spec fn reading_text(line: Seq<char>, reason: Seq<char>) -> Seq<char> {
    "error reading input command \""@ + line + "\": "@ + reason
}

/// What a line specifies: a command, or the message of the error in it.
///
/// - Without a separator the whole line is the command text, and the
///   options are the defaults.
/// - With one, what stands before the first separator is the option
///   snippet and what stands after it is the command text, as it is.
/// - An option snippet that cannot be read is an error.
/// - Empty command text is an error.
pub open spec fn line_outcome(line: Seq<char>) -> Result<CmdView, Seq<char>> {
    let at = find_separator(line, 0);
    if at >= line.len() {
        if line.len() == 0 {
            Err(no_command_text())
        } else {
            Ok(CmdView { opts: OptsView::none(), command: line })
        }
    } else {
        match parse_outcome(line.subrange(0, at)) {
            Err(reason) => Err(reading_text(line, reason)),
            Ok(opts) => if at + 4 == line.len() {
                Err(no_command_text())
            } else {
                Ok(CmdView { opts, command: line.subrange(at + 4, line.len() as int) })
            },
        }
    }
}

/// A separator that is found in a line is found at the same place in every
/// line that begins with that line.
pub proof fn lemma_separator_in_prefix(line: Seq<char>, rest: Seq<char>, from: int)
    requires
        0 <= from,
        find_separator(line, from) < line.len(),
    ensures
        find_separator(line + rest, from) == find_separator(line, from),
    decreases line.len() - from,
{
    if !separator_at(line, from) {
        lemma_separator_in_prefix(line, rest, from + 1);
    }
}

/// A line made of an option snippet, the separator and a command specifies
/// that command with the options that the snippet gives, provided that the
/// separator put between them is the first in the line and the command is
/// not empty. Where the snippet cannot be read, the line is in error.
pub proof fn lemma_line_with_separator(snippet: Seq<char>, command: Seq<char>)
    requires
        find_separator(snippet + separator(), 0) == snippet.len(),
        command.len() > 0,
    ensures
        line_outcome(snippet + separator() + command) == match parse_outcome(snippet) {
            Ok(opts) => Ok::<CmdView, Seq<char>>(CmdView { opts, command }),
            Err(reason) => Err::<CmdView, Seq<char>>(
                reading_text(snippet + separator() + command, reason),
            ),
        },
{
    let line = snippet + separator() + command;
    lemma_separator_in_prefix(snippet + separator(), command, 0);
    assert(line.subrange(0, snippet.len() as int) =~= snippet);
    assert(line.subrange(snippet.len() as int + 4, line.len() as int) =~= command);
}

/// A line without the separator specifies the whole line as its command,
/// with the default options, unless it is empty.
pub proof fn lemma_line_without_separator(line: Seq<char>)
    requires
        forall|at: int| !separator_at(line, at),
        line.len() > 0,
    ensures
        line_outcome(line) == Ok::<CmdView, Seq<char>>(
            CmdView { opts: OptsView::none(), command: line },
        ),
{
    lemma_no_separator(line, 0);
}

/// Where no separator stands in a line, none is found.
proof fn lemma_no_separator(line: Seq<char>, from: int)
    requires
        forall|at: int| !separator_at(line, at),
    ensures
        find_separator(line, from) == line.len(),
    decreases line.len() - from,
{
    if 0 <= from && from + 4 <= line.len() {
        lemma_no_separator(line, from + 1);
    }
}

/// The error of a list of lines: the index of the line at fault, counted
/// from 0, and the error of that line.
pub open spec fn numbered_text(index: int, reason: Seq<char>) -> Seq<char> {
    "error parsing command from line "@ + decimal(index as nat) + ": "@ + reason
}

/// Reads the lines from index `at` on, with the commands `read` so far: up
/// to the first blank line or the end of the list, stopping at the first
/// line in error.
pub open spec fn commands_from(lines: Seq<Seq<char>>, at: int, read: Seq<CmdView>) -> Result<
    Seq<CmdView>,
    Seq<char>,
>
    decreases lines.len() - at,
{
    if at < 0 || at >= lines.len() || is_blank(lines[at]) {
        Ok(read)
    } else {
        match line_outcome(lines[at]) {
            Ok(cmd) => commands_from(lines, at + 1, read.push(cmd)),
            Err(reason) => Err(numbered_text(at, reason)),
        }
    }
}

/// The commands that a list of lines specifies, or the message of the first
/// error in it. Only the lines before the first blank line count.
pub open spec fn commands_of(lines: Seq<Seq<char>>) -> Result<Seq<CmdView>, Seq<char>> {
    commands_from(lines, 0, Seq::empty())
}

/// The shell that runs the commands.
pub open spec fn shell_text() -> Seq<char> {
    "sh"@
}

/// The shell's option that announces a command.
pub open spec fn shell_flag_text() -> Seq<char> {
    "-c"@
}

impl Cmd {
    /// Reads a line of input into the command that it specifies.
    ///
    /// The result is the one that [`line_outcome`] states; the error is a
    /// message.
    pub fn from_line(line: &str) -> (r: Result<Cmd, String>)
        ensures
            match r {
                Ok(cmd) => line_outcome(line@) == Ok::<CmdView, Seq<char>>(cmd@),
                Err(message) => line_outcome(line@) == Err::<CmdView, Seq<char>>(message@),
            },
            find_separator(line@, 0) >= line@.len() && line@.len() > 0 ==> r is Ok && r->Ok_0@
                == (CmdView { opts: OptsView::none(), command: line@ }),
    {
        let chars = chars_of(line);
        let n = chars.len();
        let mut at: usize = 0;
        while n >= 4 && at <= n - 4 && !(chars[at] == ' ' && chars[at + 1] == '|' && chars[at + 2]
            == '|' && chars[at + 3] == ' ')
            invariant
                n == chars.len(),
                chars@ == line@,
                at <= n,
                find_separator(line@, at as int) == find_separator(line@, 0),
            decreases n - at,
        {
            at += 1;
        }
        if !(n >= 4 && at <= n - 4) {
            if n == 0 {
                return Err(String::from_str("must supply a command"));
            }
            let command = String::from_str(line);
            return Ok(Cmd { opts: CmdOpts::default(), command });
        }
        match CmdOpts::parse(line.substring_char(0, at)) {
            Err(reason) => {
                let mut message = String::from_str("error reading input command \"");
                message.append(line);
                message.append("\": ");
                message.append(reason.as_str());
                Err(message)
            },
            Ok(opts) => {
                if at + 4 == n {
                    return Err(String::from_str("must supply a command"));
                }
                let command = String::from_str(line.substring_char(at + 4, n));
                Ok(Cmd { opts, command })
            },
        }
    }

    /// The options of this command.
    pub fn opts(&self) -> (opts: &CmdOpts)
        ensures
            opts@ == self@.opts,
    {
        &self.opts
    }

    /// The text that goes to the shell.
    pub fn command(&self) -> (text: &str)
        ensures
            text@ == self@.command,
    {
        self.command.as_str()
    }

    /// The program and the arguments that run this command: the shell, its
    /// option `-c`, and the command text as one argument.
    pub fn invocation(&self) -> (argv: Vec<String>)
        ensures
            argv.deep_view() == seq![shell_text(), shell_flag_text(), self@.command],
    {
        let mut argv: Vec<String> = Vec::new();
        argv.push(String::from_str("sh"));
        argv.push(String::from_str("-c"));
        argv.push(self.command.clone());
        argv
    }
}

/// Reads the commands to run from the lines of the input, in order.
///
/// Reading ends at the first blank line or at the end of the list. The
/// first line that specifies no command makes the whole list an error,
/// whose message gives the line's index, counted from 0.
pub fn get_commands(lines: &Vec<String>) -> (r: Result<Vec<Cmd>, String>)
    ensures
        match r {
            Ok(cmds) => commands_of(lines.deep_view()) == Ok::<Seq<CmdView>, Seq<char>>(
                cmds.deep_view(),
            ),
            Err(message) => commands_of(lines.deep_view()) == Err::<Seq<CmdView>, Seq<char>>(
                message@,
            ),
        },
        lines.len() == 0 || is_blank(lines[0]@) ==> r is Ok && r->Ok_0.len() == 0,
{
    let ghost all = lines.deep_view();
    let mut cmds: Vec<Cmd> = Vec::new();
    let mut at: usize = 0;
    assert(cmds.deep_view() =~= Seq::<CmdView>::empty());
    while at < lines.len()
        invariant
            at <= lines.len(),
            all == lines.deep_view(),
            commands_from(all, at as int, cmds.deep_view()) == commands_of(all),
            at == 0 ==> cmds.len() == 0,
            at > 0 ==> !is_blank(lines@[0]@),
        decreases lines.len() - at,
    {
        let line = lines[at].as_str();
        if is_blank_line(line) {
            return Ok(cmds);
        }
        match Cmd::from_line(line) {
            Ok(cmd) => {
                let ghost before = cmds.deep_view();
                cmds.push(cmd);
                assert(cmds.deep_view() =~= before.push(cmd@));
            },
            Err(reason) => {
                let mut message = String::from_str("error parsing command from line ");
                message.append(decimal_text(at).as_str());
                message.append(": ");
                message.append(reason.as_str());
                return Err(message);
            },
        }
        at += 1;
    }
    Ok(cmds)
}

} // verus!
