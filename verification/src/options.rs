//! The options that may stand before a command: which delimiter cuts its
//! output into chunks, how many chunks to skip, and how many to take.
//!
//! An option snippet is first split into shell words; the words are then
//! read by the grammar that [`options_of`] states. It is the grammar that the
//! `clap` crate applies to three options of one value each, so that a
//! snippet reads as the arguments of a command-line tool would.

use vstd::prelude::*;
use vstd::string::*;
use crate::text::{chars_of, count_of, parse_count, same_text};

verus! {

/// The delimiter of a command that names none: a line break, with or
/// without a carriage return before it.
pub open spec fn default_delimiter() -> Seq<char> {
    "\\r?\\n"@
}

/// The options of one command as plain values.
pub struct OptsView {
    /// The regular expression that delimits chunks, where one was given.
    pub delimiter: Option<Seq<char>>,
    /// How many chunks are dropped before the first is passed on.
    pub skip: Option<usize>,
    /// How many chunks are passed on at most.
    pub take: Option<usize>,
}

impl OptsView {
    /// No option given.
    pub open spec fn none() -> OptsView {
        OptsView { delimiter: None, skip: None, take: None }
    }

    /// The delimiter in force: the one given, else the default.
    pub open spec fn pattern(self) -> Seq<char> {
        match self.delimiter {
            Some(d) => d,
            None => default_delimiter(),
        }
    }
}

/// How the output of one command is treated.
#[derive(Clone, Debug)]
pub struct CmdOpts {
    /// regex to use as a delimiter instead of a newline
    delimiter: Option<String>,
    /// skip this many chunks before passing any on
    skip: Option<usize>,
    /// pass on only this many chunks, then stop
    take: Option<usize>,
}

impl View for CmdOpts {
    type V = OptsView;

    closed spec fn view(&self) -> OptsView {
        OptsView {
            delimiter: match self.delimiter {
                Some(d) => Some(d@),
                None => None,
            },
            skip: self.skip,
            take: self.take,
        }
    }
}

impl Default for CmdOpts {
    fn default() -> (opts: CmdOpts)
        ensures
            opts@ == OptsView::none(),
    {
        CmdOpts { delimiter: None, skip: None, take: None }
    }
}

/// One of the options.
#[derive(Clone, Copy, Debug, PartialEq, Eq)]
pub enum Flag {
    /// `-d`, `--delimiter`
    Delimiter,
    /// `-s`, `--skip`
    Skip,
    /// `-t`, `--take`
    Take,
}

/// Why a list of words is no list of options.
#[derive(Clone, Copy, Debug, PartialEq, Eq)]
pub enum OptErrorKind {
    /// A word stands where an option is expected and is none.
    NotAnOption,
    /// A word has the shape of an option and names none that exists.
    UnknownOption,
    /// An option has no value: it is the last word, or the next word has
    /// the shape of an option.
    MissingValue,
    /// An option is given a second time.
    Repeated,
    /// The value of `skip` or `take` is no count.
    BadCount,
}

/// An error in a list of words, with the index of the word at fault.
#[derive(Clone, Copy, Debug, PartialEq, Eq)]
pub struct OptError {
    pub kind: OptErrorKind,
    pub at: usize,
}

/// What a single word is to the grammar.
pub enum WordView {
    /// `--`: the end of the options.
    Escape,
    /// A word that has not the shape of an option.
    Plain,
    /// A word that has the shape of an option and names none.
    Unknown,
    /// An option, with the value that the same word holds, if it holds one.
    Option(Flag, Option<Seq<char>>),
}

/// The option that a long name stands for.
pub open spec fn long_flag(name: Seq<char>) -> Option<Flag> {
    if name == "delimiter"@ {
        Some(Flag::Delimiter)
    } else if name == "skip"@ {
        Some(Flag::Skip)
    } else if name == "take"@ {
        Some(Flag::Take)
    } else {
        None
    }
}

/// The option that a short name stands for.
pub open spec fn short_flag(c: char) -> Option<Flag> {
    if c == 'd' {
        Some(Flag::Delimiter)
    } else if c == 's' {
        Some(Flag::Skip)
    } else if c == 't' {
        Some(Flag::Take)
    } else {
        None
    }
}

/// The index of the first `c` in `s` at or after `from`; the length of `s`
/// where there is none.
pub open spec fn find_char(s: Seq<char>, c: char, from: int) -> int
    decreases s.len() - from,
{
    if from < 0 || from >= s.len() {
        s.len() as int
    } else if s[from] == c {
        from
    } else {
        find_char(s, c, from + 1)
    }
}

/// Whether a word has the shape of an option: a hyphen and at least one
/// more character.
pub open spec fn looks_like_option(word: Seq<char>) -> bool {
    word.len() >= 2 && word[0] == '-'
}

/// Reads one word.
///
/// - `--` ends the options.
/// - `--name` and `--name=value` are the long forms; the name ends at the
///   first `=`.
/// - `-n`, `-nvalue` and `-n=value` are the short forms, `n` being one
///   character.
/// - Every other word, the single hyphen and the empty word among them, is
///   no option.
pub open spec fn classify(word: Seq<char>) -> WordView {
    let n = word.len() as int;
    if !looks_like_option(word) {
        WordView::Plain
    } else if word[1] == '-' {
        if n == 2 {
            WordView::Escape
        } else {
            let eq = find_char(word, '=', 2);
            match long_flag(word.subrange(2, eq)) {
                None => WordView::Unknown,
                Some(flag) => WordView::Option(
                    flag,
                    if eq < n {
                        Some(word.subrange(eq + 1, n))
                    } else {
                        None
                    },
                ),
            }
        }
    } else {
        match short_flag(word[1]) {
            None => WordView::Unknown,
            Some(flag) => WordView::Option(
                flag,
                if n == 2 {
                    None
                } else if word[2] == '=' {
                    Some(word.subrange(3, n))
                } else {
                    Some(word.subrange(2, n))
                },
            ),
        }
    }
}

/// Gives an option its value. An option can be given once; the values of
/// `skip` and `take` are counts.
pub open spec fn assign(opts: OptsView, flag: Flag, value: Seq<char>) -> Result<
    OptsView,
    OptErrorKind,
> {
    match flag {
        Flag::Delimiter => if opts.delimiter is Some {
            Err(OptErrorKind::Repeated)
        } else {
            Ok(OptsView { delimiter: Some(value), ..opts })
        },
        Flag::Skip => if opts.skip is Some {
            Err(OptErrorKind::Repeated)
        } else {
            match count_of(value) {
                Some(n) => Ok(OptsView { skip: Some(n), ..opts }),
                None => Err(OptErrorKind::BadCount),
            }
        },
        Flag::Take => if opts.take is Some {
            Err(OptErrorKind::Repeated)
        } else {
            match count_of(value) {
                Some(n) => Ok(OptsView { take: Some(n), ..opts }),
                None => Err(OptErrorKind::BadCount),
            }
        },
    }
}

/// Reads the words from index `at` on, with `opts` read so far.
///
/// The words are read from left to right and the first fault ends the
/// reading. An option without a value in its own word takes the next word
/// as its value, unless that word has the shape of an option. After `--` no
/// word may follow.
pub open spec fn options_from(words: Seq<Seq<char>>, at: int, opts: OptsView) -> Result<
    OptsView,
    OptError,
>
    decreases words.len() - at,
{
    if at < 0 || at >= words.len() {
        Ok(opts)
    } else {
        match classify(words[at]) {
            WordView::Escape => if at + 1 < words.len() {
                Err(OptError { kind: OptErrorKind::NotAnOption, at: (at + 1) as usize })
            } else {
                Ok(opts)
            },
            WordView::Plain => Err(OptError { kind: OptErrorKind::NotAnOption, at: at as usize }),
            WordView::Unknown => Err(
                OptError { kind: OptErrorKind::UnknownOption, at: at as usize },
            ),
            WordView::Option(flag, Some(value)) => match assign(opts, flag, value) {
                Ok(next) => options_from(words, at + 1, next),
                Err(kind) => Err(OptError { kind, at: at as usize }),
            },
            WordView::Option(flag, None) => if at + 1 >= words.len() || looks_like_option(
                words[at + 1],
            ) {
                Err(OptError { kind: OptErrorKind::MissingValue, at: at as usize })
            } else {
                match assign(opts, flag, words[at + 1]) {
                    Ok(next) => options_from(words, at + 2, next),
                    Err(OptErrorKind::Repeated) => Err(
                        OptError { kind: OptErrorKind::Repeated, at: at as usize },
                    ),
                    Err(kind) => Err(OptError { kind, at: (at + 1) as usize }),
                }
            },
        }
    }
}

/// The options that a list of words gives, or the first fault in it.
pub open spec fn options_of(words: Seq<Seq<char>>) -> Result<OptsView, OptError> {
    options_from(words, 0, OptsView::none())
}

/// The three options, each given once in its short form with the value in
/// the next word, yield exactly the values that the words state: the
/// delimiter as it is written, the two counts as the numbers they write.
pub proof fn lemma_stated_options(delimiter: Seq<char>, skip: Seq<char>, take: Seq<char>)
    requires
        !looks_like_option(delimiter),
        count_of(skip) is Some,
        count_of(take) is Some,
    ensures
        options_of(seq!["-d"@, delimiter, "-s"@, skip, "-t"@, take]) == Ok::<OptsView, OptError>(
            OptsView { delimiter: Some(delimiter), skip: count_of(skip), take: count_of(take) },
        ),
{
    reveal_strlit("-d");
    reveal_strlit("-s");
    reveal_strlit("-t");
    let words = seq!["-d"@, delimiter, "-s"@, skip, "-t"@, take];
    let first = OptsView { delimiter: Some(delimiter), ..OptsView::none() };
    let second = OptsView { skip: count_of(skip), ..first };
    let third = OptsView { take: count_of(take), ..second };
    assert(options_from(words, 4, second) == options_from(words, 6, third));
    assert(options_from(words, 2, first) == options_from(words, 4, second));
    assert(options_from(words, 0, OptsView::none()) == options_from(words, 2, first));
}

/// The text before the word at fault in an error's message.
pub open spec fn text_before(kind: OptErrorKind) -> Seq<char> {
    match kind {
        OptErrorKind::NotAnOption => "unexpected argument '"@,
        OptErrorKind::UnknownOption => "unknown option '"@,
        OptErrorKind::MissingValue => "option '"@,
        OptErrorKind::Repeated => "option '"@,
        OptErrorKind::BadCount => "invalid count in '"@,
    }
}

/// The text after the word at fault in an error's message.
pub open spec fn text_after(kind: OptErrorKind) -> Seq<char> {
    match kind {
        OptErrorKind::NotAnOption => "'"@,
        OptErrorKind::UnknownOption => "'"@,
        OptErrorKind::MissingValue => "' needs a value"@,
        OptErrorKind::Repeated => "' is given more than once"@,
        OptErrorKind::BadCount => "'"@,
    }
}

/// The word at fault; the empty word where the index names none.
pub open spec fn word_at(words: Seq<Seq<char>>, at: int) -> Seq<char> {
    if 0 <= at < words.len() {
        words[at]
    } else {
        Seq::empty()
    }
}

/// An error's message: it names the word at fault.
pub open spec fn error_text(error: OptError, words: Seq<Seq<char>>) -> Seq<char> {
    text_before(error.kind) + word_at(words, error.at as int) + text_after(error.kind)
}

/// The text that `parse` gives for a snippet that is not well quoted.
pub open spec fn quoting_text() -> Seq<char> {
    "unable to parse option snippet"@
}

/// The words that `shlex::split` makes of a string; `None` where the string
/// ends inside a quotation or after a backslash.
pub uninterp spec fn shell_words(snippet: Seq<char>) -> Option<Seq<Seq<char>>>;

/// `shlex::split` cuts a string into words as a POSIX shell does: it reads
/// quotes and backslashes, and skips comments. It returns `None` where the
/// string is erroneous. The result depends on the string alone, so it is
/// given the name [`shell_words`]; nothing more is claimed of it.
pub assume_specification[ shlex::split ](in_str: &str) -> (words: Option<Vec<String>>)
    ensures
        words.deep_view() == shell_words(in_str@),
;

/// What `parse` makes of a snippet: the options, or the message of the
/// first fault.
pub open spec fn parse_outcome(snippet: Seq<char>) -> Result<OptsView, Seq<char>> {
    match shell_words(snippet) {
        None => Err(quoting_text()),
        Some(words) => match options_of(words) {
            Ok(opts) => Ok(opts),
            Err(error) => Err(error_text(error, words)),
        },
    }
}

/// A word as [`classify`] reads it, with the value borrowed from the word.
enum Word<'a> {
    Escape,
    Plain,
    Unknown,
    Option(Flag, Option<&'a str>),
}

impl<'a> View for Word<'a> {
    type V = WordView;

    closed spec fn view(&self) -> WordView {
        match *self {
            Word::Escape => WordView::Escape,
            Word::Plain => WordView::Plain,
            Word::Unknown => WordView::Unknown,
            Word::Option(flag, Some(value)) => WordView::Option(flag, Some(value@)),
            Word::Option(flag, None) => WordView::Option(flag, None),
        }
    }
}

/// Whether a word has the shape of an option.
fn has_option_shape(word: &str) -> (r: bool)
    ensures
        r == looks_like_option(word@),
{
    let chars = chars_of(word);
    chars.len() >= 2 && chars[0] == '-'
}

/// The option that a long name stands for.
fn long_flag_of(name: &str) -> (r: Option<Flag>)
    ensures
        r == long_flag(name@),
{
    if same_text(name, "delimiter") {
        Some(Flag::Delimiter)
    } else if same_text(name, "skip") {
        Some(Flag::Skip)
    } else if same_text(name, "take") {
        Some(Flag::Take)
    } else {
        None
    }
}

/// The option that a short name stands for.
fn short_flag_of(c: char) -> (r: Option<Flag>)
    ensures
        r == short_flag(c),
{
    if c == 'd' {
        Some(Flag::Delimiter)
    } else if c == 's' {
        Some(Flag::Skip)
    } else if c == 't' {
        Some(Flag::Take)
    } else {
        None
    }
}

/// Reads one word.
fn classify_word<'a>(word: &'a str) -> (r: Word<'a>)
    ensures
        r@ == classify(word@),
{
    let chars = chars_of(word);
    let n = chars.len();
    if !(n >= 2 && chars[0] == '-') {
        return Word::Plain;
    }
    if chars[1] == '-' {
        if n == 2 {
            return Word::Escape;
        }
        let mut eq: usize = 2;
        while eq < n && chars[eq] != '='
            invariant
                2 <= eq <= n,
                n == chars.len(),
                chars@ == word@,
                find_char(word@, '=', eq as int) == find_char(word@, '=', 2),
            decreases n - eq,
        {
            eq += 1;
        }
        match long_flag_of(word.substring_char(2, eq)) {
            None => Word::Unknown,
            Some(flag) => if eq < n {
                Word::Option(flag, Some(word.substring_char(eq + 1, n)))
            } else {
                Word::Option(flag, None)
            },
        }
    } else {
        match short_flag_of(chars[1]) {
            None => Word::Unknown,
            Some(flag) => if n == 2 {
                Word::Option(flag, None)
            } else if chars[2] == '=' {
                Word::Option(flag, Some(word.substring_char(3, n)))
            } else {
                Word::Option(flag, Some(word.substring_char(2, n)))
            },
        }
    }
}

impl CmdOpts {
    /// The delimiter that was given, if one was.
    pub fn delimiter(&self) -> (r: Option<&str>)
        ensures
            match r {
                Some(d) => self@.delimiter == Some(d@),
                None => self@.delimiter is None,
            },
    {
        match &self.delimiter {
            Some(d) => Some(d.as_str()),
            None => None,
        }
    }

    /// How many chunks are dropped before the first is passed on, if a
    /// number was given.
    pub fn skip(&self) -> (r: Option<usize>)
        ensures
            r == self@.skip,
    {
        self.skip
    }

    /// How many chunks are passed on at most, if a number was given.
    pub fn take(&self) -> (r: Option<usize>)
        ensures
            r == self@.take,
    {
        self.take
    }

    /// The delimiter in force: the one given, else the default.
    pub fn pattern(&self) -> (r: &str)
        ensures
            r@ == self@.pattern(),
    {
        match &self.delimiter {
            Some(d) => d.as_str(),
            None => "\\r?\\n",
        }
    }

    /// Gives an option its value.
    fn assign(self, flag: Flag, value: &str) -> (r: Result<CmdOpts, OptErrorKind>)
        ensures
            match r {
                Ok(opts) => assign(self@, flag, value@) == Ok::<OptsView, OptErrorKind>(opts@),
                Err(kind) => assign(self@, flag, value@) == Err::<OptsView, OptErrorKind>(kind),
            },
    {
        let mut opts = self;
        match flag {
            Flag::Delimiter => {
                if opts.delimiter.is_some() {
                    return Err(OptErrorKind::Repeated);
                }
                opts.delimiter = Some(String::from_str(value));
            },
            Flag::Skip => {
                if opts.skip.is_some() {
                    return Err(OptErrorKind::Repeated);
                }
                match parse_count(value) {
                    Some(n) => {
                        opts.skip = Some(n);
                    },
                    None => {
                        return Err(OptErrorKind::BadCount);
                    },
                }
            },
            Flag::Take => {
                if opts.take.is_some() {
                    return Err(OptErrorKind::Repeated);
                }
                match parse_count(value) {
                    Some(n) => {
                        opts.take = Some(n);
                    },
                    None => {
                        return Err(OptErrorKind::BadCount);
                    },
                }
            },
        }
        Ok(opts)
    }

    /// Reads a list of words as options, by the grammar of [`options_of`].
    pub fn from_words(words: &Vec<String>) -> (r: Result<CmdOpts, OptError>)
        ensures
            match r {
                Ok(opts) => options_of(words.deep_view()) == Ok::<OptsView, OptError>(opts@),
                Err(error) => options_of(words.deep_view()) == Err::<OptsView, OptError>(error),
            },
    {
        let n = words.len();
        let ghost all = words.deep_view();
        let mut opts = CmdOpts::default();
        let mut at: usize = 0;
        while at < n
            invariant
                at <= n,
                n == words.len(),
                all == words.deep_view(),
                options_from(all, at as int, opts@) == options_of(all),
            decreases n - at,
        {
            match classify_word(words[at].as_str()) {
                Word::Escape => {
                    if at + 1 < n {
                        return Err(OptError { kind: OptErrorKind::NotAnOption, at: at + 1 });
                    }
                    return Ok(opts);
                },
                Word::Plain => {
                    return Err(OptError { kind: OptErrorKind::NotAnOption, at });
                },
                Word::Unknown => {
                    return Err(OptError { kind: OptErrorKind::UnknownOption, at });
                },
                Word::Option(flag, Some(value)) => {
                    match opts.assign(flag, value) {
                        Ok(next) => {
                            opts = next;
                            at += 1;
                        },
                        Err(kind) => {
                            return Err(OptError { kind, at });
                        },
                    }
                },
                Word::Option(flag, None) => {
                    if at + 1 >= n {
                        return Err(OptError { kind: OptErrorKind::MissingValue, at });
                    }
                    let value = words[at + 1].as_str();
                    if has_option_shape(value) {
                        return Err(OptError { kind: OptErrorKind::MissingValue, at });
                    }
                    match opts.assign(flag, value) {
                        Ok(next) => {
                            opts = next;
                            at += 2;
                        },
                        Err(OptErrorKind::Repeated) => {
                            return Err(OptError { kind: OptErrorKind::Repeated, at });
                        },
                        Err(kind) => {
                            return Err(OptError { kind, at: at + 1 });
                        },
                    }
                },
            }
        }
        Ok(opts)
    }

    /// Reads an option snippet: splits it into shell words and reads the
    /// words as options. The error is a message that names the word at
    /// fault, or says that the snippet is not well quoted.
    pub fn parse(snip: &str) -> (r: Result<CmdOpts, String>)
        ensures
            match r {
                Ok(opts) => parse_outcome(snip@) == Ok::<OptsView, Seq<char>>(opts@),
                Err(message) => parse_outcome(snip@) == Err::<OptsView, Seq<char>>(message@),
            },
    {
        match shlex::split(snip) {
            None => Err(String::from_str("unable to parse option snippet")),
            Some(words) => match CmdOpts::from_words(&words) {
                Ok(opts) => Ok(opts),
                Err(error) => Err(error.message(&words)),
            },
        }
    }
}

impl OptError {
    /// The message of this error for the words it was found in.
    pub fn message(&self, words: &Vec<String>) -> (r: String)
        ensures
            r@ == error_text(*self, words.deep_view()),
    {
        let (before, after) = match self.kind {
            OptErrorKind::NotAnOption => ("unexpected argument '", "'"),
            OptErrorKind::UnknownOption => ("unknown option '", "'"),
            OptErrorKind::MissingValue => ("option '", "' needs a value"),
            OptErrorKind::Repeated => ("option '", "' is given more than once"),
            OptErrorKind::BadCount => ("invalid count in '", "'"),
        };
        let mut text = String::from_str(before);
        if self.at < words.len() {
            text.append(words[self.at].as_str());
        }
        text.append(after);
        text
    }
}

} // verus!
