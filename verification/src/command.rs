//! The commands understood by the daemon, and their textual forms.
//!
//! Reading a command from argument words and writing it as a request line is
//! the work of the `oxidant` crate; this module states what those two
//! operations return and gives the rest of the crate a value to reason about.

use vstd::prelude::*;

verus! {

/// An instruction for the daemon.
#[derive(Debug, PartialEq, Eq)]
pub enum Command {
    /// Ask the daemon to answer at all.
    Test,
    /// Ask the daemon for its health.
    HealthCheck,
    /// Ask the daemon to send the text back.
    Echo(String),
    /// Ask the daemon for the sum of two numbers.
    Add(i32, i32),
}

/// The mathematical value of a [`Command`].
pub enum CommandView {
    Test,
    HealthCheck,
    Echo(Seq<char>),
    Add(i32, i32),
}

impl View for Command {
    type V = CommandView;

    open spec fn view(&self) -> CommandView {
        match self {
            Command::Test => CommandView::Test,
            Command::HealthCheck => CommandView::HealthCheck,
            Command::Echo(text) => CommandView::Echo(text@),
            Command::Add(a, b) => CommandView::Add(*a, *b),
        }
    }
}

impl DeepView for Command {
    type V = CommandView;

    open spec fn deep_view(&self) -> CommandView {
        self@
    }
}

/// The number that `str::parse::<i32>` reads from `text`, or `None` where it
/// reports an error.
pub uninterp spec fn decimal_i32(text: Seq<char>) -> Option<i32>;

/// The text that formatting with `{}` gives for `n`.
pub uninterp spec fn decimal_text(n: i32) -> Seq<char>;

/// The words separated by single spaces.
pub open spec fn joined(words: Seq<Seq<char>>) -> Seq<char>
    decreases words.len(),
{
    if words.len() == 0 {
        Seq::empty()
    } else if words.len() == 1 {
        words[0]
    } else {
        joined(words.drop_last()) + seq![' '] + words.last()
    }
}

/// The word at position `i`, or the empty text where there is none.
pub open spec fn word_at(words: Seq<Seq<char>>, i: int) -> Seq<char> {
    if 0 <= i < words.len() {
        words[i]
    } else {
        Seq::empty()
    }
}

/// The command that a list of words stands for, if any, where `first` and
/// `second` are what the second and the third word give when read as numbers.
///
/// The first word selects the command. `test` and `health` take no
/// arguments and ignore what follows. `echo` takes all following words as
/// one text. `add` needs two following words that are both numbers, and
/// ignores the rest.
pub open spec fn command_with(
    words: Seq<Seq<char>>,
    first: Option<i32>,
    second: Option<i32>,
) -> Option<CommandView> {
    if words.len() == 0 {
        None
    } else if words[0] == "test"@ {
        Some(CommandView::Test)
    } else if words[0] == "health"@ {
        Some(CommandView::HealthCheck)
    } else if words[0] == "echo"@ {
        Some(CommandView::Echo(joined(words.skip(1))))
    } else if words[0] == "add"@ && words.len() >= 3 {
        match (first, second) {
            (Some(a), Some(b)) => Some(CommandView::Add(a, b)),
            _ => None,
        }
    } else {
        None
    }
}

/// The command that a list of words stands for, if any.
pub open spec fn command_of(words: Seq<Seq<char>>) -> Option<CommandView> {
    command_with(words, decimal_i32(word_at(words, 1)), decimal_i32(word_at(words, 2)))
}

/// The request line that carries a command name and its fields: one
/// brace-delimited object followed by a line feed.
pub open spec fn framed(name: Seq<char>, fields: Seq<char>) -> Seq<char> {
    "{\"command\": \""@ + name + "\""@ + fields + "}\n"@
}

/// The field of an `echo` request. The text is inserted as it is.
pub open spec fn echo_fields(text: Seq<char>) -> Seq<char> {
    ", \"echoed\": \""@ + text + "\""@
}

/// The fields of an `add` request, given the texts of its two numbers.
pub open spec fn add_fields(first: Seq<char>, second: Seq<char>) -> Seq<char> {
    ", \"a\": "@ + first + ", \"b\": "@ + second
}

/// The request line for a command.
pub open spec fn wire_text(command: CommandView) -> Seq<char> {
    match command {
        CommandView::Test => framed("test"@, Seq::empty()),
        CommandView::HealthCheck => framed("health_check"@, Seq::empty()),
        CommandView::Echo(text) => framed("echo"@, echo_fields(text)),
        CommandView::Add(a, b) => framed("add"@, add_fields(decimal_text(a), decimal_text(b))),
    }
}

/// Calls `oxidant::Command::parse` and hands its result over variant by
/// variant.
///
/// The contract restates the source of `parse`: no words give an error;
/// `test` and `health` give their commands whatever follows; `echo` gives the
/// remaining words joined by single spaces; `add` gives an error unless two
/// further words are present and both are accepted by `str::parse::<i32>`,
/// whose results it then holds; any other first word gives an error. Nothing
/// is claimed about the error message.
#[verifier::external_body]
fn parse_words(words: &Vec<String>) -> (r: Result<Command, String>)
    ensures
        match r {
            Ok(command) => Some(command@),
            Err(_) => None,
        } == command_with(
            words.deep_view(),
            decimal_i32(word_at(words.deep_view(), 1)),
            decimal_i32(word_at(words.deep_view(), 2)),
        ),
{
    match oxidant::Command::parse(words) {
        Ok(oxidant::Command::Test) => Ok(Command::Test),
        Ok(oxidant::Command::HealthCheck) => Ok(Command::HealthCheck),
        Ok(oxidant::Command::Echo(text)) => Ok(Command::Echo(text)),
        Ok(oxidant::Command::Add(a, b)) => Ok(Command::Add(a, b)),
        Err(message) => Err(message),
    }
}

/// Calls `oxidant::Command::serialize` on the same command of that crate.
///
/// The contract restates the source of `serialize`: the text
/// `{"command": "NAME"`, then the fields of the command, each after a comma
/// and a space, then `}` and a line feed. The name of a health check is
/// `health_check`. The text of an `echo` is inserted as it is, without
/// escaping; the numbers of an `add` are formatted with `{}`.
#[verifier::external_body]
fn serialize(command: &Command) -> (line: String)
    ensures
        line@ == match command@ {
            CommandView::Test => framed("test"@, Seq::empty()),
            CommandView::HealthCheck => framed("health_check"@, Seq::empty()),
            CommandView::Echo(text) => framed("echo"@, echo_fields(text)),
            CommandView::Add(a, b) => framed("add"@, add_fields(decimal_text(a), decimal_text(b))),
        },
{
    let outside = match command {
        Command::Test => oxidant::Command::Test,
        Command::HealthCheck => oxidant::Command::HealthCheck,
        Command::Echo(text) => oxidant::Command::Echo(text.clone()),
        Command::Add(a, b) => oxidant::Command::Add(*a, *b),
    };
    outside.serialize()
}

impl Command {
    /// Reads a command from argument words. The reason for a failure is not
    /// kept.
    pub fn from_words(words: &Vec<String>) -> (r: Option<Command>)
        ensures
            r.deep_view() == command_of(words.deep_view()),
    {
        match parse_words(words) {
            Ok(command) => Some(command),
            Err(_) => None,
        }
    }

    /// The request line that carries this command to the daemon.
    pub fn request_line(&self) -> (line: String)
        ensures
            line@ == wire_text(self@),
    {
        serialize(self)
    }
}

/// Every request line is an opening brace, the command, and a closing brace
/// followed by a line feed.
pub proof fn lemma_wire_text_is_framed(command: CommandView)
    ensures
        wire_text(command).len() >= 2,
        wire_text(command).first() == '{',
        wire_text(command).last() == '\n',
        wire_text(command)[wire_text(command).len() - 2] == '}',
{
    reveal_strlit("{\"command\": \"");
    reveal_strlit("}\n");
}

} // verus!
