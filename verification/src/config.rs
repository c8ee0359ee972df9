//! The configuration that an argument list amounts to.

use vstd::prelude::*;
use vstd::string::StringExecFns;
use crate::arguments::{
    dangling, help_count, hostname_of, items_from, items_of, lemma_flags_absent,
    lemma_help_count_grows, lemma_items_split, lemma_nothing_given, lemma_push_item, port_of,
    premature_end, summary_of, token_of, usage, usage_text, words_of, Arguments, ArgumentsView,
    Item,
};
use crate::command::{command_of, Command, CommandView};
use crate::text::{repeated, trimmed};

verus! {

/// Everything one run of the program needs to know.
///
/// A configuration either asks for help or holds a command
/// ([`ConfigView::wf`]).
#[derive(Debug)]
pub struct Config {
    /// The name of the host to connect to.
    hostname: String,
    /// The port to connect to the host on.
    port: String,
    /// The command to send to the host.
    command: Option<Command>,
    /// Whether the run ends early because help was shown.
    pub help_triggered: bool,
}

/// The mathematical value of a [`Config`].
pub struct ConfigView {
    pub hostname: Seq<char>,
    pub port: Seq<char>,
    pub command: Option<CommandView>,
    pub help_triggered: bool,
}

impl ConfigView {
    /// A configuration without a command asks for help.
    pub open spec fn wf(self) -> bool {
        self.help_triggered || self.command is Some
    }
}

impl View for Config {
    type V = ConfigView;

    closed spec fn view(&self) -> ConfigView {
        ConfigView {
            hostname: self.hostname@,
            port: self.port@,
            command: self.command.deep_view(),
            help_triggered: self.help_triggered,
        }
    }
}

/// The hostname used where none is given.
pub open spec fn default_hostname() -> Seq<char> {
    "127.0.0.1"@
}

/// The port used where none is given.
pub open spec fn default_port() -> Seq<char> {
    "4422"@
}

/// `given`, or `fallback` where `given` is empty.
pub open spec fn or_default(given: Seq<char>, fallback: Seq<char>) -> Seq<char> {
    if given.len() == 0 {
        fallback
    } else {
        given
    }
}

/// The configuration for scanned arguments and the command read from their
/// words: defaults fill what is empty, and a missing command asks for help.
pub open spec fn resolved(arguments: ArgumentsView, command: Option<CommandView>) -> ConfigView {
    ConfigView {
        hostname: or_default(arguments.hostname, default_hostname()),
        port: or_default(arguments.port, default_port()),
        command,
        help_triggered: arguments.help || command is None,
    }
}

/// The configuration that a complete argument list amounts to.
pub open spec fn config_of(args: Seq<Seq<char>>) -> ConfigView {
    resolved(summary_of(items_of(args)), command_of(words_of(items_of(args))))
}

/// What reading an argument list gives: its configuration, or the message
/// that rejects a dangling list.
pub open spec fn outcome_of(args: Seq<Seq<char>>) -> Result<ConfigView, Seq<char>> {
    if dangling(items_of(args)) {
        Err(premature_end())
    } else {
        Ok(config_of(args))
    }
}

/// Whether help is shown for want of a command: the list is complete, holds
/// no help flag, and its words are no command.
pub open spec fn helps_unasked(args: Seq<Seq<char>>) -> bool {
    &&& !dangling(items_of(args))
    &&& help_count(items_of(args)) == 0
    &&& command_of(words_of(items_of(args))) is None
}

/// Everything that reading `args` prints: the usage text once for each help
/// flag, and once more where help is shown for want of a command.
pub open spec fn printed_of(args: Seq<Seq<char>>) -> Seq<char> {
    repeated(usage_text(args[0]), help_count(items_of(args))) + (if helps_unasked(args) {
        usage_text(args[0])
    } else {
        Seq::empty()
    })
}

impl Config {
    /// Builds the configuration from scanned arguments and the command read
    /// from their words. Where no help flag was seen and there is no command,
    /// the usage text for `bin` is appended to `out`.
    pub fn resolve(
        arguments: Arguments,
        command: Option<Command>,
        bin: &str,
        out: &mut String,
    ) -> (config: Config)
        ensures
            config@ == resolved(arguments@, command.deep_view()),
            config@.wf(),
            final(out)@ == old(out)@ + (if !arguments.help && command is None {
                usage_text(bin@)
            } else {
                Seq::empty()
            }),
    {
        let mut help_triggered = arguments.help;
        if !help_triggered && command.is_none() {
            let text = usage(bin);
            out.append(text.as_str());
            help_triggered = true;
        } else {
            assert(out@ + Seq::<char>::empty() =~= out@);
        }
        let hostname = if arguments.hostname.as_str().is_empty() {
            String::from_str("127.0.0.1")
        } else {
            arguments.hostname
        };
        let port = if arguments.port.as_str().is_empty() {
            String::from_str("4422")
        } else {
            arguments.port
        };
        Config { hostname, port, command, help_triggered }
    }

    /// Reads the configuration from the program's arguments, whose first
    /// element is the program name.
    ///
    /// Fails exactly where a hostname or port flag is the last argument.
    /// Whatever the parser prints is appended to `out`: the usage text once
    /// for each help flag, and once where no help flag was given and the
    /// words are no command.
    pub fn new(args: &Vec<String>, out: &mut String) -> (r: Result<Config, &'static str>)
        requires
            args.len() >= 1,
        ensures
            match r {
                Ok(config) => outcome_of(args.deep_view()) == Ok::<ConfigView, Seq<char>>(config@)
                    && config@.wf(),
                Err(message) => outcome_of(args.deep_view()) == Err::<ConfigView, Seq<char>>(
                    message@,
                ),
            },
            final(out)@ == old(out)@ + printed_of(args.deep_view()),
    {
        let ghost before = out@;
        match Arguments::scan(args, out) {
            Ok(arguments) => {
                let command = Command::from_words(&arguments.words);
                let config = Config::resolve(arguments, command, args[0].as_str(), out);
                assert(out@ =~= before + printed_of(args.deep_view()));
                Ok(config)
            },
            Err(message) => {
                assert(out@ =~= before + printed_of(args.deep_view()));
                Err(message)
            },
        }
    }

    /// The name of the host to connect to.
    pub fn hostname(&self) -> (r: &str)
        ensures
            r@ == self@.hostname,
    {
        self.hostname.as_str()
    }

    /// The port to connect to the host on.
    pub fn port(&self) -> (r: &str)
        ensures
            r@ == self@.port,
    {
        self.port.as_str()
    }

    /// The command to send to the host.
    pub fn command(&self) -> (r: &Option<Command>)
        ensures
            r.deep_view() == self@.command,
    {
        &self.command
    }

    /// Whether the run ends early because help was shown.
    pub fn wants_help(&self) -> (r: bool)
        ensures
            r == self@.help_triggered,
    {
        self.help_triggered
    }
}

/// A configuration that was read from arguments either asks for help or
/// holds a command.
pub proof fn lemma_outcome_is_well_formed(args: Seq<Seq<char>>)
    ensures
        outcome_of(args) matches Ok(config) ==> config.wf(),
{
}

/// Where an argument list is accepted and none of its arguments is a
/// hostname flag, the hostname is `127.0.0.1`; where none is a port flag, the
/// port is `4422`.
pub proof fn lemma_defaults_when_omitted(args: Seq<Seq<char>>)
    ensures
        (forall|j: int| 1 <= j < args.len() ==> !(token_of(trimmed(#[trigger] args[j]))
            is HostnameFlag)) ==> (outcome_of(args) matches Ok(config) ==> config.hostname
            == default_hostname()),
        (forall|j: int| 1 <= j < args.len() ==> !(token_of(trimmed(#[trigger] args[j]))
            is PortFlag)) ==> (outcome_of(args) matches Ok(config) ==> config.port
            == default_port()),
{
    lemma_flags_absent(args, 1);
    lemma_nothing_given(items_of(args));
}

/// A hostname given with a value that is not empty, and followed by no
/// further hostname flag, is the hostname of the configuration, untrimmed;
/// likewise for the port. `n` is the position of the flag, in front of which
/// the list is complete.
pub proof fn lemma_last_value_wins(args: Seq<Seq<char>>, n: int)
    requires
        1 <= n,
        n + 1 < args.len(),
        !dangling(items_of(args.take(n))),
        args[n + 1].len() > 0,
    ensures
        token_of(trimmed(args[n])) is HostnameFlag && (forall|j: int|
            n + 2 <= j < args.len() ==> !(token_of(trimmed(#[trigger] args[j])) is HostnameFlag))
            ==> (outcome_of(args) matches Ok(config) ==> config.hostname == args[n + 1]),
        token_of(trimmed(args[n])) is PortFlag && (forall|j: int|
            n + 2 <= j < args.len() ==> !(token_of(trimmed(#[trigger] args[j])) is PortFlag))
            ==> (outcome_of(args) matches Ok(config) ==> config.port == args[n + 1]),
{
    let front = items_of(args.take(n));
    let back = items_from(args, n + 2);
    lemma_items_split(args, n);
    lemma_flags_absent(args, n + 2);
    if token_of(trimmed(args[n])) is HostnameFlag {
        let given = Item::Hostname(args[n + 1]);
        assert(items_of(args) =~= front.push(given) + back);
        lemma_push_item(front, given);
        lemma_unchanged_by(front.push(given), back);
    }
    if token_of(trimmed(args[n])) is PortFlag {
        let given = Item::Port(args[n + 1]);
        assert(items_of(args) =~= front.push(given) + back);
        lemma_push_item(front, given);
        lemma_unchanged_by(front.push(given), back);
    }
}

/// Items that follow and hold no hostname leave the hostname as it was;
/// likewise for the port.
proof fn lemma_unchanged_by(front: Seq<Item>, back: Seq<Item>)
    ensures
        (forall|k: int| 0 <= k < back.len() ==> !(#[trigger] back[k] is Hostname)) ==> hostname_of(
            front + back,
        ) == hostname_of(front),
        (forall|k: int| 0 <= k < back.len() ==> !(#[trigger] back[k] is Port)) ==> port_of(
            front + back,
        ) == port_of(front),
    decreases back.len(),
{
    if back.len() == 0 {
        assert(front + back =~= front);
    } else {
        assert((front + back).drop_last() =~= front + back.drop_last());
        assert(forall|k: int| 0 <= k < back.drop_last().len() ==> back.drop_last()[k] == back[k]);
        assert((front + back).last() == back[back.len() - 1]);
        lemma_unchanged_by(front, back.drop_last());
    }
}

/// A help flag in a position where a flag is looked for sets the help flag,
/// whatever follows it. `n` is the position of the flag, in front of which
/// the list is complete.
pub proof fn lemma_help_flag_triggers_help(args: Seq<Seq<char>>, n: int)
    requires
        1 <= n < args.len(),
        !dangling(items_of(args.take(n))),
        token_of(trimmed(args[n])) is HelpFlag,
    ensures
        outcome_of(args) matches Ok(config) ==> config.help_triggered,
{
    let front = items_of(args.take(n));
    lemma_items_split(args, n);
    assert(items_of(args) =~= front.push(Item::Help) + items_from(args, n + 1));
    lemma_push_item(front, Item::Help);
    lemma_help_count_grows(front.push(Item::Help), items_from(args, n + 1));
}

/// A hostname or port flag with nothing after it is rejected, whatever
/// complete list of arguments stands in front of it.
pub proof fn lemma_missing_value_is_rejected(head: Seq<Seq<char>>, flag: Seq<char>)
    requires
        head.len() >= 1,
        !dangling(items_of(head)),
        token_of(trimmed(flag)) is HostnameFlag || token_of(trimmed(flag)) is PortFlag,
    ensures
        outcome_of(head.push(flag)) == Err::<ConfigView, Seq<char>>(premature_end()),
{
    let args = head.push(flag);
    assert(args.take(head.len() as int) =~= head);
    lemma_items_split(args, head.len() as int);
    assert(args[head.len() as int] == flag);
    assert(items_from(args, head.len() as int) =~= seq![Item::Dangling]);
    assert(items_of(args) =~= items_of(head).push(Item::Dangling));
    lemma_push_item(items_of(head), Item::Dangling);
}

/// Without a command and without a help flag, reading an argument list
/// gives what it gives with a help flag added at the end: the same
/// configuration, which asks for help, and the same printed text, which is
/// the usage text once. A list without any word is without a command.
pub proof fn lemma_no_command_is_help(args: Seq<Seq<char>>, flag: Seq<char>)
    requires
        args.len() >= 1,
        !dangling(items_of(args)),
        words_of(items_of(args)).len() == 0 || command_of(words_of(items_of(args))) is None,
        help_count(items_of(args)) == 0,
        token_of(trimmed(flag)) is HelpFlag,
    ensures
        outcome_of(args) matches Ok(config) && config.help_triggered && config.command is None,
        outcome_of(args) == outcome_of(args.push(flag)),
        printed_of(args) == usage_text(args[0]),
        printed_of(args) == printed_of(args.push(flag)),
{
    let longer = args.push(flag);
    assert(longer.take(args.len() as int) =~= args);
    lemma_items_split(longer, args.len() as int);
    assert(longer[args.len() as int] == flag);
    assert(items_from(longer, args.len() as int + 1) =~= Seq::empty());
    assert(items_from(longer, args.len() as int) =~= seq![Item::Help]);
    assert(items_of(longer) =~= items_of(args).push(Item::Help));
    lemma_push_item(items_of(args), Item::Help);
    assert(repeated(usage_text(args[0]), 0) + usage_text(args[0]) =~= usage_text(args[0]));
    assert(repeated(usage_text(args[0]), 1) =~= usage_text(args[0]));
    assert(repeated(usage_text(args[0]), 1) + Seq::<char>::empty() =~= usage_text(args[0]));
}

} // verus!
