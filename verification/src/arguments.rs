//! The grammar of the argument list.
//!
//! After the program name, an argument list is a sequence of items: a
//! hostname flag with its value, a port flag with its value, a help flag, or
//! a word of the command. Flags are recognised after trimming; the value of a
//! flag is whatever argument follows it, taken as it is. A value flag in last
//! position has no value: the list is then *dangling* and is rejected.
//!
//! There are no unknown flags: an argument that is none of the flags above is
//! a word of the command, whatever it looks like.

use vstd::prelude::*;
use vstd::string::StringExecFns;
use crate::text::{repeated, same_text, trim, trimmed};

verus! {

/// What one argument is, once trimmed.
#[derive(Debug, Clone, Copy, PartialEq, Eq, Structural)]
pub enum Token {
    /// `-H` or `--hostname`: the next argument is the hostname.
    HostnameFlag,
    /// `-P` or `--port`: the next argument is the port.
    PortFlag,
    /// `-h`, `-?` or `--help`.
    HelpFlag,
    /// Anything else: a word of the command.
    Word,
}

/// What the trimmed text `text` is.
pub open spec fn token_of(text: Seq<char>) -> Token {
    if text == "-H"@ || text == "--hostname"@ {
        Token::HostnameFlag
    } else if text == "-P"@ || text == "--port"@ {
        Token::PortFlag
    } else if text == "-h"@ || text == "-?"@ || text == "--help"@ {
        Token::HelpFlag
    } else {
        Token::Word
    }
}

/// The seven texts that are flags are distinct, and each is the flag it
/// looks like.
pub proof fn lemma_flag_texts()
    ensures
        token_of("-H"@) is HostnameFlag,
        token_of("--hostname"@) is HostnameFlag,
        token_of("-P"@) is PortFlag,
        token_of("--port"@) is PortFlag,
        token_of("-h"@) is HelpFlag,
        token_of("-?"@) is HelpFlag,
        token_of("--help"@) is HelpFlag,
{
    reveal_strlit("-H");
    reveal_strlit("--hostname");
    reveal_strlit("-P");
    reveal_strlit("--port");
    reveal_strlit("-h");
    reveal_strlit("-?");
    reveal_strlit("--help");
    assert("-P"@[1] != "-H"@[1]);
    assert("-h"@[1] != "-H"@[1] && "-h"@[1] != "-P"@[1]);
    assert("-?"@[1] != "-H"@[1] && "-?"@[1] != "-P"@[1]);
    assert("--help"@[2] != "--port"@[2]);
    assert("--help"@.len() != "--hostname"@.len());
    assert("--help"@.len() != "-H"@.len());
    assert("--help"@.len() != "-P"@.len());
}

/// Tells a flag from a word. `text` is expected to be trimmed already.
pub fn classify(text: &str) -> (token: Token)
    ensures
        token == token_of(text@),
{
    if same_text(text, "-H") || same_text(text, "--hostname") {
        Token::HostnameFlag
    } else if same_text(text, "-P") || same_text(text, "--port") {
        Token::PortFlag
    } else if same_text(text, "-h") || same_text(text, "-?") || same_text(text, "--help") {
        Token::HelpFlag
    } else {
        Token::Word
    }
}

/// One item of an argument list.
pub enum Item {
    /// A hostname flag followed by its value.
    Hostname(Seq<char>),
    /// A port flag followed by its value.
    Port(Seq<char>),
    /// A help flag.
    Help,
    /// A trimmed word of the command.
    Word(Seq<char>),
    /// A hostname or port flag with nothing after it.
    Dangling,
}

/// The items of `args` from position `i` on.
pub open spec fn items_from(args: Seq<Seq<char>>, i: int) -> Seq<Item>
    decreases args.len() - i,
{
    if i < 0 || i >= args.len() {
        Seq::empty()
    } else {
        let text = trimmed(args[i]);
        match token_of(text) {
            Token::HostnameFlag => if i + 1 < args.len() {
                seq![Item::Hostname(args[i + 1])] + items_from(args, i + 2)
            } else {
                seq![Item::Dangling]
            },
            Token::PortFlag => if i + 1 < args.len() {
                seq![Item::Port(args[i + 1])] + items_from(args, i + 2)
            } else {
                seq![Item::Dangling]
            },
            Token::HelpFlag => seq![Item::Help] + items_from(args, i + 1),
            Token::Word => seq![Item::Word(text)] + items_from(args, i + 1),
        }
    }
}

/// The items of a whole argument list. The first argument is the program
/// name and is no item.
pub open spec fn items_of(args: Seq<Seq<char>>) -> Seq<Item> {
    items_from(args, 1)
}

/// Whether the items end in a flag that lacks its value.
pub open spec fn dangling(items: Seq<Item>) -> bool {
    items.len() > 0 && items.last() is Dangling
}

/// The value of the last hostname item, or the empty text where there is
/// none.
pub open spec fn hostname_of(items: Seq<Item>) -> Seq<char>
    decreases items.len(),
{
    if items.len() == 0 {
        Seq::empty()
    } else if let Item::Hostname(value) = items.last() {
        value
    } else {
        hostname_of(items.drop_last())
    }
}

/// The value of the last port item, or the empty text where there is none.
pub open spec fn port_of(items: Seq<Item>) -> Seq<char>
    decreases items.len(),
{
    if items.len() == 0 {
        Seq::empty()
    } else if let Item::Port(value) = items.last() {
        value
    } else {
        port_of(items.drop_last())
    }
}

/// How many help items there are.
pub open spec fn help_count(items: Seq<Item>) -> nat
    decreases items.len(),
{
    if items.len() == 0 {
        0
    } else if items.last() is Help {
        help_count(items.drop_last()) + 1
    } else {
        help_count(items.drop_last())
    }
}

/// The words of the command, in order.
pub open spec fn words_of(items: Seq<Item>) -> Seq<Seq<char>>
    decreases items.len(),
{
    if items.len() == 0 {
        Seq::empty()
    } else if let Item::Word(text) = items.last() {
        words_of(items.drop_last()).push(text)
    } else {
        words_of(items.drop_last())
    }
}

/// The first line of the usage text.
pub open spec fn banner() -> Seq<char> {
    "oxi v.0.0.1 - (C) 2018 Oxidation Team. All rights reserved."@
}

/// The usage text for a program called `bin`: two lines, each ended by a
/// line feed.
pub open spec fn usage_text(bin: Seq<char>) -> Seq<char> {
    banner() + "\nusage: "@ + bin
        + " [-H|--hostname hostname] [-P|--port port] <command> <args>\n"@
}

/// The usage text for a program called `bin`.
pub fn usage(bin: &str) -> (text: String)
    ensures
        text@ == usage_text(bin@),
{
    let text = String::from_str("oxi v.0.0.1 - (C) 2018 Oxidation Team. All rights reserved.");
    let text = text.concat("\nusage: ");
    let text = text.concat(bin);
    text.concat(" [-H|--hostname hostname] [-P|--port port] <command> <args>\n")
}

/// What an argument list says before defaults are applied and before its
/// words are read as a command.
#[derive(Debug)]
pub struct Arguments {
    /// The hostname given last, or the empty text.
    pub hostname: String,
    /// The port given last, or the empty text.
    pub port: String,
    /// Whether a help flag was seen.
    pub help: bool,
    /// The trimmed words of the command, in order.
    pub words: Vec<String>,
}

/// The mathematical value of [`Arguments`].
pub struct ArgumentsView {
    pub hostname: Seq<char>,
    pub port: Seq<char>,
    pub help: bool,
    pub words: Seq<Seq<char>>,
}

impl View for Arguments {
    type V = ArgumentsView;

    open spec fn view(&self) -> ArgumentsView {
        ArgumentsView {
            hostname: self.hostname@,
            port: self.port@,
            help: self.help,
            words: self.words.deep_view(),
        }
    }
}

/// What a complete list of items says.
pub open spec fn summary_of(items: Seq<Item>) -> ArgumentsView {
    ArgumentsView {
        hostname: hostname_of(items),
        port: port_of(items),
        help: help_count(items) > 0,
        words: words_of(items),
    }
}

/// The message for an argument list that ends in a flag without its value.
pub open spec fn premature_end() -> Seq<char> {
    "argument ended prematurely"@
}

/// What a list of items says once one more item follows: each reading
/// changes by that item alone.
pub proof fn lemma_push_item(items: Seq<Item>, item: Item)
    ensures
        dangling(items.push(item)) == (item is Dangling),
        hostname_of(items.push(item)) == (if let Item::Hostname(value) = item {
            value
        } else {
            hostname_of(items)
        }),
        port_of(items.push(item)) == (if let Item::Port(value) = item {
            value
        } else {
            port_of(items)
        }),
        help_count(items.push(item)) == help_count(items) + (if item is Help {
            1nat
        } else {
            0nat
        }),
        words_of(items.push(item)) == (if let Item::Word(text) = item {
            words_of(items).push(text)
        } else {
            words_of(items)
        }),
{
    assert(items.push(item).drop_last() =~= items);
}

/// Whether a list of items ends dangling is decided by its last item.
proof fn lemma_dangling_after(first: Item, rest: Seq<Item>)
    ensures
        dangling(seq![first] + rest) == (if rest.len() > 0 {
            dangling(rest)
        } else {
            first is Dangling
        }),
{
    if rest.len() > 0 {
        assert((seq![first] + rest).last() == rest.last());
    } else {
        assert(seq![first] + rest =~= seq![first]);
    }
}

/// The items of a list from position `i` on are the items of its first `n`
/// arguments from `i` on, followed by the items from `n` on, provided the
/// former are complete.
proof fn lemma_items_from_split(args: Seq<Seq<char>>, n: int, i: int)
    requires
        1 <= i <= n <= args.len(),
        !dangling(items_from(args.take(n), i)),
    ensures
        items_from(args, i) == items_from(args.take(n), i) + items_from(args, n),
    decreases n - i,
{
    let head = args.take(n);
    if i == n {
        assert(items_from(head, i) + items_from(args, n) =~= items_from(args, n));
    } else {
        assert(head[i] == args[i]);
        let step: int = match token_of(trimmed(args[i])) {
            Token::HostnameFlag | Token::PortFlag => 2,
            _ => 1,
        };
        if i + step > n {
            assert(items_from(head, i) =~= seq![Item::Dangling]);
        } else {
            let first = items_from(args, i).first();
            if step == 2 {
                assert(head[i + 1] == args[i + 1]);
            }
            assert(items_from(args, i) == seq![first] + items_from(args, i + step));
            assert(items_from(head, i) == seq![first] + items_from(head, i + step));
            lemma_dangling_after(first, items_from(head, i + step));
            lemma_items_from_split(args, n, i + step);
            assert(seq![first] + (items_from(head, i + step) + items_from(args, n)) =~= (seq![
                first,
            ] + items_from(head, i + step)) + items_from(args, n));
        }
    }
}

/// The items of an argument list are the items of any complete front part
/// of it, followed by the items of what comes after that part.
pub proof fn lemma_items_split(args: Seq<Seq<char>>, n: int)
    requires
        1 <= n <= args.len(),
        !dangling(items_of(args.take(n))),
    ensures
        items_of(args) == items_of(args.take(n)) + items_from(args, n),
{
    lemma_items_from_split(args, n, 1);
}

/// Items that follow never lower the number of help items.
pub proof fn lemma_help_count_grows(front: Seq<Item>, back: Seq<Item>)
    ensures
        help_count(front + back) >= help_count(front),
    decreases back.len(),
{
    if back.len() == 0 {
        assert(front + back =~= front);
    } else {
        assert((front + back).drop_last() =~= front + back.drop_last());
        lemma_help_count_grows(front, back.drop_last());
    }
}

/// Among items none of which is a hostname, no hostname is found; likewise
/// for the port.
pub proof fn lemma_nothing_given(items: Seq<Item>)
    ensures
        (forall|k: int| 0 <= k < items.len() ==> !(#[trigger] items[k] is Hostname))
            ==> hostname_of(items).len() == 0,
        (forall|k: int| 0 <= k < items.len() ==> !(#[trigger] items[k] is Port)) ==> port_of(
            items,
        ).len() == 0,
    decreases items.len(),
{
    if items.len() > 0 {
        lemma_nothing_given(items.drop_last());
        assert(forall|k: int|
            0 <= k < items.drop_last().len() ==> items.drop_last()[k] == items[k]);
    }
}

/// Where no argument from position `i` on is a hostname flag, no item from
/// there on is a hostname; likewise for the port.
pub proof fn lemma_flags_absent(args: Seq<Seq<char>>, i: int)
    requires
        1 <= i,
    ensures
        (forall|j: int| i <= j < args.len() ==> !(token_of(trimmed(#[trigger] args[j]))
            is HostnameFlag)) ==> (forall|k: int|
            0 <= k < items_from(args, i).len() ==> !(#[trigger] items_from(args, i)[k]
                is Hostname)),
        (forall|j: int| i <= j < args.len() ==> !(token_of(trimmed(#[trigger] args[j]))
            is PortFlag)) ==> (forall|k: int|
            0 <= k < items_from(args, i).len() ==> !(#[trigger] items_from(args, i)[k] is Port)),
    decreases args.len() - i,
{
    if i < args.len() {
        let step: int = match token_of(trimmed(args[i])) {
            Token::HostnameFlag | Token::PortFlag => 2,
            _ => 1,
        };
        if i + step <= args.len() {
            lemma_flags_absent(args, i + step);
            let first = items_from(args, i).first();
            let rest = items_from(args, i + step);
            assert(items_from(args, i) == seq![first] + rest);
            assert(forall|k: int|
                1 <= k < items_from(args, i).len() ==> items_from(args, i)[k] == rest[k - 1]);
        }
    }
}

impl Arguments {
    /// Reads the flags and words of `args`, whose first element is the
    /// program name.
    ///
    /// Each help flag appends the usage text to `out` at once, so what was
    /// appended before a failure stays. A hostname or port flag in last
    /// position is the one failure.
    pub fn scan(args: &Vec<String>, out: &mut String) -> (r: Result<Arguments, &'static str>)
        requires
            args.len() >= 1,
        ensures
            match r {
                Ok(arguments) => !dangling(items_of(args.deep_view())) && arguments@ == summary_of(
                    items_of(args.deep_view()),
                ),
                Err(message) => dangling(items_of(args.deep_view())) && message@
                    == premature_end(),
            },
            final(out)@ == old(out)@ + repeated(
                usage_text(args[0]@),
                help_count(items_of(args.deep_view())),
            ),
    {
        let ghost texts = args.deep_view();
        let ghost before = out@;
        let mut arguments = Arguments {
            hostname: String::new(),
            port: String::new(),
            help: false,
            words: Vec::new(),
        };
        let ghost mut done: Seq<Item> = Seq::empty();
        let mut i: usize = 1;
        proof {
            assert(done + items_from(texts, 1) =~= items_of(texts));
            assert(arguments.words.deep_view() =~= words_of(done));
            assert(before + repeated(usage_text(args[0]@), 0) =~= before);
        }
        while i < args.len()
            invariant
                1 <= i <= args.len(),
                texts == args.deep_view(),
                before == old(out)@,
                items_of(texts) == done + items_from(texts, i as int),
                !dangling(done),
                arguments@ == summary_of(done),
                out@ == before + repeated(usage_text(args[0]@), help_count(done)),
            decreases args.len() - i,
        {
            let text = trim(args[i].as_str());
            let ghost rest = items_from(texts, i as int);
            let ghost item: Item;
            match classify(text) {
                Token::HostnameFlag => {
                    if i + 1 >= args.len() {
                        proof {
                            lemma_push_item(done, Item::Dangling);
                            assert(items_of(texts) =~= done.push(Item::Dangling));
                        }
                        return Err("argument ended prematurely");
                    }
                    arguments.hostname = args[i + 1].clone();
                    proof {
                        item = Item::Hostname(texts[i + 1]);
                    }
                    i += 2;
                },
                Token::PortFlag => {
                    if i + 1 >= args.len() {
                        proof {
                            lemma_push_item(done, Item::Dangling);
                            assert(items_of(texts) =~= done.push(Item::Dangling));
                        }
                        return Err("argument ended prematurely");
                    }
                    arguments.port = args[i + 1].clone();
                    proof {
                        item = Item::Port(texts[i + 1]);
                    }
                    i += 2;
                },
                Token::HelpFlag => {
                    let text = usage(args[0].as_str());
                    out.append(text.as_str());
                    arguments.help = true;
                    proof {
                        item = Item::Help;
                        assert(before + repeated(usage_text(args[0]@), help_count(done))
                            + usage_text(args[0]@) =~= before + repeated(
                            usage_text(args[0]@),
                            help_count(done) + 1,
                        ));
                    }
                    i += 1;
                },
                Token::Word => {
                    let ghost words = arguments.words.deep_view();
                    arguments.words.push(text.to_owned());
                    proof {
                        item = Item::Word(text@);
                        assert(arguments.words.deep_view() =~= words.push(text@));
                    }
                    i += 1;
                },
            }
            proof {
                lemma_push_item(done, item);
                assert(rest == seq![item] + items_from(texts, i as int));
                assert(done + rest =~= done.push(item) + items_from(texts, i as int));
                done = done.push(item);
            }
        }
        proof {
            assert(items_of(texts) =~= done);
        }
        Ok(arguments)
    }
}

} // verus!
