//! The exchange with the daemon, as a state machine.
//!
//! A session is one request and one response: connect, send the request
//! line, flush, receive one line, print it trimmed. The machine decides what
//! to do next; whoever drives it performs each [`Action`] on a real transport
//! and reports back with an [`Event`]. The first failure ends the session,
//! and nothing is ever retried.

use vstd::prelude::*;
use vstd::string::StringExecFns;
use crate::arguments::{dangling, items_of, token_of};
use crate::command::wire_text;
use crate::config::{lemma_help_flag_triggers_help, outcome_of, Config, ConfigView};
use crate::text::{trim, trimmed};

verus! {

/// What a session is waiting for.
#[derive(Debug, Clone, Copy, PartialEq, Eq, Structural)]
pub enum Stage {
    /// The connection is being established.
    Connecting,
    /// The request line is being written.
    Sending,
    /// Buffered bytes are being pushed to the transport.
    Flushing,
    /// The response line is being read.
    Receiving,
    /// Nothing: the session is over.
    Closed,
}

/// The step of a session that went wrong.
#[derive(Debug, Clone, Copy, PartialEq, Eq, Structural)]
pub enum Failure {
    /// The connection could not be established.
    Connect,
    /// The request line could not be written in full.
    Send,
    /// Buffered bytes could not be pushed to the transport.
    Flush,
    /// The response line could not be read.
    Receive,
}

/// The message that tells the user about a failure.
pub open spec fn message_of(failure: Failure) -> Seq<char> {
    match failure {
        Failure::Connect => "unable to connect to server"@,
        Failure::Send => "problem sending command"@,
        Failure::Flush => "problem flushing stream"@,
        Failure::Receive => "problem reading line from server"@,
    }
}

impl Failure {
    /// The message that tells the user about this failure.
    pub fn message(&self) -> (text: &'static str)
        ensures
            text@ == message_of(*self),
    {
        match self {
            Failure::Connect => "unable to connect to server",
            Failure::Send => "problem sending command",
            Failure::Flush => "problem flushing stream",
            Failure::Receive => "problem reading line from server",
        }
    }
}

/// What the driver of a session is asked to do.
#[derive(Debug, PartialEq, Eq)]
pub enum Action {
    /// Open a connection to this address.
    Connect(String),
    /// Write this text to the connection, all of it.
    Send(String),
    /// Push buffered bytes to the transport.
    Flush,
    /// Read one line from the connection.
    Receive,
    /// Print this text on a line of its own and end with success.
    Print(String),
    /// End with this failure.
    Fail(Failure),
    /// End: there is nothing to do.
    Stop,
}

/// The mathematical value of an [`Action`].
pub enum ActionView {
    Connect(Seq<char>),
    Send(Seq<char>),
    Flush,
    Receive,
    Print(Seq<char>),
    Fail(Failure),
    Stop,
}

impl View for Action {
    type V = ActionView;

    open spec fn view(&self) -> ActionView {
        match self {
            Action::Connect(address) => ActionView::Connect(address@),
            Action::Send(text) => ActionView::Send(text@),
            Action::Flush => ActionView::Flush,
            Action::Receive => ActionView::Receive,
            Action::Print(text) => ActionView::Print(text@),
            Action::Fail(failure) => ActionView::Fail(*failure),
            Action::Stop => ActionView::Stop,
        }
    }
}

/// How the last action went.
#[derive(Debug, PartialEq, Eq)]
pub enum Event {
    /// It succeeded. The text is what was read, and is empty for an action
    /// that reads nothing.
    Completed(String),
    /// It met an I/O error.
    Failed,
}

/// The mathematical value of an [`Event`].
pub enum EventView {
    Completed(Seq<char>),
    Failed,
}

impl View for Event {
    type V = EventView;

    open spec fn view(&self) -> EventView {
        match self {
            Event::Completed(text) => EventView::Completed(text@),
            Event::Failed => EventView::Failed,
        }
    }
}

/// One exchange with the daemon: what it waits for, and the request line it
/// has to send.
#[derive(Debug)]
pub struct Session {
    stage: Stage,
    request: String,
}

/// The mathematical value of a [`Session`].
pub struct SessionView {
    pub stage: Stage,
    pub request: Seq<char>,
}

impl View for Session {
    type V = SessionView;

    closed spec fn view(&self) -> SessionView {
        SessionView { stage: self.stage, request: self.request@ }
    }
}

/// The address to connect to: hostname and port with a colon between them.
pub open spec fn address_of(config: ConfigView) -> Seq<char> {
    config.hostname + ":"@ + config.port
}

/// A session that is over before it began.
pub open spec fn closed() -> SessionView {
    SessionView { stage: Stage::Closed, request: Seq::empty() }
}

/// How a session starts for a configuration: not at all where help was
/// shown, else by connecting.
pub open spec fn opening(config: ConfigView) -> (SessionView, ActionView) {
    if config.help_triggered {
        (closed(), ActionView::Stop)
    } else {
        (
            SessionView { stage: Stage::Connecting, request: wire_text(config.command->0) },
            ActionView::Connect(address_of(config)),
        )
    }
}

/// How a session goes on after an event: the stage it moves to, with its
/// request line unchanged, and the action it asks for.
///
/// Each success leads to the next stage, the last one to printing the line
/// that was read, trimmed. Each failure ends the session with the failure of
/// the stage it was in. A session that is over stays so.
pub open spec fn transition(session: SessionView, event: EventView) -> (SessionView, ActionView) {
    match (session.stage, event) {
        (Stage::Connecting, EventView::Completed(_)) => (
            SessionView { stage: Stage::Sending, request: session.request },
            ActionView::Send(session.request),
        ),
        (Stage::Sending, EventView::Completed(_)) => (
            SessionView { stage: Stage::Flushing, request: session.request },
            ActionView::Flush,
        ),
        (Stage::Flushing, EventView::Completed(_)) => (
            SessionView { stage: Stage::Receiving, request: session.request },
            ActionView::Receive,
        ),
        (Stage::Receiving, EventView::Completed(line)) => (
            closed(),
            ActionView::Print(trimmed(line)),
        ),
        (Stage::Connecting, EventView::Failed) => (closed(), ActionView::Fail(Failure::Connect)),
        (Stage::Sending, EventView::Failed) => (closed(), ActionView::Fail(Failure::Send)),
        (Stage::Flushing, EventView::Failed) => (closed(), ActionView::Fail(Failure::Flush)),
        (Stage::Receiving, EventView::Failed) => (closed(), ActionView::Fail(Failure::Receive)),
        (Stage::Closed, _) => (closed(), ActionView::Stop),
    }
}

/// The actions that a session asks for, one in answer to each of the events
/// reported to it in turn.
pub open spec fn actions_of(session: SessionView, events: Seq<EventView>) -> Seq<ActionView>
    decreases events.len(),
{
    if events.len() == 0 {
        Seq::empty()
    } else {
        seq![transition(session, events.first()).1] + actions_of(
            transition(session, events.first()).0,
            events.drop_first(),
        )
    }
}

/// A session answers each event with one action.
pub proof fn lemma_one_action_per_event(session: SessionView, events: Seq<EventView>)
    ensures
        actions_of(session, events).len() == events.len(),
    decreases events.len(),
{
    if events.len() > 0 {
        lemma_one_action_per_event(transition(session, events.first()).0, events.drop_first());
    }
}

/// A session that is over answers every event by saying so.
pub proof fn lemma_closed_is_silent(events: Seq<EventView>)
    ensures
        forall|k: int|
            0 <= k < events.len() ==> #[trigger] actions_of(closed(), events)[k]
                == ActionView::Stop,
    decreases events.len(),
{
    lemma_one_action_per_event(closed(), events);
    if events.len() > 0 {
        lemma_closed_is_silent(events.drop_first());
        lemma_one_action_per_event(closed(), events.drop_first());
        assert forall|k: int| 0 <= k < events.len() implies #[trigger] actions_of(
            closed(),
            events,
        )[k] == ActionView::Stop by {
            if k > 0 {
                assert(actions_of(closed(), events)[k] == actions_of(
                    closed(),
                    events.drop_first(),
                )[k - 1]);
            }
        }
    }
}

/// Where help was shown, the session starts over and never asks for a
/// connection, nor for anything else, whatever is reported to it.
pub proof fn lemma_help_never_connects(config: ConfigView, events: Seq<EventView>)
    requires
        config.help_triggered,
    ensures
        opening(config) == (closed(), ActionView::Stop),
        forall|k: int|
            0 <= k < events.len() ==> #[trigger] actions_of(opening(config).0, events)[k]
                == ActionView::Stop,
{
    lemma_closed_is_silent(events);
}

/// A help flag in a position where a flag is looked for suppresses the
/// connection: the session for the configuration that is read starts over.
/// `n` is the position of the flag, in front of which the list is complete.
pub proof fn lemma_help_flag_suppresses_connection(
    args: Seq<Seq<char>>,
    n: int,
    events: Seq<EventView>,
)
    requires
        1 <= n < args.len(),
        !dangling(items_of(args.take(n))),
        token_of(trimmed(args[n])) is HelpFlag,
    ensures
        outcome_of(args) matches Ok(config) ==> {
            &&& opening(config) == (closed(), ActionView::Stop)
            &&& forall|k: int|
                0 <= k < events.len() ==> #[trigger] actions_of(opening(config).0, events)[k]
                    == ActionView::Stop
        },
{
    lemma_help_flag_triggers_help(args, n);
    if let Ok(config) = outcome_of(args) {
        lemma_help_never_connects(config, events);
    }
}

/// Once started, a session never asks for a connection: there is at most
/// one attempt, and none is repeated.
pub proof fn lemma_connects_at_most_once(session: SessionView, events: Seq<EventView>)
    ensures
        forall|k: int|
            0 <= k < events.len() ==> !(#[trigger] actions_of(session, events)[k] is Connect),
    decreases events.len(),
{
    lemma_one_action_per_event(session, events);
    if events.len() > 0 {
        let next = transition(session, events.first()).0;
        lemma_connects_at_most_once(next, events.drop_first());
        lemma_one_action_per_event(next, events.drop_first());
        assert forall|k: int| 0 <= k < events.len() implies !(#[trigger] actions_of(
            session,
            events,
        )[k] is Connect) by {
            if k > 0 {
                assert(actions_of(session, events)[k] == actions_of(next, events.drop_first())[k
                    - 1]);
            }
        }
    }
}

/// An I/O error ends the session with a failure, and nothing is asked for
/// afterwards: no retry, and nothing to print.
pub proof fn lemma_failure_is_final(session: SessionView, later: Seq<EventView>)
    requires
        session.stage != Stage::Closed,
    ensures
        transition(session, EventView::Failed).0 == closed(),
        transition(session, EventView::Failed).1 is Fail,
        forall|k: int|
            0 <= k < later.len() ==> #[trigger] actions_of(
                transition(session, EventView::Failed).0,
                later,
            )[k] == ActionView::Stop,
{
    lemma_closed_is_silent(later);
}

/// Where every action succeeds, a session that was opened sends its request
/// line, flushes, receives, and prints the received line trimmed.
pub proof fn lemma_exchange(
    config: ConfigView,
    connected: Seq<char>,
    sent: Seq<char>,
    flushed: Seq<char>,
    line: Seq<char>,
)
    requires
        !config.help_triggered,
    ensures
        opening(config).1 == ActionView::Connect(address_of(config)),
        actions_of(
            opening(config).0,
            seq![
                EventView::Completed(connected),
                EventView::Completed(sent),
                EventView::Completed(flushed),
                EventView::Completed(line),
            ],
        ) == seq![
            ActionView::Send(wire_text(config.command->0)),
            ActionView::Flush,
            ActionView::Receive,
            ActionView::Print(trimmed(line)),
        ],
{
    let events = seq![
        EventView::Completed(connected),
        EventView::Completed(sent),
        EventView::Completed(flushed),
        EventView::Completed(line),
    ];
    let first = opening(config).0;
    let second = transition(first, events[0]).0;
    let third = transition(second, events[1]).0;
    let fourth = transition(third, events[2]).0;
    let e1 = events.drop_first();
    let e2 = e1.drop_first();
    let e3 = e2.drop_first();
    assert(e3.drop_first().len() == 0);
    assert(actions_of(transition(fourth, events[3]).0, e3.drop_first()) =~= Seq::empty());
    assert(actions_of(fourth, e3) =~= seq![ActionView::Print(trimmed(line))]);
    assert(actions_of(third, e2) =~= seq![ActionView::Receive, ActionView::Print(trimmed(line))]);
    assert(actions_of(second, e1) =~= seq![
        ActionView::Flush,
        ActionView::Receive,
        ActionView::Print(trimmed(line)),
    ]);
    assert(actions_of(first, events) =~= seq![
        ActionView::Send(wire_text(config.command->0)),
        ActionView::Flush,
        ActionView::Receive,
        ActionView::Print(trimmed(line)),
    ]);
}

impl Session {
    /// The address that a configuration names.
    pub fn address(config: &Config) -> (address: String)
        ensures
            address@ == address_of(config@),
    {
        String::from_str(config.hostname()).concat(":").concat(config.port())
    }

    /// A session that is over, and the action that says so.
    pub fn finished() -> (r: (Session, Action))
        ensures
            r.0@ == closed(),
            r.1@ == ActionView::Stop,
    {
        (Session { stage: Stage::Closed, request: String::new() }, Action::Stop)
    }

    /// Starts a session that will connect to `address` and send `request`.
    pub fn open(address: String, request: String) -> (r: (Session, Action))
        ensures
            r.0@ == (SessionView { stage: Stage::Connecting, request: request@ }),
            r.1@ == ActionView::Connect(address@),
    {
        (Session { stage: Stage::Connecting, request }, Action::Connect(address))
    }

    /// Starts the session for a configuration. Where help was shown, no
    /// connection is asked for.
    pub fn begin(config: &Config) -> (r: (Session, Action))
        requires
            config@.wf(),
        ensures
            (r.0@, r.1@) == opening(config@),
    {
        match (config.wants_help(), config.command()) {
            (false, Some(command)) => Session::open(
                Session::address(config),
                command.request_line(),
            ),
            _ => Session::finished(),
        }
    }

    /// What the session is waiting for.
    pub fn stage(&self) -> (stage: Stage)
        ensures
            stage == self@.stage,
    {
        self.stage
    }

    /// Takes the outcome of the last action and decides the next one.
    pub fn step(self, event: Event) -> (r: (Session, Action))
        ensures
            (r.0@, r.1@) == transition(self@, event@),
    {
        let over = Session { stage: Stage::Closed, request: String::new() };
        match (self.stage, event) {
            (Stage::Connecting, Event::Completed(_)) => {
                let text = self.request.clone();
                (Session { stage: Stage::Sending, request: self.request }, Action::Send(text))
            },
            (Stage::Sending, Event::Completed(_)) => (
                Session { stage: Stage::Flushing, request: self.request },
                Action::Flush,
            ),
            (Stage::Flushing, Event::Completed(_)) => (
                Session { stage: Stage::Receiving, request: self.request },
                Action::Receive,
            ),
            (Stage::Receiving, Event::Completed(line)) => (
                over,
                Action::Print(trim(line.as_str()).to_owned()),
            ),
            (Stage::Connecting, Event::Failed) => (over, Action::Fail(Failure::Connect)),
            (Stage::Sending, Event::Failed) => (over, Action::Fail(Failure::Send)),
            (Stage::Flushing, Event::Failed) => (over, Action::Fail(Failure::Flush)),
            (Stage::Receiving, Event::Failed) => (over, Action::Fail(Failure::Receive)),
            (Stage::Closed, _) => (over, Action::Stop),
        }
    }
}

} // verus!
