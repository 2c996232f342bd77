use crate::server::{
    is_member, leave_text, lemma_disconnect_idempotent, lemma_position_of, names_unique, position_of,
    step, ClientInfo, ClientMessage, EventView, Members, MessageView, Reason, ServerMessage,
};
use vstd::prelude::*;

verus! {

/// Where a connection stands.
#[derive(Debug, PartialEq, Eq)]
pub enum Phase {
    /// Waiting for the client to type a nickname.
    Naming,
    /// The nickname was put to the registry; waiting for its answer.
    Joining(String),
    /// Registered under the nickname.
    Connected(String),
    /// The connection is over.
    Done,
}

pub enum PhaseView {
    Naming,
    Joining(Seq<char>),
    Connected(Seq<char>),
    Done,
}

impl View for Phase {
    type V = PhaseView;

    open spec fn view(&self) -> PhaseView {
        match self {
            Phase::Naming => PhaseView::Naming,
            Phase::Joining(n) => PhaseView::Joining(n@),
            Phase::Connected(n) => PhaseView::Connected(n@),
            Phase::Done => PhaseView::Done,
        }
    }
}

/// The result of one attempt to read a line from the transport.
#[derive(Debug, PartialEq, Eq)]
pub enum ReadOutcome {
    Line(String),
    /// The read timed out or would block: no line yet, and no error.
    Idle,
    /// The peer closed the stream or the transport failed.
    Failed,
}

pub enum ReadView {
    Line(Seq<char>),
    Idle,
    Failed,
}

impl View for ReadOutcome {
    type V = ReadView;

    open spec fn view(&self) -> ReadView {
        match self {
            ReadOutcome::Line(l) => ReadView::Line(l@),
            ReadOutcome::Idle => ReadView::Idle,
            ReadOutcome::Failed => ReadView::Failed,
        }
    }
}

/// What the code around the handler must do, in order.
#[derive(Debug, PartialEq, Eq)]
pub enum Action {
    /// Write the text to the transport.
    Write(String),
    /// Send the event to the registry.
    Send(ClientMessage),
    /// Close the connection and end the handler.
    Close,
}

pub enum ActionView {
    Write(Seq<char>),
    Send(EventView),
    Close,
}

impl View for Action {
    type V = ActionView;

    open spec fn view(&self) -> ActionView {
        match self {
            Action::Write(t) => ActionView::Write(t@),
            Action::Send(e) => ActionView::Send(e@),
            Action::Close => ActionView::Close,
        }
    }
}

pub open spec fn actions_of(v: Seq<Action>) -> Seq<ActionView> {
    v.map_values(|a: Action| a@)
}

pub open spec fn prompt_text() -> Seq<char> {
    "Greetings!\nPlease enter your nickname: "@
}

pub open spec fn taken_text() -> Seq<char> {
    "Nickname already used. Try again.\n"@
}

pub open spec fn fault_text() -> Seq<char> {
    "Server error, you will be disconnected.\n"@
}

/// The line that a member's input becomes for the others.
pub open spec fn relay_text(name: Seq<char>, line: Seq<char>) -> Seq<char> {
    name + " : "@ + line + "\n"@
}

/// How the handler answers a read on the transport.
///
/// While naming, a line is the nickname to ask for, and a failure ends the
/// connection without registering. While connected, a line is relayed to
/// everyone, and a failure tells the registry that the client is gone and ends
/// the connection. A read that found nothing does nothing, and so does any read
/// while the registry's answer is awaited or after the end.
pub open spec fn after_read(tx: u64, p: PhaseView, r: ReadView) -> (PhaseView, Seq<ActionView>) {
    match (p, r) {
        (PhaseView::Naming, ReadView::Line(name)) => (
            PhaseView::Joining(name),
            seq![ActionView::Send(EventView::TryConnect(name, tx))],
        ),
        (PhaseView::Naming, ReadView::Failed) => (PhaseView::Done, seq![ActionView::Close]),
        (PhaseView::Connected(name), ReadView::Line(line)) => (
            PhaseView::Connected(name),
            seq![ActionView::Send(EventView::Text(relay_text(name, line)))],
        ),
        (PhaseView::Connected(name), ReadView::Failed) => (
            PhaseView::Done,
            seq![ActionView::Send(EventView::Disconnect(name)), ActionView::Close],
        ),
        _ => (p, Seq::empty()),
    }
}

/// How the handler answers the registry's reply to its request, `None` when
/// the registry could not be heard.
///
/// Acceptance connects. A taken nickname is reported and asked for again.
/// A server fault is reported and ends the connection; so does anything else.
/// Outside the wait for a reply nothing happens.
pub open spec fn after_reply(p: PhaseView, reply: Option<MessageView>) -> (
    PhaseView,
    Seq<ActionView>,
) {
    match p {
        PhaseView::Joining(name) => match reply {
            Some(MessageView::ConnectOk) => (PhaseView::Connected(name), Seq::empty()),
            Some(MessageView::ConnectError(Reason::NicknameAlreadyUsed)) => (
                PhaseView::Naming,
                seq![ActionView::Write(taken_text()), ActionView::Write(prompt_text())],
            ),
            Some(MessageView::ConnectError(Reason::GeneralError)) => (
                PhaseView::Done,
                seq![ActionView::Write(fault_text()), ActionView::Close],
            ),
            _ => (PhaseView::Done, seq![ActionView::Close]),
        },
        _ => (p, Seq::empty()),
    }
}

/// How the handler answers a failed send to the registry: a registered client
/// still tries to say that it is gone; every live connection ends.
pub open spec fn after_send_failure(p: PhaseView) -> (PhaseView, Seq<ActionView>) {
    match p {
        PhaseView::Connected(name) => (
            PhaseView::Done,
            seq![ActionView::Send(EventView::Disconnect(name)), ActionView::Close],
        ),
        PhaseView::Done => (PhaseView::Done, Seq::empty()),
        _ => (PhaseView::Done, seq![ActionView::Close]),
    }
}

/// What a message from the client's own queue puts on the transport: the text
/// of a `Text`, and nothing for any other message.
pub open spec fn written_text(msg: MessageView) -> Option<Seq<char>> {
    match msg {
        MessageView::Text(t) => Some(t),
        _ => None,
    }
}

/// When the transport of a registered client fails, its handler tells the
/// registry that the client is gone and ends. The registry then drops the
/// client, sends a leave line naming it to each remaining member (every other
/// client registered before), and a later request for the same nickname is
/// accepted.
pub proof fn lemma_fault_releases_name(m: Members, name: Seq<char>, tx: u64, newcomer: u64)
    requires
        names_unique(m),
        is_member(m, name),
    ensures
        after_read(tx, PhaseView::Connected(name), ReadView::Failed) == (
            PhaseView::Done,
            seq![ActionView::Send(EventView::Disconnect(name)), ActionView::Close],
        ),
        ({
            let (rest, out) = step(m, EventView::Disconnect(name));
            &&& !is_member(rest, name)
            &&& forall|j: int|
                0 <= j < m.len() && m[j].0 != name ==> exists|i: int|
                    0 <= i < rest.len() && #[trigger] rest[i] == m[j]
            &&& out.len() == rest.len()
            &&& forall|i: int|
                0 <= i < rest.len() ==> #[trigger] out[i] == (
                    rest[i].1,
                    MessageView::Text(leave_text(name)),
                )
            &&& step(rest, EventView::TryConnect(name, newcomer)).1[0] == (
                newcomer,
                MessageView::ConnectOk,
            )
            &&& is_member(step(rest, EventView::TryConnect(name, newcomer)).0, name)
        }),
{
    lemma_position_of(m, name);
    lemma_disconnect_idempotent(m, name);
    let p = position_of(m, name);
    let rest = m.remove(p);
    assert forall|j: int| 0 <= j < m.len() && m[j].0 != name implies exists|i: int|
        0 <= i < rest.len() && #[trigger] rest[i] == m[j] by {
        if j < p {
            assert(rest[j] == m[j]);
        } else {
            assert(j != p);
            assert(rest[j - 1] == m[j]);
        }
    }
    let joined = rest.push((name, newcomer));
    assert(joined[joined.len() - 1].0 == name);
}

/// The handler of one connection, as a state machine: the caller performs the
/// I/O, hands each outcome in, and carries out the actions that come back.
pub struct Client {
    tx: u64,
    phase: Phase,
}

impl View for Client {
    /// The handle of the client's outbound queue, and the phase.
    type V = (u64, PhaseView);

    closed spec fn view(&self) -> (u64, PhaseView) {
        (self.tx, self.phase@)
    }
}

impl Client {
    /// A new connection whose outbound queue has the handle `tx`; it starts by
    /// asking for a nickname.
    pub fn new(tx: u64) -> (r: Client)
        ensures
            r@ == (tx, PhaseView::Naming),
    {
        Client { tx, phase: Phase::Naming }
    }

    /// The text that asks for a nickname.
    pub fn prompt() -> (r: String)
        ensures
            r@ == prompt_text(),
    {
        String::from_str("Greetings!\nPlease enter your nickname: ")
    }

    pub fn phase(&self) -> (r: &Phase)
        ensures
            r@ == self@.1,
    {
        &self.phase
    }

    /// Takes the outcome of a read on the transport.
    pub fn on_read(&mut self, r: ReadOutcome) -> (acts: Vec<Action>)
        ensures
            final(self)@.0 == old(self)@.0,
            (final(self)@.1, actions_of(acts@)) == after_read(old(self)@.0, old(self)@.1, r@),
    {
        let mut acts: Vec<Action> = Vec::new();
        match (&self.phase, r) {
            (Phase::Naming, ReadOutcome::Line(name)) => {
                let info = ClientInfo { nickname: name.clone(), tx: self.tx };
                acts.push(Action::Send(ClientMessage::TryConnect(info)));
                self.phase = Phase::Joining(name);
            },
            (Phase::Naming, ReadOutcome::Failed) => {
                acts.push(Action::Close);
                self.phase = Phase::Done;
            },
            (Phase::Connected(name), ReadOutcome::Line(line)) => {
                let mut text = name.clone();
                text.append(" : ");
                text.append(line.as_str());
                text.append("\n");
                acts.push(Action::Send(ClientMessage::Text(text)));
            },
            (Phase::Connected(name), ReadOutcome::Failed) => {
                acts.push(Action::Send(ClientMessage::Disconnect(name.clone())));
                acts.push(Action::Close);
                self.phase = Phase::Done;
            },
            _ => {},
        }
        assert(actions_of(acts@) =~= after_read(old(self)@.0, old(self)@.1, r@).1);
        acts
    }

    /// Takes the registry's reply to the request to join, `None` when the
    /// registry could not be heard.
    pub fn on_reply(&mut self, reply: Option<ServerMessage>) -> (acts: Vec<Action>)
        ensures
            final(self)@.0 == old(self)@.0,
            (final(self)@.1, actions_of(acts@)) == after_reply(
                old(self)@.1,
                match reply {
                    Some(m) => Some(m@),
                    None => None,
                },
            ),
    {
        let mut acts: Vec<Action> = Vec::new();
        let next = match &self.phase {
            Phase::Joining(name) => match reply {
                Some(ServerMessage::ConnectOk) => Phase::Connected(name.clone()),
                Some(ServerMessage::ConnectError(Reason::NicknameAlreadyUsed)) => {
                    acts.push(Action::Write(String::from_str("Nickname already used. Try again.\n")));
                    acts.push(Action::Write(Client::prompt()));
                    Phase::Naming
                },
                Some(ServerMessage::ConnectError(Reason::GeneralError)) => {
                    acts.push(
                        Action::Write(String::from_str("Server error, you will be disconnected.\n")),
                    );
                    acts.push(Action::Close);
                    Phase::Done
                },
                _ => {
                    acts.push(Action::Close);
                    Phase::Done
                },
            },
            Phase::Naming => Phase::Naming,
            Phase::Connected(name) => Phase::Connected(name.clone()),
            Phase::Done => Phase::Done,
        };
        self.phase = next;
        assert(actions_of(acts@) =~= after_reply(
            old(self)@.1,
            match reply {
                Some(m) => Some(m@),
                None => None,
            },
        ).1);
        acts
    }

    /// Takes the news that a send to the registry failed.
    pub fn on_send_failed(&mut self) -> (acts: Vec<Action>)
        ensures
            final(self)@.0 == old(self)@.0,
            (final(self)@.1, actions_of(acts@)) == after_send_failure(old(self)@.1),
    {
        let mut acts: Vec<Action> = Vec::new();
        match &self.phase {
            Phase::Connected(name) => {
                acts.push(Action::Send(ClientMessage::Disconnect(name.clone())));
                acts.push(Action::Close);
            },
            Phase::Done => {},
            _ => {
                acts.push(Action::Close);
            },
        }
        self.phase = Phase::Done;
        assert(actions_of(acts@) =~= after_send_failure(old(self)@.1).1);
        acts
    }

    /// What a message taken from the client's own queue puts on the transport.
    pub fn text_to_write(msg: ServerMessage) -> (r: Option<String>)
        ensures
            match r {
                Some(t) => written_text(msg@) == Some(t@),
                None => written_text(msg@) is None,
            },
    {
        match msg {
            ServerMessage::Text(t) => Some(t),
            _ => None,
        }
    }
}

} // verus!
