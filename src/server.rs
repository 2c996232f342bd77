use vstd::prelude::*;

verus! {

/// Why a request of a client was refused.
#[derive(Clone, Copy, Debug, PartialEq, Eq, Structural)]
pub enum Reason {
    NicknameAlreadyUsed,
    GeneralError,
}

/// What the registry sends to a client's outbound queue.
#[derive(Debug, PartialEq, Eq)]
pub enum ServerMessage {
    ConnectOk,
    ConnectError(Reason),
    Disconnect(Reason),
    Text(String),
}

/// A `ServerMessage` with its text seen as a sequence of characters.
pub enum MessageView {
    ConnectOk,
    ConnectError(Reason),
    Disconnect(Reason),
    Text(Seq<char>),
}

impl View for ServerMessage {
    type V = MessageView;

    open spec fn view(&self) -> MessageView {
        match self {
            ServerMessage::ConnectOk => MessageView::ConnectOk,
            ServerMessage::ConnectError(r) => MessageView::ConnectError(*r),
            ServerMessage::Disconnect(r) => MessageView::Disconnect(*r),
            ServerMessage::Text(s) => MessageView::Text(s@),
        }
    }
}

impl Clone for ServerMessage {
    fn clone(&self) -> (r: Self)
        ensures
            r == *self,
    {
        match self {
            ServerMessage::ConnectOk => ServerMessage::ConnectOk,
            ServerMessage::ConnectError(r) => ServerMessage::ConnectError(*r),
            ServerMessage::Disconnect(r) => ServerMessage::Disconnect(*r),
            ServerMessage::Text(s) => ServerMessage::Text(s.clone()),
        }
    }
}

/// A registered client: its nickname and the handle of its outbound queue.
#[derive(Debug, PartialEq, Eq)]
pub struct ClientInfo {
    pub nickname: String,
    pub tx: u64,
}

impl View for ClientInfo {
    type V = (Seq<char>, u64);

    open spec fn view(&self) -> (Seq<char>, u64) {
        (self.nickname@, self.tx)
    }
}

impl Clone for ClientInfo {
    fn clone(&self) -> (r: Self)
        ensures
            r == *self,
    {
        ClientInfo { nickname: self.nickname.clone(), tx: self.tx }
    }
}

/// What a connection handler sends to the registry.
#[derive(Debug, PartialEq, Eq)]
pub enum ClientMessage {
    /// Asks to join under a nickname; the answer goes to the given queue.
    TryConnect(ClientInfo),
    /// The client of that nickname is gone.
    Disconnect(String),
    /// A line to relay to every member.
    Text(String),
}

/// A `ClientMessage` with its strings seen as sequences of characters.
pub enum EventView {
    TryConnect(Seq<char>, u64),
    Disconnect(Seq<char>),
    Text(Seq<char>),
}

impl View for ClientMessage {
    type V = EventView;

    open spec fn view(&self) -> EventView {
        match self {
            ClientMessage::TryConnect(info) => EventView::TryConnect(info.nickname@, info.tx),
            ClientMessage::Disconnect(name) => EventView::Disconnect(name@),
            ClientMessage::Text(text) => EventView::Text(text@),
        }
    }
}

/// One message for one outbound queue.
#[derive(Debug, PartialEq, Eq)]
pub struct Delivery {
    pub to: u64,
    pub msg: ServerMessage,
}

impl View for Delivery {
    type V = (u64, MessageView);

    open spec fn view(&self) -> (u64, MessageView) {
        (self.to, self.msg@)
    }
}

/// The membership table as a sequence of (nickname, queue) in order of arrival.
pub type Members = Seq<(Seq<char>, u64)>;

pub type Outputs = Seq<(u64, MessageView)>;

pub open spec fn members_of(clients: Seq<ClientInfo>) -> Members {
    clients.map_values(|c: ClientInfo| c@)
}

pub open spec fn outputs_of(ds: Seq<Delivery>) -> Outputs {
    ds.map_values(|d: Delivery| d@)
}

/// One copy of `msg` for each member, in membership order.
pub open spec fn multicast_to(m: Members, msg: MessageView) -> Outputs {
    m.map_values(|e: (Seq<char>, u64)| (e.1, msg))
}

pub open spec fn welcome_text(name: Seq<char>) -> Seq<char> {
    "Greetings, "@ + name + "\nFollowing People are in chat room:\n"@
}

pub open spec fn roster_line(name: Seq<char>) -> Seq<char> {
    "- "@ + name + "\n"@
}

/// The private greeting of a newcomer: a welcome line, then one line for each member.
pub open spec fn greeting(tx: u64, name: Seq<char>, m: Members) -> Outputs {
    seq![(tx, MessageView::Text(welcome_text(name)))] + m.map_values(
        |e: (Seq<char>, u64)| (tx, MessageView::Text(roster_line(e.0))),
    )
}

/// No nickname appears twice.
pub open spec fn names_unique(m: Members) -> bool {
    forall|i: int, j: int| 0 <= i < j < m.len() ==> m[i].0 != m[j].0
}

pub open spec fn is_member(m: Members, name: Seq<char>) -> bool {
    exists|i: int| 0 <= i < m.len() && m[i].0 == name
}

/// Position of the member called `name`; meaningful only when there is one.
pub open spec fn position_of(m: Members, name: Seq<char>) -> int {
    choose|i: int| 0 <= i < m.len() && m[i].0 == name
}

pub open spec fn join_text(name: Seq<char>) -> Seq<char> {
    "Server: "@ + name + " is joined to the conversation\n"@
}

pub open spec fn leave_text(name: Seq<char>) -> Seq<char> {
    "Server: "@ + name + " left the conversation\n"@
}

/// How the registry answers one event: the new table and the deliveries, in order.
///
/// A free nickname is accepted: the newcomer gets `ConnectOk` and its private
/// greeting, then every earlier member gets the join line, and the newcomer is
/// added last (it is not told of its own arrival). A taken nickname is refused
/// and nothing changes. A disconnect of a member removes it and tells the rest;
/// of anyone else it does nothing. A text goes to every member.
pub open spec fn step(m: Members, ev: EventView) -> (Members, Outputs) {
    match ev {
        EventView::TryConnect(name, tx) => if is_member(m, name) {
            (m, seq![(tx, MessageView::ConnectError(Reason::NicknameAlreadyUsed))])
        } else {
            (
                m.push((name, tx)),
                seq![(tx, MessageView::ConnectOk)] + greeting(tx, name, m) + multicast_to(
                    m,
                    MessageView::Text(join_text(name)),
                ),
            )
        },
        EventView::Disconnect(name) => if is_member(m, name) {
            let rest = m.remove(position_of(m, name));
            (rest, multicast_to(rest, MessageView::Text(leave_text(name))))
        } else {
            (m, Seq::empty())
        },
        EventView::Text(text) => (m, multicast_to(m, MessageView::Text(text))),
    }
}

/// The table and every delivery, in order, after a sequence of events.
pub open spec fn run(m: Members, evs: Seq<EventView>) -> (Members, Outputs)
    decreases evs.len(),
{
    if evs.len() == 0 {
        (m, Seq::empty())
    } else {
        let (m1, o1) = step(m, evs[0]);
        let (m2, o2) = run(m1, evs.drop_first());
        (m2, o1 + o2)
    }
}

/// Removing one entry keeps the nicknames apart.
proof fn lemma_remove_keeps_names_unique(m: Members, i: int)
    requires
        names_unique(m),
        0 <= i < m.len(),
    ensures
        names_unique(m.remove(i)),
{
    let r = m.remove(i);
    assert forall|a: int, b: int| 0 <= a < b < r.len() implies r[a].0 != r[b].0 by {
        let a2 = if a < i { a } else { a + 1 };
        let b2 = if b < i { b } else { b + 1 };
        assert(r[a] == m[a2] && r[b] == m[b2]);
    }
}

/// Appending a nickname that is not yet there keeps the nicknames apart.
proof fn lemma_push_keeps_names_unique(m: Members, e: (Seq<char>, u64))
    requires
        names_unique(m),
        !is_member(m, e.0),
    ensures
        names_unique(m.push(e)),
{
    let r = m.push(e);
    assert forall|a: int, b: int| 0 <= a < b < r.len() implies r[a].0 != r[b].0 by {
        if b == m.len() {
            assert(r[a] == m[a]);
        }
    }
}

/// The entry at `position_of` is the one with that nickname, and it is the only one.
pub proof fn lemma_position_of(m: Members, name: Seq<char>)
    requires
        names_unique(m),
        is_member(m, name),
    ensures
        0 <= position_of(m, name) < m.len(),
        m[position_of(m, name)].0 == name,
        !is_member(m.remove(position_of(m, name)), name),
{
    let p = position_of(m, name);
    let r = m.remove(p);
    if is_member(r, name) {
        let k = choose|k: int| 0 <= k < r.len() && r[k].0 == name;
        let k2 = if k < p { k } else { k + 1 };
        assert(r[k] == m[k2]);
        if k2 < p {
            assert(m[k2].0 != m[p].0);
        } else {
            assert(m[p].0 != m[k2].0);
        }
    }
}

/// One event never puts a nickname in the table twice.
pub proof fn lemma_step_keeps_names_unique(m: Members, ev: EventView)
    requires
        names_unique(m),
    ensures
        names_unique(step(m, ev).0),
{
    match ev {
        EventView::TryConnect(name, tx) => {
            if !is_member(m, name) {
                lemma_push_keeps_names_unique(m, (name, tx));
            }
        },
        EventView::Disconnect(name) => {
            if is_member(m, name) {
                lemma_position_of(m, name);
                lemma_remove_keeps_names_unique(m, position_of(m, name));
            }
        },
        EventView::Text(_) => {},
    }
}

/// Whatever registration attempts, disconnects and texts arrive, in whatever
/// order, the registry never holds two clients under one nickname.
pub proof fn lemma_names_stay_unique(m: Members, evs: Seq<EventView>)
    requires
        names_unique(m),
    ensures
        names_unique(run(m, evs).0),
    decreases evs.len(),
{
    if evs.len() > 0 {
        lemma_step_keeps_names_unique(m, evs[0]);
        lemma_names_stay_unique(step(m, evs[0]).0, evs.drop_first());
    }
}

/// Disconnecting a nickname that is not registered changes nothing and sends
/// nothing; so a second disconnect of the same nickname is a no-op.
pub proof fn lemma_disconnect_idempotent(m: Members, name: Seq<char>)
    requires
        names_unique(m),
    ensures
        !is_member(m, name) ==> step(m, EventView::Disconnect(name)) == (m, Seq::<(u64, MessageView)>::empty()),
        !is_member(step(m, EventView::Disconnect(name)).0, name),
        step(step(m, EventView::Disconnect(name)).0, EventView::Disconnect(name)) == (
            step(m, EventView::Disconnect(name)).0,
            Seq::<(u64, MessageView)>::empty(),
        ),
{
    if is_member(m, name) {
        lemma_position_of(m, name);
    }
}

/// A text handled while N clients are registered is delivered exactly N
/// times, once to the queue of each of those clients, and to no other queue.
pub proof fn lemma_broadcast_complete(m: Members, text: Seq<char>)
    ensures
        step(m, EventView::Text(text)).0 == m,
        step(m, EventView::Text(text)).1.len() == m.len(),
        forall|i: int|
            0 <= i < m.len() ==> #[trigger] step(m, EventView::Text(text)).1[i] == (
                m[i].1,
                MessageView::Text(text),
            ),
{
}

/// The deliveries of a sequence of events are those of its first part
/// followed by those of the rest: what was handled earlier is sent earlier.
pub proof fn lemma_run_append(m: Members, a: Seq<EventView>, b: Seq<EventView>)
    ensures
        run(m, a + b) == (
            run(run(m, a).0, b).0,
            run(m, a).1 + run(run(m, a).0, b).1,
        ),
    decreases a.len(),
{
    if a.len() == 0 {
        assert(a + b =~= b);
        assert(Seq::<(u64, MessageView)>::empty() + run(m, b).1 =~= run(m, b).1);
    } else {
        let (m1, o1) = step(m, a[0]);
        assert((a + b).drop_first() =~= a.drop_first() + b);
        lemma_run_append(m1, a.drop_first(), b);
        let r = run(m1, a.drop_first());
        assert(o1 + (r.1 + run(r.0, b).1) =~= (o1 + r.1) + run(r.0, b).1);
    }
}

/// Two texts handled one after the other reach every member in that order:
/// all copies of the first come before any copy of the second.
pub proof fn lemma_broadcast_order(m: Members, first: Seq<char>, second: Seq<char>)
    ensures
        run(m, seq![EventView::Text(first), EventView::Text(second)]).1.len() == 2 * m.len(),
        forall|i: int|
            0 <= i < m.len() ==> run(m, seq![EventView::Text(first), EventView::Text(second)]).1[i]
                == (#[trigger] m[i].1, MessageView::Text(first)) && run(
                m,
                seq![EventView::Text(first), EventView::Text(second)],
            ).1[m.len() + i] == (m[i].1, MessageView::Text(second)),
{
    let evs = seq![EventView::Text(first), EventView::Text(second)];
    let rest = evs.drop_first();
    assert(rest =~= seq![EventView::Text(second)]);
    assert(rest.drop_first() =~= Seq::<EventView>::empty());
    let tail = run(m, rest.drop_first());
    assert(tail == (m, Seq::<(u64, MessageView)>::empty()));
    assert(run(m, rest).1 =~= multicast_to(m, MessageView::Text(second)));
    assert(run(m, evs).1 =~= multicast_to(m, MessageView::Text(first)) + multicast_to(
        m,
        MessageView::Text(second),
    ));
}

/// The registry: the one owner of the membership table.
pub struct Server {
    clients: Vec<ClientInfo>,
}

impl View for Server {
    type V = Members;

    closed spec fn view(&self) -> Members {
        members_of(self.clients@)
    }
}

impl Server {
    pub open spec fn wf(&self) -> bool {
        names_unique(self@)
    }

    /// An empty registry.
    pub fn new() -> (r: Server)
        ensures
            r@ == Seq::<(Seq<char>, u64)>::empty(),
            r.wf(),
    {
        let r = Server { clients: Vec::new() };
        assert(r@ =~= Seq::<(Seq<char>, u64)>::empty());
        r
    }

    /// Where the client called `name` stands in the table, if it is there.
    fn find(&self, name: &String) -> (r: Option<usize>)
        requires
            self.wf(),
        ensures
            match r {
                Some(i) => is_member(self@, name@) && i == position_of(self@, name@) && i
                    < self@.len(),
                None => !is_member(self@, name@),
            },
    {
        let mut i: usize = 0;
        while i < self.clients.len()
            invariant
                self.wf(),
                i <= self@.len(),
                self@.len() == self.clients@.len(),
                forall|j: int| 0 <= j < i ==> self@[j].0 != name@,
            decreases self.clients@.len() - i,
        {
            if self.clients[i].nickname == *name {
                assert(self@[i as int].0 == name@);
                assert(is_member(self@, name@));
                let ghost p = position_of(self@, name@);
                assert(p == i) by {
                    if p < i {
                        assert(self@[p].0 == name@);
                    } else if p > i {
                        assert(self@[i as int].0 != self@[p].0);
                    }
                };
                return Some(i);
            }
            i = i + 1;
        }
        None
    }

    /// Whether a client called `name` is registered.
    pub fn is_connected(&self, name: &String) -> (r: bool)
        requires
            self.wf(),
        ensures
            r == is_member(self@, name@),
    {
        self.find(name).is_some()
    }

    /// Applies one event to the table and returns the deliveries it causes.
    pub fn handle(&mut self, msg: ClientMessage) -> (r: Vec<Delivery>)
        requires
            old(self).wf(),
        ensures
            final(self).wf(),
            (final(self)@, outputs_of(r@)) == step(old(self)@, msg@),
    {
        match msg {
            ClientMessage::TryConnect(info) => {
                if self.find(&info.nickname).is_some() {
                    let mut out: Vec<Delivery> = Vec::new();
                    out.push(
                        Delivery {
                            to: info.tx,
                            msg: ServerMessage::ConnectError(Reason::NicknameAlreadyUsed),
                        },
                    );
                    assert(outputs_of(out@) =~= seq![
                        (info.tx, MessageView::ConnectError(Reason::NicknameAlreadyUsed)),
                    ]);
                    out
                } else {
                    let mut out: Vec<Delivery> = Vec::new();
                    out.push(Delivery { to: info.tx, msg: ServerMessage::ConnectOk });
                    let mut welcome = Server::greet(&info, &self.clients);
                    let ghost w = welcome@;
                    out.append(&mut welcome);
                    let mut join = String::from_str("Server: ");
                    join.append(info.nickname.as_str());
                    join.append(" is joined to the conversation\n");
                    let mut news = Server::multicast(&self.clients, &ServerMessage::Text(join));
                    let ghost n = news@;
                    out.append(&mut news);
                    assert(outputs_of(out@) =~= seq![(info.tx, MessageView::ConnectOk)]
                        + outputs_of(w) + outputs_of(n));
                    let ghost m = self@;
                    self.clients.push(info);
                    assert(self@ =~= m.push((info.nickname@, info.tx)));
                    proof {
                        lemma_push_keeps_names_unique(m, (info.nickname@, info.tx));
                    }
                    out
                }
            },
            ClientMessage::Disconnect(name) => {
                match self.find(&name) {
                    Some(i) => {
                        let ghost m = self@;
                        self.clients.remove(i);
                        assert(self@ =~= m.remove(i as int));
                        proof {
                            lemma_remove_keeps_names_unique(m, i as int);
                        }
                        let mut leave = String::from_str("Server: ");
                        leave.append(name.as_str());
                        leave.append(" left the conversation\n");
                        Server::multicast(&self.clients, &ServerMessage::Text(leave))
                    },
                    None => {
                        let out: Vec<Delivery> = Vec::new();
                        assert(outputs_of(out@) =~= Seq::empty());
                        out
                    },
                }
            },
            ClientMessage::Text(text) => Server::multicast(&self.clients, &ServerMessage::Text(text)),
        }
    }

    /// What the registry sends when its own inbound queue breaks: a fault
    /// notice to every member, after which it stops.
    pub fn shutdown(&self) -> (r: Vec<Delivery>)
        ensures
            outputs_of(r@) == multicast_to(self@, MessageView::Disconnect(Reason::GeneralError)),
    {
        Server::multicast(&self.clients, &ServerMessage::Disconnect(Reason::GeneralError))
    }
    /// A copy of `msg` for the queue of each client, in the order of `clients`.
    pub fn multicast(clients: &Vec<ClientInfo>, msg: &ServerMessage) -> (r: Vec<Delivery>)
        ensures
            outputs_of(r@) == multicast_to(members_of(clients@), msg@),
    {
        let mut out: Vec<Delivery> = Vec::new();
        let mut i: usize = 0;
        while i < clients.len()
            invariant
                i <= clients@.len(),
                outputs_of(out@) == multicast_to(members_of(clients@.take(i as int)), msg@),
            decreases clients@.len() - i,
        {
            let ghost before = out@;
            let d = Delivery { to: clients[i].tx, msg: msg.clone() };
            assert(d@ == (members_of(clients@)[i as int].1, msg@));
            out.push(d);
            assert(outputs_of(out@) =~= outputs_of(before).push(d@));
            i = i + 1;
            assert(clients@.take(i as int) == clients@.take(i - 1).push(clients@[i - 1]));
            assert(outputs_of(out@) =~= multicast_to(members_of(clients@.take(i as int)), msg@));
        }
        assert(clients@.take(i as int) == clients@);
        out
    }

    /// The private greeting for a newcomer, sent to its own queue only.
    pub fn greet(info: &ClientInfo, clients: &Vec<ClientInfo>) -> (r: Vec<Delivery>)
        ensures
            outputs_of(r@) == greeting(info.tx, info.nickname@, members_of(clients@)),
    {
        let mut welcome = String::from_str("Greetings, ");
        welcome.append(info.nickname.as_str());
        welcome.append("\nFollowing People are in chat room:\n");
        let mut out: Vec<Delivery> = Vec::new();
        out.push(Delivery { to: info.tx, msg: ServerMessage::Text(welcome) });
        assert(outputs_of(out@) =~= greeting(info.tx, info.nickname@, members_of(clients@.take(0))));
        let mut i: usize = 0;
        while i < clients.len()
            invariant
                i <= clients@.len(),
                outputs_of(out@) == greeting(
                    info.tx,
                    info.nickname@,
                    members_of(clients@.take(i as int)),
                ),
            decreases clients@.len() - i,
        {
            let mut line = String::from_str("- ");
            line.append(clients[i].nickname.as_str());
            line.append("\n");
            let ghost before = out@;
            let d = Delivery { to: info.tx, msg: ServerMessage::Text(line) };
            out.push(d);
            assert(outputs_of(out@) =~= outputs_of(before).push(d@));
            i = i + 1;
            assert(clients@.take(i as int) == clients@.take(i - 1).push(clients@[i - 1]));
            assert(members_of(clients@.take(i as int)) =~= members_of(clients@.take(i - 1)).push(
                clients@[i - 1]@,
            ));
            assert(outputs_of(out@) =~= greeting(
                info.tx,
                info.nickname@,
                members_of(clients@.take(i as int)),
            ));
        }
        assert(clients@.take(i as int) == clients@);
        out
    }
}

} // verus!
