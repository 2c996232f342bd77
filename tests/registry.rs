use rawchatserver::server::{ClientInfo, ClientMessage, Delivery, Reason, Server, ServerMessage};

fn info(name: &str, tx: u64) -> ClientInfo {
    ClientInfo { nickname: name.to_string(), tx }
}

fn text(to: u64, s: &str) -> Delivery {
    Delivery { to, msg: ServerMessage::Text(s.to_string()) }
}

fn join(s: &mut Server, name: &str, tx: u64) -> Vec<Delivery> {
    s.handle(ClientMessage::TryConnect(info(name, tx)))
}

#[test]
fn first_client_is_accepted_and_greeted() {
    let mut s = Server::new();
    let out = join(&mut s, "alice", 1);
    assert_eq!(
        out,
        vec![
            Delivery { to: 1, msg: ServerMessage::ConnectOk },
            text(1, "Greetings, alice\nFollowing People are in chat room:\n"),
        ]
    );
    assert!(s.is_connected(&"alice".to_string()));
}

#[test]
fn newcomer_gets_roster_and_members_get_join_line() {
    let mut s = Server::new();
    join(&mut s, "alice", 1);
    join(&mut s, "bob", 2);
    let out = join(&mut s, "carol", 3);
    assert_eq!(
        out,
        vec![
            Delivery { to: 3, msg: ServerMessage::ConnectOk },
            text(3, "Greetings, carol\nFollowing People are in chat room:\n"),
            text(3, "- alice\n"),
            text(3, "- bob\n"),
            text(1, "Server: carol is joined to the conversation\n"),
            text(2, "Server: carol is joined to the conversation\n"),
        ]
    );
}

#[test]
fn newcomer_is_not_told_of_its_own_join() {
    let mut s = Server::new();
    join(&mut s, "alice", 1);
    let out = join(&mut s, "bob", 2);
    let to_bob_join = out.iter().filter(|d| {
        d.to == 2 && d.msg == ServerMessage::Text("Server: bob is joined to the conversation\n".to_string())
    });
    assert_eq!(to_bob_join.count(), 0);
}

#[test]
fn taken_nickname_is_refused_without_change() {
    let mut s = Server::new();
    join(&mut s, "alice", 1);
    let out = join(&mut s, "alice", 2);
    assert_eq!(
        out,
        vec![Delivery { to: 2, msg: ServerMessage::ConnectError(Reason::NicknameAlreadyUsed) }]
    );
    let after = s.handle(ClientMessage::Text("hi\n".to_string()));
    assert_eq!(after, vec![text(1, "hi\n")]);
}

#[test]
fn disconnect_of_unknown_name_does_nothing() {
    let mut s = Server::new();
    join(&mut s, "alice", 1);
    assert_eq!(s.handle(ClientMessage::Disconnect("zed".to_string())), vec![]);
    assert!(s.is_connected(&"alice".to_string()));
    assert_eq!(s.handle(ClientMessage::Text("t".to_string())), vec![text(1, "t")]);
}

#[test]
fn disconnect_on_empty_registry_does_nothing() {
    let mut s = Server::new();
    assert_eq!(s.handle(ClientMessage::Disconnect("alice".to_string())), vec![]);
}

#[test]
fn second_disconnect_is_a_no_op() {
    let mut s = Server::new();
    join(&mut s, "alice", 1);
    join(&mut s, "bob", 2);
    let first = s.handle(ClientMessage::Disconnect("alice".to_string()));
    assert_eq!(first, vec![text(2, "Server: alice left the conversation\n")]);
    assert_eq!(s.handle(ClientMessage::Disconnect("alice".to_string())), vec![]);
    assert!(!s.is_connected(&"alice".to_string()));
    assert!(s.is_connected(&"bob".to_string()));
}

#[test]
fn broadcast_reaches_each_member_once() {
    let mut s = Server::new();
    join(&mut s, "a", 10);
    join(&mut s, "b", 20);
    join(&mut s, "c", 30);
    let out = s.handle(ClientMessage::Text("a : hi\n".to_string()));
    assert_eq!(out, vec![text(10, "a : hi\n"), text(20, "a : hi\n"), text(30, "a : hi\n")]);
}

#[test]
fn broadcast_skips_removed_and_later_clients() {
    let mut s = Server::new();
    join(&mut s, "a", 10);
    join(&mut s, "b", 20);
    s.handle(ClientMessage::Disconnect("a".to_string()));
    let out = s.handle(ClientMessage::Text("m".to_string()));
    join(&mut s, "c", 30);
    assert_eq!(out, vec![text(20, "m")]);
}

#[test]
fn broadcast_with_no_members_delivers_nothing() {
    let mut s = Server::new();
    assert_eq!(s.handle(ClientMessage::Text("m".to_string())), vec![]);
}

#[test]
fn two_broadcasts_arrive_in_order_at_every_member() {
    let mut s = Server::new();
    join(&mut s, "a", 1);
    join(&mut s, "b", 2);
    let mut out = s.handle(ClientMessage::Text("B1".to_string()));
    out.extend(s.handle(ClientMessage::Text("B2".to_string())));
    for to in [1u64, 2] {
        let seen: Vec<&ServerMessage> = out.iter().filter(|d| d.to == to).map(|d| &d.msg).collect();
        assert_eq!(
            seen,
            vec![&ServerMessage::Text("B1".to_string()), &ServerMessage::Text("B2".to_string())]
        );
    }
}

#[test]
fn leaving_member_is_announced_and_name_released() {
    let mut s = Server::new();
    join(&mut s, "alice", 1);
    join(&mut s, "carol", 2);
    join(&mut s, "dave", 3);
    let out = s.handle(ClientMessage::Disconnect("carol".to_string()));
    assert_eq!(
        out,
        vec![
            text(1, "Server: carol left the conversation\n"),
            text(3, "Server: carol left the conversation\n"),
        ]
    );
    let again = join(&mut s, "carol", 4);
    assert_eq!(again[0], Delivery { to: 4, msg: ServerMessage::ConnectOk });
    assert!(s.is_connected(&"carol".to_string()));
}

#[test]
fn shutdown_sends_fault_notice_to_every_member() {
    let mut s = Server::new();
    join(&mut s, "a", 1);
    join(&mut s, "b", 2);
    let fault = ServerMessage::Disconnect(Reason::GeneralError);
    assert_eq!(
        s.shutdown(),
        vec![Delivery { to: 1, msg: fault.clone() }, Delivery { to: 2, msg: fault }]
    );
}

#[test]
fn multicast_copies_message_for_each_client() {
    let clients = vec![info("x", 5), info("y", 6)];
    let out = Server::multicast(&clients, &ServerMessage::ConnectOk);
    assert_eq!(
        out,
        vec![
            Delivery { to: 5, msg: ServerMessage::ConnectOk },
            Delivery { to: 6, msg: ServerMessage::ConnectOk },
        ]
    );
    assert_eq!(Server::multicast(&vec![], &ServerMessage::ConnectOk), vec![]);
}

#[test]
fn greet_lists_every_member_to_the_newcomer_only() {
    let clients = vec![info("x", 5), info("y", 6)];
    let out = Server::greet(&info("z", 7), &clients);
    assert_eq!(
        out,
        vec![
            text(7, "Greetings, z\nFollowing People are in chat room:\n"),
            text(7, "- x\n"),
            text(7, "- y\n"),
        ]
    );
}

#[test]
fn clone_keeps_messages_and_records() {
    let m = ServerMessage::Text("abc".to_string());
    assert_eq!(m.clone(), m);
    let i = info("n", 9);
    assert_eq!(i.clone(), i);
}
