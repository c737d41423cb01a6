use plasma::envelope::WsMessage;
use plasma::relay::{Clients, Relay};

fn envelope(chat: &str, sender: &str, n: u8) -> WsMessage {
    WsMessage {
        chat_id: String::from(chat),
        sender_id: String::from(sender),
        content: vec![n],
        timestamp: n as u64,
    }
}

fn members(names: &[&str]) -> Vec<String> {
    names.iter().map(|n| String::from(*n)).collect()
}

#[test]
fn client_table() {
    let mut clients = Clients::new();
    assert!(clients.get_client("alice").is_none());
    clients.add_client(String::from("alice"));
    assert_eq!(clients.get_client("alice"), Some(&Vec::new()));
    clients.remove_client("alice");
    assert!(clients.get_client("alice").is_none());
    clients.remove_client("alice");
}

#[test]
fn frames_reach_the_other_member_in_order() {
    let mut relay = Relay::new();
    relay.user_connected("alice");
    relay.user_connected("bob");
    let chat = members(&["alice", "bob"]);
    let mut sent = Vec::new();
    for n in 0..20u8 {
        let e = envelope("c", "alice", n);
        relay.user_message("alice", &e, &chat);
        sent.push(e.to_bytes());
    }
    assert_eq!(relay.drain("bob"), sent);
    // Delivered once: nothing waits any more.
    assert_eq!(relay.drain("bob"), Vec::<Vec<u8>>::new());
    // The sender gets no echo.
    assert_eq!(relay.drain("alice"), Vec::<Vec<u8>>::new());
    assert_eq!(relay.history("c"), sent);
}

#[test]
fn member_who_is_not_connected_finds_the_log() {
    let mut relay = Relay::new();
    relay.user_connected("alice");
    let chat = members(&["alice", "bob"]);
    let e = envelope("c", "alice", 1);
    relay.user_message("alice", &e, &chat);
    assert!(!relay.is_connected("bob"));
    relay.user_connected("bob");
    // No backfill over the socket.
    assert_eq!(relay.drain("bob"), Vec::<Vec<u8>>::new());
    assert_eq!(relay.history("c"), vec![e.to_bytes()]);
    assert_eq!(relay.history("d"), Vec::<Vec<u8>>::new());
}

#[test]
fn duplicates_are_kept_and_forwarded() {
    let mut relay = Relay::new();
    relay.user_connected("bob");
    let chat = members(&["alice", "bob"]);
    let e = envelope("c", "alice", 1);
    relay.user_message("alice", &e, &chat);
    relay.user_message("alice", &e, &chat);
    assert_eq!(relay.drain("bob"), vec![e.to_bytes(), e.to_bytes()]);
    assert_eq!(relay.history("c"), vec![e.to_bytes(), e.to_bytes()]);
}

#[test]
fn only_members_receive() {
    let mut relay = Relay::new();
    relay.user_connected("alice");
    relay.user_connected("bob");
    relay.user_connected("dave");
    let e = envelope("c", "alice", 1);
    relay.user_message("alice", &e, &members(&["alice", "bob"]));
    assert_eq!(relay.drain("dave"), Vec::<Vec<u8>>::new());
    assert_eq!(relay.drain("bob"), vec![e.to_bytes()]);
    // A member named twice still gets the frame once.
    relay.user_message("alice", &e, &members(&["bob", "alice", "bob"]));
    assert_eq!(relay.drain("bob"), vec![e.to_bytes()]);
}

#[test]
fn disconnect_drops_what_waited() {
    let mut relay = Relay::new();
    relay.user_connected("bob");
    let chat = members(&["alice", "bob"]);
    relay.user_message("alice", &envelope("c", "alice", 1), &chat);
    relay.disconnect_user("bob");
    assert!(!relay.is_connected("bob"));
    assert_eq!(relay.drain("bob"), Vec::<Vec<u8>>::new());
    relay.user_connected("bob");
    assert_eq!(relay.drain("bob"), Vec::<Vec<u8>>::new());
    // Connecting again starts an empty queue.
    relay.user_message("alice", &envelope("c", "alice", 2), &chat);
    relay.user_connected("bob");
    assert_eq!(relay.drain("bob"), Vec::<Vec<u8>>::new());
    assert_eq!(relay.history("c").len(), 2);
}

#[test]
fn chats_keep_their_own_logs() {
    let mut relay = Relay::new();
    relay.user_connected("bob");
    let a = envelope("c1", "alice", 1);
    let b = envelope("c2", "alice", 2);
    relay.user_message("alice", &a, &members(&["alice", "bob"]));
    relay.user_message("alice", &b, &members(&["alice", "bob"]));
    assert_eq!(relay.history("c1"), vec![a.to_bytes()]);
    assert_eq!(relay.history("c2"), vec![b.to_bytes()]);
    assert_eq!(relay.drain("bob"), vec![a.to_bytes(), b.to_bytes()]);
}
