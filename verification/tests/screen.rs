use plasma::account::{Account, Authorized};
use plasma::api::response;
use plasma::chats::{get_non_user_id, Chat, Chats, UserHandle};
use plasma::cipher::Cipher;
use plasma::envelope::WsMessage;
use plasma::keys::X3dhSharedSecret;
use plasma::model::ObjectId;
use plasma::pipeline::{Outbox, ReceiveError, ReplayFilter};
use plasma::tui::app::{App, Command, Outcome};
use plasma::tui::tools::{
    calculate_scroll, ErrorMessage, Key, ListState, MessagesBuffer, Mode, StatefulList,
};

fn oid(n: u8) -> ObjectId {
    ObjectId::parse_str(&format!("{:024x}", n)).unwrap()
}

fn chat(n: u8, name: &str) -> Chat {
    Chat { id: oid(n), user: UserHandle { id: oid(n + 100), username: String::from(name) } }
}

fn app() -> App {
    App::new(vec![chat(1, "bob"), chat(2, "dave")], String::from("alice"))
}

fn type_text(app: &mut App, text: &str) {
    for c in text.chars() {
        app.key_pressed(Key::Char(c));
    }
}

#[test]
fn other_member_of_a_chat() {
    let me = oid(1);
    assert_eq!(get_non_user_id(&vec![oid(1), oid(2)], &me), Some(oid(2)));
    assert_eq!(get_non_user_id(&vec![oid(2), oid(1)], &me), Some(oid(2)));
    assert_eq!(get_non_user_id(&vec![oid(1), oid(1)], &me), None);
    assert_eq!(get_non_user_id(&vec![], &me), None);
    assert_eq!(get_non_user_id(&vec![oid(1), oid(3), oid(2)], &me), Some(oid(3)));
}

#[test]
fn chats_pair_up_with_names() {
    let listed = vec![
        response::Chat { id: oid(10), users: vec![oid(1), oid(2)] },
        response::Chat { id: oid(11), users: vec![oid(3), oid(1)] },
        response::Chat { id: oid(12), users: vec![oid(1), oid(4)] },
    ];
    let names = vec![String::from("bob"), String::from("carol")];
    let chats = Chats::new(listed, names, oid(1)).unwrap();
    assert_eq!(chats.chats.len(), 2);
    assert_eq!(chats.chats[0].id, oid(10));
    assert_eq!(chats.chats[0].user.id, oid(2));
    assert_eq!(chats.chats[0].user.username, "bob");
    assert_eq!(chats.chats[1].user.id, oid(3));
    assert_eq!(chats.chats[1].user.username, "carol");
    let alone = vec![response::Chat { id: oid(10), users: vec![oid(1)] }];
    assert!(Chats::new(alone, vec![String::from("x")], oid(1)).is_none());
    assert_eq!(Chats::new(vec![], vec![String::from("x")], oid(1)).unwrap().chats.len(), 0);
}

#[test]
fn account_is_authorized_by_its_token() {
    let account = Account::new(String::from("a@x"));
    assert_eq!(account.mail(), "a@x");
    assert_eq!(account.keyring().mail(), "a@x");
    let account: Account<Authorized> =
        account.try_login_token(String::from("tok"), String::from("alice"), oid(1));
    assert_eq!(account.token(), "tok");
    assert_eq!(account.username(), "alice");
    assert_eq!(account.id(), &oid(1));
    assert_eq!(account.mail(), "a@x");
    assert_eq!(account.keyring().token_path(), ".plasmax/a@x/token");
}

#[test]
fn list_highlight_goes_around() {
    let mut list = StatefulList::with_items(vec!['a', 'b', 'c']);
    assert_eq!(list.state.selected(), None);
    assert_eq!(list.get(), None);
    list.next();
    assert_eq!(list.state.selected(), Some(0));
    list.next();
    list.next();
    assert_eq!(list.state.selected(), Some(2));
    list.next();
    assert_eq!(list.state.selected(), Some(0));
    list.previous();
    assert_eq!(list.state.selected(), Some(2));
    list.previous();
    assert_eq!(list.state.selected(), Some(1));
    assert_eq!(list.get(), None);
    assert!(list.select());
    assert_eq!(list.get(), Some(&'b'));
    assert!(!list.select());
    list.unselect();
    assert_eq!(list.state.selected(), None);
    assert_eq!(list.get(), Some(&'b'));
    list.previous();
    assert_eq!(list.state.selected(), Some(0));
    let mut state = ListState::default();
    state.select(Some(4));
    assert_eq!(state.selected(), Some(4));
}

#[test]
fn empty_list() {
    let mut list: StatefulList<u8> = StatefulList::with_items(vec![]);
    list.next();
    assert_eq!(list.state.selected(), Some(0));
    list.previous();
    assert_eq!(list.state.selected(), Some(0));
    assert!(list.select());
    assert_eq!(list.get(), None);
}

#[test]
fn buffer_scrolls_between_its_ends() {
    let mut buffer = MessagesBuffer::new(String::from("alice"));
    assert_eq!(buffer.scroll_get(), 0);
    buffer.scroll_down();
    assert_eq!(buffer.scroll_get(), 0);
    buffer.scroll_up();
    buffer.scroll_up();
    assert_eq!(buffer.scroll_get(), 2);
    buffer.scroll_block();
    buffer.scroll_up();
    assert_eq!(buffer.scroll_get(), 2);
    buffer.scroll_down();
    assert_eq!(buffer.scroll_get(), 1);
    buffer.scroll_unblock();
    buffer.scroll_up();
    assert_eq!(buffer.scroll_get(), 2);
    buffer.scroll_reset();
    assert_eq!(buffer.scroll_get(), 0);
}

#[test]
fn buffer_lines() {
    let mut buffer = MessagesBuffer::new(String::from("alice"));
    buffer.push("alice", "hi");
    buffer.push("bob", "hello");
    let lines = buffer.text();
    assert_eq!(lines.len(), 2);
    assert_eq!((lines[0].mine, lines[0].label.as_str(), lines[0].content.as_str()), (true, "@alice:", "hi"));
    assert_eq!((lines[1].mine, lines[1].label.as_str(), lines[1].content.as_str()), (false, "@bob:", "hello"));
}

#[test]
fn scroll_of_the_chat() {
    let mut buffer = MessagesBuffer::new(String::from("alice"));
    assert_eq!(calculate_scroll(&buffer, 10, 5), 0);
    assert_eq!(calculate_scroll(&buffer, 10, 7), 0);
    assert_eq!(calculate_scroll(&buffer, 10, 8), 0);
    assert_eq!(calculate_scroll(&buffer, 10, 9), 1);
    assert_eq!(calculate_scroll(&buffer, 10, 20), 12);
    assert_eq!(calculate_scroll(&buffer, 0, 0), 2);
    assert_eq!(calculate_scroll(&buffer, 1, 0), 1);
    assert_eq!(calculate_scroll(&buffer, 0, u16::MAX), u16::MAX);
    assert_eq!(calculate_scroll(&buffer, 2, u16::MAX), u16::MAX);
    assert_eq!(calculate_scroll(&buffer, 3, u16::MAX), u16::MAX - 1);
    buffer.scroll_up();
    buffer.scroll_up();
    buffer.scroll_up();
    assert_eq!(calculate_scroll(&buffer, 10, 20), 9);
    assert_eq!(calculate_scroll(&buffer, 10, 10), 0);
    assert_eq!(calculate_scroll(&buffer, 10, 11), 0);
    assert_eq!(calculate_scroll(&buffer, 10, 12), 1);
}

#[test]
fn error_message() {
    let mut e = ErrorMessage::default();
    assert!(!e.is_err());
    e.set("failed");
    assert!(e.is_err());
    assert_eq!(e.get(), Some(&String::from("failed")));
    e.clear();
    assert!(!e.is_err());
    assert_eq!(e.get(), None);
}

#[test]
fn screen_starts_on_the_chats() {
    let app = app();
    assert_eq!(app.mode, Mode::BrowseChats);
    assert_eq!(app.get_small_help(), "Mode: Browse");
    assert_eq!(app.items.items.len(), 2);
    assert_eq!(app.calculate_scroll(10, 20), 12);
}

#[test]
fn escape_and_quit() {
    let mut app = app();
    assert_eq!(app.key_pressed(Key::Char('q')), Command::Nothing);
    assert_eq!(app.mode, Mode::BrowseChats);
    assert_eq!(app.key_pressed(Key::Esc), Command::Nothing);
    assert_eq!(app.mode, Mode::Normal);
    assert_eq!(app.get_small_help(), "Mode: Normal");
    assert_eq!(app.key_pressed(Key::Char('q')), Command::Quit);
}

#[test]
fn normal_mode_chooses_a_mode() {
    let mut app = app();
    app.key_pressed(Key::Esc);
    assert_eq!(app.handle_evt(Key::Char('x')), Outcome { handled: false, command: Command::Nothing });
    assert_eq!(app.handle_evt(Key::Enter), Outcome { handled: false, command: Command::Nothing });
    assert_eq!(app.mode, Mode::Normal);
    // No chat is open: `m` stays in normal mode.
    assert!(app.handle_evt(Key::Char('m')).handled);
    assert_eq!(app.mode, Mode::Normal);
    assert!(app.handle_evt(Key::Char('n')).handled);
    assert_eq!(app.mode, Mode::NewChat);
    app.key_pressed(Key::Esc);
    assert!(app.handle_evt(Key::Char('s')).handled);
    assert_eq!(app.mode, Mode::ChatScroll);
    assert_eq!(app.get_small_help(), "Mode: Scroll");
    app.key_pressed(Key::Esc);
    assert!(app.handle_evt(Key::Char('b')).handled);
    assert_eq!(app.mode, Mode::BrowseChats);
    // With a chat open, `m` leads to the message line.
    app.key_pressed(Key::Down);
    assert_eq!(app.key_pressed(Key::Enter), Command::OpenChat);
    app.key_pressed(Key::Esc);
    assert!(app.handle_evt(Key::Char('m')).handled);
    assert_eq!(app.mode, Mode::Message);
    assert_eq!(app.get_small_help(), "Mode: Input");
}

#[test]
fn browsing_opens_a_chat_once() {
    let mut app = app();
    assert_eq!(app.key_pressed(Key::Enter), Command::Nothing);
    assert_eq!(app.key_pressed(Key::Char('j')), Command::Nothing);
    assert_eq!(app.items.state.selected(), Some(0));
    assert_eq!(app.key_pressed(Key::Enter), Command::OpenChat);
    assert_eq!(app.items.get().unwrap().user.username, "bob");
    assert_eq!(app.key_pressed(Key::Enter), Command::Nothing);
    app.key_pressed(Key::Char('k'));
    assert_eq!(app.items.state.selected(), Some(1));
    assert_eq!(app.key_pressed(Key::Enter), Command::OpenChat);
    assert_eq!(app.items.get().unwrap().user.username, "dave");
    app.key_pressed(Key::Char('h'));
    assert_eq!(app.items.state.selected(), None);
    app.key_pressed(Key::Up);
    assert_eq!(app.items.state.selected(), Some(0));
    app.key_pressed(Key::Left);
    assert_eq!(app.items.state.selected(), None);
    assert_eq!(
        app.handle_evt(Key::Char('x')),
        Outcome { handled: false, command: Command::Nothing }
    );
    assert_eq!(app.handle_evt(Key::Backspace).handled, false);
}

#[test]
fn new_chat_line() {
    let mut app = app();
    app.key_pressed(Key::Esc);
    app.key_pressed(Key::Char('n'));
    type_text(&mut app, "bxb");
    app.key_pressed(Key::Left);
    app.key_pressed(Key::Backspace);
    app.key_pressed(Key::Char('o'));
    app.key_pressed(Key::Right);
    assert_eq!(app.new_chat_input.input, "bob");
    assert_eq!(app.message_input.input, "");
    // `q` is swallowed outside normal mode.
    app.key_pressed(Key::Char('q'));
    assert_eq!(app.new_chat_input.input, "bob");
    assert_eq!(app.handle_evt(Key::Up).handled, false);
    assert_eq!(app.key_pressed(Key::Enter), Command::NewChat(String::from("bob")));
    assert_eq!(app.new_chat_input.input, "");
    assert_eq!(app.new_chat_input.cursor_position, 0);
    assert_eq!(app.key_pressed(Key::Enter), Command::NewChat(String::new()));
    assert_eq!(app.mode, Mode::NewChat);
}

#[test]
fn message_line() {
    let mut app = app();
    app.key_pressed(Key::Down);
    app.key_pressed(Key::Enter);
    app.key_pressed(Key::Esc);
    app.key_pressed(Key::Char('m'));
    assert_eq!(app.key_pressed(Key::Enter), Command::Nothing);
    type_text(&mut app, "hi");
    assert_eq!(app.message_input.input, "hi");
    assert_eq!(app.new_chat_input.input, "");
    assert_eq!(app.key_pressed(Key::Enter), Command::SendMessage(String::from("hi")));
    assert_eq!(app.message_input.input, "");
    assert_eq!(app.submit(), Command::Nothing);
}

#[test]
fn scrolling_keys() {
    let mut app = app();
    app.key_pressed(Key::Esc);
    app.key_pressed(Key::Char('s'));
    assert!(app.handle_evt_scroll(Key::Char('k')));
    assert!(app.handle_evt_scroll(Key::Up));
    assert_eq!(app.messages_buffer.scroll_get(), 2);
    assert!(app.handle_evt_scroll(Key::Char('j')));
    assert!(app.handle_evt_scroll(Key::Down));
    assert_eq!(app.messages_buffer.scroll_get(), 0);
    app.handle_evt_scroll(Key::Up);
    assert!(app.handle_evt_scroll(Key::Char('q')));
    assert_eq!(app.messages_buffer.scroll_get(), 0);
    assert!(!app.handle_evt_scroll(Key::Char('x')));
    assert!(!app.handle_evt_scroll(Key::Enter));
    assert_eq!(app.mode, Mode::ChatScroll);
}

#[test]
fn a_shown_failure_takes_the_next_key() {
    let mut app = app();
    app.error_message.set("failed");
    assert_eq!(app.handle_evt(Key::Char('j')), Outcome { handled: true, command: Command::Nothing });
    assert!(!app.error_message.is_err());
    assert_eq!(app.items.state.selected(), None);
    app.handle_evt(Key::Char('j'));
    assert_eq!(app.items.state.selected(), Some(0));
}

#[test]
fn history_fills_the_buffer() {
    let cipher = Cipher::new(X3dhSharedSecret::from_bytes(&[3u8; 32]));
    let (me, peer, chat_id) = (oid(1), oid(2), oid(9));
    let stored = |sender: &ObjectId, text: &str, timestamp: u64| response::Message {
        id: None,
        chat_id: chat_id.clone(),
        sender_id: sender.clone(),
        message: cipher.encrypt(text, timestamp).unwrap(),
        timestamp,
    };
    let mut corrupt = stored(&peer, "lost", 25);
    corrupt.message[0] ^= 0xff;
    let log = vec![
        stored(&me, "hi", 10),
        stored(&peer, "hello", 20),
        corrupt,
        stored(&peer, "hello", 20),
        stored(&me, "bye", 30),
    ];
    let mut app = app();
    app.messages_buffer.push("old", "line");
    app.messages_buffer.scroll_up();
    let mut filter = ReplayFilter::new();
    app.init_message_buffer(&me, "alice", "bob", &cipher, &mut filter, &log);
    let lines: Vec<(bool, String, String)> =
        app.messages_buffer.text().into_iter().map(|l| (l.mine, l.label, l.content)).collect();
    assert_eq!(
        lines,
        vec![
            (true, String::from("@alice:"), String::from("hi")),
            (false, String::from("@bob:"), String::from("hello")),
            (false, String::from("@bob:"), String::from("[corrupt message]")),
            (false, String::from("@bob:"), String::from("[repeated message]")),
            (true, String::from("@alice:"), String::from("bye")),
        ]
    );
    assert_eq!(app.messages_buffer.scroll_get(), 0);
    assert!(!filter.is_fresh(&peer.to_hex(), 20));
    assert!(filter.is_fresh(&peer.to_hex(), 21));
}

#[test]
fn incoming_message_is_shown_once() {
    let cipher = Cipher::new(X3dhSharedSecret::from_bytes(&[3u8; 32]));
    let mut outbox = Outbox::new();
    let envelope: WsMessage = outbox.make_message(&cipher, "ping", "c", "bob-id", 5).unwrap();
    let mut app = app();
    let mut filter = ReplayFilter::new();
    assert_eq!(app.on_tick("bob", &cipher, &mut filter, &envelope), Ok(()));
    assert_eq!(app.messages_buffer.text().len(), 1);
    assert_eq!(app.messages_buffer.text()[0].content, "ping");
    assert_eq!(app.messages_buffer.text()[0].label, "@bob:");
    assert_eq!(
        app.on_tick("bob", &cipher, &mut filter, &envelope),
        Err(ReceiveError::Replay)
    );
    assert_eq!(app.messages_buffer.text().len(), 1);
    assert_eq!(app.error_message.get(), Some(&String::from("[repeated message]")));
}
