//! The screen as a whole: what a key does in each mode, and what it asks of
//! the one who holds the connection to the server.

use crate::api::response;
use crate::chats::Chat;
use crate::cipher::Cipher;
use crate::envelope::{WsMessage, WsMessageView};
use crate::hex::hex;
use crate::model::ObjectId;
use crate::pipeline::{receive_all, shown, ReceiveError, ReplayFilter};
use crate::tui::tools::{
    calculate_scroll, place_after, place_before, scroll_of, ErrorMessage, Key, MessagesBuffer,
    Mode, StatefulList, UserInput,
};
use vstd::prelude::*;
use vstd::string::StringExecFns;

verus! {

/// What a key asks for beyond the screen.
#[derive(Debug, PartialEq, Eq)]
pub enum Command {
    /// Nothing.
    Nothing,
    /// Leave the program.
    Quit,
    /// Open the chat that is now the current one: make sure of its secret and
    /// fetch its messages.
    OpenChat,
    /// Open a chat with the user of this name.
    NewChat(String),
    /// Send this text in the current chat.
    SendMessage(String),
}

impl Command {
    /// Whether the command asks for a chat with the user of a name.
    pub open spec fn is_new_chat(self, name: Seq<char>) -> bool {
        self matches Command::NewChat(n) && n@ == name
    }

    /// Whether the command asks to send a text.
    pub open spec fn is_send(self, text: Seq<char>) -> bool {
        self matches Command::SendMessage(t) && t@ == text
    }
}

/// What came of a key: whether the screen took it, and what it asks for.
#[derive(Debug, PartialEq, Eq)]
pub struct Outcome {
    pub handled: bool,
    pub command: Command,
}

/// The screen: its mode, the list of chats, the two lines of input, the
/// messages of the open chat, and the failure that is shown, if one is.
pub struct App {
    pub mode: Mode,
    pub items: StatefulList<Chat>,
    pub new_chat_input: UserInput,
    pub message_input: UserInput,
    pub messages_buffer: MessagesBuffer,
    pub error_message: ErrorMessage,
}

/// The mode that a key of normal mode leads to, if it leads anywhere: `b` to
/// the list of chats, `n` to a new chat, `s` to scrolling, and `m` to the
/// message line where a chat is open.
pub open spec fn mode_after(key: Key, chat_open: bool) -> Option<Mode> {
    match key {
        Key::Char(c) => if c == 'b' {
            Some(Mode::BrowseChats)
        } else if c == 'n' {
            Some(Mode::NewChat)
        } else if c == 's' {
            Some(Mode::ChatScroll)
        } else if c == 'm' {
            if chat_open {
                Some(Mode::Message)
            } else {
                Some(Mode::Normal)
            }
        } else {
            None
        },
        _ => None,
    }
}

/// What stands in the place of a message that could not be read.
pub open spec fn placeholder(e: ReceiveError) -> Seq<char> {
    match e {
        ReceiveError::Replay => "[repeated message]"@,
        ReceiveError::Cipher(_) => "[corrupt message]"@,
    }
}

/// The envelope of a message of the log.
pub open spec fn envelope_of(message: response::Message) -> WsMessageView {
    WsMessageView {
        chat_id: hex(message.chat_id@),
        sender_id: hex(message.sender_id@),
        content: message.message@,
        timestamp: message.timestamp,
    }
}

/// The line that a message of the log is shown as: under the user's name
/// where the user sent it, else under the peer's; with its text, or with a
/// placeholder where it gave none.
pub open spec fn history_line(
    message: response::Message,
    result: Result<Seq<char>, ReceiveError>,
    me_id: Seq<u8>,
    me: Seq<char>,
    peer: Seq<char>,
) -> (Seq<char>, Seq<char>) {
    (
        if message.sender_id@ == me_id {
            me
        } else {
            peer
        },
        match result {
            Ok(text) => text,
            Err(e) => placeholder(e),
        },
    )
}

impl App {
    /// The two lines of input are as they were.
    pub open spec fn same_inputs(before: &App, after: &App) -> bool {
        &&& UserInput::same(&before.new_chat_input, &after.new_chat_input)
        &&& UserInput::same(&before.message_input, &after.message_input)
    }

    /// The list of chats is as it was: its items, its highlight and its
    /// current place.
    pub open spec fn same_list(before: &App, after: &App) -> bool {
        &&& after.items.items_view() == before.items.items_view()
        &&& after.items.highlighted() == before.items.highlighted()
        &&& after.items.current_view() == before.items.current_view()
    }

    /// The buffer of messages is as it was.
    pub open spec fn same_buffer(before: &App, after: &App) -> bool {
        &&& after.messages_buffer.same_messages(&before.messages_buffer)
        &&& after.messages_buffer.offset() == before.messages_buffer.offset()
        &&& after.messages_buffer.blocked() == before.messages_buffer.blocked()
    }

    /// Nothing is as it was but, maybe, the mode.
    pub open spec fn same_but_mode(before: &App, after: &App) -> bool {
        &&& Self::same_inputs(before, after)
        &&& Self::same_list(before, after)
        &&& Self::same_buffer(before, after)
        &&& after.error_message.view() == before.error_message.view()
    }

    /// What a key does in normal mode: it chooses a mode, or does nothing.
    pub open spec fn normal_step(before: &App, after: &App, key: Key, handled: bool) -> bool {
        &&& handled == mode_after(key, before.items.chosen() is Some) is Some
        &&& after.mode == match mode_after(key, before.items.chosen() is Some) {
            Some(mode) => mode,
            None => before.mode,
        }
        &&& Self::same_but_mode(before, after)
    }

    /// What a key does in the list of chats: left or `h` takes the highlight
    /// away, down or `j` and up or `k` move it, and enter makes the
    /// highlighted chat the current one and asks to open it, where it was not
    /// the current one already.
    pub open spec fn browse_step(before: &App, after: &App, key: Key, outcome: Outcome) -> bool {
        let len = before.items.items_view().len() as int;
        let up = key == Key::Up || key == Key::Char('k');
        let down = key == Key::Down || key == Key::Char('j');
        let left = key == Key::Left || key == Key::Char('h');
        &&& after.mode == before.mode
        &&& Self::same_inputs(before, after)
        &&& Self::same_buffer(before, after)
        &&& after.error_message.view() == before.error_message.view()
        &&& after.items.items_view() == before.items.items_view()
        &&& outcome.handled == (up || down || left || key == Key::Enter)
        &&& after.items.highlighted() == if left {
            None
        } else if down {
            Some(place_after(before.items.highlighted(), len) as usize)
        } else if up {
            Some(place_before(before.items.highlighted(), len) as usize)
        } else {
            before.items.highlighted()
        }
        &&& after.items.current_view() == if key == Key::Enter {
            before.items.highlighted()
        } else {
            before.items.current_view()
        }
        &&& outcome.command == if key == Key::Enter && before.items.highlighted()
            != before.items.current_view() {
            Command::OpenChat
        } else {
            Command::Nothing
        }
    }

    /// What a key does to a line of input: characters are typed, backspace
    /// deletes, left and right move the cursor, and nothing else is taken.
    pub open spec fn edit_step(before: &UserInput, after: &UserInput, key: Key, handled: bool) -> bool {
        match key {
            Key::Char(c) => handled && UserInput::typed(before, after, c),
            Key::Backspace => handled && UserInput::deleted(before, after),
            Key::Left => handled && UserInput::moved_left(before, after),
            Key::Right => handled && UserInput::moved_right(before, after),
            _ => !handled && UserInput::same(before, after),
        }
    }

    /// What submitting does: the line of the mode is handed out and empty
    /// afterwards. The line of a new chat asks for the chat; the message line
    /// asks to send, unless it is empty.
    pub open spec fn submit_step(before: &App, after: &App, command: Command) -> bool {
        &&& after.mode == before.mode
        &&& Self::same_list(before, after)
        &&& Self::same_buffer(before, after)
        &&& after.error_message.view() == before.error_message.view()
        &&& match before.mode {
            Mode::NewChat => {
                &&& UserInput::same(&before.message_input, &after.message_input)
                &&& UserInput::cleared(&after.new_chat_input)
                &&& command.is_new_chat(before.new_chat_input.input@)
            },
            Mode::Message => {
                &&& UserInput::same(&before.new_chat_input, &after.new_chat_input)
                &&& UserInput::cleared(&after.message_input)
                &&& if before.message_input.input@.len() == 0 {
                    command == Command::Nothing
                } else {
                    command.is_send(before.message_input.input@)
                }
            },
            _ => Self::same_inputs(before, after) && command == Command::Nothing,
        }
    }

    /// What a key does on a line of input: enter submits the line, every other
    /// key edits it. In a mode without line no key is taken.
    pub open spec fn input_step(before: &App, after: &App, key: Key, outcome: Outcome) -> bool {
        match before.mode {
            Mode::NewChat => if key == Key::Enter {
                outcome.handled && Self::submit_step(before, after, outcome.command)
            } else {
                &&& after.mode == before.mode
                &&& Self::same_list(before, after)
                &&& Self::same_buffer(before, after)
                &&& after.error_message.view() == before.error_message.view()
                &&& outcome.command == Command::Nothing
                &&& UserInput::same(&before.message_input, &after.message_input)
                &&& Self::edit_step(
                    &before.new_chat_input,
                    &after.new_chat_input,
                    key,
                    outcome.handled,
                )
            },
            Mode::Message => if key == Key::Enter {
                outcome.handled && Self::submit_step(before, after, outcome.command)
            } else {
                &&& after.mode == before.mode
                &&& Self::same_list(before, after)
                &&& Self::same_buffer(before, after)
                &&& after.error_message.view() == before.error_message.view()
                &&& outcome.command == Command::Nothing
                &&& UserInput::same(&before.new_chat_input, &after.new_chat_input)
                &&& Self::edit_step(
                    &before.message_input,
                    &after.message_input,
                    key,
                    outcome.handled,
                )
            },
            _ => {
                &&& !outcome.handled
                &&& outcome.command == Command::Nothing
                &&& after.mode == before.mode
                &&& Self::same_but_mode(before, after)
            },
        }
    }

    /// What a key does while scrolling: down or `j` scrolls down, up or `k`
    /// scrolls up unless that is blocked, and `q` goes back to the newest
    /// message.
    pub open spec fn scroll_step(before: &App, after: &App, key: Key, handled: bool) -> bool {
        let up = key == Key::Up || key == Key::Char('k');
        let down = key == Key::Down || key == Key::Char('j');
        let was = before.messages_buffer.offset();
        &&& after.mode == before.mode
        &&& Self::same_inputs(before, after)
        &&& Self::same_list(before, after)
        &&& after.error_message.view() == before.error_message.view()
        &&& after.messages_buffer.same_messages(&before.messages_buffer)
        &&& after.messages_buffer.blocked() == before.messages_buffer.blocked()
        &&& handled == (up || down || key == Key::Char('q'))
        &&& after.messages_buffer.offset() == if down {
            if was == 0 {
                0u16
            } else {
                (was - 1) as u16
            }
        } else if up {
            if before.messages_buffer.blocked() || was == u16::MAX {
                was
            } else {
                (was + 1) as u16
            }
        } else if key == Key::Char('q') {
            0u16
        } else {
            was
        }
    }

    /// What a key does, whatever the mode: where a failure is shown, the key
    /// only takes the failure off the screen; else it goes to the mode.
    pub open spec fn event_step(before: &App, after: &App, key: Key, outcome: Outcome) -> bool {
        if before.error_message.view() is Some {
            &&& outcome.handled
            &&& outcome.command == Command::Nothing
            &&& after.error_message.view() is None
            &&& after.mode == before.mode
            &&& Self::same_inputs(before, after)
            &&& Self::same_list(before, after)
            &&& Self::same_buffer(before, after)
        } else {
            match before.mode {
                Mode::Normal => outcome.command == Command::Nothing && Self::normal_step(
                    before,
                    after,
                    key,
                    outcome.handled,
                ),
                Mode::BrowseChats => Self::browse_step(before, after, key, outcome),
                Mode::NewChat | Mode::Message => Self::input_step(before, after, key, outcome),
                Mode::ChatScroll => outcome.command == Command::Nothing && Self::scroll_step(
                    before,
                    after,
                    key,
                    outcome.handled,
                ),
            }
        }
    }

    /// What a pressed key does: `q` leaves the program from normal mode and
    /// does nothing in any other; escape leads back to normal mode; every
    /// other key is an event of the mode, and asks for what the event asks.
    pub open spec fn key_step(before: &App, after: &App, key: Key, command: Command) -> bool {
        if key == Key::Char('q') {
            &&& after.mode == before.mode
            &&& Self::same_but_mode(before, after)
            &&& command == if before.mode == Mode::Normal {
                Command::Quit
            } else {
                Command::Nothing
            }
        } else if key == Key::Esc {
            &&& after.mode == Mode::Normal
            &&& Self::same_but_mode(before, after)
            &&& command == Command::Nothing
        } else {
            exists|handled: bool|
                Self::event_step(before, after, key, Outcome { handled, command })
        }
    }

    /// The screen as it starts: on the list of chats, with nothing typed and
    /// no chat open.
    pub fn new(chats: Vec<Chat>, username: String) -> (r: App)
        ensures
            r.mode == Mode::BrowseChats,
            r.items.items_view() == chats@,
            r.items.highlighted() is None,
            r.items.current_view() is None,
            UserInput::cleared(&r.new_chat_input),
            UserInput::cleared(&r.message_input),
            r.messages_buffer@.len() == 0,
            r.messages_buffer.me_view() == username@,
            r.messages_buffer.offset() == 0,
            !r.messages_buffer.blocked(),
            r.error_message.view() is None,
    {
        App {
            mode: Mode::BrowseChats,
            items: StatefulList::with_items(chats),
            new_chat_input: UserInput::new(),
            message_input: UserInput::new(),
            messages_buffer: MessagesBuffer::new(username),
            error_message: ErrorMessage::default(),
        }
    }

    pub fn calculate_scroll(&self, area_height: u16, text_height: u16) -> (r: u16)
        ensures
            r == scroll_of(area_height, text_height, self.messages_buffer.offset()),
    {
        calculate_scroll(&self.messages_buffer, area_height, text_height)
    }

    /// The line of help: the name of the mode.
    pub fn get_small_help(&self) -> (r: String)
        ensures
            r@ == "Mode: "@ + self.mode.label(),
    {
        let mut help = String::from_str("Mode: ");
        help.append(self.mode.name());
        help
    }

    /// A key was pressed.
    pub fn key_pressed(&mut self, key: Key) -> (r: Command)
        ensures
            Self::key_step(old(self), final(self), key, r),
    {
        match key {
            Key::Char(c) => {
                if c == 'q' {
                    if self.mode == Mode::Normal {
                        return Command::Quit;
                    }
                    return Command::Nothing;
                }
                let outcome = self.handle_evt(key);
                assert(Self::event_step(
                    old(self),
                    self,
                    key,
                    Outcome { handled: outcome.handled, command: outcome.command },
                ));
                outcome.command
            },
            Key::Esc => {
                self.mode = Mode::Normal;
                Command::Nothing
            },
            _ => {
                let outcome = self.handle_evt(key);
                assert(Self::event_step(
                    old(self),
                    self,
                    key,
                    Outcome { handled: outcome.handled, command: outcome.command },
                ));
                outcome.command
            },
        }
    }

    /// A key goes to the mode, unless a failure is shown.
    pub fn handle_evt(&mut self, key: Key) -> (r: Outcome)
        ensures
            Self::event_step(old(self), final(self), key, r),
    {
        self.handle_evt_impl(key)
    }

    fn handle_evt_impl(&mut self, key: Key) -> (r: Outcome)
        ensures
            Self::event_step(old(self), final(self), key, r),
    {
        if self.error_message.is_err() {
            self.error_message.clear();
            return Outcome { handled: true, command: Command::Nothing };
        }
        match self.mode {
            Mode::Normal => Outcome { handled: self.handle_evt_normal(key), command: Command::Nothing },
            Mode::BrowseChats => self.handle_evt_browse_chats(key),
            Mode::NewChat | Mode::Message => self.handle_evt_input(key),
            Mode::ChatScroll => Outcome {
                handled: self.handle_evt_scroll(key),
                command: Command::Nothing,
            },
        }
    }

    pub fn handle_evt_browse_chats(&mut self, key: Key) -> (r: Outcome)
        ensures
            Self::browse_step(old(self), final(self), key, r),
    {
        match key {
            Key::Left => {
                self.items.unselect();
            },
            Key::Down => {
                self.items.next();
            },
            Key::Up => {
                self.items.previous();
            },
            Key::Enter => {
                let changed = self.items.select();
                if changed {
                    return Outcome { handled: true, command: Command::OpenChat };
                }
            },
            Key::Char(c) => {
                if c == 'h' {
                    self.items.unselect();
                } else if c == 'j' {
                    self.items.next();
                } else if c == 'k' {
                    self.items.previous();
                } else {
                    return Outcome { handled: false, command: Command::Nothing };
                }
            },
            _ => { return Outcome { handled: false, command: Command::Nothing }; },
        }
        Outcome { handled: true, command: Command::Nothing }
    }

    pub fn handle_evt_normal(&mut self, key: Key) -> (r: bool)
        ensures
            Self::normal_step(old(self), final(self), key, r),
    {
        let mode = match key {
            Key::Char(c) => {
                if c == 'b' {
                    Mode::BrowseChats
                } else if c == 'n' {
                    Mode::NewChat
                } else if c == 's' {
                    Mode::ChatScroll
                } else if c == 'm' {
                    match self.items.get() {
                        Some(_) => Mode::Message,
                        None => Mode::Normal,
                    }
                } else {
                    return false;
                }
            },
            _ => { return false; },
        };
        self.mode = mode;
        true
    }

    pub fn handle_evt_input(&mut self, key: Key) -> (r: Outcome)
        ensures
            Self::input_step(old(self), final(self), key, r),
    {
        match self.mode {
            Mode::NewChat => match key {
                Key::Enter => Outcome { handled: true, command: self.submit() },
                Key::Char(to_insert) => {
                    self.new_chat_input.enter_char(to_insert);
                    Outcome { handled: true, command: Command::Nothing }
                },
                Key::Backspace => {
                    self.new_chat_input.delete_char();
                    Outcome { handled: true, command: Command::Nothing }
                },
                Key::Left => {
                    self.new_chat_input.move_cursor_left();
                    Outcome { handled: true, command: Command::Nothing }
                },
                Key::Right => {
                    self.new_chat_input.move_cursor_right();
                    Outcome { handled: true, command: Command::Nothing }
                },
                _ => Outcome { handled: false, command: Command::Nothing },
            },
            Mode::Message => match key {
                Key::Enter => Outcome { handled: true, command: self.submit() },
                Key::Char(to_insert) => {
                    self.message_input.enter_char(to_insert);
                    Outcome { handled: true, command: Command::Nothing }
                },
                Key::Backspace => {
                    self.message_input.delete_char();
                    Outcome { handled: true, command: Command::Nothing }
                },
                Key::Left => {
                    self.message_input.move_cursor_left();
                    Outcome { handled: true, command: Command::Nothing }
                },
                Key::Right => {
                    self.message_input.move_cursor_right();
                    Outcome { handled: true, command: Command::Nothing }
                },
                _ => Outcome { handled: false, command: Command::Nothing },
            },
            _ => Outcome { handled: false, command: Command::Nothing },
        }
    }

    /// Submits the line of the mode.
    pub fn submit(&mut self) -> (r: Command)
        ensures
            Self::submit_step(old(self), final(self), r),
    {
        match self.mode {
            Mode::NewChat => self.submit_new_chat(),
            Mode::Message => self.submit_message(),
            _ => Command::Nothing,
        }
    }

    fn submit_new_chat(&mut self) -> (r: Command)
        requires
            old(self).mode == Mode::NewChat,
        ensures
            Self::submit_step(old(self), final(self), r),
    {
        let username = self.new_chat_input.submit();
        Command::NewChat(username)
    }

    fn submit_message(&mut self) -> (r: Command)
        requires
            old(self).mode == Mode::Message,
        ensures
            Self::submit_step(old(self), final(self), r),
    {
        let message = self.message_input.submit();
        if message.as_str().is_empty() {
            return Command::Nothing;
        }
        Command::SendMessage(message)
    }

    pub fn handle_evt_scroll(&mut self, key: Key) -> (r: bool)
        ensures
            Self::scroll_step(old(self), final(self), key, r),
    {
        match key {
            Key::Down => {
                self.messages_buffer.scroll_down();
            },
            Key::Up => {
                self.messages_buffer.scroll_up();
            },
            Key::Char(c) => {
                if c == 'j' {
                    self.messages_buffer.scroll_down();
                } else if c == 'k' {
                    self.messages_buffer.scroll_up();
                } else if c == 'q' {
                    self.messages_buffer.scroll_reset();
                } else {
                    return false;
                }
            },
            _ => { return false; },
        }
        true
    }

    /// Fills the buffer with the log of the chat that was opened: one line
    /// for each message, oldest first. A message that does not open, or that
    /// repeats an earlier one, leaves a placeholder and does not stop the
    /// rest.
    pub fn init_message_buffer(
        &mut self,
        me_id: &ObjectId,
        me: &str,
        peer: &str,
        cipher: &Cipher,
        filter: &mut ReplayFilter,
        messages: &Vec<response::Message>,
    )
        ensures
            final(self).mode == old(self).mode,
            Self::same_list(old(self), final(self)),
            Self::same_inputs(old(self), final(self)),
            final(self).error_message.view() == old(self).error_message.view(),
            final(self).messages_buffer.me_view() == me@,
            final(self).messages_buffer.offset() == 0,
            !final(self).messages_buffer.blocked(),
            ({
                let envelopes = messages@.map_values(|m: response::Message| envelope_of(m));
                let (results, seen) = receive_all(old(filter)@, cipher@, envelopes);
                &&& final(filter)@ == seen
                &&& final(self).messages_buffer@ == Seq::new(
                    messages@.len(),
                    |i: int| history_line(messages@[i], results[i], me_id@, me@, peer@),
                )
            }),
    {
        let mut envelopes: Vec<WsMessage> = Vec::new();
        let mut i: usize = 0;
        while i < messages.len()
            invariant
                i <= messages.len(),
                envelopes@.len() == i,
                forall|j: int| 0 <= j < i ==> (#[trigger] envelopes@[j])@ == envelope_of(messages@[j]),
            decreases messages.len() - i,
        {
            envelopes.push(
                WsMessage {
                    chat_id: messages[i].chat_id.to_hex(),
                    sender_id: messages[i].sender_id.to_hex(),
                    content: messages[i].message.clone(),
                    timestamp: messages[i].timestamp,
                },
            );
            i = i + 1;
        }
        assert(envelopes@.map_values(|m: WsMessage| m@) =~= messages@.map_values(
            |m: response::Message| envelope_of(m),
        ));
        let results = filter.receive_history(cipher, &envelopes);
        let ghost shown_results = results@.map_values(|x: Result<String, ReceiveError>| shown(x));
        proof {
            lemma_receive_all_len(
                old(filter)@,
                cipher@,
                messages@.map_values(|m: response::Message| envelope_of(m)),
            );
        }
        let mut buffer = MessagesBuffer::new(String::from_str(me));
        let mut k: usize = 0;
        while k < messages.len()
            invariant
                k <= messages.len(),
                results@.len() == messages@.len(),
                shown_results == results@.map_values(|x: Result<String, ReceiveError>| shown(x)),
                buffer.me_view() == me@,
                buffer.offset() == 0,
                !buffer.blocked(),
                buffer@ == Seq::new(
                    k as nat,
                    |i: int| history_line(messages@[i], shown_results[i], me_id@, me@, peer@),
                ),
            decreases messages.len() - k,
        {
            let username = if messages[k].sender_id.same(me_id) {
                me
            } else {
                peer
            };
            let ghost before = buffer@;
            match &results[k] {
                Ok(text) => {
                    buffer.push(username, text.as_str());
                },
                Err(ReceiveError::Replay) => {
                    buffer.push(username, "[repeated message]");
                },
                Err(ReceiveError::Cipher(_)) => {
                    buffer.push(username, "[corrupt message]");
                },
            }
            assert(buffer@ =~= Seq::new(
                (k + 1) as nat,
                |i: int| history_line(messages@[i], shown_results[i], me_id@, me@, peer@),
            ));
            k = k + 1;
        }
        self.messages_buffer = buffer;
    }

    /// A message came in over the socket while the chat is open: it is
    /// received, and its text is shown under the peer's name.
    pub fn on_tick(
        &mut self,
        peer: &str,
        cipher: &Cipher,
        filter: &mut ReplayFilter,
        message: &WsMessage,
    ) -> (r: Result<(), ReceiveError>)
        ensures
            final(self).mode == old(self).mode,
            Self::same_list(old(self), final(self)),
            Self::same_inputs(old(self), final(self)),
            final(self).messages_buffer.me_view() == old(self).messages_buffer.me_view(),
            final(self).messages_buffer.offset() == old(self).messages_buffer.offset(),
            final(self).messages_buffer.blocked() == old(self).messages_buffer.blocked(),
            ({
                let (result, seen) = crate::pipeline::receive_step(old(filter)@, cipher@, message@);
                &&& final(filter)@ == seen
                &&& match result {
                    Ok(text) => {
                        &&& r is Ok
                        &&& final(self).messages_buffer@ == old(self).messages_buffer@.push(
                            (peer@, text),
                        )
                        &&& final(self).error_message.view() == old(self).error_message.view()
                    },
                    Err(e) => {
                        &&& r == Err::<(), _>(e)
                        &&& final(self).messages_buffer@ == old(self).messages_buffer@
                        &&& final(self).error_message.view() == Some(placeholder(e))
                    },
                }
            }),
    {
        match filter.receive(cipher, message) {
            Ok(text) => {
                self.messages_buffer.push(peer, text.as_str());
                Ok(())
            },
            Err(e) => {
                match e {
                    ReceiveError::Replay => {
                        self.error_message.set("[repeated message]");
                    },
                    ReceiveError::Cipher(_) => {
                        self.error_message.set("[corrupt message]");
                    },
                }
                Err(e)
            },
        }
    }
}

/// Receiving a list gives one result for each envelope.
proof fn lemma_receive_all_len(seen: Map<Seq<char>, u64>, secret: Seq<u8>, envelopes: Seq<
    WsMessageView,
>)
    ensures
        receive_all(seen, secret, envelopes).0.len() == envelopes.len(),
    decreases envelopes.len(),
{
    if envelopes.len() > 0 {
        lemma_receive_all_len(seen, secret, envelopes.drop_last());
    }
}

} // verus!
