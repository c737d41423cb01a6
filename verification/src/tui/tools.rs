//! The parts of the screen: the text being typed, the mode that decides where
//! keys go, the list of chats and the buffer of messages.

use crate::text::{push_char, text_eq};
use vstd::prelude::*;
use vstd::string::{StrSliceExecFns, StringExecFns};

verus! {

/// The smaller of a position and a length.
pub open spec fn clamp(position: int, len: int) -> int {
    if position < len {
        position
    } else {
        len
    }
}

/// A line of text under edit. The cursor counts characters from the left and
/// stands between 0 and the length of the text.
pub struct UserInput {
    pub cursor_position: usize,
    pub input: String,
}

impl UserInput {
    /// The text is as it was.
    pub open spec fn same_text(before: &UserInput, after: &UserInput) -> bool {
        after.input@ == before.input@
    }

    /// Nothing is as it was but by name: text and cursor are the same.
    pub open spec fn same(before: &UserInput, after: &UserInput) -> bool {
        after.input@ == before.input@ && after.cursor_position == before.cursor_position
    }

    /// `after` is `before` with the cursor one to the left.
    pub open spec fn moved_left(before: &UserInput, after: &UserInput) -> bool {
        &&& after.input@ == before.input@
        &&& after.cursor_position == if before.cursor_position == 0 {
            0
        } else {
            clamp(before.cursor_position - 1, before.input@.len() as int)
        }
    }

    /// `after` is `before` with the cursor one to the right.
    pub open spec fn moved_right(before: &UserInput, after: &UserInput) -> bool {
        &&& after.input@ == before.input@
        &&& after.cursor_position == clamp(
            before.cursor_position + 1,
            before.input@.len() as int,
        )
    }

    /// `after` is `before` with a character typed at the cursor.
    pub open spec fn typed(before: &UserInput, after: &UserInput, c: char) -> bool {
        let at = clamp(before.cursor_position as int, before.input@.len() as int);
        &&& after.input@ == before.input@.insert(at, c)
        &&& after.cursor_position == at + 1
    }

    /// `after` is `before` with the character left of the cursor taken out.
    pub open spec fn deleted(before: &UserInput, after: &UserInput) -> bool {
        if before.cursor_position == 0 {
            Self::same(before, after)
        } else {
            let len = before.input@.len() as int;
            let at = clamp(before.cursor_position as int, len);
            let from = if at == 0 {
                0
            } else {
                at - 1
            };
            &&& after.input@ == before.input@.subrange(0, from) + before.input@.subrange(at, len)
            &&& after.cursor_position == from
        }
    }

    /// `after` is empty.
    pub open spec fn cleared(after: &UserInput) -> bool {
        after.input@ == Seq::<char>::empty() && after.cursor_position == 0
    }

    pub fn new() -> (r: Self)
        ensures
            Self::cleared(&r),
    {
        UserInput { cursor_position: 0, input: String::new() }
    }

    /// Hands the text out and starts over with an empty line.
    pub fn submit(&mut self) -> (r: String)
        ensures
            r@ == old(self).input@,
            Self::cleared(final(self)),
    {
        let tmp = self.input.clone();
        self.input = String::new();
        self.reset_cursor();
        tmp
    }

    /// One character to the left, unless the cursor is at the start; never
    /// behind the end of the text.
    pub fn move_cursor_left(&mut self)
        ensures
            Self::moved_left(old(self), final(self)),
    {
        let cursor_moved_left = if self.cursor_position == 0 {
            0
        } else {
            self.cursor_position - 1
        };
        self.cursor_position = self.clamp_cursor(cursor_moved_left);
    }

    /// One character to the right, unless the cursor is at the end.
    pub fn move_cursor_right(&mut self)
        ensures
            Self::moved_right(old(self), final(self)),
    {
        let cursor_moved_right = if self.cursor_position == usize::MAX {
            usize::MAX
        } else {
            self.cursor_position + 1
        };
        self.cursor_position = self.clamp_cursor(cursor_moved_right);
    }

    /// Puts a character where the cursor stands and moves the cursor behind
    /// it.
    pub fn enter_char(&mut self, new_char: char)
        ensures
            Self::typed(old(self), final(self), new_char),
    {
        let len = self.input.as_str().unicode_len();
        let at = self.clamp_cursor(self.cursor_position);
        let mut text = String::from_str(self.input.as_str().substring_char(0, at));
        push_char(&mut text, new_char);
        text.append(self.input.as_str().substring_char(at, len));
        assert(text@ =~= self.input@.insert(at as int, new_char));
        self.input = text;
        self.cursor_position = at;
        self.move_cursor_right();
    }

    /// Takes out the character left of the cursor and moves the cursor onto
    /// its place. At the start of the line nothing happens.
    pub fn delete_char(&mut self)
        ensures
            Self::deleted(old(self), final(self)),
            0 < old(self).cursor_position <= old(self).input@.len() ==> {
                &&& final(self).input@ == old(self).input@.remove(old(self).cursor_position - 1)
                &&& final(self).cursor_position == old(self).cursor_position - 1
            },
    {
        let is_not_cursor_leftmost = self.cursor_position != 0;
        if is_not_cursor_leftmost {
            let len = self.input.as_str().unicode_len();
            let current_index = self.clamp_cursor(self.cursor_position);
            let from_left_to_current_index = if current_index == 0 {
                0
            } else {
                current_index - 1
            };
            let mut text = String::from_str(
                self.input.as_str().substring_char(0, from_left_to_current_index),
            );
            text.append(self.input.as_str().substring_char(current_index, len));
            proof {
                if 0 < old(self).cursor_position <= old(self).input@.len() {
                    assert(text@ =~= old(self).input@.remove(old(self).cursor_position - 1));
                }
            }
            self.input = text;
            self.cursor_position = current_index;
            self.move_cursor_left();
        }
    }

    fn clamp_cursor(&self, new_cursor_pos: usize) -> (r: usize)
        ensures
            r == clamp(new_cursor_pos as int, self.input@.len() as int),
            self.input@.len() <= usize::MAX,
    {
        let len = self.input.as_str().unicode_len();
        if new_cursor_pos < len {
            new_cursor_pos
        } else {
            len
        }
    }

    fn reset_cursor(&mut self)
        ensures
            final(self).input@ == old(self).input@,
            final(self).cursor_position == 0,
    {
        self.cursor_position = 0;
    }
}

/// Where keys go.
#[derive(Debug, Clone, Copy, PartialEq, Eq, Structural)]
pub enum Mode {
    Normal,
    BrowseChats,
    NewChat,
    Message,
    ChatScroll,
}

impl Mode {
    /// The name under which the mode is shown.
    pub open spec fn label(self) -> Seq<char> {
        match self {
            Mode::Normal => "Normal"@,
            Mode::BrowseChats => "Browse"@,
            Mode::NewChat | Mode::Message => "Input"@,
            Mode::ChatScroll => "Scroll"@,
        }
    }

    pub fn name(&self) -> (r: &'static str)
        ensures
            r@ == self.label(),
    {
        match self {
            Mode::Normal => "Normal",
            Mode::BrowseChats => "Browse",
            Mode::NewChat | Mode::Message => "Input",
            Mode::ChatScroll => "Scroll",
        }
    }
}

/// A key as the terminal reports it.
#[derive(Debug, Clone, Copy, PartialEq, Eq, Structural)]
pub enum Key {
    Char(char),
    Enter,
    Backspace,
    Left,
    Right,
    Up,
    Down,
    Esc,
    Other,
}

/// The place of a list that is highlighted.
#[derive(Debug, Clone, Copy, PartialEq, Eq, Structural)]
pub struct ListState {
    selected: Option<usize>,
}

impl ListState {
    pub closed spec fn view(&self) -> Option<usize> {
        self.selected
    }

    pub fn selected(&self) -> (r: Option<usize>)
        ensures
            r == self.view(),
    {
        self.selected
    }

    pub fn select(&mut self, index: Option<usize>)
        ensures
            final(self).view() == index,
    {
        self.selected = index;
    }
}

impl Default for ListState {
    fn default() -> (r: Self)
        ensures
            r.view() is None,
    {
        ListState { selected: None }
    }
}

/// A list with a highlighted place, which the keys move, and a current place,
/// which a choice fixes.
pub struct StatefulList<T> {
    pub state: ListState,
    pub items: Vec<T>,
    current: Option<usize>,
}

/// The place after `at` in a list of `len`, around the end.
pub open spec fn place_after(at: Option<usize>, len: int) -> int {
    match at {
        Some(i) => if i + 1 >= len {
            0
        } else {
            i + 1
        },
        None => 0,
    }
}

/// The place before `at` in a list of `len`, around the start.
pub open spec fn place_before(at: Option<usize>, len: int) -> int {
    match at {
        Some(i) => if i == 0 {
            if len == 0 {
                0
            } else {
                len - 1
            }
        } else {
            i - 1
        },
        None => 0,
    }
}

impl<T> StatefulList<T> {
    pub closed spec fn highlighted(&self) -> Option<usize> {
        self.state.view()
    }

    pub closed spec fn current_view(&self) -> Option<usize> {
        self.current
    }

    pub closed spec fn items_view(&self) -> Seq<T> {
        self.items@
    }

    /// The item at the current place, if the place is one of the list.
    pub open spec fn chosen(&self) -> Option<T> {
        match self.current_view() {
            Some(i) => if i < self.items_view().len() {
                Some(self.items_view()[i as int])
            } else {
                None
            },
            None => None,
        }
    }

    pub fn with_items(items: Vec<T>) -> (r: StatefulList<T>)
        ensures
            r.items_view() == items@,
            r.highlighted() is None,
            r.current_view() is None,
    {
        StatefulList { state: ListState::default(), items, current: None }
    }

    /// Makes the highlighted place the current one, and tells whether that
    /// changed anything.
    pub fn select(&mut self) -> (r: bool)
        ensures
            r == (old(self).highlighted() != old(self).current_view()),
            final(self).current_view() == old(self).highlighted(),
            final(self).highlighted() == old(self).highlighted(),
            final(self).items_view() == old(self).items_view(),
    {
        let next = self.state.selected();
        if next == self.current {
            return false;
        }
        self.current = self.state.selected();
        true
    }

    pub fn get(&self) -> (r: Option<&T>)
        ensures
            r is Some <==> self.chosen() is Some,
            r matches Some(item) ==> Some(*item) == self.chosen(),
    {
        match self.current {
            None => None,
            Some(idx) => if idx < self.items.len() {
                Some(&self.items[idx])
            } else {
                None
            },
        }
    }

    /// Moves the highlight one down, from the last place to the first.
    pub fn next(&mut self)
        ensures
            final(self).highlighted() == Some(
                place_after(old(self).highlighted(), old(self).items_view().len() as int) as usize,
            ),
            final(self).current_view() == old(self).current_view(),
            final(self).items_view() == old(self).items_view(),
    {
        let i = match self.state.selected() {
            Some(i) => if i >= self.items.len() || i + 1 >= self.items.len() {
                0
            } else {
                i + 1
            },
            None => 0,
        };
        self.state.select(Some(i));
    }

    /// Moves the highlight one up, from the first place to the last.
    pub fn previous(&mut self)
        ensures
            final(self).highlighted() == Some(
                place_before(old(self).highlighted(), old(self).items_view().len() as int) as usize,
            ),
            final(self).current_view() == old(self).current_view(),
            final(self).items_view() == old(self).items_view(),
    {
        let i = match self.state.selected() {
            Some(i) => if i == 0 {
                if self.items.len() == 0 {
                    0
                } else {
                    self.items.len() - 1
                }
            } else {
                i - 1
            },
            None => 0,
        };
        self.state.select(Some(i));
    }

    pub fn unselect(&mut self)
        ensures
            final(self).highlighted() is None,
            final(self).current_view() == old(self).current_view(),
            final(self).items_view() == old(self).items_view(),
    {
        self.state.select(None);
    }
}

/// One message of the buffer: who wrote it, and what.
#[derive(Debug)]
pub struct Message {
    pub username: String,
    pub content: String,
}

/// The messages of the open chat, and how far the view on them is scrolled
/// up from the newest.
pub struct MessagesBuffer {
    me: String,
    messages: Vec<Message>,
    scroll_offset: u16,
    scroll_up_block: bool,
}

/// One line of the chat as it is drawn: a label, the text, and whether the
/// user wrote it.
#[derive(Debug)]
pub struct Line {
    pub mine: bool,
    pub label: String,
    pub content: String,
}

/// The label of a message: the name of who wrote it after an `@`, then a
/// colon.
pub open spec fn label_of(username: Seq<char>) -> Seq<char> {
    "@"@ + username + ":"@
}

impl MessagesBuffer {
    pub closed spec fn me_view(&self) -> Seq<char> {
        self.me@
    }

    /// The messages, each as who wrote it and what.
    pub closed spec fn view(&self) -> Seq<(Seq<char>, Seq<char>)> {
        self.messages@.map_values(|m: Message| (m.username@, m.content@))
    }

    pub closed spec fn offset(&self) -> u16 {
        self.scroll_offset
    }

    pub closed spec fn blocked(&self) -> bool {
        self.scroll_up_block
    }

    /// Messages and owner are the same.
    pub open spec fn same_messages(&self, other: &MessagesBuffer) -> bool {
        self@ == other@ && self.me_view() == other.me_view()
    }

    pub fn new(me: String) -> (r: Self)
        ensures
            r.me_view() == me@,
            r@ == Seq::<(Seq<char>, Seq<char>)>::empty(),
            r.offset() == 0,
            !r.blocked(),
    {
        let r = MessagesBuffer {
            me,
            messages: Vec::new(),
            scroll_offset: 0,
            scroll_up_block: false,
        };
        assert(r@ =~= Seq::<(Seq<char>, Seq<char>)>::empty());
        r
    }

    /// Appends a message.
    pub fn push(&mut self, username: &str, message: &str)
        ensures
            final(self)@ == old(self)@.push((username@, message@)),
            final(self).me_view() == old(self).me_view(),
            final(self).offset() == old(self).offset(),
            final(self).blocked() == old(self).blocked(),
    {
        let m = Message { username: String::from_str(username), content: String::from_str(message) };
        self.messages.push(m);
        assert(self@ =~= old(self)@.push((username@, message@)));
    }

    /// The lines of the chat, oldest first.
    pub fn text(&self) -> (r: Vec<Line>)
        ensures
            r@.len() == self@.len(),
            forall|i: int|
                0 <= i < r@.len() ==> {
                    let line = #[trigger] r@[i];
                    &&& line.mine == (self@[i].0 == self.me_view())
                    &&& line.label@ == label_of(self@[i].0)
                    &&& line.content@ == self@[i].1
                },
    {
        let mut lines: Vec<Line> = Vec::new();
        let mut i: usize = 0;
        while i < self.messages.len()
            invariant
                i <= self.messages.len(),
                lines@.len() == i,
                forall|j: int|
                    0 <= j < i ==> {
                        let line = #[trigger] lines@[j];
                        &&& line.mine == (self@[j].0 == self.me_view())
                        &&& line.label@ == label_of(self@[j].0)
                        &&& line.content@ == self@[j].1
                    },
            decreases self.messages.len() - i,
        {
            lines.push(self.to_line(&self.messages[i]));
            i = i + 1;
        }
        lines
    }

    fn to_line(&self, message: &Message) -> (r: Line)
        ensures
            r.mine == (message.username@ == self.me_view()),
            r.label@ == label_of(message.username@),
            r.content@ == message.content@,
    {
        let mine = text_eq(self.me.as_str(), message.username.as_str());
        let mut label = String::from_str("@");
        label.append(message.username.as_str());
        label.append(":");
        Line { mine, label, content: message.content.clone() }
    }

    pub fn scroll_get(&self) -> (r: u16)
        ensures
            r == self.offset(),
    {
        self.scroll_offset
    }

    /// One line further up, unless scrolling up is blocked; never past the
    /// last offset there is.
    pub fn scroll_up(&mut self)
        ensures
            final(self).same_messages(old(self)),
            final(self).blocked() == old(self).blocked(),
            final(self).offset() == if old(self).blocked() || old(self).offset() == u16::MAX {
                old(self).offset()
            } else {
                (old(self).offset() + 1) as u16
            },
    {
        if self.scroll_up_block {
            return;
        }
        if self.scroll_offset < u16::MAX {
            self.scroll_offset = self.scroll_offset + 1;
        }
    }

    /// One line further down; never below the newest.
    pub fn scroll_down(&mut self)
        ensures
            final(self).same_messages(old(self)),
            final(self).blocked() == old(self).blocked(),
            final(self).offset() == if old(self).offset() == 0 {
                0u16
            } else {
                (old(self).offset() - 1) as u16
            },
    {
        if self.scroll_offset > 0 {
            self.scroll_offset = self.scroll_offset - 1;
        }
    }

    pub fn scroll_block(&mut self)
        ensures
            final(self).same_messages(old(self)),
            final(self).offset() == old(self).offset(),
            final(self).blocked(),
    {
        self.scroll_up_block = true;
    }

    pub fn scroll_unblock(&mut self)
        ensures
            final(self).same_messages(old(self)),
            final(self).offset() == old(self).offset(),
            !final(self).blocked(),
    {
        self.scroll_up_block = false;
    }

    pub fn scroll_reset(&mut self)
        ensures
            final(self).same_messages(old(self)),
            final(self).blocked() == old(self).blocked(),
            final(self).offset() == 0,
    {
        self.scroll_offset = 0;
    }
}

/// How many lines the text of the chat is scrolled off the top of its area:
/// as many as do not fit below the two lines of the border, less what the
/// view is scrolled up; never less than none, never more than a line count
/// can say.
pub open spec fn scroll_of(area_height: u16, text_height: u16, offset: u16) -> int {
    let over = if text_height + 2 < area_height {
        0
    } else {
        text_height + 2 - area_height
    };
    let capped = if over > u16::MAX {
        u16::MAX as int
    } else {
        over
    };
    if capped < offset {
        0
    } else {
        capped - offset
    }
}

pub fn calculate_scroll(buffer: &MessagesBuffer, area_height: u16, text_height: u16) -> (r: u16)
    ensures
        r == scroll_of(area_height, text_height, buffer.offset()),
{
    let text: u32 = text_height as u32 + 2;
    let area: u32 = area_height as u32;
    let over: u32 = if text < area {
        0
    } else {
        text - area
    };
    let capped: u16 = if over > u16::MAX as u32 {
        u16::MAX
    } else {
        over as u16
    };
    let offset = buffer.scroll_get();
    if capped < offset {
        0
    } else {
        capped - offset
    }
}

/// The failure that is shown until a key is pressed.
pub struct ErrorMessage {
    message: Option<String>,
}

impl ErrorMessage {
    pub closed spec fn view(&self) -> Option<Seq<char>> {
        match self.message {
            Some(m) => Some(m@),
            None => None,
        }
    }

    pub fn set(&mut self, message: &str)
        ensures
            final(self).view() == Some(message@),
    {
        self.message = Some(String::from_str(message));
    }

    pub fn clear(&mut self)
        ensures
            final(self).view() is None,
    {
        self.message = None;
    }

    pub fn is_err(&self) -> (r: bool)
        ensures
            r == self.view() is Some,
    {
        self.message.is_some()
    }

    pub fn get(&self) -> (r: Option<&String>)
        ensures
            r is Some <==> self.view() is Some,
            r matches Some(m) ==> Some(m@) == self.view(),
    {
        self.message.as_ref()
    }
}

impl Default for ErrorMessage {
    fn default() -> (r: Self)
        ensures
            r.view() is None,
    {
        ErrorMessage { message: None }
    }
}

} // verus!
