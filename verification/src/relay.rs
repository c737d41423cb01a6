//! The relay: what a server does with an envelope that one member of a chat
//! sends. It keeps the envelope in the log of the chat and queues it for every
//! other member who is connected. It never looks into the sealed text.

use crate::envelope::WsMessage;
use crate::table::Table;
use crate::text::text_eq;
use vstd::prelude::*;
use vstd::string::StringExecFns;

verus! {

/// The model of the relay: the queue of frames that wait for each connected
/// user, and the log of each chat.
pub struct RelayView {
    pub mailboxes: Map<Seq<char>, Seq<Seq<u8>>>,
    pub logs: Map<Seq<char>, Seq<Seq<u8>>>,
}

impl RelayView {
    /// The log of a chat; empty for a chat that nothing was sent in.
    pub open spec fn log(self, chat: Seq<char>) -> Seq<Seq<u8>> {
        if self.logs.contains_key(chat) {
            self.logs[chat]
        } else {
            Seq::empty()
        }
    }

    /// A user connects: the user's queue starts empty, whatever waited in an
    /// earlier one.
    pub open spec fn connect(self, user: Seq<char>) -> RelayView {
        RelayView { mailboxes: self.mailboxes.insert(user, Seq::empty()), logs: self.logs }
    }

    /// A user disconnects: the user's queue is gone.
    pub open spec fn disconnect(self, user: Seq<char>) -> RelayView {
        RelayView { mailboxes: self.mailboxes.remove(user), logs: self.logs }
    }

    /// Whether a frame that `sender` sends to a chat of `members` goes to
    /// `user`: to every member but the sender.
    pub open spec fn receives(user: Seq<char>, sender: Seq<char>, members: Seq<Seq<char>>) -> bool {
        user != sender && members.contains(user)
    }

    /// A frame arrives from `sender` for a chat: it is appended to the log of
    /// the chat and to the queue of every connected member but the sender.
    pub open spec fn deliver(
        self,
        sender: Seq<char>,
        chat: Seq<char>,
        frame: Seq<u8>,
        members: Seq<Seq<char>>,
    ) -> RelayView {
        RelayView {
            mailboxes: Map::new(
                |user: Seq<char>| self.mailboxes.contains_key(user),
                |user: Seq<char>|
                    if Self::receives(user, sender, members) {
                        self.mailboxes[user].push(frame)
                    } else {
                        self.mailboxes[user]
                    },
            ),
            logs: self.logs.insert(chat, self.log(chat).push(frame)),
        }
    }

    /// Frames arrive from `sender` for a chat, one after the other.
    pub open spec fn deliver_all(
        self,
        sender: Seq<char>,
        chat: Seq<char>,
        frames: Seq<Seq<u8>>,
        members: Seq<Seq<char>>,
    ) -> RelayView
        decreases frames.len(),
    {
        if frames.len() == 0 {
            self
        } else {
            self.deliver_all(sender, chat, frames.drop_last(), members).deliver(
                sender,
                chat,
                frames.last(),
                members,
            )
        }
    }

    /// A user takes what waits: the queue is empty afterwards.
    pub open spec fn drain(self, user: Seq<char>) -> (Seq<Seq<u8>>, RelayView) {
        if self.mailboxes.contains_key(user) {
            (
                self.mailboxes[user],
                RelayView {
                    mailboxes: self.mailboxes.insert(user, Seq::empty()),
                    logs: self.logs,
                },
            )
        } else {
            (Seq::empty(), self)
        }
    }
}

/// What a sender emits while a recipient stays connected reaches the
/// recipient once each and in the sender's order: the frames are appended to
/// what waited for the recipient, and to the log of the chat.
pub proof fn lemma_frames_arrive_once_in_order(
    relay: RelayView,
    sender: Seq<char>,
    recipient: Seq<char>,
    chat: Seq<char>,
    frames: Seq<Seq<u8>>,
    members: Seq<Seq<char>>,
)
    requires
        relay.mailboxes.contains_key(recipient),
        members.contains(recipient),
        recipient != sender,
    ensures
        ({
            let after = relay.deliver_all(sender, chat, frames, members);
            &&& after.mailboxes.dom() == relay.mailboxes.dom()
            &&& after.mailboxes[recipient] == relay.mailboxes[recipient] + frames
            &&& after.log(chat) == relay.log(chat) + frames
            &&& relay.mailboxes.contains_key(sender) ==> after.mailboxes[sender]
                == relay.mailboxes[sender]
        }),
    decreases frames.len(),
{
    let after = relay.deliver_all(sender, chat, frames, members);
    if frames.len() == 0 {
        assert(after.mailboxes[recipient] =~= relay.mailboxes[recipient] + frames);
        assert(after.log(chat) =~= relay.log(chat) + frames);
    } else {
        let front = frames.drop_last();
        let before = relay.deliver_all(sender, chat, front, members);
        lemma_frames_arrive_once_in_order(relay, sender, recipient, chat, front, members);
        assert(after.mailboxes.dom() =~= relay.mailboxes.dom());
        assert(front.push(frames.last()) =~= frames);
        assert(after.mailboxes[recipient] =~= relay.mailboxes[recipient] + frames);
        assert(after.log(chat) =~= relay.log(chat) + frames);
    }
}

/// A recipient who drains after the frames arrived, and had nothing waiting
/// before, takes exactly the frames, in order, and nothing twice: a second
/// drain is empty.
pub proof fn lemma_drain_hands_out_once(
    relay: RelayView,
    sender: Seq<char>,
    recipient: Seq<char>,
    chat: Seq<char>,
    frames: Seq<Seq<u8>>,
    members: Seq<Seq<char>>,
)
    requires
        relay.mailboxes.contains_key(recipient),
        relay.mailboxes[recipient].len() == 0,
        members.contains(recipient),
        recipient != sender,
    ensures
        ({
            let after = relay.deliver_all(sender, chat, frames, members);
            let (taken, drained) = after.drain(recipient);
            &&& taken == frames
            &&& drained.drain(recipient).0 == Seq::<Seq<u8>>::empty()
        }),
{
    lemma_frames_arrive_once_in_order(relay, sender, recipient, chat, frames, members);
    let after = relay.deliver_all(sender, chat, frames, members);
    assert(after.mailboxes.dom().contains(recipient));
    assert(relay.mailboxes[recipient] + frames =~= frames);
}

fn is_member(members: &Vec<String>, user: &str) -> (r: bool)
    ensures
        r == members@.map_values(|n: String| n@).contains(user@),
{
    let ghost names = members@.map_values(|n: String| n@);
    let mut i: usize = 0;
    while i < members.len()
        invariant
            i <= members.len(),
            names == members@.map_values(|n: String| n@),
            forall|j: int| 0 <= j < i ==> names[j] != user@,
        decreases members.len() - i,
    {
        if text_eq(members[i].as_str(), user) {
            assert(names[i as int] == user@);
            return true;
        }
        i = i + 1;
    }
    false
}

fn clone_frames(frames: &Vec<Vec<u8>>) -> (r: Vec<Vec<u8>>)
    ensures
        r@.map_values(|f: Vec<u8>| f@) == frames@.map_values(|f: Vec<u8>| f@),
{
    let mut out: Vec<Vec<u8>> = Vec::new();
    let mut i: usize = 0;
    while i < frames.len()
        invariant
            i <= frames.len(),
            out@.len() == i,
            forall|j: int| 0 <= j < i ==> (#[trigger] out@[j])@ == frames@[j]@,
        decreases frames.len() - i,
    {
        out.push(frames[i].clone());
        i = i + 1;
    }
    assert(out@.map_values(|f: Vec<u8>| f@) =~= frames@.map_values(|f: Vec<u8>| f@));
    out
}

/// The frames of a queue or a log.
pub open spec fn frames_of(queue: Vec<Vec<u8>>) -> Seq<Seq<u8>> {
    queue@.map_values(|f: Vec<u8>| f@)
}

/// The client table: who is connected, and what waits for each.
pub struct Clients {
    mailboxes: Table<Vec<Vec<u8>>>,
}

impl View for Clients {
    type V = Map<Seq<char>, Seq<Seq<u8>>>;

    closed spec fn view(&self) -> Map<Seq<char>, Seq<Seq<u8>>> {
        self.mailboxes@.map_values(|q: Vec<Vec<u8>>| frames_of(q))
    }
}

impl Clients {
    /// A table with nobody in it.
    pub fn new() -> (r: Self)
        ensures
            r@ == Map::<Seq<char>, Seq<Seq<u8>>>::empty(),
    {
        let r = Clients { mailboxes: Table::new() };
        assert(r@ =~= Map::<Seq<char>, Seq<Seq<u8>>>::empty());
        r
    }

    /// What waits for a user; `None` for a user who is not connected.
    pub fn get_client(&self, user_id: &str) -> (r: Option<&Vec<Vec<u8>>>)
        ensures
            r is Some <==> self@.contains_key(user_id@),
            r matches Some(queue) ==> frames_of(*queue) == self@[user_id@],
    {
        self.mailboxes.get(user_id)
    }

    /// Registers a connection of a user, with an empty queue.
    pub fn add_client(&mut self, user_id: String)
        ensures
            final(self)@ == old(self)@.insert(user_id@, Seq::empty()),
    {
        let queue: Vec<Vec<u8>> = Vec::new();
        assert(frames_of(queue) =~= Seq::<Seq<u8>>::empty());
        self.mailboxes.put(user_id, queue);
        assert(self@ =~= old(self)@.insert(user_id@, Seq::empty()));
    }

    /// Forgets the connection of a user, with what waited for it.
    pub fn remove_client(&mut self, user_id: &str)
        ensures
            final(self)@ == old(self)@.remove(user_id@),
    {
        self.mailboxes.take(user_id);
        assert(self@ =~= old(self)@.remove(user_id@));
    }
}

/// The relay: the client table, and the log of each chat.
pub struct Relay {
    clients: Clients,
    logs: Table<Vec<Vec<u8>>>,
}

impl View for Relay {
    type V = RelayView;

    closed spec fn view(&self) -> RelayView {
        RelayView {
            mailboxes: self.clients@,
            logs: self.logs@.map_values(|q: Vec<Vec<u8>>| frames_of(q)),
        }
    }
}

impl Relay {
    /// A relay to which nobody is connected and in which nothing was sent.
    pub fn new() -> (r: Self)
        ensures
            r@.mailboxes == Map::<Seq<char>, Seq<Seq<u8>>>::empty(),
            r@.logs == Map::<Seq<char>, Seq<Seq<u8>>>::empty(),
    {
        let r = Relay { clients: Clients::new(), logs: Table::new() };
        assert(r@.logs =~= Map::<Seq<char>, Seq<Seq<u8>>>::empty());
        r
    }

    /// A user connects.
    pub fn user_connected(&mut self, user_id: &str)
        ensures
            final(self)@ == old(self)@.connect(user_id@),
    {
        self.clients.add_client(String::from_str(user_id));
    }

    /// A user disconnects: the socket closed, a write to it failed, or the
    /// user went away.
    pub fn disconnect_user(&mut self, user_id: &str)
        ensures
            final(self)@ == old(self)@.disconnect(user_id@),
    {
        self.clients.remove_client(user_id);
    }

    /// Whether a user is connected.
    pub fn is_connected(&self, user_id: &str) -> (r: bool)
        ensures
            r == self@.mailboxes.contains_key(user_id@),
    {
        self.clients.get_client(user_id).is_some()
    }

    /// Takes in an envelope that `sender` sends to a chat of `members`: its
    /// frame goes into the log of the chat and into the queue of every
    /// connected member but the sender.
    pub fn user_message(&mut self, sender: &str, envelope: &WsMessage, members: &Vec<String>)
        ensures
            final(self)@ == old(self)@.deliver(
                sender@,
                envelope@.chat_id,
                envelope@.encode(),
                members@.map_values(|n: String| n@),
            ),
    {
        let frame = envelope.to_bytes();
        let ghost names = members@.map_values(|n: String| n@);
        let ghost was = self@;
        let ghost goal = was.deliver(sender@, envelope@.chat_id, frame@, names);
        self.append_to_log(envelope.chat_id.as_str(), &frame);
        let ghost order = self.clients.mailboxes.order();
        proof {
            use_type_invariant(&self.clients.mailboxes);
            self.clients.mailboxes.lemma_order();
        }
        let n = self.clients.mailboxes.len();
        let mut i: usize = 0;
        while i < n
            invariant
                i <= n == order.len(),
                order == self.clients.mailboxes.order(),
                order.no_duplicates(),
                forall|name: Seq<char>| #[trigger]
                    self@.mailboxes.contains_key(name) <==> order.contains(name),
                names == members@.map_values(|n: String| n@),
                self@.logs == goal.logs,
                self@.mailboxes.dom() == was.mailboxes.dom(),
                goal == was.deliver(sender@, envelope@.chat_id, frame@, names),
                forall|j: int|
                    0 <= j < i ==> self@.mailboxes[#[trigger] order[j]]
                        == goal.mailboxes[order[j]],
                forall|j: int|
                    i <= j < n ==> self@.mailboxes[#[trigger] order[j]]
                        == was.mailboxes[order[j]],
            decreases n - i,
        {
            let ghost before = self@;
            let user = String::from_str(self.clients.mailboxes.name_at(i));
            assert(user@ == order[i as int]);
            if !text_eq(user.as_str(), sender) && is_member(members, user.as_str()) {
                let mut queue = match self.clients.mailboxes.put(user.clone(), Vec::new()) {
                    Some(queue) => queue,
                    None => Vec::new(),
                };
                let ghost waiting = frames_of(queue);
                queue.push(frame.clone());
                assert(frames_of(queue) =~= waiting.push(frame@));
                self.clients.mailboxes.put(user, queue);
                proof {
                    assert(self@.mailboxes =~= before.mailboxes.insert(
                        order[i as int],
                        waiting.push(frame@),
                    ));
                    assert forall|j: int| 0 <= j < n && j != i implies order[j]
                        != order[i as int] by {}
                }
            }
            i = i + 1;
        }
        proof {
            assert forall|name: Seq<char>|
                self@.mailboxes.contains_key(name) implies self@.mailboxes[name]
                == goal.mailboxes[name] by {
                assert(order.contains(name));
                let j = choose|j: int| 0 <= j < order.len() && order[j] == name;
                assert(self@.mailboxes[order[j]] == goal.mailboxes[order[j]]);
            }
            assert(self@.mailboxes =~= goal.mailboxes);
        }
    }

    fn append_to_log(&mut self, chat_id: &str, frame: &Vec<u8>)
        ensures
            final(self)@.mailboxes == old(self)@.mailboxes,
            final(self).clients == old(self).clients,
            final(self)@.logs == old(self)@.logs.insert(
                chat_id@,
                old(self)@.log(chat_id@).push(frame@),
            ),
    {
        let mut log = match self.logs.take(chat_id) {
            Some(log) => log,
            None => Vec::new(),
        };
        let ghost had = frames_of(log);
        assert(had =~= old(self)@.log(chat_id@));
        log.push(frame.clone());
        assert(frames_of(log) =~= had.push(frame@));
        self.logs.put(String::from_str(chat_id), log);
        assert(self@.logs =~= old(self)@.logs.insert(chat_id@, had.push(frame@)));
    }

    /// Hands out what waits for a user, oldest first, and leaves the queue
    /// empty. Nothing waits for a user who is not connected.
    pub fn drain(&mut self, user_id: &str) -> (r: Vec<Vec<u8>>)
        ensures
            (frames_of(r), final(self)@) == old(self)@.drain(user_id@),
    {
        if self.clients.mailboxes.contains(user_id) {
            let empty: Vec<Vec<u8>> = Vec::new();
            assert(frames_of(empty) =~= Seq::<Seq<u8>>::empty());
            let queue = match self.clients.mailboxes.put(String::from_str(user_id), empty) {
                Some(queue) => queue,
                None => Vec::new(),
            };
            assert(self@.mailboxes =~= old(self)@.mailboxes.insert(user_id@, Seq::empty()));
            queue
        } else {
            let r: Vec<Vec<u8>> = Vec::new();
            assert(frames_of(r) =~= Seq::<Seq<u8>>::empty());
            r
        }
    }

    /// The log of a chat, oldest first.
    pub fn history(&self, chat_id: &str) -> (r: Vec<Vec<u8>>)
        ensures
            frames_of(r) == self@.log(chat_id@),
    {
        match self.logs.get(chat_id) {
            Some(log) => clone_frames(log),
            None => {
                let r: Vec<Vec<u8>> = Vec::new();
                assert(frames_of(r) =~= Seq::<Seq<u8>>::empty());
                r
            },
        }
    }
}

} // verus!
