//! Sending and receiving in an established chat. A message goes out under a
//! timestamp that no earlier message of the sender carried, because the
//! timestamp is the nonce. A message comes in once: what was seen before is
//! dropped before it reaches the cipher's user.

use crate::api::response;
use crate::cipher::{opened, sealed, Cipher, CipherError};
use crate::envelope::{WsMessage, WsMessageView};
use crate::model::ObjectId;
use crate::table::Table;
use vstd::prelude::*;
use vstd::string::StringExecFns;

verus! {

/// The timestamp of the next message: the clock's microsecond, unless a
/// message went out at that microsecond or later; then the microsecond after
/// the last. `None` where the last message carried the last timestamp there
/// is.
pub open spec fn next_stamp(now: u64, last_sent: Option<u64>) -> Option<u64> {
    match last_sent {
        None => Some(now),
        Some(last) => if now > last {
            Some(now)
        } else if last < u64::MAX {
            Some((last + 1) as u64)
        } else {
            None
        },
    }
}

pub fn next_timestamp(now: u64, last_sent: Option<u64>) -> (r: Option<u64>)
    ensures
        r == next_stamp(now, last_sent),
        r matches Some(stamp) ==> stamp >= now && (last_sent matches Some(last) ==> stamp > last),
{
    match last_sent {
        None => Some(now),
        Some(last) => if now > last {
            Some(now)
        } else if last < u64::MAX {
            Some(last + 1)
        } else {
            None
        },
    }
}

/// Whether `stamp` is the latest timestamp under which `sender` has a message
/// in a log.
pub open spec fn latest_of(log: Seq<response::Message>, sender: Seq<u8>, stamp: u64) -> bool {
    &&& exists|i: int|
        0 <= i < log.len() && (#[trigger] log[i]).sender_id@ == sender && log[i].timestamp == stamp
    &&& forall|i: int|
        0 <= i < log.len() && (#[trigger] log[i]).sender_id@ == sender ==> log[i].timestamp
            <= stamp
}

/// Whether `sender` has a message in a log.
pub open spec fn has_sent(log: Seq<response::Message>, sender: Seq<u8>) -> bool {
    exists|i: int| 0 <= i < log.len() && (#[trigger] log[i]).sender_id@ == sender
}

/// The latest timestamp under which a sender has a message in the log of a
/// chat; `None` where the sender has none.
pub fn last_timestamp(log: &Vec<response::Message>, sender: &ObjectId) -> (r: Option<u64>)
    ensures
        r is Some <==> has_sent(log@, sender@),
        r matches Some(stamp) ==> latest_of(log@, sender@, stamp),
{
    let mut latest: Option<u64> = None;
    let mut i: usize = 0;
    while i < log.len()
        invariant
            i <= log.len(),
            latest is Some <==> has_sent(log@.take(i as int), sender@),
            latest matches Some(stamp) ==> latest_of(log@.take(i as int), sender@, stamp),
        decreases log.len() - i,
    {
        let ghost before = log@.take(i as int);
        let ghost next = log@.take(i + 1);
        proof {
            assert(next.drop_last() =~= before);
            assert forall|j: int| 0 <= j < before.len() implies before[j] == next[j] by {}
        }
        if log[i].sender_id.same(sender) {
            let stamp = log[i].timestamp;
            let newer = match latest {
                Some(known) => known < stamp,
                None => true,
            };
            if newer {
                latest = Some(stamp);
            }
            proof {
                assert(next[i as int].sender_id@ == sender@);
                match latest {
                    Some(known) => {
                        if known != stamp {
                            let k = choose|k: int|
                                0 <= k < before.len() && (#[trigger] before[k]).sender_id@
                                    == sender@ && before[k].timestamp == known;
                            assert(next[k].sender_id@ == sender@ && next[k].timestamp == known);
                        }
                    },
                    None => {},
                }
            }
        } else {
            proof {
                if has_sent(next, sender@) {
                    let k = choose|k: int|
                        0 <= k < next.len() && (#[trigger] next[k]).sender_id@ == sender@;
                    assert(before[k].sender_id@ == sender@);
                }
                if has_sent(before, sender@) {
                    let k = choose|k: int|
                        0 <= k < before.len() && (#[trigger] before[k]).sender_id@ == sender@;
                    assert(next[k].sender_id@ == sender@);
                }
                match latest {
                    Some(known) => {
                        let k = choose|k: int|
                            0 <= k < before.len() && (#[trigger] before[k]).sender_id@ == sender@
                                && before[k].timestamp == known;
                        assert(next[k].sender_id@ == sender@ && next[k].timestamp == known);
                    },
                    None => {},
                }
            }
        }
        i = i + 1;
    }
    assert(log@.take(i as int) =~= log@);
    latest
}

/// The timestamps of a list of envelopes go up from each to the next.
pub open spec fn in_order(envelopes: Seq<WsMessage>) -> bool {
    forall|i: int, j: int|
        0 <= i < j < envelopes.len() ==> (#[trigger] envelopes[i]).timestamp < (
        #[trigger] envelopes[j]).timestamp
}

/// The sending side of one chat: it remembers the timestamp of the last
/// message that was made, and keeps what could not be sent until it can.
pub struct Outbox {
    last_sent: Option<u64>,
    unsent: Vec<WsMessage>,
}

impl View for Outbox {
    type V = Option<u64>;

    /// The timestamp of the last message that was made.
    closed spec fn view(&self) -> Option<u64> {
        self.last_sent
    }
}

impl Outbox {
    /// What every outbox is: what waits in it waits in the order of its
    /// timestamps.
    #[verifier::type_invariant]
    pub closed spec fn wf(&self) -> bool {
        in_order(self.unsent@)
    }

    /// The envelopes that wait to be sent, oldest first.
    pub closed spec fn waiting(&self) -> Seq<WsMessage> {
        self.unsent@
    }

    /// The outbox of a chat in which nothing was sent.
    pub fn new() -> (r: Self)
        ensures
            r@ is None,
            r.waiting().len() == 0,
    {
        Outbox { last_sent: None, unsent: Vec::new() }
    }

    /// The outbox of a chat as its log leaves it for a sender: behind the
    /// latest message that the sender has in the log.
    pub fn from_history(log: &Vec<response::Message>, sender: &ObjectId) -> (r: Self)
        ensures
            r@ is Some <==> has_sent(log@, sender@),
            r@ matches Some(stamp) ==> latest_of(log@, sender@, stamp),
            r.waiting().len() == 0,
    {
        Outbox { last_sent: last_timestamp(log, sender), unsent: Vec::new() }
    }

    /// The outbox of a chat whose last message went out at `last_sent`.
    pub fn resume(last_sent: u64) -> (r: Self)
        ensures
            r@ == Some(last_sent),
            r.waiting().len() == 0,
    {
        Outbox { last_sent: Some(last_sent), unsent: Vec::new() }
    }

    pub fn last_sent(&self) -> (r: Option<u64>)
        ensures
            r == self@,
    {
        self.last_sent
    }

    /// Keeps an envelope that could not be sent, behind those that wait
    /// already. An envelope that is not later than the last of them is not
    /// kept: it would go out of order.
    pub fn keep(&mut self, envelope: WsMessage) -> (r: bool)
        ensures
            final(self)@ == old(self)@,
            r == (old(self).waiting().len() == 0 || old(self).waiting().last().timestamp
                < envelope.timestamp),
            final(self).waiting() == if r {
                old(self).waiting().push(envelope)
            } else {
                old(self).waiting()
            },
    {
        proof {
            use_type_invariant(&*self);
        }
        let n = self.unsent.len();
        if n > 0 && self.unsent[n - 1].timestamp >= envelope.timestamp {
            return false;
        }
        let mut unsent: Vec<WsMessage> = Vec::new();
        core::mem::swap(&mut unsent, &mut self.unsent);
        unsent.push(envelope);
        self.unsent = unsent;
        true
    }

    /// Hands out what waits, for sending once more: oldest first, which is
    /// the order of the timestamps. Nothing waits afterwards.
    pub fn resend(&mut self) -> (r: Vec<WsMessage>)
        ensures
            final(self)@ == old(self)@,
            r@ == old(self).waiting(),
            in_order(r@),
            final(self).waiting().len() == 0,
    {
        proof {
            use_type_invariant(&*self);
        }
        let mut unsent: Vec<WsMessage> = Vec::new();
        core::mem::swap(&mut unsent, &mut self.unsent);
        unsent
    }

    /// Seals a text for a chat and wraps it as an envelope. The timestamp is
    /// later than that of every envelope made before. Where no envelope is
    /// made, nothing is remembered.
    pub fn make_message(
        &mut self,
        cipher: &Cipher,
        message: &str,
        chat_id: &str,
        sender_id: &str,
        now: u64,
    ) -> (r: Result<WsMessage, CipherError>)
        ensures
            r is Ok <==> (next_stamp(now, old(self)@) matches Some(stamp) && sealed(
                cipher@,
                message@,
                stamp,
            ) is Some),
            r matches Ok(envelope) ==> {
                &&& envelope@.chat_id == chat_id@
                &&& envelope@.sender_id == sender_id@
                &&& Some(envelope@.timestamp) == next_stamp(now, old(self)@)
                &&& old(self)@ matches Some(last) ==> envelope@.timestamp > last
                &&& Some(envelope@.content) == sealed(cipher@, message@, envelope@.timestamp)
                &&& opened(cipher@, envelope@.content, envelope@.timestamp) == Ok::<
                    _,
                    CipherError,
                >(message@)
                &&& final(self)@ == Some(envelope@.timestamp)
            },
            r matches Err(e) ==> e == CipherError::EncryptionError && final(self)@ == old(self)@,
            final(self).waiting() == old(self).waiting(),
    {
        let timestamp = match next_timestamp(now, self.last_sent) {
            Some(timestamp) => timestamp,
            None => { return Err(CipherError::EncryptionError); },
        };
        let content = match cipher.encrypt(message, timestamp) {
            Ok(content) => content,
            Err(e) => { return Err(e); },
        };
        proof {
            use_type_invariant(&*self);
        }
        self.last_sent = Some(timestamp);
        Ok(
            WsMessage {
                chat_id: String::from_str(chat_id),
                sender_id: String::from_str(sender_id),
                content,
                timestamp,
            },
        )
    }
}

/// Why an envelope gives no text.
#[derive(Debug, Clone, Copy, PartialEq, Eq, Structural)]
pub enum ReceiveError {
    /// The sender's timestamp is not later than one seen from the sender
    /// before: the envelope is a repetition, or out of order.
    Replay,
    /// The envelope is later than all before it, and does not open.
    Cipher(CipherError),
}

/// Whether a timestamp is later than all that were taken from the sender.
pub open spec fn fresh(seen: Map<Seq<char>, u64>, sender: Seq<char>, timestamp: u64) -> bool {
    !seen.contains_key(sender) || seen[sender] < timestamp
}

/// What receiving an envelope gives, and what is remembered afterwards: a
/// repetition is dropped; an envelope that does not open is reported and not
/// remembered; one that opens gives its text, and its timestamp is the
/// sender's latest from then on.
pub open spec fn receive_step(seen: Map<Seq<char>, u64>, secret: Seq<u8>, envelope: WsMessageView) -> (
    Result<Seq<char>, ReceiveError>,
    Map<Seq<char>, u64>,
) {
    if !fresh(seen, envelope.sender_id, envelope.timestamp) {
        (Err(ReceiveError::Replay), seen)
    } else {
        match opened(secret, envelope.content, envelope.timestamp) {
            Ok(text) => (Ok(text), seen.insert(envelope.sender_id, envelope.timestamp)),
            Err(e) => (Err(ReceiveError::Cipher(e)), seen),
        }
    }
}

/// What receiving a list of envelopes gives, one after the other: a result
/// for each, whatever became of those before it.
pub open spec fn receive_all(seen: Map<Seq<char>, u64>, secret: Seq<u8>, envelopes: Seq<
    WsMessageView,
>) -> (Seq<Result<Seq<char>, ReceiveError>>, Map<Seq<char>, u64>)
    decreases envelopes.len(),
{
    if envelopes.len() == 0 {
        (Seq::empty(), seen)
    } else {
        let (front, then) = receive_all(seen, secret, envelopes.drop_last());
        let (last, after) = receive_step(then, secret, envelopes.last());
        (front.push(last), after)
    }
}

/// An envelope that was received is not received again: right after it gave
/// its text, the same envelope is a replay, and so is every envelope of the
/// sender that is not later.
pub proof fn lemma_replay_is_dropped(
    seen: Map<Seq<char>, u64>,
    secret: Seq<u8>,
    envelope: WsMessageView,
    again: WsMessageView,
)
    requires
        receive_step(seen, secret, envelope).0 is Ok,
        again.sender_id == envelope.sender_id,
        again.timestamp <= envelope.timestamp,
    ensures
        ({
            let after = receive_step(seen, secret, envelope).1;
            receive_step(after, secret, again) == (
                Err::<Seq<char>, _>(ReceiveError::Replay),
                after,
            )
        }),
{
}

/// What is remembered of a sender never goes back: after any envelope, the
/// sender's latest timestamp is at least what it was.
pub proof fn lemma_seen_only_grows(
    seen: Map<Seq<char>, u64>,
    secret: Seq<u8>,
    envelope: WsMessageView,
    sender: Seq<char>,
)
    requires
        seen.contains_key(sender),
    ensures
        ({
            let after = receive_step(seen, secret, envelope).1;
            after.contains_key(sender) && after[sender] >= seen[sender]
        }),
{
}

/// The text of a result, as a model.
pub open spec fn shown(r: Result<String, ReceiveError>) -> Result<Seq<char>, ReceiveError> {
    match r {
        Ok(text) => Ok(text@),
        Err(e) => Err(e),
    }
}

/// The receiving side of one chat: it remembers, for each sender, the latest
/// timestamp that it took a message under.
pub struct ReplayFilter {
    last_seen: Table<u64>,
}

impl View for ReplayFilter {
    type V = Map<Seq<char>, u64>;

    closed spec fn view(&self) -> Map<Seq<char>, u64> {
        self.last_seen@
    }
}

impl ReplayFilter {
    /// The filter of a chat in which nothing was received.
    pub fn new() -> (r: Self)
        ensures
            r@ == Map::<Seq<char>, u64>::empty(),
    {
        ReplayFilter { last_seen: Table::new() }
    }

    /// Whether an envelope of the sender under the timestamp would be taken.
    pub fn is_fresh(&self, sender: &str, timestamp: u64) -> (r: bool)
        ensures
            r == fresh(self@, sender@, timestamp),
    {
        match self.last_seen.get(sender) {
            Some(last) => *last < timestamp,
            None => true,
        }
    }

    /// Receives one envelope.
    pub fn receive(&mut self, cipher: &Cipher, envelope: &WsMessage) -> (r: Result<
        String,
        ReceiveError,
    >)
        ensures
            (shown(r), final(self)@) == receive_step(old(self)@, cipher@, envelope@),
    {
        if !self.is_fresh(envelope.sender_id.as_str(), envelope.timestamp) {
            return Err(ReceiveError::Replay);
        }
        match cipher.decrypt(envelope.content.as_slice(), envelope.timestamp) {
            Ok(text) => {
                self.last_seen.put(envelope.sender_id.clone(), envelope.timestamp);
                Ok(text)
            },
            Err(e) => Err(ReceiveError::Cipher(e)),
        }
    }

    /// Receives the log of a chat, oldest first. An envelope that fails is
    /// reported in its place, and the rest is received all the same.
    pub fn receive_history(&mut self, cipher: &Cipher, envelopes: &Vec<WsMessage>) -> (r: Vec<
        Result<String, ReceiveError>,
    >)
        ensures
            (r@.map_values(|x: Result<String, ReceiveError>| shown(x)), final(self)@) == receive_all(
                old(self)@,
                cipher@,
                envelopes@.map_values(|m: WsMessage| m@),
            ),
    {
        let ghost views = envelopes@.map_values(|m: WsMessage| m@);
        let ghost start = self@;
        let mut out: Vec<Result<String, ReceiveError>> = Vec::new();
        let mut i: usize = 0;
        assert(views.take(0).len() == 0);
        assert(out@.map_values(|x: Result<String, ReceiveError>| shown(x)) =~= Seq::empty());
        while i < envelopes.len()
            invariant
                i <= envelopes.len(),
                views == envelopes@.map_values(|m: WsMessage| m@),
                (out@.map_values(|x: Result<String, ReceiveError>| shown(x)), self@) == receive_all(
                    start,
                    cipher@,
                    views.take(i as int),
                ),
            decreases envelopes.len() - i,
        {
            let ghost before = out@.map_values(|x: Result<String, ReceiveError>| shown(x));
            let result = self.receive(cipher, &envelopes[i]);
            proof {
                assert(views.take(i + 1).drop_last() =~= views.take(i as int));
                assert(views.take(i + 1).last() == envelopes@[i as int]@);
            }
            out.push(result);
            assert(out@.map_values(|x: Result<String, ReceiveError>| shown(x)) =~= before.push(
                shown(result),
            ));
            i = i + 1;
        }
        assert(views.take(i as int) =~= views);
        out
    }
}

} // verus!
