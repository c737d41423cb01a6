//! The key directory: what a server keeps so that two users can agree on a
//! secret without being online together. It stores what users publish and
//! hands it on; it holds no private key and derives no secret.

use crate::handshake::{
    decode_one_time, InitialMessageBinary, InitialMessageView, PeerBundleBinary,
    PeerBundleBinaryView, RegisterBundleBinary, RegisterBundleBinaryView,
};
use crate::table::Table;
use vstd::prelude::*;
use vstd::string::StringExecFns;

verus! {

/// Why the directory refuses a request.
#[derive(Debug, Clone, Copy, PartialEq, Eq, Structural)]
pub enum DirectoryError {
    /// The user has published a bundle before.
    AlreadyPublished,
    /// The user has published no bundle.
    UnknownUser,
    /// Every one-time pre-key of the user has been handed out.
    NoOneTimeLeft,
}

/// The model of the directory: the bundle of each user who has published one,
/// with the one-time pre-keys that are left of it, and the initial message of
/// each chat that has one.
pub struct DirectoryView {
    pub bundles: Map<Seq<char>, RegisterBundleBinaryView>,
    pub initial_messages: Map<Seq<char>, InitialMessageView>,
}

/// What is left of a bundle when its first one-time pre-key is gone.
pub open spec fn without_first(bundle: RegisterBundleBinaryView) -> RegisterBundleBinaryView {
    RegisterBundleBinaryView {
        identity: bundle.identity,
        signed_pre: bundle.signed_pre,
        signature: bundle.signature,
        one_time_pres: bundle.one_time_pres.drop_first(),
    }
}

/// The peer bundle that a bundle gives: its keys and signature, with the
/// first of its one-time pre-keys.
pub open spec fn peer_of(bundle: RegisterBundleBinaryView) -> PeerBundleBinaryView {
    PeerBundleBinaryView {
        identity: bundle.identity,
        signed_pre: bundle.signed_pre,
        signature: bundle.signature,
        one_time_pre: bundle.one_time_pres[0],
    }
}

impl DirectoryView {
    /// Publishing stores the bundle, unless the user has one.
    pub open spec fn publish(self, user: Seq<char>, bundle: RegisterBundleBinaryView) -> (
        Result<(), DirectoryError>,
        DirectoryView,
    ) {
        if self.bundles.contains_key(user) {
            (Err(DirectoryError::AlreadyPublished), self)
        } else {
            (
                Ok(()),
                DirectoryView {
                    bundles: self.bundles.insert(user, bundle),
                    initial_messages: self.initial_messages,
                },
            )
        }
    }

    /// Fetching hands out the first one-time pre-key that is left and takes
    /// it out of the pool.
    pub open spec fn fetch_peer(self, user: Seq<char>) -> (
        Result<PeerBundleBinaryView, DirectoryError>,
        DirectoryView,
    ) {
        if !self.bundles.contains_key(user) {
            (Err(DirectoryError::UnknownUser), self)
        } else if self.bundles[user].one_time_pres.len() == 0 {
            (Err(DirectoryError::NoOneTimeLeft), self)
        } else {
            (
                Ok(peer_of(self.bundles[user])),
                DirectoryView {
                    bundles: self.bundles.insert(user, without_first(self.bundles[user])),
                    initial_messages: self.initial_messages,
                },
            )
        }
    }

    /// Depositing stores the message, unless the chat has one: the first
    /// write wins.
    pub open spec fn deposit(self, chat: Seq<char>, message: InitialMessageView) -> DirectoryView {
        if self.initial_messages.contains_key(chat) {
            self
        } else {
            DirectoryView {
                bundles: self.bundles,
                initial_messages: self.initial_messages.insert(chat, message),
            }
        }
    }

    /// The initial message of a chat, if it has one.
    pub open spec fn initial(self, chat: Seq<char>) -> Option<InitialMessageView> {
        if self.initial_messages.contains_key(chat) {
            Some(self.initial_messages[chat])
        } else {
            None
        }
    }
}

/// The one-time pre-keys of a pool are framed as such and carry indices of
/// which no two are the same.
pub open spec fn distinct_indices(pool: Seq<Seq<u8>>) -> bool {
    &&& forall|i: int| 0 <= i < pool.len() ==> (#[trigger] decode_one_time(pool[i])) is Some
    &&& forall|i: int, j: int|
        0 <= i < j < pool.len() ==> (#[trigger] decode_one_time(pool[i])).unwrap().1 != (
        #[trigger] decode_one_time(pool[j])).unwrap().1
}

/// A one-time pre-key, once handed out, is gone: the fetch after it hands out
/// the next of the pool.
pub proof fn lemma_fetch_takes_in_order(d: DirectoryView, user: Seq<char>)
    requires
        d.fetch_peer(user).0 is Ok,
    ensures
        ({
            let pool = d.bundles[user].one_time_pres;
            let (first, after) = d.fetch_peer(user);
            let (second, _) = after.fetch_peer(user);
            &&& first.unwrap().one_time_pre == pool[0]
            &&& after.bundles[user].one_time_pres == pool.drop_first()
            &&& pool.len() == 1 ==> second == Err::<PeerBundleBinaryView, _>(
                DirectoryError::NoOneTimeLeft,
            )
            &&& pool.len() > 1 ==> second is Ok && second.unwrap().one_time_pre == pool[1]
        }),
{
}

/// Two fetches for one user, one after the other, never hand out the same
/// index: where the published pool carries no index twice, either the two
/// indices differ or one of the fetches finds no one-time pre-key left.
pub proof fn lemma_one_time_indices_are_handed_out_once(d: DirectoryView, user: Seq<char>)
    requires
        d.bundles.contains_key(user),
        distinct_indices(d.bundles[user].one_time_pres),
    ensures
        ({
            let (first, after) = d.fetch_peer(user);
            let (second, _) = after.fetch_peer(user);
            ||| first == Err::<PeerBundleBinaryView, _>(DirectoryError::NoOneTimeLeft)
            ||| second == Err::<PeerBundleBinaryView, _>(DirectoryError::NoOneTimeLeft)
            ||| {
                &&& first is Ok
                &&& second is Ok
                &&& decode_one_time(first.unwrap().one_time_pre) is Some
                &&& decode_one_time(second.unwrap().one_time_pre) is Some
                &&& decode_one_time(first.unwrap().one_time_pre).unwrap().1 != decode_one_time(
                    second.unwrap().one_time_pre,
                ).unwrap().1
            }
        }),
{
    let pool = d.bundles[user].one_time_pres;
    if pool.len() > 1 {
        lemma_fetch_takes_in_order(d, user);
        assert(decode_one_time(pool[0]).unwrap().1 != decode_one_time(pool[1]).unwrap().1);
    }
}

/// Depositing twice is depositing once: the second write changes nothing.
pub proof fn lemma_deposit_is_idempotent(
    d: DirectoryView,
    chat: Seq<char>,
    first: InitialMessageView,
    second: InitialMessageView,
)
    ensures
        d.deposit(chat, first).deposit(chat, second) == d.deposit(chat, first),
        d.deposit(chat, first).initial(chat) == if d.initial(chat) is Some {
            d.initial(chat)
        } else {
            Some(first)
        },
{
}

/// The directory. Each of its operations is done in one piece: whoever holds
/// the directory for a change holds it alone.
pub struct KeyDirectory {
    bundles: Table<RegisterBundleBinary>,
    initial_messages: Table<InitialMessageBinary>,
}

impl View for KeyDirectory {
    type V = DirectoryView;

    closed spec fn view(&self) -> DirectoryView {
        DirectoryView {
            bundles: self.bundles@.map_values(|b: RegisterBundleBinary| b@),
            initial_messages: self.initial_messages@.map_values(|m: InitialMessageBinary| m@),
        }
    }
}

impl KeyDirectory {
    /// A directory in which nobody has published anything.
    pub fn new() -> (r: Self)
        ensures
            r@.bundles == Map::<Seq<char>, RegisterBundleBinaryView>::empty(),
            r@.initial_messages == Map::<Seq<char>, InitialMessageView>::empty(),
    {
        let r = KeyDirectory { bundles: Table::new(), initial_messages: Table::new() };
        assert(r@.bundles =~= Map::<Seq<char>, RegisterBundleBinaryView>::empty());
        assert(r@.initial_messages =~= Map::<Seq<char>, InitialMessageView>::empty());
        r
    }

    /// Stores the bundle that a user publishes. A user publishes once:
    /// `AlreadyPublished` leaves the directory as it was.
    pub fn publish_bundle(&mut self, user_id: &str, bundle: RegisterBundleBinary) -> (r: Result<
        (),
        DirectoryError,
    >)
        ensures
            (r, final(self)@) == old(self)@.publish(user_id@, bundle@),
    {
        if self.bundles.contains(user_id) {
            Err(DirectoryError::AlreadyPublished)
        } else {
            self.bundles.put(String::from_str(user_id), bundle);
            assert(self@.bundles =~= old(self)@.bundles.insert(user_id@, bundle@));
            Ok(())
        }
    }

    /// Hands out the keys of a user together with one of the user's one-time
    /// pre-keys, which is then gone from the directory.
    pub fn fetch_peer_bundle(&mut self, user_id: &str) -> (r: Result<
        PeerBundleBinary,
        DirectoryError,
    >)
        ensures
            final(self)@ == old(self)@.fetch_peer(user_id@).1,
            r matches Ok(peer) ==> old(self)@.fetch_peer(user_id@).0 == Ok::<_, DirectoryError>(
                peer@,
            ),
            r matches Err(e) ==> old(self)@.fetch_peer(user_id@).0 == Err::<
                PeerBundleBinaryView,
                _,
            >(e),
    {
        match self.bundles.get(user_id) {
            None => { return Err(DirectoryError::UnknownUser); },
            Some(bundle) => {
                if bundle.one_time_pres.len() == 0 {
                    assert(bundle@.one_time_pres.len() == 0);
                    return Err(DirectoryError::NoOneTimeLeft);
                }
            },
        }
        let mut bundle = match self.bundles.take(user_id) {
            Some(bundle) => bundle,
            None => { return Err(DirectoryError::UnknownUser); },
        };
        let ghost was = bundle@;
        let one_time_pre = bundle.one_time_pres.remove(0);
        let peer = PeerBundleBinary {
            identity: bundle.identity.clone(),
            signed_pre: bundle.signed_pre.clone(),
            signature: bundle.signature.clone(),
            one_time_pre,
        };
        proof {
            assert(bundle@.one_time_pres =~= was.one_time_pres.drop_first());
            assert(bundle@ == without_first(was));
            assert(peer@ == peer_of(was));
        }
        self.bundles.put(String::from_str(user_id), bundle);
        assert(self@.bundles =~= old(self)@.bundles.insert(user_id@, without_first(was)));
        Ok(peer)
    }

    /// Stores the initial message of a chat, unless the chat has one, and
    /// tells whether it was stored. A message that comes second is dropped
    /// without a failure.
    pub fn deposit_initial_message(&mut self, chat_id: &str, message: InitialMessageBinary) -> (r:
        bool)
        ensures
            final(self)@ == old(self)@.deposit(chat_id@, message@),
            r == old(self)@.initial(chat_id@) is None,
    {
        if self.initial_messages.contains(chat_id) {
            false
        } else {
            self.initial_messages.put(String::from_str(chat_id), message);
            assert(self@.initial_messages =~= old(self)@.initial_messages.insert(
                chat_id@,
                message@,
            ));
            true
        }
    }

    /// The initial message of a chat, which stays where it is.
    pub fn fetch_initial_message(&self, chat_id: &str) -> (r: Option<InitialMessageBinary>)
        ensures
            r is Some <==> self@.initial(chat_id@) is Some,
            r matches Some(message) ==> self@.initial(chat_id@) == Some(message@),
    {
        match self.initial_messages.get(chat_id) {
            Some(message) => Some(message.clone()),
            None => None,
        }
    }

    /// What is left of the bundle that a user published; `None` for a user
    /// who published nothing.
    pub fn bundle_of(&self, user_id: &str) -> (r: Option<RegisterBundleBinary>)
        ensures
            r is Some <==> self@.bundles.contains_key(user_id@),
            r matches Some(bundle) ==> bundle@ == self@.bundles[user_id@],
    {
        match self.bundles.get(user_id) {
            Some(bundle) => Some(bundle.clone()),
            None => None,
        }
    }

    /// How many one-time pre-keys are left of what a user published; `None`
    /// for a user who published nothing.
    pub fn one_time_left(&self, user_id: &str) -> (r: Option<usize>)
        ensures
            r is Some <==> self@.bundles.contains_key(user_id@),
            r matches Some(n) ==> n == self@.bundles[user_id@].one_time_pres.len(),
    {
        match self.bundles.get(user_id) {
            Some(bundle) => Some(bundle.one_time_pres.len()),
            None => None,
        }
    }
}

} // verus!
