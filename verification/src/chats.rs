//! The chats of a user as the client shows them: each with the one other
//! member.

use crate::api::response;
use crate::model::ObjectId;
use vstd::prelude::*;

verus! {

/// The other member of a chat.
#[derive(Debug)]
pub struct UserHandle {
    pub id: ObjectId,
    pub username: String,
}

/// A chat of the user, with its other member.
#[derive(Debug)]
pub struct Chat {
    pub id: ObjectId,
    pub user: UserHandle,
}

/// The chats of the user.
#[derive(Debug)]
pub struct Chats {
    pub chats: Vec<Chat>,
}

/// Whether `i` is the first place of the list that holds another identifier
/// than `userid`.
pub open spec fn first_other(users: Seq<ObjectId>, userid: Seq<u8>, i: int) -> bool {
    &&& 0 <= i < users.len()
    &&& users[i]@ != userid
    &&& forall|j: int| 0 <= j < i ==> (#[trigger] users[j])@ == userid
}

/// Whether the list holds another identifier than `userid`.
pub open spec fn has_other(users: Seq<ObjectId>, userid: Seq<u8>) -> bool {
    exists|i: int| 0 <= i < users.len() && (#[trigger] users[i])@ != userid
}

/// Whether `id` is the first identifier of the list that is another than
/// `userid`.
pub open spec fn is_other(users: Seq<ObjectId>, userid: Seq<u8>, id: Seq<u8>) -> bool {
    exists|i: int| first_other(users, userid, i) && id == users[i]@
}

/// The first member of a chat who is not the user.
pub fn get_non_user_id(users: &Vec<ObjectId>, userid: &ObjectId) -> (r: Option<ObjectId>)
    ensures
        r is Some <==> has_other(users@, userid@),
        r matches Some(id) ==> is_other(users@, userid@, id@),
{
    let mut i: usize = 0;
    while i < users.len()
        invariant
            i <= users.len(),
            forall|j: int| 0 <= j < i ==> (#[trigger] users@[j])@ == userid@,
        decreases users.len() - i,
    {
        if !users[i].same(userid) {
            assert(first_other(users@, userid@, i as int));
            return Some(users[i].clone());
        }
        i = i + 1;
    }
    None
}

impl Chats {
    /// The chats of a user, each under the name of its other member: the
    /// `i`-th chat with the `i`-th name, as far as both lists go. `None`
    /// where a chat has no member but the user.
    pub fn new(chats: Vec<response::Chat>, usernames: Vec<String>, userid: ObjectId) -> (r: Option<
        Self,
    >)
        ensures
            ({
                let n = if chats@.len() < usernames@.len() {
                    chats@.len()
                } else {
                    usernames@.len()
                };
                &&& r is Some <==> forall|i: int|
                    0 <= i < n ==> has_other((#[trigger] chats@[i]).users@, userid@)
                &&& r matches Some(list) ==> {
                    &&& list.chats@.len() == n
                    &&& forall|i: int|
                        0 <= i < n ==> {
                            let chat = #[trigger] list.chats@[i];
                            &&& chat.id@ == chats@[i].id@
                            &&& chat.user.username@ == usernames@[i]@
                            &&& is_other(chats@[i].users@, userid@, chat.user.id@)
                        }
                }
            }),
    {
        let n = if chats.len() < usernames.len() {
            chats.len()
        } else {
            usernames.len()
        };
        let mut cs: Vec<Chat> = Vec::new();
        let mut i: usize = 0;
        while i < n
            invariant
                i <= n,
                n <= chats@.len(),
                n <= usernames@.len(),
                cs@.len() == i,
                forall|j: int| 0 <= j < i ==> has_other((#[trigger] chats@[j]).users@, userid@),
                forall|j: int|
                    0 <= j < i ==> {
                        let chat = #[trigger] cs@[j];
                        &&& chat.id@ == chats@[j].id@
                        &&& chat.user.username@ == usernames@[j]@
                        &&& is_other(chats@[j].users@, userid@, chat.user.id@)
                    },
            decreases n - i,
        {
            let other = match get_non_user_id(&chats[i].users, &userid) {
                Some(id) => id,
                None => { return None; },
            };
            cs.push(
                Chat {
                    id: chats[i].id.clone(),
                    user: UserHandle { id: other, username: usernames[i].clone() },
                },
            );
            i = i + 1;
        }
        Some(Chats { chats: cs })
    }
}

} // verus!
