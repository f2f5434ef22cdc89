use crate::db::UserDB;
use crate::models::{AddFriend, AppState, Id, Message, MessageType, Payload};
use crate::registry::users_get;
use crate::route::message::{friend_notice, Outbox};
use vstd::prelude::*;

verus! {

/// The beginning of a username, as a search asks for it.
#[derive(Debug, PartialEq, Eq)]
pub struct Username {
    pub username: String,
}

/// The user that a friend request goes to.
#[derive(Clone, Copy, Debug, PartialEq, Eq, Structural)]
pub struct UserId {
    pub user_id: Id,
}

/// A user that a search found, with whether it is a friend of the one who
/// searched.
#[derive(Debug, PartialEq, Eq)]
pub struct UserSearchResult {
    pub user: UserDB,
    pub is_friend: bool,
}

/// Whether a user with this id is among `friends`.
pub open spec fn is_among(friends: Seq<UserDB>, id: Id) -> bool {
    exists|j: int| 0 <= j < friends.len() && (#[trigger] friends[j]).id == id
}

fn has_friend(friends: &Vec<UserDB>, id: Id) -> (found: bool)
    ensures
        found == is_among(friends@, id),
{
    let mut j: usize = 0;
    while j < friends.len()
        invariant
            j <= friends@.len(),
            forall|k: int| 0 <= k < j ==> (#[trigger] friends@[k]).id != id,
        decreases friends@.len() - j,
    {
        if friends[j].id == id {
            return true;
        }
        j = j + 1;
    }
    false
}

/// The answer to a search: the users that the store found, each as others
/// may see it and with whether it is one of the friends, in the store's
/// order.
pub fn search_users(users: &Vec<UserDB>, friends: &Vec<UserDB>) -> (results: Vec<UserSearchResult>)
    ensures
        results@.len() == users@.len(),
        forall|i: int|
            0 <= i < users@.len() ==> {
                &&& users@[i].is_shown_as((#[trigger] results@[i]).user)
                &&& results@[i].is_friend == is_among(friends@, users@[i].id)
            },
{
    let mut results: Vec<UserSearchResult> = Vec::new();
    let mut i: usize = 0;
    while i < users.len()
        invariant
            i <= users@.len(),
            results@.len() == i,
            forall|k: int|
                0 <= k < i ==> {
                    &&& users@[k].is_shown_as((#[trigger] results@[k]).user)
                    &&& results@[k].is_friend == is_among(friends@, users@[k].id)
                },
        decreases users@.len() - i,
    {
        let is_friend = has_friend(friends, users[i].id);
        results.push(UserSearchResult { user: users[i].public(), is_friend });
        i = i + 1;
    }
    results
}

/// The answer to a friend request, and the notice for the other user.
#[derive(Debug, PartialEq, Eq)]
pub struct AddFriendReply {
    /// What the caller is told was done.
    pub action: &'static str,
    /// What the other user is told, if connected.
    pub notice: Option<Outbox>,
}

/// The word that tells the caller what became of a friend request.
pub open spec fn spec_action(outcome: AddFriend) -> Seq<char> {
    match outcome {
        AddFriend::Add => "friend_added"@,
        AddFriend::Request => "friend_request_sent"@,
    }
}

/// Answers a friend request that the store has recorded as `outcome`: the
/// caller is told what was done, and the other user, if connected, gets an
/// info message about it.
pub fn add_friend(
    state: &AppState,
    user_id: Id,
    to: &UserId,
    outcome: AddFriend,
    notice_id: Id,
    now: i64,
) -> (reply: AddFriendReply)
    ensures
        reply.action@ == spec_action(outcome),
        reply.notice is Some <==> state.presence().contains_key(to.user_id),
        reply.notice matches Some(outbox) ==> {
            &&& outbox.message == friend_notice(user_id, to.user_id, outcome, notice_id, now)
            &&& outbox.conns@ == seq![state.presence()[to.user_id].ws_conn]
        },
{
    let action = match outcome {
        AddFriend::Add => "friend_added",
        AddFriend::Request => "friend_request_sent",
    };
    let notice = match users_get(&state.users, to.user_id) {
        None => None,
        Some(user) => {
            let mut conns: Vec<u64> = Vec::new();
            conns.push(user.ws_conn);
            Some(
                Outbox {
                    message: Message {
                        id: notice_id,
                        from: user_id,
                        to: to.user_id,
                        data: Payload::Friend(outcome),
                        time: now,
                        kind: MessageType::Info,
                    },
                    conns,
                },
            )
        },
    };
    AddFriendReply { action, notice }
}

} // verus!
