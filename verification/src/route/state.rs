use crate::db::UserDB;
use crate::models::{AppState, HubError, Id, State};
use crate::registry::users_get;
use vstd::prelude::*;

verus! {

/// Which messages a client asks for: those exchanged with `user_id`, at most
/// `len` of them, from before `end`, which counts milliseconds since the
/// Unix epoch.
#[derive(Clone, Copy, Debug, PartialEq, Eq, Structural)]
pub struct MessagesQuery {
    pub user_id: Id,
    pub len: Option<i64>,
    pub end: Option<i64>,
}

/// How many messages are listed where the client names no number.
pub const DEFAULT_MESSAGES: i64 = 50;

/// What the store is asked for: up to `len` messages between `first` and
/// `second` from strictly before `before`, oldest first.
#[derive(Clone, Copy, Debug, PartialEq, Eq, Structural)]
pub struct MessagesWindow {
    pub first: Id,
    pub second: Id,
    pub len: i64,
    pub before: i64,
}

/// The question that a client's query puts to the store at `now`: fifty
/// messages where it names no number, and up to now where it names no end.
pub open spec fn spec_get_messages(user_id: Id, query: MessagesQuery, now: i64) -> MessagesWindow {
    MessagesWindow {
        first: user_id,
        second: query.user_id,
        len: match query.len {
            Some(len) => len,
            None => DEFAULT_MESSAGES,
        },
        before: match query.end {
            Some(end) => end,
            None => now,
        },
    }
}

pub fn get_messages(user_id: Id, query: &MessagesQuery, now: i64) -> (window: MessagesWindow)
    ensures
        window == spec_get_messages(user_id, *query, now),
{
    MessagesWindow {
        first: user_id,
        second: query.user_id,
        len: match query.len {
            Some(len) => len,
            None => DEFAULT_MESSAGES,
        },
        before: match query.end {
            Some(end) => end,
            None => now,
        },
    }
}

/// A friend with its presence state.
#[derive(Debug, PartialEq, Eq)]
pub struct User {
    pub user: UserDB,
    pub state: State,
}

/// The presence state under which a user is shown: that of its live user,
/// or offline where it is not connected.
pub open spec fn shown_state(state: AppState, id: Id) -> State {
    if state.presence().contains_key(id) {
        state.presence()[id].state
    } else {
        State::Offline
    }
}

/// The friends that the store listed, each with its presence state, in the
/// store's order.
pub fn get_friends(state: &AppState, friends: &Vec<UserDB>) -> (shown: Vec<User>)
    ensures
        shown@.len() == friends@.len(),
        forall|i: int|
            0 <= i < friends@.len() ==> {
                &&& (#[trigger] shown@[i]).user == friends@[i]
                &&& shown@[i].state == shown_state(*state, friends@[i].id)
            },
{
    let mut shown: Vec<User> = Vec::new();
    let mut i: usize = 0;
    while i < friends.len()
        invariant
            i <= friends@.len(),
            shown@.len() == i,
            forall|k: int|
                0 <= k < i ==> {
                    &&& (#[trigger] shown@[k]).user == friends@[k]
                    &&& shown@[k].state == shown_state(*state, friends@[k].id)
                },
        decreases friends@.len() - i,
    {
        let presence = match users_get(&state.users, friends[i].id) {
            Some(live) => live.state,
            None => State::Offline,
        };
        shown.push(User { user: friends[i].clone(), state: presence });
        i = i + 1;
    }
    shown
}

/// The caller's own record, or a refusal where the store has none.
pub fn me(user: Option<UserDB>) -> (found: Result<UserDB, HubError>)
    ensures
        found == (match user {
            Some(record) => Ok::<UserDB, HubError>(record),
            None => Err::<UserDB, HubError>(HubError::Unauthorized),
        }),
{
    match user {
        Some(record) => Ok(record),
        None => Err(HubError::Unauthorized),
    }
}

} // verus!
