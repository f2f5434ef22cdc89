use crate::models::{Id, User, VoiceChat};
use dashmap::DashMap;
use vstd::prelude::*;

verus! {

/// `dashmap::DashMap`, a concurrent hash map. The hub reaches into one only
/// through the functions below, and changes one only while it holds it
/// exclusively.
#[verifier::external_type_specification]
#[verifier::external_body]
#[verifier::reject_recursive_types(K)]
#[verifier::reject_recursive_types(V)]
#[verifier::reject_recursive_types(S)]
pub struct ExDashMap<K, V, S>(DashMap<K, V, S>);

/// The live users that a presence map holds, by user id.
pub uninterp spec fn user_entries(m: DashMap<Id, User>) -> Map<Id, User>;

/// The voice rooms that a room map holds, by room id.
pub uninterp spec fn chat_entries(m: DashMap<Id, VoiceChat>) -> Map<Id, VoiceChat>;

/// The channel that each user has joined, by user id.
pub uninterp spec fn channel_entries(m: DashMap<Id, Id>) -> Map<Id, Id>;

/// `DashMap::new` for the presence map: a map without entries.
#[verifier::external_body]
pub(crate) fn users_new() -> (fresh: DashMap<Id, User>)
    ensures
        forall|k: Id| !user_entries(fresh).contains_key(k),
{
    DashMap::new()
}

/// `DashMap::insert` on the presence map: afterwards the key is bound to the
/// value and every other key is as before; the value that the key had comes
/// back.
#[verifier::external_body]
pub(crate) fn users_insert(m: &mut DashMap<Id, User>, key: Id, value: User) -> (prev: Option<User>)
    ensures
        user_entries(*final(m)) == user_entries(*old(m)).insert(key, value),
        prev == user_entries(*old(m)).get(key),
{
    m.insert(key, value)
}

/// `DashMap::remove` on the presence map: afterwards the key is unbound and
/// every other key is as before; the value that the key had comes back.
#[verifier::external_body]
pub(crate) fn users_remove(m: &mut DashMap<Id, User>, key: Id) -> (prev: Option<User>)
    ensures
        user_entries(*final(m)) == user_entries(*old(m)).remove(key),
        prev == user_entries(*old(m)).get(key),
{
    m.remove(&key).map(|kv| kv.1)
}

/// `DashMap::get` on the presence map: a copy of the value that the key is
/// bound to, if it is bound.
#[verifier::external_body]
pub(crate) fn users_get(m: &DashMap<Id, User>, key: Id) -> (found: Option<User>)
    ensures
        found == user_entries(*m).get(key),
{
    m.get(&key).map(|entry| entry.value().clone())
}

/// `DashMap::new` for the room map: a map without entries.
#[verifier::external_body]
pub(crate) fn chats_new() -> (fresh: DashMap<Id, VoiceChat>)
    ensures
        forall|k: Id| !chat_entries(fresh).contains_key(k),
{
    DashMap::new()
}

/// `DashMap::insert` on the room map: afterwards the key is bound to the
/// value and every other key is as before; the value that the key had comes
/// back.
#[verifier::external_body]
pub(crate) fn chats_insert(m: &mut DashMap<Id, VoiceChat>, key: Id, value: VoiceChat) -> (prev: Option<
    VoiceChat,
>)
    ensures
        chat_entries(*final(m)) == chat_entries(*old(m)).insert(key, value),
        prev == chat_entries(*old(m)).get(key),
{
    m.insert(key, value)
}

/// `DashMap::remove` on the room map: afterwards the key is unbound and every
/// other key is as before; the value that the key had comes back.
#[verifier::external_body]
pub(crate) fn chats_remove(m: &mut DashMap<Id, VoiceChat>, key: Id) -> (prev: Option<VoiceChat>)
    ensures
        chat_entries(*final(m)) == chat_entries(*old(m)).remove(key),
        prev == chat_entries(*old(m)).get(key),
{
    m.remove(&key).map(|kv| kv.1)
}

/// `DashMap::get` on the room map: a copy of the room that the key is bound
/// to, if it is bound.
#[verifier::external_body]
pub(crate) fn chats_get(m: &DashMap<Id, VoiceChat>, key: Id) -> (found: Option<VoiceChat>)
    ensures
        found is Some <==> chat_entries(*m).contains_key(key),
        found is Some ==> found->0.id == chat_entries(*m)[key].id,
        found is Some ==> found->0.users@ == chat_entries(*m)[key].users@,
{
    m.get(&key).map(|entry| entry.value().clone())
}

/// `DashMap::iter` on the room map, keys only: every bound key once, in an
/// order that is not fixed.
#[verifier::external_body]
pub(crate) fn chats_keys(m: &DashMap<Id, VoiceChat>) -> (keys: Vec<Id>)
    ensures
        keys@.no_duplicates(),
        forall|k: Id| keys@.contains(k) <==> chat_entries(*m).contains_key(k),
{
    m.iter().map(|entry| *entry.key()).collect()
}

/// `DashMap::new` for the channel map: a map without entries.
#[verifier::external_body]
pub(crate) fn channels_new() -> (fresh: DashMap<Id, Id>)
    ensures
        forall|k: Id| !channel_entries(fresh).contains_key(k),
{
    DashMap::new()
}

/// `DashMap::insert` on the channel map: afterwards the key is bound to the
/// value and every other key is as before; the value that the key had comes
/// back.
#[verifier::external_body]
pub(crate) fn channels_insert(m: &mut DashMap<Id, Id>, key: Id, value: Id) -> (prev: Option<Id>)
    ensures
        channel_entries(*final(m)) == channel_entries(*old(m)).insert(key, value),
        prev == channel_entries(*old(m)).get(key),
{
    m.insert(key, value)
}

/// `DashMap::remove` on the channel map: afterwards the key is unbound and
/// every other key is as before; the value that the key had comes back.
#[verifier::external_body]
pub(crate) fn channels_remove(m: &mut DashMap<Id, Id>, key: Id) -> (prev: Option<Id>)
    ensures
        channel_entries(*final(m)) == channel_entries(*old(m)).remove(key),
        prev == channel_entries(*old(m)).get(key),
{
    m.remove(&key).map(|kv| kv.1)
}

/// `DashMap::iter` on the channel map: every entry once, as a pair of user
/// and channel, in an order that is not fixed.
#[verifier::external_body]
pub(crate) fn channels_pairs(m: &DashMap<Id, Id>) -> (pairs: Vec<(Id, Id)>)
    ensures
        forall|i: int, j: int| 0 <= i < j < pairs@.len() ==> pairs@[i].0 != pairs@[j].0,
        forall|i: int|
            0 <= i < pairs@.len() ==> channel_entries(*m).contains_pair(pairs@[i].0, pairs@[i].1),
        forall|k: Id|
            channel_entries(*m).contains_key(k) ==> exists|i: int|
                0 <= i < pairs@.len() && pairs@[i].0 == k,
{
    m.iter().map(|entry| (*entry.key(), *entry.value())).collect()
}

} // verus!
