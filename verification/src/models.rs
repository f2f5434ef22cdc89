use crate::registry::{
    channel_entries, channels_new, chat_entries, chats_new, user_entries, users_new,
};
use dashmap::DashMap;
use std::collections::HashSet;
use vstd::prelude::*;
use vstd::std_specs::convert::FromSpecImpl;
use vstd::std_specs::hash::spec_hash_keys_iter;
use vstd::std_specs::iter::IteratorSpec;

verus! {

/// Identity of a user, a room, a group or a message: the 128 bits of a UUID,
/// most significant byte first, so that `<` orders ids as their UUIDs order.
pub type Id = u128;

/// Presence state of a connected user.
#[derive(Clone, Copy, Debug, PartialEq, Eq, Structural)]
pub enum State {
    Online,
    Idle,
    /// Do not disturb.
    Dnd,
    /// Connected, but shown to nobody.
    Invisible,
    Offline,
}

impl State {
    /// The name under which a state travels on the wire.
    pub open spec fn spec_name(self) -> Seq<char> {
        match self {
            State::Online => "Online"@,
            State::Idle => "Idle"@,
            State::Dnd => "Dnd"@,
            State::Invisible => "Ghost"@,
            State::Offline => "Offline"@,
        }
    }

    pub fn name(&self) -> (tag: &'static str)
        ensures
            tag@ == self.spec_name(),
    {
        match self {
            State::Online => "Online",
            State::Idle => "Idle",
            State::Dnd => "Dnd",
            State::Invisible => "Ghost",
            State::Offline => "Offline",
        }
    }
}

/// A live user: what the presence registry keeps for one control channel.
/// `ws_conn` is the handle of the channel's send half.
#[derive(Debug, PartialEq, Eq)]
pub struct User {
    pub username: String,
    pub state: State,
    pub ws_conn: u64,
}

impl Clone for User {
    fn clone(&self) -> (copy: Self)
        ensures
            copy == *self,
    {
        User { username: self.username.clone(), state: self.state, ws_conn: self.ws_conn }
    }
}

/// Class of a message.
#[derive(Clone, Copy, Debug, PartialEq, Eq, Structural)]
pub enum MessageType {
    Direct,
    Group,
    Server,
    Info,
}

impl MessageType {
    /// The lowercase tag under which a class is stored and sent.
    pub open spec fn spec_tag(self) -> Seq<char> {
        match self {
            MessageType::Direct => "direct"@,
            MessageType::Group => "group"@,
            MessageType::Server => "server"@,
            MessageType::Info => "info"@,
        }
    }

    /// The class that a tag names, if it names one.
    pub open spec fn spec_from_tag(tag: Seq<char>) -> Option<MessageType> {
        if tag == "direct"@ {
            Some(MessageType::Direct)
        } else if tag == "group"@ {
            Some(MessageType::Group)
        } else if tag == "server"@ {
            Some(MessageType::Server)
        } else if tag == "info"@ {
            Some(MessageType::Info)
        } else {
            None
        }
    }

    /// Whether messages of this class are written to the store.
    pub open spec fn spec_is_persisted(self) -> bool {
        self == MessageType::Direct || self == MessageType::Group
    }

    #[verifier::when_used_as_spec(spec_is_persisted)]
    pub fn is_persisted(self) -> (kept: bool)
        ensures
            kept == self.spec_is_persisted(),
    {
        match self {
            MessageType::Direct | MessageType::Group => true,
            MessageType::Server | MessageType::Info => false,
        }
    }

    /// Reads a class from its tag; `None` for any other text.
    pub fn from_tag(tag: &str) -> (class: Option<MessageType>)
        ensures
            class == Self::spec_from_tag(tag@),
    {
        let owned = tag.to_owned();
        if owned == "direct".to_owned() {
            Some(MessageType::Direct)
        } else if owned == "group".to_owned() {
            Some(MessageType::Group)
        } else if owned == "server".to_owned() {
            Some(MessageType::Server)
        } else if owned == "info".to_owned() {
            Some(MessageType::Info)
        } else {
            None
        }
    }
}

impl MessageType {
    /// The class that a tag names. The tag has to be one of the four; use
    /// `from_tag` for a text that may be any.
    pub fn from_string(value: String) -> (class: MessageType)
        requires
            Self::spec_from_tag(value@) is Some,
        ensures
            Some(class) == Self::spec_from_tag(value@),
    {
        if value == "direct".to_owned() {
            MessageType::Direct
        } else if value == "group".to_owned() {
            MessageType::Group
        } else if value == "server".to_owned() {
            MessageType::Server
        } else {
            MessageType::Info
        }
    }
}

impl Default for MessageType {
    fn default() -> (class: Self)
        ensures
            class == MessageType::Server,
    {
        MessageType::Server
    }
}

impl From<MessageType> for &'static str {
    fn from(message_type: MessageType) -> (tag: Self) {
        match message_type {
            MessageType::Direct => "direct",
            MessageType::Group => "group",
            MessageType::Server => "server",
            MessageType::Info => "info",
        }
    }
}

impl FromSpecImpl<MessageType> for &'static str {
    open spec fn obeys_from_spec() -> bool {
        true
    }

    open spec fn from_spec(message_type: MessageType) -> Self {
        match message_type {
            MessageType::Direct => "direct",
            MessageType::Group => "group",
            MessageType::Server => "server",
            MessageType::Info => "info",
        }
    }
}

/// How a request to the hub can fail.
#[derive(Clone, Copy, Debug, PartialEq, Eq, Structural)]
pub enum HubError {
    /// No valid session, or a message of a class that the sender may not use.
    Unauthorized,
    /// A frame, a session description or an upload field that cannot be read.
    BadRequest,
    /// A duplicate registration, or a user that is already in the voice room.
    Conflict,
    /// An unknown room or member.
    NotFound,
    /// The store, the mailer or a peer connection failed.
    Internal,
}

impl HubError {
    /// The HTTP status that reports the failure.
    pub open spec fn spec_status(self) -> u16 {
        match self {
            HubError::Unauthorized => 401,
            HubError::BadRequest => 400,
            HubError::Conflict => 409,
            HubError::NotFound => 404,
            HubError::Internal => 500,
        }
    }

    /// The words that tell a client of the failure.
    pub open spec fn spec_reason(self) -> Seq<char> {
        match self {
            HubError::Unauthorized => "Unauthorized"@,
            HubError::BadRequest => "Bad Request"@,
            HubError::Conflict => "Conflict"@,
            HubError::NotFound => "Not Found"@,
            HubError::Internal => "Internal Server Error"@,
        }
    }

    pub fn reason(self) -> (words: &'static str)
        ensures
            words@ == self.spec_reason(),
    {
        match self {
            HubError::Unauthorized => "Unauthorized",
            HubError::BadRequest => "Bad Request",
            HubError::Conflict => "Conflict",
            HubError::NotFound => "Not Found",
            HubError::Internal => "Internal Server Error",
        }
    }

    #[verifier::when_used_as_spec(spec_status)]
    pub fn status(self) -> (code: u16)
        ensures
            code == self.spec_status(),
    {
        match self {
            HubError::Unauthorized => 401,
            HubError::BadRequest => 400,
            HubError::Conflict => 409,
            HubError::NotFound => 404,
            HubError::Internal => 500,
        }
    }
}

/// What the store answered to a friend request.
#[derive(Clone, Copy, Debug, PartialEq, Eq, Structural)]
pub enum AddFriend {
    /// A request from the caller to the other user was written.
    Request,
    /// The other user's request was found and turned into a friendship.
    Add,
}

/// What a message carries.
#[derive(Debug, PartialEq, Eq)]
pub enum Payload {
    /// Nothing.
    Null,
    /// JSON text as a client sent it; the hub does not look inside.
    Json(String),
    /// The sender's presence state changed.
    ChangedState(State),
    /// The sender entered a channel.
    JoinChannel(Id),
    /// The sender left its channel.
    ExitChannel,
    /// The sender asked for, or completed, a friendship.
    Friend(AddFriend),
}

impl Clone for Payload {
    fn clone(&self) -> (copy: Self)
        ensures
            copy == *self,
    {
        match self {
            Payload::Null => Payload::Null,
            Payload::Json(text) => Payload::Json(text.clone()),
            Payload::ChangedState(state) => Payload::ChangedState(*state),
            Payload::JoinChannel(room) => Payload::JoinChannel(*room),
            Payload::ExitChannel => Payload::ExitChannel,
            Payload::Friend(outcome) => Payload::Friend(*outcome),
        }
    }
}

impl Payload {
    /// The event name of a payload that the hub itself writes; empty for one
    /// that it only carries.
    pub open spec fn spec_event_name(self) -> Seq<char> {
        match self {
            Payload::ChangedState(_) => "changed_state"@,
            Payload::JoinChannel(_) => "join_channel"@,
            Payload::ExitChannel => "exit_channel"@,
            Payload::Friend(AddFriend::Add) => "friend_added"@,
            Payload::Friend(AddFriend::Request) => "friend_request"@,
            Payload::Null => ""@,
            Payload::Json(_) => ""@,
        }
    }

    pub fn event_name(&self) -> (name: &'static str)
        ensures
            name@ == self.spec_event_name(),
    {
        match self {
            Payload::ChangedState(_) => "changed_state",
            Payload::JoinChannel(_) => "join_channel",
            Payload::ExitChannel => "exit_channel",
            Payload::Friend(AddFriend::Add) => "friend_added",
            Payload::Friend(AddFriend::Request) => "friend_request",
            Payload::Null => "",
            Payload::Json(_) => "",
        }
    }
}

/// A message on the control channel. `time` counts milliseconds since the
/// Unix epoch.
#[derive(Debug, PartialEq, Eq)]
pub struct Message {
    pub id: Id,
    pub from: Id,
    pub to: Id,
    pub data: Payload,
    pub time: i64,
    pub kind: MessageType,
}

impl Clone for Message {
    fn clone(&self) -> (copy: Self)
        ensures
            copy == *self,
    {
        Message {
            id: self.id,
            from: self.from,
            to: self.to,
            data: self.data.clone(),
            time: self.time,
            kind: self.kind,
        }
    }
}

impl Default for Message {
    fn default() -> (blank: Self)
        ensures
            blank == (Message {
                id: 0,
                from: 0,
                to: 0,
                data: Payload::Null,
                time: 0,
                kind: MessageType::Server,
            }),
    {
        Message { id: 0, from: 0, to: 0, data: Payload::Null, time: 0, kind: MessageType::Server }
    }
}

/// What a client can ask of the hub besides sending a message.
#[derive(Clone, Copy, Debug, PartialEq, Eq, Structural)]
pub enum Events {
    JoinChannel { id: Id, direct: bool },
    ExitChannel { direct: bool },
    ChangeState(State),
    FriendReq(Id),
    JoinReq(Id),
}

/// An event with the time its sender gave it, in milliseconds since the Unix
/// epoch.
#[derive(Clone, Copy, Debug, PartialEq, Eq, Structural)]
pub struct Event {
    pub time: i64,
    pub event: Events,
}

/// A group of users as the store describes it.
#[derive(Clone, Debug, PartialEq, Eq)]
pub struct Group {
    pub id: Id,
    pub name: String,
    pub users: Vec<Id>,
    pub admin: Vec<Id>,
    pub description: Option<String>,
    pub created_by: Id,
    pub created_at: i64,
}

/// A voice room: its id and the users that hold a peer slot in it.
#[derive(Debug)]
pub struct VoiceChat {
    pub id: Id,
    pub users: HashSet<Id>,
}

/// The ids of a set in a list, each once, in no fixed order.
pub fn set_to_list(set: &HashSet<Id>) -> (list: Vec<Id>)
    ensures
        list@.no_duplicates(),
        list@.to_set() == set@,
{
    broadcast use vstd::std_specs::hash::group_hash_axioms;

    let mut list: Vec<Id> = Vec::new();
    for user in it: set.iter()
        invariant
            list@.len() == it.index(),
            forall|i: int| 0 <= i < list@.len() ==> list@[i] == *it.seq()[i],
            it.seq() == spec_hash_keys_iter(set).remaining(),
    {
        list.push(*user);
    }
    proof {
        let keys = spec_hash_keys_iter(set).remaining();
        assert(list@ =~= keys.unref());
        assert forall|i: int, j: int| 0 <= i < j < list@.len() implies list@[i] != list@[j] by {
            assert(keys[i] != keys[j]);
        }
    }
    list
}

impl Clone for VoiceChat {
    fn clone(&self) -> (copy: Self)
        ensures
            copy.id == self.id,
            copy.users@ == self.users@,
    {
        broadcast use vstd::std_specs::hash::group_hash_axioms;

        let members = set_to_list(&self.users);
        let mut users: HashSet<Id> = HashSet::new();
        let mut i: usize = 0;
        while i < members.len()
            invariant
                i <= members@.len(),
                users@ == members@.take(i as int).to_set(),
            decreases members@.len() - i,
        {
            users.insert(members[i]);
            proof {
                let done = members@.take(i as int);
                let more = members@.take(i + 1);
                assert(more =~= done.push(members@[i as int]));
                assert forall|id: Id| more.to_set().contains(id) <==> done.to_set().insert(
                    members@[i as int],
                ).contains(id) by {
                    if more.to_set().contains(id) {
                        let k = choose|k: int| 0 <= k < more.len() && more[k] == id;
                        if k < i {
                            assert(done[k] == id);
                        }
                    }
                    if done.to_set().contains(id) {
                        let k = choose|k: int| 0 <= k < done.len() && done[k] == id;
                        assert(more[k] == id);
                    }
                    if id == members@[i as int] {
                        assert(more[i as int] == id);
                    }
                }
                assert(more.to_set() =~= done.to_set().insert(members@[i as int]));
            }
            i = i + 1;
        }
        proof {
            assert(members@.take(members@.len() as int) =~= members@);
        }
        VoiceChat { id: self.id, users }
    }
}

impl VoiceChat {
    /// The members in a list, each once, in no fixed order.
    pub fn members(&self) -> (list: Vec<Id>)
        ensures
            list@.no_duplicates(),
            list@.to_set() == self.users@,
    {
        set_to_list(&self.users)
    }
}

/// The hub's state: who is connected, which voice rooms exist, and which
/// channel each user has joined. The three maps are open for reading; what
/// the hub's functions promise of them holds for a state that is changed
/// through these functions alone, and by one of them at a time.
pub struct AppState {
    pub users: DashMap<Id, User>,
    pub chats: DashMap<Id, VoiceChat>,
    pub chat_users: DashMap<Id, Id>,
}

impl AppState {
    /// Who is connected: the live user of each connected user id.
    pub open spec fn presence(&self) -> Map<Id, User> {
        user_entries(self.users)
    }

    /// The members of each voice room.
    pub open spec fn rooms(&self) -> Map<Id, Set<Id>> {
        chat_entries(self.chats).map_values(|room: VoiceChat| room.users@)
    }

    /// The channel that each user has joined.
    pub open spec fn channels(&self) -> Map<Id, Id> {
        channel_entries(self.chat_users)
    }

    /// Every room is filed under its own id and has at least one member.
    pub open spec fn wf(&self) -> bool {
        forall|room: Id| #[trigger]
            chat_entries(self.chats).contains_key(room) ==> {
                &&& chat_entries(self.chats)[room].id == room
                &&& !chat_entries(self.chats)[room].users@.is_empty()
            }
    }

    /// A hub to which nobody is connected and in which no room exists.
    pub fn new() -> (state: AppState)
        ensures
            state.presence() == Map::<Id, User>::empty(),
            state.rooms() == Map::<Id, Set<Id>>::empty(),
            state.channels() == Map::<Id, Id>::empty(),
            state.wf(),
    {
        let state = AppState { users: users_new(), chats: chats_new(), chat_users: channels_new() };
        assert(state.presence() =~= Map::<Id, User>::empty());
        assert(state.rooms() =~= Map::<Id, Set<Id>>::empty());
        assert(state.channels() =~= Map::<Id, Id>::empty());
        state
    }
}

/// Every tag is read back as the class it was written for, so that no two
/// classes share a tag.
pub proof fn lemma_tag_round_trip(class: MessageType)
    ensures
        MessageType::spec_from_tag(class.spec_tag()) == Some(class),
        forall|other: MessageType| other != class ==> other.spec_tag() != class.spec_tag(),
{
    reveal_strlit("direct");
    reveal_strlit("group");
    reveal_strlit("server");
    reveal_strlit("info");
    assert("direct"@.len() == 6);
    assert("group"@.len() == 5);
    assert("info"@.len() == 4);
    assert("server"@[0] == 's');
    assert("direct"@[0] == 'd');
}

} // verus!
