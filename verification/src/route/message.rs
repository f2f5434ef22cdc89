use crate::models::{
    AddFriend, AppState, Event, Events, HubError, Id, Message, MessageType, Payload, State, User,
};
use crate::registry::{
    channels_insert, channels_pairs, channels_remove, chats_keys, users_get, users_insert,
    users_remove,
};
use crate::route::rtc::{cleanup_user_from_chat, Signal};
use vstd::prelude::*;

verus! {

/// How far a client's clock may be from the hub's, in milliseconds, for the
/// client's time to stand.
pub const TIME_TOLERANCE_MS: i64 = 10_000;

/// The time that a message leaves with: the client's, unless it is more than
/// the tolerance away from the hub's.
pub open spec fn spec_clamp_time(client: i64, now: i64) -> i64 {
    if client - now > TIME_TOLERANCE_MS || now - client > TIME_TOLERANCE_MS {
        now
    } else {
        client
    }
}

#[verifier::when_used_as_spec(spec_clamp_time)]
pub fn clamp_time(client: i64, now: i64) -> (time: i64)
    ensures
        time == spec_clamp_time(client, now),
{
    let ahead: i128 = client as i128 - now as i128;
    if ahead > TIME_TOLERANCE_MS as i128 || -ahead > TIME_TOLERANCE_MS as i128 {
        now
    } else {
        client
    }
}

/// A client's message as it goes on: from the user that sent it, whatever
/// the client wrote there, and at a time that the hub accepts.
pub open spec fn spec_stamp(message: Message, sender: Id, now: i64) -> Message {
    Message { from: sender, time: spec_clamp_time(message.time, now), ..message }
}

pub fn stamp(message: Message, sender: Id, now: i64) -> (stamped: Message)
    ensures
        stamped == spec_stamp(message, sender, now),
{
    Message {
        id: message.id,
        from: sender,
        to: message.to,
        data: message.data,
        time: clamp_time(message.time, now),
        kind: message.kind,
    }
}

/// A frame read from a control channel.
#[derive(Debug, PartialEq, Eq)]
pub enum Frame {
    Text(String),
    Binary(Vec<u8>),
    Continuation,
    Ping(Vec<u8>),
    Pong(Vec<u8>),
    Close,
    Nop,
}

/// What a control session does with what it read.
#[derive(Debug, PartialEq, Eq)]
pub enum SessionStep {
    /// Handle the text, then read on.
    Handle(String),
    /// Answer with a pong of these bytes, then read on.
    Pong(Vec<u8>),
    /// Read on.
    Ignore,
    /// Stop reading and close the session.
    End,
}

/// The step that a read calls for; `None` stands for a stream that ended or
/// failed. Text is handled, a ping is answered with its own bytes, a pong is
/// passed over, and everything else ends the session.
pub open spec fn spec_handle_connection(frame: Option<Frame>) -> SessionStep {
    match frame {
        Some(Frame::Text(text)) => SessionStep::Handle(text),
        Some(Frame::Ping(bytes)) => SessionStep::Pong(bytes),
        Some(Frame::Pong(_)) => SessionStep::Ignore,
        _ => SessionStep::End,
    }
}

pub fn handle_connection(frame: Option<Frame>) -> (step: SessionStep)
    ensures
        step == spec_handle_connection(frame),
{
    match frame {
        Some(Frame::Text(text)) => SessionStep::Handle(text),
        Some(Frame::Ping(bytes)) => SessionStep::Pong(bytes),
        Some(Frame::Pong(_)) => SessionStep::Ignore,
        _ => SessionStep::End,
    }
}

/// Opens a control session: the user is online under this handle, in place
/// of any session it had.
pub fn ws(state: &mut AppState, user_id: Id, username: String, ws_conn: u64)
    ensures
        final(state).presence() == old(state).presence().insert(
            user_id,
            User { username, state: State::Online, ws_conn },
        ),
        final(state).rooms() == old(state).rooms(),
        final(state).channels() == old(state).channels(),
        old(state).wf() ==> final(state).wf(),
{
    let _ = users_insert(&mut state.users, user_id, User { username, state: State::Online, ws_conn });
}

/// The registry holds one live user for a user id, or none.
pub proof fn lemma_one_live_user(presence: Map<Id, User>, user_id: Id, first: User, second: User)
    requires
        presence.contains_pair(user_id, first),
        presence.contains_pair(user_id, second),
    ensures
        first == second,
{
}

/// What the store is asked before a message may go on.
#[derive(Clone, Copy, Debug, PartialEq, Eq, Structural)]
pub enum AccessCheck {
    /// Whether the two users are friends.
    Friends(Id, Id),
    /// Whether the user belongs to the group.
    Member { user: Id, group: Id },
    /// Nothing: a message of this class is never accepted from a client.
    Denied,
}

/// The question that decides whether a message may go on: friendship of
/// sender and recipient for direct and info messages, membership of the
/// sender in the addressed group for group messages. Server messages are
/// the hub's own.
pub open spec fn spec_access_check(message: Message) -> AccessCheck {
    match message.kind {
        MessageType::Direct | MessageType::Info => AccessCheck::Friends(message.from, message.to),
        MessageType::Group => AccessCheck::Member { user: message.from, group: message.to },
        MessageType::Server => AccessCheck::Denied,
    }
}

pub fn access_check(message: &Message) -> (check: AccessCheck)
    ensures
        check == spec_access_check(*message),
{
    match message.kind {
        MessageType::Direct | MessageType::Info => AccessCheck::Friends(message.from, message.to),
        MessageType::Group => AccessCheck::Member { user: message.from, group: message.to },
        MessageType::Server => AccessCheck::Denied,
    }
}

/// Whether a message may go on, given what the store answered to its
/// question; `None` stands for a store that failed or was not asked.
pub open spec fn spec_is_authorized(message: Message, answer: Option<bool>) -> bool {
    message.kind != MessageType::Server && answer == Some(true)
}

pub fn is_authorized(message: &Message, answer: Option<bool>) -> (allowed: bool)
    ensures
        allowed == spec_is_authorized(*message, answer),
{
    match message.kind {
        MessageType::Server => false,
        _ => match answer {
            Some(yes) => yes,
            None => false,
        },
    }
}


/// Where a message is on its way through the hub.
#[derive(Clone, Copy, Debug, PartialEq, Eq, Structural)]
pub enum Stage {
    /// The store is being asked whether the message may go on.
    Authorizing,
    /// The store is writing the message.
    Persisting,
    /// The message was handed on or dropped.
    Finished,
}

/// What the store answered.
#[derive(Clone, Copy, Debug, PartialEq, Eq, Structural)]
pub enum Reply {
    /// The answer to the access check; `None` where the store failed or was
    /// not asked.
    Access(Option<bool>),
    /// Whether the message was written.
    Saved(bool),
}

/// What is to be done next with a message.
#[derive(Clone, Copy, Debug, PartialEq, Eq, Structural)]
pub enum MessageStep {
    /// Write the message to the store, and come back with the outcome.
    Persist,
    /// Hand the message to its recipients. For a group message `members_of`
    /// names the group whose members the store is to list first.
    Dispatch { members_of: Option<Id> },
    /// Drop the message and tell the sender why.
    Drop(HubError),
    /// Nothing: the answer was not one that the message was waiting for.
    Wait,
}

/// The stage and the step that follow on an answer of the store. A message
/// that may not go on is dropped as unauthorized; one of a class that is
/// kept is written before it is handed on, and dropped where the write
/// fails; one of another class is handed on unwritten.
pub open spec fn spec_advance(message: Message, stage: Stage, reply: Reply) -> (Stage, MessageStep) {
    match (stage, reply) {
        (Stage::Authorizing, Reply::Access(answer)) => if !spec_is_authorized(message, answer) {
            (Stage::Finished, MessageStep::Drop(HubError::Unauthorized))
        } else if message.kind.is_persisted() {
            (Stage::Persisting, MessageStep::Persist)
        } else {
            (Stage::Finished, spec_dispatch_step(message))
        },
        (Stage::Persisting, Reply::Saved(true)) => (Stage::Finished, spec_dispatch_step(message)),
        (Stage::Persisting, Reply::Saved(false)) => (
            Stage::Finished,
            MessageStep::Drop(HubError::BadRequest),
        ),
        _ => (stage, MessageStep::Wait),
    }
}

/// The step that hands a message on.
pub open spec fn spec_dispatch_step(message: Message) -> MessageStep {
    MessageStep::Dispatch {
        members_of: if message.kind == MessageType::Group {
            Some(message.to)
        } else {
            None
        },
    }
}

/// A client's message on its way through the hub.
#[derive(Debug, PartialEq, Eq)]
pub struct MessageFlow {
    pub message: Message,
    pub stage: Stage,
}

impl MessageFlow {
    /// Takes the store's answer and says what is to be done next.
    pub fn advance(&mut self, reply: Reply) -> (step: MessageStep)
        ensures
            final(self).message == old(self).message,
            (final(self).stage, step) == spec_advance(old(self).message, old(self).stage, reply),
    {
        match (self.stage, reply) {
            (Stage::Authorizing, Reply::Access(answer)) => {
                if !is_authorized(&self.message, answer) {
                    self.stage = Stage::Finished;
                    MessageStep::Drop(HubError::Unauthorized)
                } else if self.message.kind.is_persisted() {
                    self.stage = Stage::Persisting;
                    MessageStep::Persist
                } else {
                    self.stage = Stage::Finished;
                    dispatch_step(&self.message)
                }
            },
            (Stage::Persisting, Reply::Saved(true)) => {
                self.stage = Stage::Finished;
                dispatch_step(&self.message)
            },
            (Stage::Persisting, Reply::Saved(false)) => {
                self.stage = Stage::Finished;
                MessageStep::Drop(HubError::BadRequest)
            },
            _ => MessageStep::Wait,
        }
    }
}

fn dispatch_step(message: &Message) -> (step: MessageStep)
    ensures
        step == spec_dispatch_step(*message),
{
    MessageStep::Dispatch {
        members_of: match message.kind {
            MessageType::Group => Some(message.to),
            _ => None,
        },
    }
}

/// Which of the two session descriptions an envelope carries.
#[derive(Clone, Copy, Debug, PartialEq, Eq, Structural)]
pub enum EnvelopeKind {
    Offer,
    Answer,
}

/// A session description that a client sends on its control channel, for
/// its slot in the room `chat_id`. `sdp` is `None` where the envelope holds
/// no text.
#[derive(Debug, PartialEq, Eq)]
pub struct Envelope {
    pub kind: EnvelopeKind,
    pub sdp: Option<String>,
    pub chat_id: Id,
}

/// What the sender is told of a frame that was dropped: a bad request, be it
/// a frame that cannot be read or a message that could not be written, is
/// shown to it; a message that it may not send is dropped without a word to
/// it, and so is every other failure.
pub open spec fn spec_dropped_reply(failure: HubError) -> Option<Signal> {
    if failure == HubError::BadRequest {
        Some(Signal::Error(HubError::BadRequest))
    } else {
        None
    }
}

pub fn dropped_reply(failure: HubError) -> (reply: Option<Signal>)
    ensures
        reply == spec_dropped_reply(failure),
{
    match failure {
        HubError::BadRequest => Some(Signal::Error(HubError::BadRequest)),
        _ => None,
    }
}

/// What a text frame turned out to be.
#[derive(Debug, PartialEq, Eq)]
pub enum TextPlan {
    /// A message: ask the store `check`, then let the flow advance.
    Message { flow: MessageFlow, check: AccessCheck },
    /// An event.
    Event(Event),
    /// A session description for a voice room.
    Signal(Envelope),
    /// None of these: the frame is answered with this failure.
    Reject(HubError),
}

/// What is done with a text frame, given what it reads as. A frame that
/// reads as a message is one, stamped with its sender and an accepted time;
/// else a frame that reads as an event is one; else a frame that reads as a
/// session description is one; any other is a bad request.
pub open spec fn spec_handle_text(
    user_id: Id,
    as_message: Option<Message>,
    as_event: Option<Event>,
    as_signal: Option<Envelope>,
    now: i64,
) -> TextPlan {
    match (as_message, as_event, as_signal) {
        (Some(message), _, _) => TextPlan::Message {
            flow: MessageFlow {
                message: spec_stamp(message, user_id, now),
                stage: Stage::Authorizing,
            },
            check: spec_access_check(spec_stamp(message, user_id, now)),
        },
        (None, Some(event), _) => TextPlan::Event(event),
        (None, None, Some(envelope)) => TextPlan::Signal(envelope),
        (None, None, None) => TextPlan::Reject(HubError::BadRequest),
    }
}

pub fn handle_text(
    user_id: Id,
    as_message: Option<Message>,
    as_event: Option<Event>,
    as_signal: Option<Envelope>,
    now: i64,
) -> (plan: TextPlan)
    ensures
        plan == spec_handle_text(user_id, as_message, as_event, as_signal, now),
{
    match as_message {
        Some(message) => {
            let message = stamp(message, user_id, now);
            let check = access_check(&message);
            TextPlan::Message { flow: MessageFlow { message, stage: Stage::Authorizing }, check }
        },
        None => match as_event {
            Some(event) => TextPlan::Event(event),
            None => match as_signal {
                Some(envelope) => TextPlan::Signal(envelope),
                None => TextPlan::Reject(HubError::BadRequest),
            },
        },
    }
}

/// A message that a client sent goes on as sent by that client, whatever the
/// client wrote as its sender, and with the hub's time where the client's is
/// more than ten seconds away from it.
pub proof fn lemma_message_is_stamped(
    user_id: Id,
    message: Message,
    as_event: Option<Event>,
    as_signal: Option<Envelope>,
    now: i64,
)
    ensures
        spec_handle_text(user_id, Some(message), as_event, as_signal, now) matches TextPlan::Message {
            flow,
            check,
        } && flow.message.from == user_id && flow.message.to == message.to && flow.message.data
            == message.data && flow.message.kind == message.kind && (message.time - now > 10_000
            || now - message.time > 10_000 ==> flow.message.time == now) && (-10_000 <= message.time
            - now <= 10_000 ==> flow.message.time == message.time),
{
}

/// The steps that a message takes from `stage` on, one for each answer.
pub open spec fn steps_from(message: Message, stage: Stage, replies: Seq<Reply>) -> Seq<MessageStep>
    decreases replies.len(),
{
    if replies.len() == 0 {
        Seq::empty()
    } else {
        seq![spec_advance(message, stage, replies[0]).1] + steps_from(
            message,
            spec_advance(message, stage, replies[0]).0,
            replies.drop_first(),
        )
    }
}

/// Whether a step hands the message on.
pub open spec fn is_dispatch(step: MessageStep) -> bool {
    step is Dispatch
}

proof fn lemma_steps_after_finish(message: Message, replies: Seq<Reply>)
    ensures
        steps_from(message, Stage::Finished, replies).len() == replies.len(),
        forall|i: int|
            0 <= i < replies.len() ==> #[trigger] steps_from(message, Stage::Finished, replies)[i]
                == MessageStep::Wait,
    decreases replies.len(),
{
    if replies.len() > 0 {
        lemma_steps_after_finish(message, replies.drop_first());
    }
}

proof fn lemma_steps_while_persisting(message: Message, replies: Seq<Reply>)
    ensures
        steps_from(message, Stage::Persisting, replies).len() == replies.len(),
        forall|i: int|
            0 <= i < replies.len() ==> #[trigger] steps_from(message, Stage::Persisting, replies)[i]
                != MessageStep::Persist,
    decreases replies.len(),
{
    if replies.len() > 0 {
        let next = spec_advance(message, Stage::Persisting, replies[0]).0;
        if next == Stage::Finished {
            lemma_steps_after_finish(message, replies.drop_first());
        } else {
            lemma_steps_while_persisting(message, replies.drop_first());
        }
    }
}

/// Whatever the store answers, and in whatever order: a message is written
/// at most once; a direct or group message that is handed on was written
/// before; a server or info message is never written.
pub proof fn lemma_persisted_once_before_dispatch(message: Message, replies: Seq<Reply>)
    ensures
        ({
            let steps = steps_from(message, Stage::Authorizing, replies);
            &&& steps.len() == replies.len()
            &&& forall|i: int, j: int|
                0 <= i < j < steps.len() ==> !(steps[i] == MessageStep::Persist && steps[j]
                    == MessageStep::Persist)
            &&& forall|j: int|
                0 <= j < steps.len() && is_dispatch(steps[j]) && message.kind.is_persisted()
                    ==> exists|i: int| 0 <= i < j && steps[i] == MessageStep::Persist
            &&& !message.kind.is_persisted() ==> forall|i: int|
                0 <= i < steps.len() ==> steps[i] != MessageStep::Persist
        }),
    decreases replies.len(),
{
    if replies.len() > 0 {
        let rest = replies.drop_first();
        let (next, first) = spec_advance(message, Stage::Authorizing, replies[0]);
        let steps = steps_from(message, Stage::Authorizing, replies);
        let tail = steps_from(message, next, rest);
        assert(steps == seq![first] + tail);
        match next {
            Stage::Authorizing => {
                lemma_persisted_once_before_dispatch(message, rest);
                assert(first == MessageStep::Wait);
                assert forall|j: int|
                    0 <= j < steps.len() && is_dispatch(steps[j])
                        && message.kind.is_persisted() implies exists|i: int|
                    0 <= i < j && steps[i] == MessageStep::Persist by {
                    assert(steps[j] == tail[j - 1]);
                    let i = choose|i: int| 0 <= i < j - 1 && tail[i] == MessageStep::Persist;
                    assert(steps[i + 1] == tail[i]);
                }
                assert forall|i: int, j: int| 0 <= i < j < steps.len() implies !(steps[i]
                    == MessageStep::Persist && steps[j] == MessageStep::Persist) by {
                    if i > 0 {
                        assert(steps[i] == tail[i - 1]);
                        assert(steps[j] == tail[j - 1]);
                    }
                }
                assert forall|i: int|
                    0 <= i < steps.len() && !message.kind.is_persisted() implies steps[i]
                    != MessageStep::Persist by {
                    if i > 0 {
                        assert(steps[i] == tail[i - 1]);
                    }
                }
            },
            Stage::Persisting => {
                lemma_steps_while_persisting(message, rest);
                assert(first == MessageStep::Persist);
                assert(message.kind.is_persisted());
                assert(steps[0] == MessageStep::Persist);
                assert forall|i: int, j: int| 0 <= i < j < steps.len() implies !(steps[i]
                    == MessageStep::Persist && steps[j] == MessageStep::Persist) by {
                    assert(steps[j] == tail[j - 1]);
                }
                assert forall|j: int|
                    0 <= j < steps.len() && is_dispatch(steps[j])
                        && message.kind.is_persisted() implies exists|i: int|
                    0 <= i < j && steps[i] == MessageStep::Persist by {
                    assert(j > 0);
                }
            },
            Stage::Finished => {
                lemma_steps_after_finish(message, rest);
                assert(first != MessageStep::Persist);
                assert(is_dispatch(first) ==> !message.kind.is_persisted());
                assert forall|i: int| 0 <= i < steps.len() implies steps[i]
                    != MessageStep::Persist by {
                    if i > 0 {
                        assert(steps[i] == tail[i - 1]);
                    }
                }
                assert forall|j: int|
                    0 <= j < steps.len() && is_dispatch(steps[j])
                        && message.kind.is_persisted() implies exists|i: int|
                    0 <= i < j && steps[i] == MessageStep::Persist by {
                    if j > 0 {
                        assert(steps[j] == tail[j - 1]);
                    }
                }
            },
        }
    }
}


/// How many writes of one fan-out may be under way at a time.
pub const FANOUT_IN_FLIGHT: usize = 10;

/// The control channels of those among `users` that are connected, in the
/// order of `users`; a user that is listed twice is reached twice.
pub open spec fn present_conns(presence: Map<Id, User>, users: Seq<Id>) -> Seq<u64>
    decreases users.len(),
{
    if users.len() == 0 {
        Seq::empty()
    } else if presence.contains_key(users.last()) {
        present_conns(presence, users.drop_last()).push(presence[users.last()].ws_conn)
    } else {
        present_conns(presence, users.drop_last())
    }
}

/// The control channels that a message goes to. A direct or info message
/// goes to its recipient, if connected; a group message to every connected
/// member of the group, its sender among them; a server message to nobody.
/// `members` lists the members of the addressed group.
pub open spec fn spec_dispatch_message(presence: Map<Id, User>, message: Message, members: Seq<Id>) -> Seq<
    u64,
> {
    match message.kind {
        MessageType::Direct | MessageType::Info => present_conns(presence, seq![message.to]),
        MessageType::Group => present_conns(presence, members),
        MessageType::Server => Seq::empty(),
    }
}

/// The control channels of the connected among `user_ids`.
pub fn send_message_all(state: &AppState, user_ids: &Vec<Id>) -> (conns: Vec<u64>)
    ensures
        conns@ == present_conns(state.presence(), user_ids@),
{
    let mut conns: Vec<u64> = Vec::new();
    let mut i: usize = 0;
    while i < user_ids.len()
        invariant
            i <= user_ids@.len(),
            conns@ == present_conns(state.presence(), user_ids@.take(i as int)),
        decreases user_ids@.len() - i,
    {
        assert(user_ids@.take(i + 1).drop_last() =~= user_ids@.take(i as int));
        match users_get(&state.users, user_ids[i]) {
            Some(user) => {
                conns.push(user.ws_conn);
            },
            None => {},
        }
        i = i + 1;
    }
    assert(user_ids@.take(user_ids@.len() as int) =~= user_ids@);
    conns
}

/// The control channel of a direct message's recipient, if connected.
pub fn send_direct_message(state: &AppState, message: &Message) -> (conn: Option<u64>)
    ensures
        conn == (if state.presence().contains_key(message.to) {
            Some(state.presence()[message.to].ws_conn)
        } else {
            None
        }),
{
    match users_get(&state.users, message.to) {
        Some(user) => Some(user.ws_conn),
        None => None,
    }
}

/// The control channel of an info message's recipient, if connected.
pub fn send_info_message(state: &AppState, message: &Message) -> (conn: Option<u64>)
    ensures
        conn == (if state.presence().contains_key(message.to) {
            Some(state.presence()[message.to].ws_conn)
        } else {
            None
        }),
{
    send_direct_message(state, message)
}

/// The control channels of a group's connected members.
pub fn send_group_message(state: &AppState, users: &Vec<Id>) -> (conns: Vec<u64>)
    ensures
        conns@ == present_conns(state.presence(), users@),
{
    send_message_all(state, users)
}

/// The control channels that receive a message.
pub fn dispatch_message(state: &AppState, message: &Message, members: &Vec<Id>) -> (conns: Vec<u64>)
    ensures
        conns@ == spec_dispatch_message(state.presence(), *message, members@),
{
    match message.kind {
        MessageType::Direct => {
            let conns = option_to_list(send_direct_message(state, message));
            proof {
                lemma_present_conns_one(state.presence(), message.to);
            }
            conns
        },
        MessageType::Info => {
            let conns = option_to_list(send_info_message(state, message));
            proof {
                lemma_present_conns_one(state.presence(), message.to);
            }
            conns
        },
        MessageType::Group => send_group_message(state, members),
        MessageType::Server => Vec::new(),
    }
}

fn option_to_list(conn: Option<u64>) -> (conns: Vec<u64>)
    ensures
        conns@ == (match conn {
            Some(c) => seq![c],
            None => Seq::<u64>::empty(),
        }),
{
    let mut conns: Vec<u64> = Vec::new();
    match conn {
        Some(c) => {
            conns.push(c);
        },
        None => {},
    }
    conns
}

proof fn lemma_present_conns_one(presence: Map<Id, User>, user: Id)
    ensures
        present_conns(presence, seq![user]) == (if presence.contains_key(user) {
            seq![presence[user].ws_conn]
        } else {
            Seq::<u64>::empty()
        }),
{
    let one = seq![user];
    assert(one.last() == user);
    assert(one.drop_last() =~= Seq::<Id>::empty());
    assert(present_conns(presence, one.drop_last()) =~= Seq::<u64>::empty());
    if presence.contains_key(user) {
        assert(present_conns(presence, one) =~= seq![presence[user].ws_conn]);
    }
}

/// The rooms after `user` has left every room.
pub open spec fn rooms_after_leaving(rooms: Map<Id, Set<Id>>, user: Id) -> Map<Id, Set<Id>> {
    Map::new(
        |room: Id| rooms.contains_key(room) && !rooms[room].remove(user).is_empty(),
        |room: Id| rooms[room].remove(user),
    )
}

/// The rooms after `user` has left those of the rooms that `left` lists.
pub open spec fn rooms_after_leaving_some(rooms: Map<Id, Set<Id>>, user: Id, left: Seq<Id>) -> Map<
    Id,
    Set<Id>,
> {
    Map::new(
        |room: Id|
            rooms.contains_key(room) && (left.contains(room) ==> !rooms[room].remove(
                user,
            ).is_empty()),
        |room: Id|
            if left.contains(room) {
                rooms[room].remove(user)
            } else {
                rooms[room]
            },
    )
}

/// Closes a control session: the user is no longer connected and holds no
/// slot in any voice room.
pub fn close_session(state: &mut AppState, user_id: Id)
    ensures
        final(state).presence() == old(state).presence().remove(user_id),
        final(state).rooms() == rooms_after_leaving(old(state).rooms(), user_id),
        final(state).channels() == old(state).channels(),
        old(state).wf() ==> final(state).wf(),
{
    let _ = users_remove(&mut state.users, user_id);
    let rooms = chats_keys(&state.chats);
    let ghost start = state.rooms();
    let mut i: usize = 0;
    assert(state.rooms() =~= rooms_after_leaving_some(start, user_id, rooms@.take(0)));
    while i < rooms.len()
        invariant
            i <= rooms@.len(),
            rooms@.no_duplicates(),
            forall|room: Id| rooms@.contains(room) <==> start.contains_key(room),
            state.rooms() == rooms_after_leaving_some(start, user_id, rooms@.take(i as int)),
            state.presence() == old(state).presence().remove(user_id),
            state.channels() == old(state).channels(),
            old(state).wf() ==> state.wf(),
        decreases rooms@.len() - i,
    {
        let ghost before = state.rooms();
        let ghost done = rooms@.take(i as int);
        let ghost more = rooms@.take(i + 1);
        let room = rooms[i];
        cleanup_user_from_chat(state, room, user_id);
        proof {
            assert(rooms@.contains(room));
            assert(!done.contains(room)) by {
                if done.contains(room) {
                    let k = choose|k: int| 0 <= k < done.len() && done[k] == room;
                    assert(rooms@[k] == rooms@[i as int]);
                }
            }
            assert(more =~= done.push(room));
            assert forall|other: Id| more.contains(other) <==> done.contains(other) || other
                == room by {
                if done.contains(other) {
                    let k = choose|k: int| 0 <= k < done.len() && done[k] == other;
                    assert(more[k] == other);
                }
                if other == room {
                    assert(more[i as int] == room);
                }
            }
            assert(before.contains_key(room));
            assert(before[room] == start[room]);
            assert(state.rooms() =~= rooms_after_leaving_some(start, user_id, more));
        }
        i = i + 1;
    }
    proof {
        assert(rooms@.take(rooms@.len() as int) =~= rooms@);
        assert(state.rooms() =~= rooms_after_leaving(start, user_id));
    }
}


/// A message with the control channels that it is written to.
#[derive(Debug, PartialEq, Eq)]
pub struct Outbox {
    pub message: Message,
    pub conns: Vec<u64>,
}

/// What the store is asked before an event is handled.
#[derive(Clone, Copy, Debug, PartialEq, Eq, Structural)]
pub enum EventQuery {
    /// Nothing.
    Nothing,
    /// The friends of this user.
    Friends(Id),
    /// To record that `user` asks `friend` for friendship.
    AddFriend { user: Id, friend: Id },
}

/// What the store said, and what the hub's surroundings supply, for one
/// event.
#[derive(Debug, PartialEq, Eq)]
pub struct EventContext {
    /// The sender's friends; read for a change of state.
    pub friends: Vec<Id>,
    /// What became of a friend request; `None` where the store failed.
    pub added: Option<AddFriend>,
    /// A fresh id for the notice of a friend request.
    pub notice_id: Id,
    /// The hub's time, in milliseconds since the Unix epoch.
    pub now: i64,
}

/// The question that an event puts to the store.
pub open spec fn spec_event_query(user_id: Id, event: Event) -> EventQuery {
    match event.event {
        Events::ChangeState(_) => EventQuery::Friends(user_id),
        Events::FriendReq(other) => EventQuery::AddFriend { user: user_id, friend: other },
        _ => EventQuery::Nothing,
    }
}

pub fn event_query(user_id: Id, event: &Event) -> (query: EventQuery)
    ensures
        query == spec_event_query(user_id, *event),
{
    match event.event {
        Events::ChangeState(_) => EventQuery::Friends(user_id),
        Events::FriendReq(other) => EventQuery::AddFriend { user: user_id, friend: other },
        _ => EventQuery::Nothing,
    }
}

/// A message of the hub itself: from the user it is about, to nobody in
/// particular, without id or time.
pub open spec fn server_message(from: Id, data: Payload) -> Message {
    Message { id: 0, from, to: 0, data, time: 0, kind: MessageType::Server }
}

/// The notice that tells `to` what became of the friend request of `from`.
pub open spec fn friend_notice(from: Id, to: Id, outcome: AddFriend, id: Id, now: i64) -> Message {
    Message { id, from, to, data: Payload::Friend(outcome), time: now, kind: MessageType::Info }
}

/// Whether `user` is in the channel `chat`, and is not `except`.
pub open spec fn is_peer(channels: Map<Id, Id>, chat: Id, except: Id, user: Id) -> bool {
    channels.contains_key(user) && channels[user] == chat && user != except
}

/// The users of a channel but `except`, each once, in no fixed order.
pub fn channel_peers(state: &AppState, chat_id: Id, except: Id) -> (peers: Vec<Id>)
    ensures
        peers@.no_duplicates(),
        forall|user: Id| peers@.contains(user) <==> is_peer(state.channels(), chat_id, except, user),
{
    let pairs = channels_pairs(&state.chat_users);
    let ghost channels = state.channels();
    let mut peers: Vec<Id> = Vec::new();
    let mut i: usize = 0;
    while i < pairs.len()
        invariant
            i <= pairs@.len(),
            channels == state.channels(),
            forall|a: int, b: int| 0 <= a < b < pairs@.len() ==> pairs@[a].0 != pairs@[b].0,
            forall|a: int|
                0 <= a < pairs@.len() ==> channels.contains_pair(
                    (#[trigger] pairs@[a]).0,
                    pairs@[a].1,
                ),
            peers@.len() <= i,
            forall|a: int|
                0 <= a < peers@.len() ==> exists|k: int|
                    0 <= k < i && (#[trigger] pairs@[k]).0 == #[trigger] peers@[a],
            forall|a: int|
                0 <= a < peers@.len() ==> is_peer(channels, chat_id, except, #[trigger] peers@[a]),
            forall|a: int, b: int| 0 <= a < b < peers@.len() ==> peers@[a] != peers@[b],
            forall|k: int|
                0 <= k < i && is_peer(channels, chat_id, except, (#[trigger] pairs@[k]).0)
                    ==> peers@.contains(pairs@[k].0),
        decreases pairs@.len() - i,
    {
        let (user, chat) = pairs[i];
        if chat == chat_id && user != except {
            let ghost before = peers@;
            peers.push(user);
            proof {
                let last = before.len() as int;
                assert(peers@[last] == user);
                assert(pairs@[i as int].0 == user);
                assert forall|a: int| 0 <= a < peers@.len() implies exists|k: int|
                    0 <= k < i + 1 && (#[trigger] pairs@[k]).0 == #[trigger] peers@[a] by {
                    if a < last {
                        assert(peers@[a] == before[a]);
                        let k = choose|k: int| 0 <= k < i && (#[trigger] pairs@[k]).0 == before[a];
                        assert(0 <= k < i + 1 && pairs@[k].0 == peers@[a]);
                    } else {
                        assert(0 <= i < i + 1 && pairs@[i as int].0 == peers@[a]);
                    }
                }
                assert forall|a: int, b: int| 0 <= a < b < peers@.len() implies peers@[a]
                    != peers@[b] by {
                    if b == last {
                        assert(peers@[a] == before[a]);
                        let k = choose|k: int| 0 <= k < i && (#[trigger] pairs@[k]).0 == before[a];
                        assert(pairs@[k].0 != pairs@[i as int].0);
                    } else {
                        assert(peers@[a] == before[a]);
                        assert(peers@[b] == before[b]);
                    }
                }
                assert forall|k: int|
                    0 <= k < i + 1 && is_peer(
                        channels,
                        chat_id,
                        except,
                        (#[trigger] pairs@[k]).0,
                    ) implies peers@.contains(pairs@[k].0) by {
                    if k < i {
                        let a = choose|a: int| 0 <= a < before.len() && before[a] == pairs@[k].0;
                        assert(peers@[a] == pairs@[k].0);
                    } else {
                        assert(peers@[last] == pairs@[k].0);
                    }
                }
            }
        }
        i = i + 1;
    }
    proof {
        assert forall|user: Id| is_peer(channels, chat_id, except, user) implies peers@.contains(
            user,
        ) by {
            let k = choose|k: int| 0 <= k < pairs@.len() && pairs@[k].0 == user;
            assert(is_peer(channels, chat_id, except, pairs@[k].0));
        }
    }
    peers
}

/// The presence registry after an event of `user_id`: a change of state is
/// written on the sender's live user.
pub open spec fn presence_after(presence: Map<Id, User>, user_id: Id, event: Event) -> Map<Id, User> {
    match event.event {
        Events::ChangeState(state) if presence.contains_key(user_id) => presence.insert(
            user_id,
            User { state, ..presence[user_id] },
        ),
        _ => presence,
    }
}

/// The channel of each user after an event of `user_id`: joining enters the
/// sender, leaving takes it out.
pub open spec fn channels_after(channels: Map<Id, Id>, user_id: Id, event: Event) -> Map<Id, Id> {
    match event.event {
        Events::JoinChannel { id, direct } => channels.insert(user_id, id),
        Events::ExitChannel { direct } => channels.remove(user_id),
        _ => channels,
    }
}

/// The message that the hub writes about an event of `user_id`, if it writes
/// one: about a change of state of a connected sender, about joining a
/// channel, about leaving the channel that the sender is in, and about a
/// friend request that the store has recorded. `added` is what the store
/// said of a friend request, `notice_id` and `now` are the id and the time
/// that the notice of one gets.
pub open spec fn spec_event_message(
    presence: Map<Id, User>,
    channels: Map<Id, Id>,
    user_id: Id,
    event: Event,
    added: Option<AddFriend>,
    notice_id: Id,
    now: i64,
) -> Option<Message> {
    match event.event {
        Events::ChangeState(state) => if presence.contains_key(user_id) {
            Some(server_message(user_id, Payload::ChangedState(state)))
        } else {
            None
        },
        Events::JoinChannel { id, direct } => Some(server_message(user_id, Payload::JoinChannel(id))),
        Events::ExitChannel { direct } => if channels.contains_key(user_id) {
            Some(server_message(user_id, Payload::ExitChannel))
        } else {
            None
        },
        Events::FriendReq(other) => match added {
            Some(outcome) => Some(friend_notice(user_id, other, outcome, notice_id, now)),
            None => None,
        },
        Events::JoinReq(_) => None,
    }
}

/// Whether `audience` lists those that an event of `user_id` is announced
/// to: the sender's friends for a change of state, the others in the channel
/// for joining and leaving, each once and in any order, and the other user
/// for a friend request.
pub open spec fn is_audience(
    channels: Map<Id, Id>,
    user_id: Id,
    event: Event,
    friends: Seq<Id>,
    audience: Seq<Id>,
) -> bool {
    match event.event {
        Events::ChangeState(_) => audience == friends,
        Events::JoinChannel { id, direct } => {
            &&& audience.no_duplicates()
            &&& forall|user: Id| audience.contains(user) <==> is_peer(channels, id, user_id, user)
        },
        Events::ExitChannel { direct } => {
            &&& audience.no_duplicates()
            &&& channels.contains_key(user_id)
            &&& forall|user: Id|
                audience.contains(user) <==> is_peer(channels, channels[user_id], user_id, user)
        },
        Events::FriendReq(other) => audience == seq![other],
        Events::JoinReq(_) => false,
    }
}

/// Applies an event of `user_id` to the hub and says what is written to whom.
pub fn handle_event(state: &mut AppState, user_id: Id, event: Event, context: &EventContext) -> (out:
    Option<Outbox>)
    ensures
        final(state).presence() == presence_after(old(state).presence(), user_id, event),
        final(state).channels() == channels_after(old(state).channels(), user_id, event),
        final(state).rooms() == old(state).rooms(),
        old(state).wf() ==> final(state).wf(),
        out is Some <==> spec_event_message(
            old(state).presence(),
            old(state).channels(),
            user_id,
            event,
            context.added,
            context.notice_id,
            context.now,
        ) is Some,
        out matches Some(outbox) ==> {
            &&& Some(outbox.message) == spec_event_message(
                old(state).presence(),
                old(state).channels(),
                user_id,
                event,
                context.added,
                context.notice_id,
                context.now,
            )
            &&& exists|audience: Seq<Id>|
                is_audience(old(state).channels(), user_id, event, context.friends@, audience)
                    && outbox.conns@ == present_conns(final(state).presence(), audience)
        },
{
    match event.event {
        Events::ChangeState(new_state) => {
            match users_remove(&mut state.users, user_id) {
                None => {
                    assert(state.presence() =~= old(state).presence());
                    None
                },
                Some(user) => {
                    let _ = users_insert(
                        &mut state.users,
                        user_id,
                        User { username: user.username, state: new_state, ws_conn: user.ws_conn },
                    );
                    assert(state.presence() =~= presence_after(
                        old(state).presence(),
                        user_id,
                        event,
                    ));
                    let conns = send_message_all(state, &context.friends);
                    let message = Message {
                        id: 0,
                        from: user_id,
                        to: 0,
                        data: Payload::ChangedState(new_state),
                        time: 0,
                        kind: MessageType::Server,
                    };
                    assert(is_audience(
                        old(state).channels(),
                        user_id,
                        event,
                        context.friends@,
                        context.friends@,
                    ));
                    Some(Outbox { message, conns })
                },
            }
        },
        Events::JoinChannel { id, direct } => {
            let peers = channel_peers(state, id, user_id);
            let _ = channels_insert(&mut state.chat_users, user_id, id);
            let conns = send_message_all(state, &peers);
            let message = Message {
                id: 0,
                from: user_id,
                to: 0,
                data: Payload::JoinChannel(id),
                time: 0,
                kind: MessageType::Server,
            };
            assert(is_audience(old(state).channels(), user_id, event, context.friends@, peers@));
            Some(Outbox { message, conns })
        },
        Events::ExitChannel { direct } => {
            match channels_remove(&mut state.chat_users, user_id) {
                None => {
                    assert(state.channels() =~= old(state).channels());
                    None
                },
                Some(chat_id) => {
                    let peers = channel_peers(state, chat_id, user_id);
                    let conns = send_message_all(state, &peers);
                    let message = Message {
                        id: 0,
                        from: user_id,
                        to: 0,
                        data: Payload::ExitChannel,
                        time: 0,
                        kind: MessageType::Server,
                    };
                    assert(is_audience(
                        old(state).channels(),
                        user_id,
                        event,
                        context.friends@,
                        peers@,
                    ));
                    Some(Outbox { message, conns })
                },
            }
        },
        Events::FriendReq(other) => {
            match context.added {
                None => None,
                Some(outcome) => {
                    let mut audience: Vec<Id> = Vec::new();
                    audience.push(other);
                    let conns = send_message_all(state, &audience);
                    let message = Message {
                        id: context.notice_id,
                        from: user_id,
                        to: other,
                        data: Payload::Friend(outcome),
                        time: context.now,
                        kind: MessageType::Info,
                    };
                    assert(audience@ =~= seq![other]);
                    assert(is_audience(
                        old(state).channels(),
                        user_id,
                        event,
                        context.friends@,
                        audience@,
                    ));
                    Some(Outbox { message, conns })
                },
            }
        },
        Events::JoinReq(_) => None,
    }
}

} // verus!
