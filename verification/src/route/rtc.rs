use crate::ids::{hyphenated, uuid_text};
use crate::models::{set_to_list, AppState, HubError, Id, User, VoiceChat};
use crate::registry::{chat_entries, chats_get, chats_insert, chats_remove, users_get};
use std::collections::HashSet;
use vstd::prelude::*;
use webrtc::api::media_engine::MediaEngine;
use webrtc::peer_connection::sdp::session_description::RTCSessionDescription;

verus! {

/// `webrtc::api::media_engine::MediaEngine`, the codecs of a peer
/// connection. The hub makes one and hands it on.
#[verifier::external_type_specification]
#[verifier::external_body]
pub struct ExMediaEngine(MediaEngine);

/// `RTCSessionDescription` of `webrtc`, a parsed session description. The
/// hub hands one on to the peer connection that it is for.
#[verifier::external_type_specification]
#[verifier::external_body]
pub struct ExSessionDescription(RTCSessionDescription);

/// Whether `RTCSessionDescription::offer` accepts a text as a session
/// description.
pub uninterp spec fn offer_accepted(sdp: Seq<char>) -> bool;

/// Whether `RTCSessionDescription::answer` accepts a text as a session
/// description.
pub uninterp spec fn answer_accepted(sdp: Seq<char>) -> bool;

/// The session text that a description holds.
pub uninterp spec fn description_text(description: RTCSessionDescription) -> Seq<char>;

/// Whether a description is marked as an offer.
pub uninterp spec fn description_is_offer(description: RTCSessionDescription) -> bool;

/// Whether a description is marked as a final answer.
pub uninterp spec fn description_is_answer(description: RTCSessionDescription) -> bool;

/// The audio codecs that a media engine has registered, each by its MIME
/// type and its payload type, in the order of their registration.
pub uninterp spec fn audio_codecs(engine: MediaEngine) -> Seq<(Seq<char>, u8)>;

/// The video codecs that a media engine has registered, each by its MIME
/// type and its payload type, in the order of their registration.
pub uninterp spec fn video_codecs(engine: MediaEngine) -> Seq<(Seq<char>, u8)>;

/// The audio codecs that `MediaEngine::register_default_codecs` registers.
pub open spec fn default_audio_codecs() -> Seq<(Seq<char>, u8)> {
    seq![
        ("audio/opus"@, 111u8),
        ("audio/G722"@, 9u8),
        ("audio/PCMU"@, 0u8),
        ("audio/PCMA"@, 8u8),
    ]
}

/// The video codecs that `MediaEngine::register_default_codecs` registers.
/// A codec that it names twice is registered once.
pub open spec fn default_video_codecs() -> Seq<(Seq<char>, u8)> {
    seq![
        ("video/VP8"@, 96u8),
        ("video/VP9"@, 98u8),
        ("video/VP9"@, 100u8),
        ("video/H264"@, 102u8),
        ("video/H264"@, 127u8),
        ("video/H264"@, 125u8),
        ("video/H264"@, 108u8),
        ("video/H264"@, 123u8),
        ("video/AV1"@, 41u8),
        ("video/H265"@, 126u8),
        ("video/ulpfec"@, 116u8),
    ]
}

/// `MediaEngine::default`: an engine that has no codec registered yet.
#[verifier::external_body]
fn engine_default() -> (engine: MediaEngine)
    ensures
        audio_codecs(engine).len() == 0,
        video_codecs(engine).len() == 0,
{
    MediaEngine::default()
}

/// `MediaEngine::register_default_codecs` on an engine that has no codec
/// registered yet: it registers the default audio codecs and the default
/// video codecs, each kind in its own list, and does not fail, since every
/// codec that it registers is an audio or a video codec.
#[verifier::external_body]
fn engine_register_default_codecs(engine: &mut MediaEngine) -> (done: bool)
    requires
        audio_codecs(*old(engine)).len() == 0,
        video_codecs(*old(engine)).len() == 0,
    ensures
        done,
        audio_codecs(*final(engine)) == default_audio_codecs(),
        video_codecs(*final(engine)) == default_video_codecs(),
{
    engine.register_default_codecs().is_ok()
}

/// `RTCSessionDescription::offer`: the description of an offer, where the
/// text can be read as one. The description holds the text as it was given
/// and is marked as an offer.
#[verifier::external_body]
fn parse_offer(sdp: &str) -> (parsed: Option<RTCSessionDescription>)
    ensures
        parsed is Some <==> offer_accepted(sdp@),
        parsed matches Some(description) ==> description_text(description) == sdp@,
        parsed matches Some(description) ==> description_is_offer(description),
        parsed matches Some(description) ==> !description_is_answer(description),
{
    RTCSessionDescription::offer(sdp.to_string()).ok()
}

/// `RTCSessionDescription::answer`: the description of an answer, where the
/// text can be read as one. The description holds the text as it was given
/// and is marked as a final answer.
#[verifier::external_body]
fn parse_answer(sdp: &str) -> (parsed: Option<RTCSessionDescription>)
    ensures
        parsed is Some <==> answer_accepted(sdp@),
        parsed matches Some(description) ==> description_text(description) == sdp@,
        parsed matches Some(description) ==> description_is_answer(description),
        parsed matches Some(description) ==> !description_is_offer(description),
{
    RTCSessionDescription::answer(sdp.to_string()).ok()
}

/// A candidate as a client posts it.
#[derive(Debug, PartialEq, Eq)]
pub struct RTCIceCandidateInitForRest {
    pub candidate: String,
    pub sdp_mid: Option<String>,
    pub sdp_m_line_index: Option<u16>,
    pub username_fragment: Option<String>,
}

/// What the hub writes on a control channel during negotiation.
#[derive(Debug, PartialEq, Eq)]
pub enum Signal {
    /// A candidate of the hub's side, as JSON text.
    IceCandidate(String),
    /// A session description that the hub offers.
    Offer(String),
    /// The hub's answer to a client's offer.
    Answer(String),
    /// The client's answer was applied.
    Success,
    /// Negotiation failed.
    Error(HubError),
}

impl Signal {
    /// The value of a signal's `type` field.
    pub open spec fn spec_label(self) -> Seq<char> {
        match self {
            Signal::IceCandidate(_) => "ice-candidate"@,
            Signal::Offer(_) => "offer"@,
            Signal::Answer(_) => "answer"@,
            Signal::Success => "success"@,
            Signal::Error(_) => "error"@,
        }
    }

    pub fn label(&self) -> (name: &'static str)
        ensures
            name@ == self.spec_label(),
    {
        match self {
            Signal::IceCandidate(_) => "ice-candidate",
            Signal::Offer(_) => "offer",
            Signal::Answer(_) => "answer",
            Signal::Success => "success",
            Signal::Error(_) => "error",
        }
    }
}

/// The states of a peer connection.
#[derive(Clone, Copy, Debug, PartialEq, Eq, Structural)]
pub enum PeerState {
    Unspecified,
    New,
    Connecting,
    Connected,
    Disconnected,
    Failed,
    Closed,
}

impl PeerState {
    /// The states after which a peer slot is given up.
    pub open spec fn spec_is_terminal(self) -> bool {
        self == PeerState::Failed || self == PeerState::Disconnected || self == PeerState::Closed
    }

    #[verifier::when_used_as_spec(spec_is_terminal)]
    pub fn is_terminal(self) -> (over: bool)
        ensures
            over == self.spec_is_terminal(),
    {
        match self {
            PeerState::Failed | PeerState::Disconnected | PeerState::Closed => true,
            _ => false,
        }
    }
}

/// The kinds of media track.
#[derive(Clone, Copy, Debug, PartialEq, Eq, Structural)]
pub enum TrackKind {
    Unspecified,
    Audio,
    Video,
}

/// How a peer connection of the hub is set up.
#[derive(Debug, PartialEq, Eq)]
pub struct PeerConfig {
    /// Whether candidates of every kind are used.
    pub all_candidates: bool,
    /// The STUN server that the connection asks for its public address.
    pub stun_url: String,
}

/// The media engine of the hub's peer connections: one that has registered
/// the default codecs, audio and video, and no other.
pub fn create_media_engine() -> (engine: MediaEngine)
    ensures
        audio_codecs(engine) == default_audio_codecs(),
        video_codecs(engine) == default_video_codecs(),
{
    let mut engine = engine_default();
    let _ = engine_register_default_codecs(&mut engine);
    engine
}

/// The rooms after `user` has left `chat`: the room loses the member, and a
/// room that is left without members is gone. Where the room does not exist
/// nothing changes.
pub open spec fn rooms_without(rooms: Map<Id, Set<Id>>, chat: Id, user: Id) -> Map<Id, Set<Id>> {
    if !rooms.contains_key(chat) {
        rooms
    } else if rooms[chat].remove(user).is_empty() {
        rooms.remove(chat)
    } else {
        rooms.insert(chat, rooms[chat].remove(user))
    }
}

/// The rooms after `user` has taken a slot in `chat`, which comes to exist
/// with it.
pub open spec fn rooms_with(rooms: Map<Id, Set<Id>>, chat: Id, user: Id) -> Map<Id, Set<Id>> {
    if rooms.contains_key(chat) {
        rooms.insert(chat, rooms[chat].insert(user))
    } else {
        rooms.insert(chat, Set::<Id>::empty().insert(user))
    }
}

/// Whether `user` holds a slot in `chat`.
pub open spec fn has_slot(rooms: Map<Id, Set<Id>>, chat: Id, user: Id) -> bool {
    rooms.contains_key(chat) && rooms[chat].contains(user)
}

/// Takes the user's peer slot out of the room, and the room out of the hub
/// when that was its last slot.
pub fn cleanup_user_from_chat(state: &mut AppState, chat_id: Id, user_id: Id)
    ensures
        final(state).rooms() == rooms_without(old(state).rooms(), chat_id, user_id),
        final(state).presence() == old(state).presence(),
        final(state).channels() == old(state).channels(),
        old(state).wf() ==> final(state).wf(),
{
    broadcast use vstd::std_specs::hash::group_hash_axioms;

    let ghost before = chat_entries(state.chats);
    match chats_remove(&mut state.chats, chat_id) {
        None => {
            assert(chat_entries(state.chats) =~= before);
        },
        Some(room) => {
            let mut room = room;
            let ghost members = room.users@;
            room.users.remove(&user_id);
            assert(room.users@ == members.remove(user_id));
            if !room.users.is_empty() {
                let _ = chats_insert(&mut state.chats, chat_id, room);
            }
            assert(state.rooms() =~= rooms_without(old(state).rooms(), chat_id, user_id));
        },
    }
}

/// Leaving a room twice is leaving it once.
pub proof fn lemma_cleanup_idempotent(rooms: Map<Id, Set<Id>>, chat: Id, user: Id)
    ensures
        rooms_without(rooms_without(rooms, chat, user), chat, user) == rooms_without(
            rooms,
            chat,
            user,
        ),
{
    let once = rooms_without(rooms, chat, user);
    if rooms.contains_key(chat) && !rooms[chat].remove(user).is_empty() {
        assert(once[chat].remove(user) =~= once[chat]);
        assert(once.insert(chat, once[chat]) =~= once);
    }
}

/// Leaving a room never leaves an empty room behind, and empties no other.
pub proof fn lemma_cleanup_keeps_rooms_inhabited(rooms: Map<Id, Set<Id>>, chat: Id, user: Id)
    requires
        forall|room: Id| rooms.contains_key(room) ==> !(#[trigger] rooms[room]).is_empty(),
    ensures
        forall|room: Id|
            rooms_without(rooms, chat, user).contains_key(room) ==> !(#[trigger] rooms_without(
                rooms,
                chat,
                user,
            )[room]).is_empty(),
{
}

/// Whether the user holds a slot in the room.
pub fn in_room(state: &AppState, chat_id: Id, user_id: Id) -> (found: bool)
    ensures
        found == has_slot(state.rooms(), chat_id, user_id),
{
    broadcast use vstd::std_specs::hash::group_hash_axioms;

    match chats_get(&state.chats, chat_id) {
        None => false,
        Some(room) => room.users.contains(&user_id),
    }
}


/// The STUN server that every peer connection of the hub uses.
pub const STUN_URL: &'static str = "stun:stun.l.google.com:19302";

/// What happened to a request to attach since the hub was last asked.
#[derive(Clone, Copy, Debug, PartialEq, Eq, Structural)]
pub enum AttachEvent {
    /// The user asked for a slot.
    Requested,
    /// The peer connection for the slot was made.
    Connected,
    /// The peer connection could not be made.
    ConnectFailed,
}

/// What is to be done next for a request to attach.
#[derive(Debug, PartialEq, Eq)]
pub enum AttachStep {
    /// Make a peer connection with this setup, then report how it went.
    Connect(PeerConfig),
    /// The slot is stored: answer that the user is attached.
    Attached,
    /// Answer with this failure.
    Failed(HubError),
}

/// The rooms after one step of a request to attach. A user that asks again
/// loses the slot it has; a made connection is stored as a slot.
pub open spec fn attach_rooms(rooms: Map<Id, Set<Id>>, chat: Id, user: Id, event: AttachEvent) -> Map<
    Id,
    Set<Id>,
> {
    match event {
        AttachEvent::Requested => if has_slot(rooms, chat, user) {
            rooms_without(rooms, chat, user)
        } else {
            rooms
        },
        AttachEvent::Connected => rooms_with(rooms, chat, user),
        AttachEvent::ConnectFailed => rooms,
    }
}

/// One step of attaching a user to a voice room. A request by a user that
/// holds a slot in the room gives that slot up and fails with a conflict; any
/// other request asks for a peer connection. The made connection is stored as
/// the user's slot; a connection that could not be made is an internal
/// failure.
pub fn attach_rtc_handler(state: &mut AppState, user_id: Id, chat_id: Id, event: AttachEvent) -> (step:
    AttachStep)
    ensures
        final(state).rooms() == attach_rooms(old(state).rooms(), chat_id, user_id, event),
        final(state).presence() == old(state).presence(),
        final(state).channels() == old(state).channels(),
        old(state).wf() ==> final(state).wf(),
        event == AttachEvent::Requested && has_slot(old(state).rooms(), chat_id, user_id) ==> step
            == AttachStep::Failed(HubError::Conflict),
        event == AttachEvent::Requested && !has_slot(old(state).rooms(), chat_id, user_id) ==> (step
            matches AttachStep::Connect(config) && config.all_candidates && config.stun_url@
            == STUN_URL@),
        event == AttachEvent::Connected ==> step == AttachStep::Attached,
        event == AttachEvent::ConnectFailed ==> step == AttachStep::Failed(HubError::Internal),
{
    broadcast use vstd::std_specs::hash::group_hash_axioms;

    match event {
        AttachEvent::Requested => {
            if in_room(state, chat_id, user_id) {
                cleanup_user_from_chat(state, chat_id, user_id);
                AttachStep::Failed(HubError::Conflict)
            } else {
                AttachStep::Connect(
                    PeerConfig { all_candidates: true, stun_url: STUN_URL.to_owned() },
                )
            }
        },
        AttachEvent::Connected => {
            match chats_remove(&mut state.chats, chat_id) {
                None => {
                    let mut users: HashSet<Id> = HashSet::new();
                    users.insert(user_id);
                    let _ = chats_insert(&mut state.chats, chat_id, VoiceChat { id: chat_id, users });
                },
                Some(room) => {
                    let mut room = room;
                    room.users.insert(user_id);
                    let _ = chats_insert(&mut state.chats, chat_id, room);
                },
            }
            assert(state.rooms() =~= rooms_with(old(state).rooms(), chat_id, user_id));
            assert(old(state).wf() ==> state.wf()) by {
                if old(state).wf() {
                    assert(chat_entries(state.chats)[chat_id].users@.contains(user_id));
                }
            }
            AttachStep::Attached
        },
        AttachEvent::ConnectFailed => AttachStep::Failed(HubError::Internal),
    }
}


/// Why a session description that a client sent for its slot is refused: a
/// text that is missing or unreadable is a bad request, and a user that
/// holds no slot in the room is a conflict, whether the room exists or not.
/// `None` where the description is taken.
pub open spec fn description_refusal(
    rooms: Map<Id, Set<Id>>,
    chat: Id,
    user: Id,
    readable: bool,
) -> Option<HubError> {
    if !readable {
        Some(HubError::BadRequest)
    } else if !has_slot(rooms, chat, user) {
        Some(HubError::Conflict)
    } else {
        None
    }
}

/// Finds the slot that a parsed session description is for. The description
/// comes back where the user holds a slot in the room; `parsed` is `None`
/// where the client's text was missing or could not be read.
pub fn locate_slot(
    state: &AppState,
    user_id: Id,
    chat_id: Id,
    parsed: Option<RTCSessionDescription>,
) -> (found: Result<RTCSessionDescription, HubError>)
    ensures
        match description_refusal(state.rooms(), chat_id, user_id, parsed is Some) {
            None => found is Ok && Some(found->Ok_0) == parsed,
            Some(refusal) => found == Err::<RTCSessionDescription, HubError>(refusal),
        },
{
    match parsed {
        None => Err(HubError::BadRequest),
        Some(description) => if in_room(state, chat_id, user_id) {
            Ok(description)
        } else {
            Err(HubError::Conflict)
        },
    }
}

/// Reads a client's offer and finds the slot it is for. `sdp` is the text of
/// the offer, `None` where the client's envelope held none. What comes back
/// for the slot's peer connection is the description of an offer that holds
/// the client's text.
pub fn process_offer(state: &AppState, user_id: Id, chat_id: Id, sdp: Option<&str>) -> (found: Result<
    RTCSessionDescription,
    HubError,
>)
    ensures
        match description_refusal(
            state.rooms(),
            chat_id,
            user_id,
            sdp is Some && offer_accepted(sdp->0@),
        ) {
            None => {
                &&& found is Ok
                &&& description_text(found->Ok_0) == sdp->0@
                &&& description_is_offer(found->Ok_0)
                &&& !description_is_answer(found->Ok_0)
            },
            Some(refusal) => found == Err::<RTCSessionDescription, HubError>(refusal),
        },
{
    let parsed = match sdp {
        None => None,
        Some(text) => parse_offer(text),
    };
    locate_slot(state, user_id, chat_id, parsed)
}

/// Reads a client's answer and finds the slot it is for. `sdp` is the text of
/// the answer, `None` where the client's envelope held none. What comes back
/// for the slot's peer connection is the description of an answer that holds
/// the client's text.
pub fn process_answer(state: &AppState, user_id: Id, chat_id: Id, sdp: Option<&str>) -> (found: Result<
    RTCSessionDescription,
    HubError,
>)
    ensures
        match description_refusal(
            state.rooms(),
            chat_id,
            user_id,
            sdp is Some && answer_accepted(sdp->0@),
        ) {
            None => {
                &&& found is Ok
                &&& description_text(found->Ok_0) == sdp->0@
                &&& description_is_answer(found->Ok_0)
                &&& !description_is_offer(found->Ok_0)
            },
            Some(refusal) => found == Err::<RTCSessionDescription, HubError>(refusal),
        },
{
    let parsed = match sdp {
        None => None,
        Some(text) => parse_answer(text),
    };
    locate_slot(state, user_id, chat_id, parsed)
}

/// How far the peer connection has come with a client's offer.
#[derive(Debug, PartialEq, Eq)]
pub enum OfferProgress {
    /// The offer was set as the remote description, or could not be.
    RemoteSet(bool),
    /// An answer was created, or none could be.
    AnswerCreated(Option<String>),
    /// The answer was set as the local description, or could not be.
    LocalSet { done: bool, answer: String },
}

/// What is to be done next with a client's offer.
#[derive(Debug, PartialEq, Eq)]
pub enum OfferStep {
    /// Have the peer connection create an answer.
    CreateAnswer,
    /// Set this answer as the local description.
    SetLocal(String),
    /// Send this to the client: negotiation is over.
    Reply(Signal),
}

/// The step that follows on a stage of answering an offer: each stage that
/// went well leads to the next and the last to the answer; one that failed
/// ends in an internal error.
pub open spec fn spec_answer_offer(progress: OfferProgress) -> OfferStep {
    match progress {
        OfferProgress::RemoteSet(true) => OfferStep::CreateAnswer,
        OfferProgress::AnswerCreated(Some(answer)) => OfferStep::SetLocal(answer),
        OfferProgress::LocalSet { done: true, answer } => OfferStep::Reply(Signal::Answer(answer)),
        _ => OfferStep::Reply(Signal::Error(HubError::Internal)),
    }
}

/// Decides the next step of answering an offer.
pub fn answer_offer(progress: OfferProgress) -> (step: OfferStep)
    ensures
        step == spec_answer_offer(progress),
{
    match progress {
        OfferProgress::RemoteSet(true) => OfferStep::CreateAnswer,
        OfferProgress::AnswerCreated(Some(answer)) => OfferStep::SetLocal(answer),
        OfferProgress::LocalSet { done: true, answer } => OfferStep::Reply(Signal::Answer(answer)),
        _ => OfferStep::Reply(Signal::Error(HubError::Internal)),
    }
}

/// What the client is told once its answer was handed to the peer connection:
/// success where it was set as the remote description, an internal error
/// where it could not be.
pub fn answer_applied(remote_set: bool) -> (reply: Signal)
    ensures
        reply == (if remote_set {
            Signal::Success
        } else {
            Signal::Error(HubError::Internal)
        }),
{
    if remote_set {
        Signal::Success
    } else {
        Signal::Error(HubError::Internal)
    }
}

/// Finds the slot that a posted candidate is for: the candidate comes back
/// where the user holds a slot in the room, and nothing is found otherwise.
pub fn process_ice_candidate(
    state: &AppState,
    user_id: Id,
    chat_id: Id,
    candidate: RTCIceCandidateInitForRest,
) -> (found: Result<RTCIceCandidateInitForRest, HubError>)
    ensures
        found == (if has_slot(state.rooms(), chat_id, user_id) {
            Ok::<RTCIceCandidateInitForRest, HubError>(candidate)
        } else {
            Err::<RTCIceCandidateInitForRest, HubError>(HubError::NotFound)
        }),
{
    if in_room(state, chat_id, user_id) {
        Ok(candidate)
    } else {
        Err(HubError::NotFound)
    }
}

/// What the client is told once its candidate was handed to the peer
/// connection.
pub fn candidate_added(added: bool) -> (outcome: Result<(), HubError>)
    ensures
        outcome == (if added {
            Ok::<(), HubError>(())
        } else {
            Err::<(), HubError>(HubError::Internal)
        }),
{
    if added {
        Ok(())
    } else {
        Err(HubError::Internal)
    }
}

/// A candidate of the hub's side goes to the user's own control channel, if
/// the user is connected; the end of the candidates goes nowhere.
pub fn on_ice_candidate(state: &AppState, user_id: Id, candidate: Option<String>) -> (sent: Option<
    (u64, Signal),
>)
    ensures
        sent == (if candidate is Some && state.presence().contains_key(user_id) {
            Some((state.presence()[user_id].ws_conn, Signal::IceCandidate(candidate->0)))
        } else {
            None::<(u64, Signal)>
        }),
{
    match candidate {
        None => None,
        Some(text) => match users_get(&state.users, user_id) {
            None => None,
            Some(user) => Some((user.ws_conn, Signal::IceCandidate(text))),
        },
    }
}

/// Whether a track that a client begins to send is relayed: audio is.
pub fn on_track(kind: TrackKind) -> (relayed: bool)
    ensures
        relayed == (kind == TrackKind::Audio),
{
    match kind {
        TrackKind::Audio => true,
        _ => false,
    }
}

/// A peer connection that failed, was disconnected or was closed gives up its
/// slot; any other change of state changes nothing.
pub fn on_peer_connection_state_change(state: &mut AppState, chat_id: Id, user_id: Id, peer: PeerState)
    ensures
        final(state).rooms() == (if peer.is_terminal() {
            rooms_without(old(state).rooms(), chat_id, user_id)
        } else {
            old(state).rooms()
        }),
        final(state).presence() == old(state).presence(),
        final(state).channels() == old(state).channels(),
        old(state).wf() ==> final(state).wf(),
{
    if peer.is_terminal() {
        cleanup_user_from_chat(state, chat_id, user_id);
    }
}


/// An outbound track that a relay is to add to a member's peer connection.
#[derive(Debug, PartialEq, Eq)]
pub struct TrackPlan {
    /// The member that is to receive the audio.
    pub target: Id,
    pub track_id: String,
    pub stream_id: String,
}

/// The name of what a relay sends from `source` to `target`: the name of the
/// incoming track or stream, then the two ids.
pub open spec fn relay_label(base: Seq<char>, source: Id, target: Id) -> Seq<char> {
    base + "-"@ + hyphenated(source) + "-"@ + hyphenated(target)
}

/// The members that a list of plans is for, in the order of the plans.
pub open spec fn plan_targets(plans: Seq<TrackPlan>) -> Seq<Id> {
    plans.map_values(|plan: TrackPlan| plan.target)
}

fn relay_name(base: &str, source: Id, target: Id) -> (name: String)
    ensures
        name@ == relay_label(base@, source, target),
{
    let mut name = String::from_str(base);
    name.append("-");
    name.append(uuid_text(source).as_str());
    name.append("-");
    name.append(uuid_text(target).as_str());
    name
}

/// How many writes of one packet may be under way at a time.
pub const RELAY_IN_FLIGHT: usize = 5;

/// What a relay does next.
#[derive(Debug, PartialEq, Eq)]
pub enum RelayStep {
    /// Write the signal to this control channel and report whether it went
    /// out.
    Send { conn: u64, signal: Signal },
    /// Take the track off the target's peer connection again.
    RemoveTrack,
    /// Nothing: go on with the next track.
    Continue,
}

/// The targets to which a write failed among the first `n` results of a
/// round. A result pairs a target with whether the write to it failed.
pub open spec fn failed_among(results: Seq<(Id, bool)>, n: int) -> Set<Id> {
    Set::new(|user: Id| exists|k: int| 0 <= k < n && k < results.len() && #[trigger] results[k] == (user, true))
}

/// The targets to which a write failed in a round.
pub open spec fn failed_targets(results: Seq<(Id, bool)>) -> Set<Id> {
    failed_among(results, results.len() as int)
}

/// The rooms after the members in `gone` have left `chat`; a room that loses
/// its last member is gone.
pub open spec fn rooms_without_all(rooms: Map<Id, Set<Id>>, chat: Id, gone: Set<Id>) -> Map<
    Id,
    Set<Id>,
> {
    if !rooms.contains_key(chat) {
        rooms
    } else if rooms[chat].difference(gone).is_empty() {
        rooms.remove(chat)
    } else {
        rooms.insert(chat, rooms[chat].difference(gone))
    }
}

/// The relay of one incoming audio track: the room, the member that sends,
/// and the members to which its packets are written.
pub struct RelayTask {
    chat_id: Id,
    source: Id,
    tracks: HashSet<Id>,
}

impl RelayTask {
    #[verifier::type_invariant]
    spec fn inv(self) -> bool {
        !self.tracks@.contains(self.source)
    }

    /// The room in which the relay runs.
    pub closed spec fn spec_chat_id(&self) -> Id {
        self.chat_id
    }

    /// The member whose audio is relayed.
    pub closed spec fn spec_source(&self) -> Id {
        self.source
    }

    /// The members to which packets are written.
    pub closed spec fn spec_targets(&self) -> Set<Id> {
        self.tracks@
    }

    #[verifier::when_used_as_spec(spec_chat_id)]
    pub fn chat_id(&self) -> (id: Id)
        ensures
            id == self.spec_chat_id(),
    {
        self.chat_id
    }

    #[verifier::when_used_as_spec(spec_source)]
    pub fn source(&self) -> (id: Id)
        ensures
            id == self.spec_source(),
    {
        self.source
    }

    /// The members to which the next packet is written, each once, in no
    /// fixed order. The member whose audio it is is never among them.
    pub fn targets(&self) -> (list: Vec<Id>)
        ensures
            list@.no_duplicates(),
            list@.to_set() == self.spec_targets(),
            !list@.contains(self.spec_source()),
    {
        proof {
            use_type_invariant(self);
        }
        set_to_list(&self.tracks)
    }

    /// Records how the offer for a new track fared. An offer that reached the
    /// target makes the target one of those that packets are written to; one
    /// that did not has the track taken off again. A track towards the member
    /// whose audio it is is never kept.
    pub fn offer_sent(self, target: Id, delivered: bool) -> (next: (RelayTask, RelayStep))
        ensures
            next.0.spec_chat_id() == self.spec_chat_id(),
            next.0.spec_source() == self.spec_source(),
            next.0.spec_targets() == (if delivered && target != self.spec_source() {
                self.spec_targets().insert(target)
            } else {
                self.spec_targets()
            }),
            next.1 == (if delivered && target != self.spec_source() {
                RelayStep::Continue
            } else {
                RelayStep::RemoveTrack
            }),
    {
        broadcast use vstd::std_specs::hash::group_hash_axioms;

        proof {
            use_type_invariant(&self);
        }
        let RelayTask { chat_id, source, tracks } = self;
        if delivered && target != source {
            let mut tracks = tracks;
            tracks.insert(target);
            (RelayTask { chat_id, source, tracks }, RelayStep::Continue)
        } else {
            (RelayTask { chat_id, source, tracks }, RelayStep::RemoveTrack)
        }
    }

    /// Closes a round of writes. A round without a failed write changes
    /// nothing. After any other round the relay stops if the room is gone;
    /// else every target to which a write failed is written to no more and
    /// gives up its slot in the room.
    pub fn after_round(self, state: &mut AppState, results: &Vec<(Id, bool)>) -> (next: Option<
        RelayTask,
    >)
        ensures
            final(state).presence() == old(state).presence(),
            final(state).channels() == old(state).channels(),
            old(state).wf() ==> final(state).wf(),
            next is Some <==> failed_targets(results@).is_empty() || old(state).rooms().contains_key(
                self.spec_chat_id(),
            ),
            next matches Some(task) ==> {
                &&& task.spec_chat_id() == self.spec_chat_id()
                &&& task.spec_source() == self.spec_source()
                &&& task.spec_targets() == self.spec_targets().difference(failed_targets(results@))
            },
            final(state).rooms() == (if failed_targets(results@).is_empty() {
                old(state).rooms()
            } else {
                rooms_without_all(old(state).rooms(), self.spec_chat_id(), failed_targets(results@))
            }),
    {
        broadcast use vstd::std_specs::hash::group_hash_axioms;

        proof {
            use_type_invariant(&self);
        }
        let RelayTask { chat_id, source, tracks } = self;
        let ghost tracks_before = tracks@;
        let mut any_failed = false;
        let mut i: usize = 0;
        while i < results.len()
            invariant
                i <= results@.len(),
                any_failed <==> !failed_among(results@, i as int).is_empty(),
            decreases results@.len() - i,
        {
            let ghost seen = failed_among(results@, i as int);
            let ghost more = failed_among(results@, i + 1);
            if results[i].1 {
                any_failed = true;
                assert(more.contains(results@[i as int].0));
            } else {
                assert(more =~= seen) by {
                    assert forall|user: Id| more.contains(user) implies seen.contains(user) by {
                        let k = choose|k: int|
                            0 <= k < i + 1 && k < results@.len() && #[trigger] results@[k] == (
                                user,
                                true,
                            );
                        assert(k < i);
                    }
                }
            }
            if any_failed && !results[i].1 {
                assert(!more.is_empty());
            }
            i = i + 1;
        }
        if !any_failed {
            assert(tracks_before.difference(failed_targets(results@)) =~= tracks_before);
            return Some(RelayTask { chat_id, source, tracks });
        }
        let ghost before = chat_entries(state.chats);
        match chats_remove(&mut state.chats, chat_id) {
            None => {
                assert(chat_entries(state.chats) =~= before);
                assert(state.rooms() =~= old(state).rooms());
                None
            },
            Some(room) => {
                let mut room = room;
                let mut tracks = tracks;
                let ghost members_before = room.users@;
                let mut j: usize = 0;
                while j < results.len()
                    invariant
                        j <= results@.len(),
                        tracks@ == tracks_before.difference(failed_among(results@, j as int)),
                        room.users@ == members_before.difference(failed_among(results@, j as int)),
                        room.id == before[chat_id].id,
                    decreases results@.len() - j,
                {
                    let ghost seen = failed_among(results@, j as int);
                    let ghost more = failed_among(results@, j + 1);
                    if results[j].1 {
                        let gone = results[j].0;
                        tracks.remove(&gone);
                        room.users.remove(&gone);
                        proof {
                            assert(more =~= seen.insert(gone)) by {
                                assert(results@[j as int] == (gone, true));
                                assert forall|user: Id| more.contains(user) implies seen.insert(
                                    gone,
                                ).contains(user) by {
                                    let k = choose|k: int|
                                        0 <= k < j + 1 && k < results@.len()
                                            && #[trigger] results@[k] == (user, true);
                                    if k < j {
                                        assert(seen.contains(user));
                                    }
                                }
                                assert forall|user: Id| seen.insert(gone).contains(
                                    user,
                                ) implies more.contains(user) by {
                                    if user != gone {
                                        let k = choose|k: int|
                                            0 <= k < j && k < results@.len()
                                                && #[trigger] results@[k] == (user, true);
                                        assert(0 <= k < j + 1);
                                    }
                                }
                            }
                            assert(tracks@ =~= tracks_before.difference(more));
                            assert(room.users@ =~= members_before.difference(more));
                        }
                    } else {
                        proof {
                            assert(more =~= seen) by {
                                assert forall|user: Id| more.contains(user) implies seen.contains(
                                    user,
                                ) by {
                                    let k = choose|k: int|
                                        0 <= k < j + 1 && k < results@.len()
                                            && #[trigger] results@[k] == (user, true);
                                    assert(k < j);
                                }
                            }
                        }
                    }
                    j = j + 1;
                }
                if !room.users.is_empty() {
                    let _ = chats_insert(&mut state.chats, chat_id, room);
                }
                assert(state.rooms() =~= rooms_without_all(
                    old(state).rooms(),
                    chat_id,
                    failed_targets(results@),
                ));
                Some(RelayTask { chat_id, source, tracks })
            },
        }
    }

    /// Ends the relay after the incoming track could no longer be read: the
    /// member whose audio it was gives up its slot.
    pub fn read_failed(self, state: &mut AppState)
        ensures
            final(state).rooms() == rooms_without(
                old(state).rooms(),
                self.spec_chat_id(),
                self.spec_source(),
            ),
            final(state).presence() == old(state).presence(),
            final(state).channels() == old(state).channels(),
            old(state).wf() ==> final(state).wf(),
    {
        cleanup_user_from_chat(state, self.chat_id, self.source);
    }
}

/// Starts the relay of an audio track that `source_user_id` sends into the
/// room: one outbound track is planned for every other member, named after
/// the incoming track and stream. Nothing is started where the room is gone.
pub fn relay_track(
    state: &AppState,
    chat_id: Id,
    source_user_id: Id,
    track_id: &str,
    stream_id: &str,
) -> (started: Option<(RelayTask, Vec<TrackPlan>)>)
    ensures
        started is Some <==> state.rooms().contains_key(chat_id),
        started matches Some((task, plans)) ==> {
            &&& task.spec_chat_id() == chat_id
            &&& task.spec_source() == source_user_id
            &&& task.spec_targets() == Set::<Id>::empty()
            &&& plan_targets(plans@).no_duplicates()
            &&& plan_targets(plans@).to_set() == state.rooms()[chat_id].remove(source_user_id)
            &&& forall|i: int|
                0 <= i < plans@.len() ==> {
                    &&& (#[trigger] plans@[i]).track_id@ == relay_label(
                        track_id@,
                        source_user_id,
                        plans@[i].target,
                    )
                    &&& plans@[i].stream_id@ == relay_label(
                        stream_id@,
                        source_user_id,
                        plans@[i].target,
                    )
                }
        },
{
    broadcast use vstd::std_specs::hash::group_hash_axioms;

    let room = match chats_get(&state.chats, chat_id) {
        None => {
            return None;
        },
        Some(room) => room,
    };
    let members = room.members();
    let mut plans: Vec<TrackPlan> = Vec::new();
    let mut i: usize = 0;
    while i < members.len()
        invariant
            i <= members@.len(),
            members@.no_duplicates(),
            plans@.len() <= i,
            forall|a: int|
                0 <= a < plans@.len() ==> exists|k: int|
                    0 <= k < i && members@[k] == (#[trigger] plans@[a]).target,
            forall|a: int| 0 <= a < plans@.len() ==> (#[trigger] plans@[a]).target != source_user_id,
            forall|a: int, b: int|
                0 <= a < b < plans@.len() ==> (#[trigger] plans@[a]).target != (
                #[trigger] plans@[b]).target,
            forall|k: int|
                0 <= k < i && members@[k] != source_user_id ==> exists|a: int|
                    0 <= a < plans@.len() && (#[trigger] plans@[a]).target == members@[k],
            forall|a: int|
                0 <= a < plans@.len() ==> {
                    &&& (#[trigger] plans@[a]).track_id@ == relay_label(
                        track_id@,
                        source_user_id,
                        plans@[a].target,
                    )
                    &&& plans@[a].stream_id@ == relay_label(
                        stream_id@,
                        source_user_id,
                        plans@[a].target,
                    )
                },
        decreases members@.len() - i,
    {
        let target = members[i];
        if target != source_user_id {
            let ghost before = plans@;
            plans.push(
                TrackPlan {
                    target,
                    track_id: relay_name(track_id, source_user_id, target),
                    stream_id: relay_name(stream_id, source_user_id, target),
                },
            );
            proof {
                let last = before.len() as int;
                assert(plans@[last].target == members@[i as int]);
                assert forall|a: int| 0 <= a < plans@.len() implies exists|k: int|
                    0 <= k < i + 1 && members@[k] == (#[trigger] plans@[a]).target by {
                    if a < last {
                        assert(plans@[a] == before[a]);
                        let k = choose|k: int| 0 <= k < i && members@[k] == before[a].target;
                        assert(0 <= k < i + 1 && members@[k] == plans@[a].target);
                    } else {
                        assert(0 <= i < i + 1 && members@[i as int] == plans@[a].target);
                    }
                }
                assert forall|a: int, b: int| 0 <= a < b < plans@.len() implies (
                #[trigger] plans@[a]).target != (#[trigger] plans@[b]).target by {
                    if b == last {
                        assert(plans@[a] == before[a]);
                        let k = choose|k: int| 0 <= k < i && members@[k] == before[a].target;
                        assert(members@[k] != members@[i as int]);
                    } else {
                        assert(plans@[a] == before[a]);
                        assert(plans@[b] == before[b]);
                    }
                }
                assert forall|k: int|
                    0 <= k < i + 1 && members@[k] != source_user_id implies exists|a: int|
                    0 <= a < plans@.len() && (#[trigger] plans@[a]).target == members@[k] by {
                    if k < i {
                        let a = choose|a: int|
                            0 <= a < before.len() && (#[trigger] before[a]).target == members@[k];
                        assert(plans@[a] == before[a]);
                    } else {
                        assert(plans@[last].target == members@[k]);
                    }
                }
            }
        }
        i = i + 1;
    }
    proof {
        let targets = plan_targets(plans@);
        assert forall|a: int, b: int| 0 <= a < b < targets.len() implies targets[a] != targets[b] by {
            assert(plans@[a].target != plans@[b].target);
        }
        assert forall|u: Id|
            targets.to_set().contains(u) <==> state.rooms()[chat_id].remove(source_user_id).contains(
                u,
            ) by {
            if targets.to_set().contains(u) {
                let a = choose|a: int| 0 <= a < targets.len() && targets[a] == u;
                assert(plans@[a].target == u);
                let k = choose|k: int| 0 <= k < i && members@[k] == plans@[a].target;
                assert(members@.to_set().contains(members@[k]));
            }
            if state.rooms()[chat_id].remove(source_user_id).contains(u) {
                assert(members@.to_set().contains(u));
                let k = choose|k: int| 0 <= k < members@.len() && members@[k] == u;
                let a = choose|a: int|
                    0 <= a < plans@.len() && (#[trigger] plans@[a]).target == members@[k];
                assert(targets[a] == u);
            }
        }
        assert(targets.to_set() =~= state.rooms()[chat_id].remove(source_user_id));
    }
    let task = RelayTask { chat_id, source: source_user_id, tracks: HashSet::new() };
    Some((task, plans))
}

/// What is done about a track that was added to the target's peer
/// connection: the fresh offer of that connection goes to the target's
/// control channel; a target that is not connected, or for which there is no
/// offer, has the track taken off again.
pub open spec fn spec_announce_track(presence: Map<Id, User>, target: Id, sdp: Option<String>) -> RelayStep {
    if sdp is Some && presence.contains_key(target) {
        RelayStep::Send { conn: presence[target].ws_conn, signal: Signal::Offer(sdp->0) }
    } else {
        RelayStep::RemoveTrack
    }
}

/// The offers that go out for a list of added tracks, each track given by
/// its target and the fresh offer of the target's peer connection.
pub open spec fn offers_sent(presence: Map<Id, User>, added: Seq<(Id, Option<String>)>) -> Seq<
    RelayStep,
> {
    added.map_values(|track: (Id, Option<String>)| spec_announce_track(presence, track.0, track.1))
        .filter(|step: RelayStep| step is Send)
}

/// For the tracks added to connected targets, each with its offer, one offer
/// goes out per track: as many as there are tracks, none more.
pub proof fn lemma_one_offer_per_track(presence: Map<Id, User>, added: Seq<(Id, Option<String>)>)
    requires
        forall|i: int|
            0 <= i < added.len() ==> (#[trigger] added[i]).1 is Some && presence.contains_key(
                added[i].0,
            ),
    ensures
        offers_sent(presence, added).len() == added.len(),
        forall|i: int|
            0 <= i < added.len() ==> #[trigger] offers_sent(presence, added)[i] == (RelayStep::Send {
                conn: presence[added[i].0].ws_conn,
                signal: Signal::Offer(added[i].1->0),
            }),
{
    let steps = added.map_values(
        |track: (Id, Option<String>)| spec_announce_track(presence, track.0, track.1),
    );
    let sent = |step: RelayStep| step is Send;
    assert forall|i: int| 0 <= i < steps.len() implies sent(#[trigger] steps[i]) by {
        assert(added[i].1 is Some);
    }
    lemma_filter_keeps_all(steps, sent);
}

proof fn lemma_filter_keeps_all(steps: Seq<RelayStep>, keep: spec_fn(RelayStep) -> bool)
    requires
        forall|i: int| 0 <= i < steps.len() ==> keep(#[trigger] steps[i]),
    ensures
        steps.filter(keep) == steps,
    decreases steps.len(),
{
    reveal(Seq::filter);
    if steps.len() > 0 {
        lemma_filter_keeps_all(steps.drop_last(), keep);
        assert(steps.drop_last().push(steps.last()) =~= steps);
    }
}

/// Announces a track that was added to the target's peer connection. `sdp` is
/// the fresh offer of that connection, `None` where none could be made. The
/// offer goes to the target's control channel, once; a target that is not
/// connected, or for which there is no offer, has the track taken off again.
pub fn announce_track(state: &AppState, target: Id, sdp: Option<String>) -> (step: RelayStep)
    ensures
        step == spec_announce_track(state.presence(), target, sdp),
{
    match sdp {
        None => RelayStep::RemoveTrack,
        Some(offer) => match users_get(&state.users, target) {
            None => RelayStep::RemoveTrack,
            Some(user) => RelayStep::Send { conn: user.ws_conn, signal: Signal::Offer(offer) },
        },
    }
}

/// Records whether a track could be taken off the target's peer connection:
/// a target whose connection refused gives up its slot.
pub fn track_removed(state: &mut AppState, chat_id: Id, target: Id, removed: bool)
    ensures
        final(state).rooms() == (if removed {
            old(state).rooms()
        } else {
            rooms_without(old(state).rooms(), chat_id, target)
        }),
        final(state).presence() == old(state).presence(),
        final(state).channels() == old(state).channels(),
        old(state).wf() ==> final(state).wf(),
{
    if !removed {
        cleanup_user_from_chat(state, chat_id, target);
    }
}

} // verus!
