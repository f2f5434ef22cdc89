use chat_hub::models::{AppState, HubError};
use chat_hub::route::rtc::{
    attach_rtc_handler, cleanup_user_from_chat, in_room, on_peer_connection_state_change,
    AttachEvent, AttachStep, PeerState, STUN_URL,
};

const ROOM: u128 = 0x123e4567_e89b_12d3_a456_426614174000;
const ALICE: u128 = 0x0a;
const BOB: u128 = 0x0b;

fn attach(state: &mut AppState, user: u128, room: u128) {
    assert!(matches!(
        attach_rtc_handler(state, user, room, AttachEvent::Requested),
        AttachStep::Connect(_)
    ));
    assert_eq!(
        attach_rtc_handler(state, user, room, AttachEvent::Connected),
        AttachStep::Attached
    );
}

#[test]
fn attach_then_cleanup_removes_the_slot() {
    let mut state = AppState::new();
    match attach_rtc_handler(&mut state, ALICE, ROOM, AttachEvent::Requested) {
        AttachStep::Connect(config) => {
            assert!(config.all_candidates);
            assert_eq!(config.stun_url, "stun:stun.l.google.com:19302");
            assert_eq!(config.stun_url, STUN_URL);
        }
        other => panic!("unexpected step {:?}", other),
    }
    assert!(!in_room(&state, ROOM, ALICE));
    assert_eq!(
        attach_rtc_handler(&mut state, ALICE, ROOM, AttachEvent::Connected),
        AttachStep::Attached
    );
    assert!(in_room(&state, ROOM, ALICE));
    cleanup_user_from_chat(&mut state, ROOM, ALICE);
    assert!(!in_room(&state, ROOM, ALICE));
    assert!(state.chats.is_empty());
}

#[test]
fn room_is_filed_under_its_own_id() {
    let mut state = AppState::new();
    attach(&mut state, ALICE, ROOM);
    let room = state.chats.get(&ROOM).unwrap();
    assert_eq!(room.id, ROOM);
    assert_eq!(room.members(), vec![ALICE]);
}

#[test]
fn second_attach_is_a_conflict_and_gives_the_slot_up() {
    let mut state = AppState::new();
    attach(&mut state, ALICE, ROOM);
    attach(&mut state, BOB, ROOM);
    assert_eq!(
        attach_rtc_handler(&mut state, ALICE, ROOM, AttachEvent::Requested),
        AttachStep::Failed(HubError::Conflict)
    );
    assert!(!in_room(&state, ROOM, ALICE));
    assert!(in_room(&state, ROOM, BOB));
    assert_eq!(HubError::Conflict.status(), 409);
}

#[test]
fn failed_connection_is_an_internal_error_and_stores_nothing() {
    let mut state = AppState::new();
    assert!(matches!(
        attach_rtc_handler(&mut state, ALICE, ROOM, AttachEvent::Requested),
        AttachStep::Connect(_)
    ));
    assert_eq!(
        attach_rtc_handler(&mut state, ALICE, ROOM, AttachEvent::ConnectFailed),
        AttachStep::Failed(HubError::Internal)
    );
    assert!(!in_room(&state, ROOM, ALICE));
    assert!(state.chats.is_empty());
    assert_eq!(HubError::Internal.status(), 500);
}

#[test]
fn cleanup_twice_is_cleanup_once() {
    let mut state = AppState::new();
    attach(&mut state, ALICE, ROOM);
    attach(&mut state, BOB, ROOM);
    cleanup_user_from_chat(&mut state, ROOM, ALICE);
    let mut once = state.chats.get(&ROOM).unwrap().members();
    once.sort();
    cleanup_user_from_chat(&mut state, ROOM, ALICE);
    let mut twice = state.chats.get(&ROOM).unwrap().members();
    twice.sort();
    assert_eq!(once, vec![BOB]);
    assert_eq!(twice, once);
}

#[test]
fn cleanup_of_an_absent_room_or_user_changes_nothing() {
    let mut state = AppState::new();
    cleanup_user_from_chat(&mut state, ROOM, ALICE);
    assert!(state.chats.is_empty());
    attach(&mut state, BOB, ROOM);
    cleanup_user_from_chat(&mut state, ROOM, ALICE);
    assert!(in_room(&state, ROOM, BOB));
    assert_eq!(state.chats.len(), 1);
}

#[test]
fn empty_room_leaves_the_registry() {
    let mut state = AppState::new();
    attach(&mut state, ALICE, ROOM);
    attach(&mut state, BOB, ROOM);
    cleanup_user_from_chat(&mut state, ROOM, ALICE);
    assert_eq!(state.chats.len(), 1);
    cleanup_user_from_chat(&mut state, ROOM, BOB);
    assert_eq!(state.chats.len(), 0);
    assert!(!state.chats.contains_key(&ROOM));
}

#[test]
fn terminal_peer_states_give_the_slot_up() {
    for terminal in [PeerState::Failed, PeerState::Disconnected, PeerState::Closed] {
        let mut state = AppState::new();
        attach(&mut state, ALICE, ROOM);
        assert!(terminal.is_terminal());
        on_peer_connection_state_change(&mut state, ROOM, ALICE, terminal);
        assert!(!in_room(&state, ROOM, ALICE));
        assert!(state.chats.is_empty());
    }
}

#[test]
fn other_peer_states_keep_the_slot() {
    for other in [
        PeerState::Unspecified,
        PeerState::New,
        PeerState::Connecting,
        PeerState::Connected,
    ] {
        let mut state = AppState::new();
        attach(&mut state, ALICE, ROOM);
        assert!(!other.is_terminal());
        on_peer_connection_state_change(&mut state, ROOM, ALICE, other);
        assert!(in_room(&state, ROOM, ALICE));
    }
}
