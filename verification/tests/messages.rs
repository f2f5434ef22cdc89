use chat_hub::models::{AppState, Event, Events, HubError, Message, MessageType, Payload, State};
use chat_hub::route::message::{
    access_check, clamp_time, close_session, dispatch_message, dropped_reply, handle_connection,
    handle_text,
    is_authorized, send_direct_message, send_group_message, send_info_message, send_message_all,
    stamp, ws, AccessCheck, Envelope, EnvelopeKind, Frame, MessageFlow, MessageStep, Reply,
    SessionStep, Stage, TextPlan, FANOUT_IN_FLIGHT, TIME_TOLERANCE_MS,
};
use chat_hub::route::rtc::{attach_rtc_handler, in_room, AttachEvent, Signal};

const A: u128 = 0xa;
const B: u128 = 0xb;
const C: u128 = 0xc;
const GROUP: u128 = 0x9;
const NOW: i64 = 1_700_000_000_000;

fn message(to: u128, kind: MessageType, time: i64) -> Message {
    Message {
        id: 0,
        from: 0xdead,
        to,
        data: Payload::Json("{\"t\":\"hi\"}".to_string()),
        time,
        kind,
    }
}

fn envelope() -> Envelope {
    Envelope { kind: EnvelopeKind::Offer, sdp: Some("v=0".to_string()), chat_id: 0x42 }
}

fn flow_of(sender: u128, message: Message) -> (MessageFlow, AccessCheck) {
    match handle_text(sender, Some(message), None, None, NOW) {
        TextPlan::Message { flow, check } => (flow, check),
        other => panic!("unexpected plan {:?}", other),
    }
}

#[test]
fn client_time_within_ten_seconds_stands() {
    assert_eq!(TIME_TOLERANCE_MS, 10_000);
    assert_eq!(clamp_time(NOW, NOW), NOW);
    assert_eq!(clamp_time(NOW + 10_000, NOW), NOW + 10_000);
    assert_eq!(clamp_time(NOW - 10_000, NOW), NOW - 10_000);
    assert_eq!(clamp_time(NOW + 3, NOW), NOW + 3);
}

#[test]
fn client_time_beyond_ten_seconds_is_replaced() {
    assert_eq!(clamp_time(NOW + 10_001, NOW), NOW);
    assert_eq!(clamp_time(NOW - 10_001, NOW), NOW);
    assert_eq!(clamp_time(NOW + 3_600_000, NOW), NOW);
}

#[test]
fn clamp_survives_the_ends_of_the_range() {
    assert_eq!(clamp_time(i64::MAX, i64::MIN), i64::MIN);
    assert_eq!(clamp_time(i64::MIN, i64::MAX), i64::MAX);
    assert_eq!(clamp_time(i64::MAX, i64::MAX - 10_000), i64::MAX);
    assert_eq!(clamp_time(i64::MIN, i64::MIN + 10_001), i64::MIN + 10_001);
}

#[test]
fn stamp_overwrites_the_sender() {
    let stamped = stamp(message(B, MessageType::Direct, NOW + 5), A, NOW);
    assert_eq!(stamped.from, A);
    assert_eq!(stamped.to, B);
    assert_eq!(stamped.time, NOW + 5);
    assert_eq!(stamped.kind, MessageType::Direct);
    assert_eq!(stamped.data, Payload::Json("{\"t\":\"hi\"}".to_string()));
}

#[test]
fn frames_are_classified() {
    assert_eq!(
        handle_connection(Some(Frame::Text("hello".to_string()))),
        SessionStep::Handle("hello".to_string())
    );
    assert_eq!(
        handle_connection(Some(Frame::Ping(vec![1, 2, 3]))),
        SessionStep::Pong(vec![1, 2, 3])
    );
    assert_eq!(handle_connection(Some(Frame::Pong(vec![9]))), SessionStep::Ignore);
    assert_eq!(handle_connection(Some(Frame::Close)), SessionStep::End);
    assert_eq!(handle_connection(None), SessionStep::End);
    assert_eq!(handle_connection(Some(Frame::Binary(vec![0]))), SessionStep::End);
    assert_eq!(handle_connection(Some(Frame::Continuation)), SessionStep::End);
    assert_eq!(handle_connection(Some(Frame::Nop)), SessionStep::End);
}

#[test]
fn text_that_is_a_message_is_handled_as_one() {
    let event = Event { time: NOW, event: Events::ChangeState(State::Idle) };
    let (flow, check) = match handle_text(
        A,
        Some(message(B, MessageType::Info, NOW)),
        Some(event),
        Some(envelope()),
        NOW,
    ) {
        TextPlan::Message { flow, check } => (flow, check),
        other => panic!("unexpected plan {:?}", other),
    };
    assert_eq!(flow.stage, Stage::Authorizing);
    assert_eq!(flow.message.from, A);
    assert_eq!(check, AccessCheck::Friends(A, B));
}

#[test]
fn text_that_is_only_an_event_is_handled_as_one() {
    let event = Event { time: NOW, event: Events::JoinReq(7) };
    assert_eq!(handle_text(A, None, Some(event), None, NOW), TextPlan::Event(event));
    assert_eq!(handle_text(A, None, Some(event), Some(envelope()), NOW), TextPlan::Event(event));
}

#[test]
fn text_that_is_only_a_session_description_is_handled_as_one() {
    assert_eq!(handle_text(A, None, None, Some(envelope()), NOW), TextPlan::Signal(envelope()));
}

#[test]
fn text_that_is_neither_is_a_bad_request() {
    assert_eq!(handle_text(A, None, None, None, NOW), TextPlan::Reject(HubError::BadRequest));
}

#[test]
fn access_is_checked_by_class() {
    let mut direct = message(B, MessageType::Direct, NOW);
    direct.from = A;
    assert_eq!(access_check(&direct), AccessCheck::Friends(A, B));
    let mut info = message(B, MessageType::Info, NOW);
    info.from = A;
    assert_eq!(access_check(&info), AccessCheck::Friends(A, B));
    let mut group = message(GROUP, MessageType::Group, NOW);
    group.from = A;
    assert_eq!(access_check(&group), AccessCheck::Member { user: A, group: GROUP });
    assert_eq!(access_check(&message(B, MessageType::Server, NOW)), AccessCheck::Denied);
}

#[test]
fn authorization_follows_the_store() {
    let direct = message(B, MessageType::Direct, NOW);
    assert!(is_authorized(&direct, Some(true)));
    assert!(!is_authorized(&direct, Some(false)));
    assert!(!is_authorized(&direct, None));
    let server = message(B, MessageType::Server, NOW);
    assert!(!is_authorized(&server, Some(true)));
    assert!(!is_authorized(&server, None));
}

#[test]
fn direct_message_fanout() {
    let mut state = AppState::new();
    ws(&mut state, A, "a".to_string(), 1);
    ws(&mut state, B, "b".to_string(), 2);
    let (mut flow, check) = flow_of(A, message(B, MessageType::Direct, NOW + 3_600_000));
    assert_eq!(check, AccessCheck::Friends(A, B));
    assert_eq!(flow.advance(Reply::Access(Some(true))), MessageStep::Persist);
    assert_eq!(flow.stage, Stage::Persisting);
    assert_eq!(
        flow.message,
        Message {
            id: 0,
            from: A,
            to: B,
            data: Payload::Json("{\"t\":\"hi\"}".to_string()),
            time: NOW,
            kind: MessageType::Direct,
        }
    );
    let tag: &'static str = flow.message.kind.into();
    assert_eq!(tag, "direct");
    assert_eq!(
        flow.advance(Reply::Saved(true)),
        MessageStep::Dispatch { members_of: None }
    );
    assert_eq!(flow.stage, Stage::Finished);
    assert_eq!(dispatch_message(&state, &flow.message, &vec![]), vec![2]);
}

#[test]
fn unauthorized_direct() {
    let mut state = AppState::new();
    ws(&mut state, A, "a".to_string(), 1);
    ws(&mut state, C, "c".to_string(), 3);
    let (mut flow, check) = flow_of(A, message(C, MessageType::Direct, NOW));
    assert_eq!(check, AccessCheck::Friends(A, C));
    assert_eq!(
        flow.advance(Reply::Access(Some(false))),
        MessageStep::Drop(HubError::Unauthorized)
    );
    assert_eq!(flow.stage, Stage::Finished);
    assert_eq!(flow.advance(Reply::Saved(true)), MessageStep::Wait);
    assert_eq!(flow.advance(Reply::Access(Some(true))), MessageStep::Wait);
    assert_eq!(HubError::Unauthorized.status(), 401);
}

#[test]
fn store_failure_during_authorization_drops_the_message() {
    let (mut flow, _) = flow_of(A, message(B, MessageType::Direct, NOW));
    assert_eq!(flow.advance(Reply::Access(None)), MessageStep::Drop(HubError::Unauthorized));
}

#[test]
fn info_message_is_never_persisted() {
    let (mut flow, _) = flow_of(A, message(B, MessageType::Info, NOW));
    assert_eq!(
        flow.advance(Reply::Access(Some(true))),
        MessageStep::Dispatch { members_of: None }
    );
    assert_eq!(flow.stage, Stage::Finished);
    assert_eq!(flow.advance(Reply::Saved(true)), MessageStep::Wait);
    assert!(!MessageType::Info.is_persisted());
    assert!(!MessageType::Server.is_persisted());
}

#[test]
fn server_message_from_a_client_is_rejected() {
    let (mut flow, check) = flow_of(A, message(B, MessageType::Server, NOW));
    assert_eq!(check, AccessCheck::Denied);
    assert_eq!(
        flow.advance(Reply::Access(Some(true))),
        MessageStep::Drop(HubError::Unauthorized)
    );
}

#[test]
fn group_message_is_persisted_then_sent_to_the_members() {
    let mut state = AppState::new();
    ws(&mut state, A, "a".to_string(), 1);
    ws(&mut state, B, "b".to_string(), 2);
    let (mut flow, check) = flow_of(A, message(GROUP, MessageType::Group, NOW));
    assert_eq!(check, AccessCheck::Member { user: A, group: GROUP });
    assert_eq!(flow.advance(Reply::Access(Some(true))), MessageStep::Persist);
    assert_eq!(
        flow.advance(Reply::Saved(true)),
        MessageStep::Dispatch { members_of: Some(GROUP) }
    );
    assert!(MessageType::Group.is_persisted());
    assert!(MessageType::Direct.is_persisted());
    assert_eq!(dispatch_message(&state, &flow.message, &vec![B, C, A]), vec![2, 1]);
}

#[test]
fn failed_write_drops_the_message_as_a_bad_request() {
    let (mut flow, _) = flow_of(A, message(B, MessageType::Direct, NOW));
    assert_eq!(flow.advance(Reply::Access(Some(true))), MessageStep::Persist);
    assert_eq!(flow.advance(Reply::Saved(false)), MessageStep::Drop(HubError::BadRequest));
    assert_eq!(flow.stage, Stage::Finished);
}

#[test]
fn answer_out_of_turn_is_waited_out() {
    let (mut flow, _) = flow_of(A, message(B, MessageType::Direct, NOW));
    assert_eq!(flow.advance(Reply::Saved(true)), MessageStep::Wait);
    assert_eq!(flow.stage, Stage::Authorizing);
    assert_eq!(flow.advance(Reply::Access(Some(true))), MessageStep::Persist);
    assert_eq!(flow.advance(Reply::Access(Some(true))), MessageStep::Wait);
    assert_eq!(flow.stage, Stage::Persisting);
}

#[test]
fn message_to_an_absent_recipient_goes_nowhere() {
    let mut state = AppState::new();
    ws(&mut state, A, "a".to_string(), 1);
    let mut direct = message(B, MessageType::Direct, NOW);
    direct.from = A;
    assert!(dispatch_message(&state, &direct, &vec![]).is_empty());
    assert_eq!(send_direct_message(&state, &direct), None);
    assert_eq!(send_info_message(&state, &direct), None);
}

#[test]
fn server_message_is_dispatched_to_nobody() {
    let mut state = AppState::new();
    ws(&mut state, B, "b".to_string(), 2);
    assert!(dispatch_message(&state, &message(B, MessageType::Server, NOW), &vec![B]).is_empty());
}

#[test]
fn direct_and_info_reach_the_recipient() {
    let mut state = AppState::new();
    ws(&mut state, B, "b".to_string(), 2);
    assert_eq!(send_direct_message(&state, &message(B, MessageType::Direct, NOW)), Some(2));
    assert_eq!(send_info_message(&state, &message(B, MessageType::Info, NOW)), Some(2));
    assert_eq!(dispatch_message(&state, &message(B, MessageType::Info, NOW), &vec![]), vec![2]);
}

#[test]
fn fanout_writes_ten_at_a_time() {
    assert_eq!(FANOUT_IN_FLIGHT, 10);
}

#[test]
fn fanout_reaches_the_connected_in_order() {
    let mut state = AppState::new();
    ws(&mut state, A, "a".to_string(), 1);
    ws(&mut state, C, "c".to_string(), 3);
    assert_eq!(send_message_all(&state, &vec![C, B, A, C]), vec![3, 1, 3]);
    assert_eq!(send_group_message(&state, &vec![B]), Vec::<u64>::new());
    assert_eq!(send_message_all(&state, &vec![]), Vec::<u64>::new());
}

#[test]
fn second_session_supersedes_the_first() {
    let mut state = AppState::new();
    ws(&mut state, A, "a".to_string(), 1);
    ws(&mut state, A, "a".to_string(), 5);
    assert_eq!(state.users.len(), 1);
    let live = state.users.get(&A).unwrap().value().clone();
    assert_eq!(live.ws_conn, 5);
    assert_eq!(live.state, State::Online);
    assert_eq!(live.username, "a");
}

#[test]
fn closed_session_leaves_presence_and_every_room() {
    let mut state = AppState::new();
    ws(&mut state, A, "a".to_string(), 1);
    ws(&mut state, B, "b".to_string(), 2);
    attach_rtc_handler(&mut state, A, 0x100, AttachEvent::Connected);
    attach_rtc_handler(&mut state, B, 0x100, AttachEvent::Connected);
    attach_rtc_handler(&mut state, A, 0x200, AttachEvent::Connected);
    attach_rtc_handler(&mut state, B, 0x300, AttachEvent::Connected);
    close_session(&mut state, A);
    assert!(!state.users.contains_key(&A));
    assert!(state.users.contains_key(&B));
    assert!(!in_room(&state, 0x100, A));
    assert!(in_room(&state, 0x100, B));
    assert!(!state.chats.contains_key(&0x200));
    assert!(in_room(&state, 0x300, B));
    assert_eq!(state.chats.len(), 2);
}

#[test]
fn bad_request_is_shown_to_the_sender() {
    assert_eq!(dropped_reply(HubError::BadRequest), Some(Signal::Error(HubError::BadRequest)));
    let (mut flow, _) = flow_of(A, message(B, MessageType::Direct, NOW));
    flow.advance(Reply::Access(Some(true)));
    match flow.advance(Reply::Saved(false)) {
        MessageStep::Drop(failure) => {
            assert_eq!(dropped_reply(failure), Some(Signal::Error(HubError::BadRequest)))
        }
        other => panic!("unexpected step {:?}", other),
    }
    match handle_text(A, None, None, None, NOW) {
        TextPlan::Reject(failure) => {
            assert_eq!(dropped_reply(failure), Some(Signal::Error(HubError::BadRequest)))
        }
        other => panic!("unexpected plan {:?}", other),
    }
}

#[test]
fn unauthorized_message_is_dropped_without_a_word() {
    assert_eq!(dropped_reply(HubError::Unauthorized), None);
    assert_eq!(dropped_reply(HubError::Conflict), None);
    assert_eq!(dropped_reply(HubError::NotFound), None);
    assert_eq!(dropped_reply(HubError::Internal), None);
}
