use chat_hub::models::{
    AddFriend, AppState, Event, Events, Message, MessageType, Payload, State,
};
use chat_hub::route::event::{add_friend, search_users, UserId};
use chat_hub::route::message::{
    channel_peers, event_query, handle_event, ws, EventContext, EventQuery, Outbox,
};
use chat_hub::db::UserDB;

const A: u128 = 0xa;
const B: u128 = 0xb;
const C: u128 = 0xc;
const D: u128 = 0xd;
const NOW: i64 = 1_700_000_000_000;

fn context(friends: Vec<u128>, added: Option<AddFriend>) -> EventContext {
    EventContext { friends, added, notice_id: 0x77, now: NOW }
}

fn event(event: Events) -> Event {
    Event { time: NOW, event }
}

fn user(id: u128, username: &str) -> UserDB {
    UserDB {
        id,
        avatar: Some(format!("{}.png", username)),
        name: username.to_uppercase(),
        username: username.to_string(),
        email: format!("{}@example.org", username),
        password_hash: Some("hash".to_string()),
        created_at: Some(NOW),
    }
}

#[test]
fn presence_broadcast() {
    let mut state = AppState::new();
    ws(&mut state, A, "a".to_string(), 1);
    ws(&mut state, B, "b".to_string(), 2);
    ws(&mut state, D, "d".to_string(), 4);
    let change = event(Events::ChangeState(State::Idle));
    assert_eq!(event_query(A, &change), EventQuery::Friends(A));
    let outbox = handle_event(&mut state, A, change, &context(vec![B, C, D], None)).unwrap();
    assert_eq!(outbox.conns, vec![2, 4]);
    assert_eq!(
        outbox.message,
        Message {
            id: 0,
            from: A,
            to: 0,
            data: Payload::ChangedState(State::Idle),
            time: 0,
            kind: MessageType::Server,
        }
    );
    assert_eq!(outbox.message.data.event_name(), "changed_state");
    assert_eq!(State::Idle.name(), "Idle");
    let tag: &'static str = outbox.message.kind.into();
    assert_eq!(tag, "server");
    assert_eq!(state.users.get(&A).unwrap().state, State::Idle);
    assert_eq!(state.users.get(&A).unwrap().ws_conn, 1);
    assert_eq!(state.users.get(&B).unwrap().state, State::Online);
}

#[test]
fn change_of_state_of_a_user_that_is_not_connected_does_nothing() {
    let mut state = AppState::new();
    ws(&mut state, B, "b".to_string(), 2);
    let change = event(Events::ChangeState(State::Dnd));
    assert_eq!(handle_event(&mut state, A, change, &context(vec![B], None)), None);
    assert!(!state.users.contains_key(&A));
    assert_eq!(state.users.get(&B).unwrap().state, State::Online);
}

#[test]
fn join_channel_is_announced_to_the_peers() {
    let mut state = AppState::new();
    ws(&mut state, A, "a".to_string(), 1);
    ws(&mut state, B, "b".to_string(), 2);
    ws(&mut state, C, "c".to_string(), 3);
    let none = context(vec![], None);
    let first =
        handle_event(&mut state, B, event(Events::JoinChannel { id: 0x50, direct: false }), &none);
    assert_eq!(first.unwrap().conns, Vec::<u64>::new());
    handle_event(&mut state, C, event(Events::JoinChannel { id: 0x60, direct: true }), &none);
    let join = event(Events::JoinChannel { id: 0x50, direct: false });
    assert_eq!(event_query(A, &join), EventQuery::Nothing);
    let outbox = handle_event(&mut state, A, join, &none).unwrap();
    assert_eq!(outbox.conns, vec![2]);
    assert_eq!(outbox.message.from, A);
    assert_eq!(outbox.message.kind, MessageType::Server);
    assert_eq!(outbox.message.data, Payload::JoinChannel(0x50));
    assert_eq!(outbox.message.data.event_name(), "join_channel");
    assert_eq!(*state.chat_users.get(&A).unwrap(), 0x50);
    let mut peers = channel_peers(&state, 0x50, 0);
    peers.sort();
    assert_eq!(peers, vec![A, B]);
    assert_eq!(channel_peers(&state, 0x50, A), vec![B]);
}

#[test]
fn exit_channel_is_announced_to_those_who_remain() {
    let mut state = AppState::new();
    ws(&mut state, A, "a".to_string(), 1);
    ws(&mut state, B, "b".to_string(), 2);
    ws(&mut state, C, "c".to_string(), 3);
    let none = context(vec![], None);
    for user in [A, B] {
        handle_event(&mut state, user, event(Events::JoinChannel { id: 0x50, direct: false }), &none);
    }
    handle_event(&mut state, C, event(Events::JoinChannel { id: 0x60, direct: false }), &none);
    let outbox =
        handle_event(&mut state, A, event(Events::ExitChannel { direct: false }), &none).unwrap();
    assert_eq!(outbox.conns, vec![2]);
    assert_eq!(
        outbox.message,
        Message {
            id: 0,
            from: A,
            to: 0,
            data: Payload::ExitChannel,
            time: 0,
            kind: MessageType::Server,
        }
    );
    assert_eq!(outbox.message.data.event_name(), "exit_channel");
    assert!(!state.chat_users.contains_key(&A));
    assert!(state.chat_users.contains_key(&B));
}

#[test]
fn exit_without_a_channel_does_nothing() {
    let mut state = AppState::new();
    ws(&mut state, A, "a".to_string(), 1);
    let none = context(vec![], None);
    assert_eq!(
        handle_event(&mut state, A, event(Events::ExitChannel { direct: true }), &none),
        None
    );
    assert!(state.chat_users.is_empty());
}

#[test]
fn friend_request_is_told_to_the_other_user() {
    let mut state = AppState::new();
    ws(&mut state, A, "a".to_string(), 1);
    ws(&mut state, B, "b".to_string(), 2);
    let request = event(Events::FriendReq(B));
    assert_eq!(event_query(A, &request), EventQuery::AddFriend { user: A, friend: B });
    let outbox =
        handle_event(&mut state, A, request, &context(vec![], Some(AddFriend::Request))).unwrap();
    assert_eq!(
        outbox,
        Outbox {
            message: Message {
                id: 0x77,
                from: A,
                to: B,
                data: Payload::Friend(AddFriend::Request),
                time: NOW,
                kind: MessageType::Info,
            },
            conns: vec![2],
        }
    );
    assert_eq!(outbox.message.data.event_name(), "friend_request");
    let done =
        handle_event(&mut state, B, event(Events::FriendReq(A)), &context(vec![], Some(AddFriend::Add)))
            .unwrap();
    assert_eq!(done.conns, vec![1]);
    assert_eq!(done.message.data.event_name(), "friend_added");
}

#[test]
fn friend_request_that_the_store_refused_is_not_announced() {
    let mut state = AppState::new();
    ws(&mut state, B, "b".to_string(), 2);
    assert_eq!(
        handle_event(&mut state, A, event(Events::FriendReq(B)), &context(vec![], None)),
        None
    );
}

#[test]
fn friend_request_to_an_absent_user_reaches_nobody() {
    let mut state = AppState::new();
    let outbox = handle_event(
        &mut state,
        A,
        event(Events::FriendReq(B)),
        &context(vec![], Some(AddFriend::Request)),
    )
    .unwrap();
    assert!(outbox.conns.is_empty());
}

#[test]
fn join_request_is_a_no_op() {
    let mut state = AppState::new();
    ws(&mut state, A, "a".to_string(), 1);
    let request = event(Events::JoinReq(0x50));
    assert_eq!(event_query(A, &request), EventQuery::Nothing);
    assert_eq!(handle_event(&mut state, A, request, &context(vec![B], None)), None);
    assert!(state.chat_users.is_empty());
    assert_eq!(state.users.len(), 1);
}

#[test]
fn friend_request_over_http_answers_and_notifies() {
    let mut state = AppState::new();
    ws(&mut state, B, "b".to_string(), 2);
    let sent = add_friend(&state, A, &UserId { user_id: B }, AddFriend::Request, 0x77, NOW);
    assert_eq!(sent.action, "friend_request_sent");
    let notice = sent.notice.unwrap();
    assert_eq!(notice.conns, vec![2]);
    assert_eq!(notice.message.kind, MessageType::Info);
    assert_eq!(notice.message.from, A);
    assert_eq!(notice.message.id, 0x77);
    assert_eq!(notice.message.time, NOW);
    assert_eq!(notice.message.data.event_name(), "friend_request");
    let added = add_friend(&state, B, &UserId { user_id: A }, AddFriend::Add, 0x78, NOW);
    assert_eq!(added.action, "friend_added");
    assert_eq!(added.notice, None);
}

#[test]
fn search_marks_friends_and_hides_private_fields() {
    let users = vec![user(A, "ada"), user(B, "adam"), user(C, "adele")];
    let friends = vec![user(C, "adele"), user(D, "dora"), user(A, "ada")];
    let results = search_users(&users, &friends);
    assert_eq!(results.len(), 3);
    let flags: Vec<bool> = results.iter().map(|result| result.is_friend).collect();
    assert_eq!(flags, vec![true, false, true]);
    assert_eq!(
        results[1].user,
        UserDB {
            id: B,
            avatar: Some("adam.png".to_string()),
            name: "ADAM".to_string(),
            username: "adam".to_string(),
            email: String::new(),
            password_hash: None,
            created_at: None,
        }
    );
    assert!(search_users(&vec![], &friends).is_empty());
    assert!(!search_users(&users, &vec![])[0].is_friend);
}
