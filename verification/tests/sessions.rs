use chat_relay::{
    handle_frame, join_room, leave_room, send_to_senders, FrameOutcome, JoinOutcome, LeaveOutcome,
    Registry,
};
use tokio::sync::mpsc::{unbounded_channel, UnboundedReceiver, UnboundedSender};
use warp::ws::Message as WsFrame;

type Rx = UnboundedReceiver<WsFrame>;
type Tx = UnboundedSender<WsFrame>;

fn channel() -> (Tx, Rx) {
    unbounded_channel::<WsFrame>()
}

fn recv_text(rx: &mut Rx) -> String {
    rx.try_recv().unwrap().to_str().unwrap().to_string()
}

fn join(
    reg: &mut Registry,
    user: &str,
    room: &str,
    create: bool,
    tx: Tx,
) -> (Vec<String>, Vec<Tx>, String, String) {
    match join_room(reg, &user.to_string(), &room.to_string(), create, tx) {
        JoinOutcome::Joined { history, recipients, join_msg, users_msg } => {
            (history, recipients, join_msg, users_msg)
        }
        JoinOutcome::NotFound { .. } => panic!("expected a successful join"),
    }
}

#[test]
fn create_join_chat_end_scenario() {
    let mut reg = Registry::new();
    let (alice_tx, mut alice_rx) = channel();
    let (bob_tx, mut bob_rx) = channel();

    // alice joins "lobby" with create set: the room appears, alice is admin
    let (history, recipients, join_msg, users_msg) = join(&mut reg, "alice", "lobby", true, alice_tx);
    assert_eq!(reg.rooms.len(), 1);
    assert_eq!(reg.rooms[0].name, "lobby");
    assert_eq!(reg.rooms[0].admin, "alice");
    assert!(history.is_empty());
    assert_eq!(recipients.len(), 1);
    assert_eq!(join_msg, "✅ alice joined 'lobby'");
    assert_eq!(users_msg, "__users__[{\"admin\":true,\"username\":\"alice\"}]");
    send_to_senders(recipients.clone(), &join_msg);
    send_to_senders(recipients, &users_msg);
    assert_eq!(recv_text(&mut alice_rx), "✅ alice joined 'lobby'");
    assert_eq!(recv_text(&mut alice_rx), "__users__[{\"admin\":true,\"username\":\"alice\"}]");

    // alice sends "hi": every member (just alice) gets the admin-tagged JSON
    let out = handle_frame(&mut reg, &"lobby".to_string(), &"alice".to_string(), &"hi".to_string());
    let first_payload = match out {
        FrameOutcome::Chat { recipients, payload } => {
            assert_eq!(recipients.len(), 1);
            send_to_senders(recipients, &payload);
            payload
        }
        _ => panic!("expected a chat broadcast"),
    };
    let delivered = recv_text(&mut alice_rx);
    assert_eq!(delivered, first_payload);
    let v: serde_json::Value = serde_json::from_str(&delivered).unwrap();
    assert_eq!(v.get("username").unwrap().as_str().unwrap(), "alice");
    assert_eq!(v.get("text").unwrap().as_str().unwrap(), "hi");
    assert_eq!(v.get("room").unwrap().as_str().unwrap(), "lobby");
    assert_eq!(v.get("admin").unwrap().as_bool().unwrap(), true);

    // bob joins without create: the one-message history first, then notice and roster
    let (history, recipients, join_msg, users_msg) = join(&mut reg, "bob", "lobby", false, bob_tx);
    assert_eq!(history, vec![first_payload.clone()]);
    for h in &history {
        send_to_senders(vec![reg.rooms[0].clients[1].sender.clone()], h);
    }
    assert_eq!(recv_text(&mut bob_rx), first_payload);
    assert_eq!(recipients.len(), 2);
    assert_eq!(join_msg, "✅ bob joined 'lobby'");
    assert_eq!(
        users_msg,
        "__users__[{\"admin\":true,\"username\":\"alice\"},{\"admin\":false,\"username\":\"bob\"}]"
    );
    send_to_senders(recipients.clone(), &join_msg);
    send_to_senders(recipients, &users_msg);
    assert_eq!(recv_text(&mut bob_rx), "✅ bob joined 'lobby'");

    // alice ends the room: both get the signal, the room is gone
    let out = handle_frame(&mut reg, &"lobby".to_string(), &"alice".to_string(), &"/end".to_string());
    match out {
        FrameOutcome::RoomEnded { recipients, signal } => {
            assert_eq!(signal, "__room_ended__");
            assert_eq!(recipients.len(), 2);
            send_to_senders(recipients, &signal);
        }
        _ => panic!("expected the room to end"),
    }
    assert!(reg.rooms.is_empty());
    assert_eq!(recv_text(&mut bob_rx), "__users__[{\"admin\":true,\"username\":\"alice\"},{\"admin\":false,\"username\":\"bob\"}]");
    assert_eq!(recv_text(&mut bob_rx), "__room_ended__");

    // a later join without create is told the room is not there
    let (tx, mut rx) = channel();
    match join_room(&mut reg, &"carol".to_string(), &"lobby".to_string(), false, tx.clone()) {
        JoinOutcome::NotFound { notice } => {
            assert_eq!(notice, "❌ Room not found");
            send_to_senders(vec![tx], &notice);
        }
        _ => panic!("expected not-found"),
    }
    assert_eq!(recv_text(&mut rx), "❌ Room not found");
    assert!(reg.rooms.is_empty());
}

#[test]
fn admin_departure_hands_off_to_first_remaining() {
    let mut reg = Registry::new();
    let (alice_tx, _alice_rx) = channel();
    let (bob_tx, mut bob_rx) = channel();
    join(&mut reg, "alice", "lobby", true, alice_tx);
    join(&mut reg, "bob", "lobby", false, bob_tx);

    let out = leave_room(&mut reg, &"lobby".to_string(), &"alice".to_string());
    match out {
        LeaveOutcome::Left { recipients, left_msg, users_msg, new_admin, room_removed } => {
            assert!(!room_removed);
            assert_eq!(new_admin.as_deref(), Some("bob"));
            assert_eq!(left_msg, "⚠️ alice left 'lobby'");
            assert_eq!(users_msg, "__users__[{\"admin\":true,\"username\":\"bob\"}]");
            assert_eq!(recipients.len(), 1);
            send_to_senders(recipients.clone(), &left_msg);
            send_to_senders(recipients.clone(), &users_msg);
            send_to_senders(recipients, &chat_relay::build_new_admin_msg("bob"));
        }
        _ => panic!("expected a departure"),
    }
    assert_eq!(reg.rooms.len(), 1);
    assert_eq!(reg.rooms[0].admin, "bob");
    assert_eq!(recv_text(&mut bob_rx), "⚠️ alice left 'lobby'");
    assert_eq!(recv_text(&mut bob_rx), "__users__[{\"admin\":true,\"username\":\"bob\"}]");
    assert_eq!(recv_text(&mut bob_rx), "__new_admin__bob");
    assert!(bob_rx.try_recv().is_err());
}

#[test]
fn last_departure_removes_room_and_recreate_is_fresh() {
    let mut reg = Registry::new();
    let (alice_tx, _alice_rx) = channel();
    join(&mut reg, "alice", "lobby", true, alice_tx);
    handle_frame(&mut reg, &"lobby".to_string(), &"alice".to_string(), &"hi".to_string());
    assert_eq!(reg.rooms[0].message_history.len(), 1);

    let out = leave_room(&mut reg, &"lobby".to_string(), &"alice".to_string());
    match out {
        LeaveOutcome::Left { recipients, new_admin, room_removed, .. } => {
            assert!(room_removed);
            assert!(recipients.is_empty());
            assert!(new_admin.is_none());
        }
        _ => panic!("expected a departure"),
    }
    assert!(reg.rooms.is_empty());

    let (tx, _rx) = channel();
    let (history, ..) = join(&mut reg, "dave", "lobby", true, tx);
    assert!(history.is_empty());
    assert_eq!(reg.rooms[0].admin, "dave");
    assert!(reg.rooms[0].message_history.is_empty());
}

#[test]
fn typing_goes_to_everyone_but_the_typer() {
    let mut reg = Registry::new();
    let (alice_tx, mut alice_rx) = channel();
    let (bob_tx, mut bob_rx) = channel();
    join(&mut reg, "alice", "lobby", true, alice_tx);
    join(&mut reg, "bob", "lobby", false, bob_tx);

    let out = handle_frame(
        &mut reg,
        &"lobby".to_string(),
        &"alice".to_string(),
        &"__typing__anything".to_string(),
    );
    match out {
        FrameOutcome::Typing { recipients, notice } => {
            assert_eq!(notice, "__typing__alice");
            assert_eq!(recipients.len(), 1);
            send_to_senders(recipients, &notice);
        }
        _ => panic!("expected a typing notice"),
    }
    assert_eq!(recv_text(&mut bob_rx), "__typing__alice");
    assert!(alice_rx.try_recv().is_err());
    // typing is not part of history
    assert!(reg.rooms[0].message_history.is_empty());
}

#[test]
fn end_command_from_non_admin_is_plain_chat() {
    let mut reg = Registry::new();
    let (alice_tx, _a) = channel();
    let (bob_tx, _b) = channel();
    join(&mut reg, "alice", "lobby", true, alice_tx);
    join(&mut reg, "bob", "lobby", false, bob_tx);

    let out = handle_frame(&mut reg, &"lobby".to_string(), &"bob".to_string(), &"/end".to_string());
    match out {
        FrameOutcome::Chat { payload, .. } => {
            let v: serde_json::Value = serde_json::from_str(&payload).unwrap();
            assert_eq!(v.get("text").unwrap().as_str().unwrap(), "/end");
            assert_eq!(v.get("username").unwrap().as_str().unwrap(), "bob");
            assert!(v.get("admin").is_none());
        }
        _ => panic!("expected plain chat"),
    }
    assert_eq!(reg.rooms.len(), 1);
    assert_eq!(reg.rooms[0].message_history.len(), 1);
}

#[test]
fn history_replays_in_order_to_late_joiner() {
    let mut reg = Registry::new();
    let (alice_tx, _a) = channel();
    join(&mut reg, "alice", "lobby", true, alice_tx);
    let mut sent: Vec<String> = Vec::new();
    for text in ["one", "two", "three"] {
        match handle_frame(&mut reg, &"lobby".to_string(), &"alice".to_string(), &text.to_string())
        {
            FrameOutcome::Chat { payload, .. } => sent.push(payload),
            _ => panic!("expected chat"),
        }
    }
    let (bob_tx, _b) = channel();
    let (history, ..) = join(&mut reg, "bob", "lobby", false, bob_tx);
    assert_eq!(history, sent);
}

#[test]
fn missing_room_actions_are_silent_noops() {
    let mut reg = Registry::new();
    let out = handle_frame(&mut reg, &"ghost".to_string(), &"alice".to_string(), &"hi".to_string());
    assert!(matches!(out, FrameOutcome::NoRoom));
    let out = leave_room(&mut reg, &"ghost".to_string(), &"alice".to_string());
    assert!(matches!(out, LeaveOutcome::NoRoom));
    assert!(reg.rooms.is_empty());
}

#[test]
fn registry_create_is_idempotent_and_remove_tolerates_absence() {
    let mut reg = Registry::new();
    assert!(reg.create_if_absent(&"lobby".to_string(), &"alice".to_string()));
    assert!(!reg.create_if_absent(&"lobby".to_string(), &"bob".to_string()));
    assert_eq!(reg.rooms.len(), 1);
    assert_eq!(reg.rooms[0].admin, "alice");
    reg.remove(&"lobby".to_string());
    reg.remove(&"lobby".to_string());
    assert!(reg.rooms.is_empty());
}

#[test]
fn sends_to_closed_channels_are_ignored() {
    let (tx, rx) = channel();
    drop(rx);
    let (live_tx, mut live_rx) = channel();
    send_to_senders(vec![tx, live_tx], "still delivered");
    assert_eq!(recv_text(&mut live_rx), "still delivered");
}

#[test]
fn duplicate_usernames_stay_independent_members() {
    let mut reg = Registry::new();
    let (a1, _r1) = channel();
    let (a2, _r2) = channel();
    join(&mut reg, "alice", "lobby", true, a1);
    let (_, _, _, users_msg) = join(&mut reg, "alice", "lobby", false, a2);
    assert_eq!(
        users_msg,
        "__users__[{\"admin\":true,\"username\":\"alice\"},{\"admin\":true,\"username\":\"alice\"}]"
    );
    assert_eq!(reg.rooms[0].clients.len(), 2);
}
