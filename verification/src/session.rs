use crate::channel::send_text;
use crate::message::Message;
use crate::registry::Registry;
use crate::room::{has_user, senders_of, users_msg_view, without_user, Client, Room};
use crate::wire;
use tokio::sync::mpsc::UnboundedSender;
use vstd::prelude::*;
use vstd::string::StringExecFns;
use warp::ws::Message as WsFrame;

verus! {

/// What a connecting client gets back from its join attempt.
pub enum JoinOutcome {
    /// The room exists (or was just created) and the client is now a
    /// member: the history replay for the new client alone, then the join
    /// notice and the fresh roster for every member including the new one.
    Joined {
        history: Vec<String>,
        recipients: Vec<UnboundedSender<WsFrame>>,
        join_msg: String,
        users_msg: String,
    },
    /// The room does not exist and creation was not requested: the notice
    /// goes to the connecting client alone and the session ends.
    NotFound { notice: String },
}

/// What one inbound text frame turns into.
pub enum FrameOutcome {
    /// The admin ended the room: it is gone from the registry and the
    /// signal goes to every member it had.
    RoomEnded { recipients: Vec<UnboundedSender<WsFrame>>, signal: String },
    /// A typing indicator: nothing is recorded, the notice goes to every
    /// member but the typer.
    Typing { recipients: Vec<UnboundedSender<WsFrame>>, notice: String },
    /// An ordinary chat message: appended to the history and sent to every
    /// member including the sender.
    Chat { recipients: Vec<UnboundedSender<WsFrame>>, payload: String },
    /// The room has gone away meanwhile: a silent no-op.
    NoRoom,
}

/// What a departure turns into.
pub enum LeaveOutcome {
    /// The room has gone away meanwhile: a silent no-op.
    NoRoom,
    /// The member was removed: the departure notice and fresh roster go to
    /// the remaining members, `new_admin` names the successor if the admin
    /// left, and `room_removed` reports that the emptied room was dropped
    /// from the registry.
    Left {
        recipients: Vec<UnboundedSender<WsFrame>>,
        left_msg: String,
        users_msg: String,
        new_admin: Option<String>,
        room_removed: bool,
    },
}

proof fn lemma_has_user_push(clients: Seq<Client>, c: Client, name: Seq<char>)
    requires
        has_user(clients, name) || c.username@ == name,
    ensures
        has_user(clients.push(c), name),
{
    if has_user(clients, name) {
        let k = choose|k: int| 0 <= k < clients.len() && clients[k].username@ == name;
        assert(clients.push(c)[k].username@ == name);
    } else {
        assert(clients.push(c)[clients.len() as int].username@ == name);
    }
}

proof fn lemma_without_user_keeps(clients: Seq<Client>, name: Seq<char>, adm: Seq<char>)
    requires
        has_user(clients, adm),
        adm != name,
    ensures
        has_user(without_user(clients, name), adm),
    decreases clients.len(),
{
    let k = choose|k: int| 0 <= k < clients.len() && clients[k].username@ == adm;
    if k == clients.len() - 1 {
        assert(clients.last().username@ == adm);
        let w = without_user(clients.drop_last(), name);
        assert(without_user(clients, name) == w.push(clients.last()));
        assert(w.push(clients.last())[w.len() as int].username@ == adm);
    } else {
        assert(clients.drop_last()[k].username@ == adm);
        assert(has_user(clients.drop_last(), adm));
        lemma_without_user_keeps(clients.drop_last(), name, adm);
        if clients.last().username@ == name {
            assert(without_user(clients, name) == without_user(clients.drop_last(), name));
        } else {
            let w = without_user(clients.drop_last(), name);
            let j = choose|j: int| 0 <= j < w.len() && w[j].username@ == adm;
            assert(w.push(clients.last())[j].username@ == adm);
        }
    }
}

proof fn lemma_quiescent_remove(pre: Registry, post: Registry, i: int)
    requires
        pre.quiescent(),
        0 <= i < pre.rooms@.len(),
        post.rooms@ == pre.rooms@.remove(i),
    ensures
        post.quiescent(),
{
    assert forall|k: int| 0 <= k < post.rooms@.len() implies #[trigger] post.rooms@[k]
        == pre.rooms@[if k < i {
        k
    } else {
        k + 1
    }] by {}
}

proof fn lemma_quiescent_update(pre: Registry, post: Registry, i: int)
    requires
        pre.quiescent(),
        0 <= i < pre.rooms@.len(),
        post.rooms@ == pre.rooms@.update(i, post.rooms@[i]),
        post.rooms@[i].name@ == pre.rooms@[i].name@,
        post.rooms@[i].clients@.len() > 0,
        post.rooms@[i].admin_ok(),
    ensures
        post.quiescent(),
{
    assert forall|k: int| 0 <= k < post.rooms@.len() && k != i implies #[trigger] post.rooms@[k]
        == pre.rooms@[k] by {}
}

/// Joins `username` to the room called `room_name`, creating it first when
/// `create` is set and no such room exists. One registry critical section:
/// the caller holds the lock around this call and performs the deliveries
/// afterwards, history strictly first and to the new client only.
pub fn join_room(
    reg: &mut Registry,
    username: &String,
    room_name: &String,
    create: bool,
    sender: UnboundedSender<WsFrame>,
) -> (out: JoinOutcome)
    requires
        old(reg).quiescent(),
    ensures
        final(reg).quiescent(),
        !old(reg).has_room(room_name@) && !create ==> *final(reg) == *old(reg) && (match out {
            JoinOutcome::NotFound { notice } => notice@ == wire::not_found_notice(),
            _ => false,
        }),
        old(reg).has_room(room_name@) ==> (match out {
            JoinOutcome::Joined { history, recipients, join_msg, users_msg } => {
                let i = old(reg).idx_of(room_name@);
                let before = old(reg).rooms@[i];
                let after = final(reg).rooms@[i];
                &&& final(reg).rooms@ == old(reg).rooms@.update(i, after)
                &&& after.name@ == before.name@
                &&& after.admin@ == before.admin@
                &&& after.message_history@ == before.message_history@
                &&& after.clients@ == before.clients@.push(
                    (Client { username: *username, sender }),
                )
                &&& history@.len() == before.message_history@.len()
                &&& (forall|k: int|
                    0 <= k < history@.len() ==> (#[trigger] history@[k])@
                        == before.message_history@[k].json_view())
                &&& recipients@ == senders_of(after.clients@)
                &&& join_msg@ == wire::join_notice_view(username@, room_name@)
                &&& users_msg@ == users_msg_view(after.clients@, after.admin@)
            },
            _ => false,
        }),
        !old(reg).has_room(room_name@) && create ==> (match out {
            JoinOutcome::Joined { history, recipients, join_msg, users_msg } => {
                let after = final(reg).rooms@.last();
                &&& final(reg).rooms@.len() == old(reg).rooms@.len() + 1
                &&& final(reg).rooms@.take(old(reg).rooms@.len() as int) == old(reg).rooms@
                &&& after.name@ == room_name@
                &&& after.admin@ == username@
                &&& after.message_history@.len() == 0
                &&& after.clients@.len() == 1
                &&& after.clients@[0].username@ == username@
                &&& after.clients@[0].sender == sender
                &&& history@.len() == 0
                &&& recipients@ == senders_of(after.clients@)
                &&& join_msg@ == wire::join_notice_view(username@, room_name@)
                &&& users_msg@ == users_msg_view(after.clients@, after.admin@)
            },
            _ => false,
        }),
{
    let ghost entry = *reg;
    if create {
        reg.create_if_absent(room_name, username);
    }
    match reg.find(room_name) {
        None => JoinOutcome::NotFound { notice: String::from_str("❌ Room not found") },
        Some(i) => {
            let mut room = reg.rooms.remove(i);
            let ghost before = room;
            let mut history: Vec<String> = Vec::new();
            let hn = room.message_history.len();
            let mut k: usize = 0;
            while k < hn
                invariant
                    hn == room.message_history@.len(),
                    k <= hn,
                    history@.len() == k,
                    forall|j: int|
                        0 <= j < k ==> (#[trigger] history@[j])@
                            == room.message_history@[j].json_view(),
                decreases hn - k,
            {
                history.push(room.message_history[k].to_json());
                k = k + 1;
            }
            room.clients.push(Client { username: username.clone(), sender });
            let recipients = room.collect_senders();
            let users_msg = room.build_users_list_msg();
            let join_msg = wire::build_join_notice(username.as_str(), room.name.as_str());
            reg.rooms.insert(i, room);
            proof {
                if entry.has_room(room_name@) {
                    assert(reg.rooms@ =~= entry.rooms@.update(i as int, reg.rooms@[i as int]));
                    lemma_has_user_push(
                        before.clients@,
                        (Client { username: *username, sender }),
                        before.admin@,
                    );
                    lemma_quiescent_update(entry, *reg, i as int);
                } else {
                    assert(i as int == entry.rooms@.len());
                    assert(reg.rooms@ =~= reg.rooms@.update(i as int, reg.rooms@[i as int]));
                    assert(reg.rooms@.take(entry.rooms@.len() as int) =~= entry.rooms@);
                    assert(reg.rooms@.last().clients@[0].username@ == username@);
                    assert(reg.rooms@.last().admin_ok());
                    assert forall|a: int, b: int|
                        0 <= a < b < reg.rooms@.len() implies (#[trigger] reg.rooms@[a]).name@ != (
                    #[trigger] reg.rooms@[b]).name@ by {
                        if b < reg.rooms@.len() - 1 {
                            assert(entry.rooms@[a].name@ != entry.rooms@[b].name@);
                        } else {
                            assert(!entry.has_room(room_name@));
                        }
                    }
                }
            }
            JoinOutcome::Joined { history, recipients, join_msg, users_msg }
        },
    }
}

/// Applies one inbound text frame from `username` to the room, under the
/// caller's registry lock. The end-of-room command from the admin wins over
/// everything, the typing tag wins over plain chat, and anything else is
/// chat text taken verbatim.
pub fn handle_frame(
    reg: &mut Registry,
    room_name: &String,
    username: &String,
    text: &String,
) -> (out: FrameOutcome)
    requires
        old(reg).quiescent(),
    ensures
        final(reg).quiescent(),
        !old(reg).has_room(room_name@) ==> *final(reg) == *old(reg) && (out is NoRoom),
        old(reg).has_room(room_name@) ==> {
            let i = old(reg).idx_of(room_name@);
            let room = old(reg).rooms@[i];
            if text@ == wire::end_command() && room.admin@ == username@ {
                match out {
                    FrameOutcome::RoomEnded { recipients, signal } => {
                        &&& final(reg).rooms@ == old(reg).rooms@.remove(i)
                        &&& !final(reg).has_room(room_name@)
                        &&& recipients@ == senders_of(room.clients@)
                        &&& signal@ == wire::room_ended_msg()
                    },
                    _ => false,
                }
            } else if wire::is_typing_frame(text@) {
                match out {
                    FrameOutcome::Typing { recipients, notice } => {
                        &&& *final(reg) == *old(reg)
                        &&& recipients@ == senders_of(without_user(room.clients@, username@))
                        &&& notice@ == wire::typing_msg_view(username@)
                    },
                    _ => false,
                }
            } else {
                match out {
                    FrameOutcome::Chat { recipients, payload } => {
                        let after = final(reg).rooms@[i];
                        let m = after.message_history@.last();
                        &&& final(reg).rooms@ == old(reg).rooms@.update(i, after)
                        &&& after.name@ == room.name@
                        &&& after.admin@ == room.admin@
                        &&& after.clients@ == room.clients@
                        &&& after.message_history@.len() == room.message_history@.len() + 1
                        &&& after.message_history@.take(room.message_history@.len() as int)
                            == room.message_history@
                        &&& m.username@ == username@
                        &&& m.text@ == text@
                        &&& m.room@ == room.name@
                        &&& m.admin == (if room.admin@ == username@ {
                            Some(true)
                        } else {
                            None::<bool>
                        })
                        &&& payload@ == m.json_view()
                        &&& recipients@ == senders_of(room.clients@)
                    },
                    _ => false,
                }
            }
        },
{
    let ghost entry = *reg;
    match reg.find(room_name) {
        None => FrameOutcome::NoRoom,
        Some(i) => {
            let end_cmd = String::from_str("/end");
            if *text == end_cmd && reg.rooms[i].admin == *username {
                let recipients = reg.rooms[i].collect_senders();
                reg.remove(room_name);
                FrameOutcome::RoomEnded {
                    recipients,
                    signal: String::from_str("__room_ended__"),
                }
            } else if wire::frame_is_typing(text.as_str()) {
                let recipients = reg.rooms[i].collect_senders_except(username);
                FrameOutcome::Typing {
                    recipients,
                    notice: wire::build_typing_msg(username.as_str()),
                }
            } else {
                let mut room = reg.rooms.remove(i);
                let ghost before = room;
                let mut m = Message::new(username.as_str(), room.name.as_str(), text.as_str());
                if room.admin == *username {
                    m.admin = Some(true);
                }
                let payload = m.to_json();
                let recipients = room.collect_senders();
                room.message_history.push(m);
                reg.rooms.insert(i, room);
                proof {
                    assert(reg.rooms@ =~= entry.rooms@.update(i as int, reg.rooms@[i as int]));
                    assert(reg.rooms@[i as int].message_history@.take(
                        before.message_history@.len() as int,
                    ) =~= before.message_history@);
                    lemma_quiescent_update(entry, *reg, i as int);
                }
                FrameOutcome::Chat { recipients, payload }
            }
        },
    }
}

/// Removes `username` from the room on disconnect, under the caller's
/// registry lock: every member of that name goes, an emptied room is
/// dropped from the registry at once, and if the admin left a surviving
/// room the first remaining member in join order succeeds as admin.
pub fn leave_room(reg: &mut Registry, room_name: &String, username: &String) -> (out: LeaveOutcome)
    requires
        old(reg).quiescent(),
    ensures
        final(reg).quiescent(),
        !old(reg).has_room(room_name@) ==> *final(reg) == *old(reg) && (out is NoRoom),
        old(reg).has_room(room_name@) ==> {
            let i = old(reg).idx_of(room_name@);
            let room = old(reg).rooms@[i];
            let rem = without_user(room.clients@, username@);
            match out {
                LeaveOutcome::Left { recipients, left_msg, users_msg, new_admin, room_removed } => {
                    &&& room_removed == (rem.len() == 0)
                    &&& left_msg@ == wire::left_notice_view(username@, room.name@)
                    &&& rem.len() == 0 ==> {
                        &&& final(reg).rooms@ == old(reg).rooms@.remove(i)
                        &&& !final(reg).has_room(room_name@)
                        &&& new_admin is None
                        &&& recipients@.len() == 0
                        &&& users_msg@ == users_msg_view(rem, room.admin@)
                    }
                    &&& rem.len() > 0 ==> {
                        let after = final(reg).rooms@[i];
                        &&& final(reg).rooms@ == old(reg).rooms@.update(i, after)
                        &&& after.name@ == room.name@
                        &&& after.message_history@ == room.message_history@
                        &&& after.clients@ == rem
                        &&& after.admin@ == (if room.admin@ == username@ {
                            rem[0].username@
                        } else {
                            room.admin@
                        })
                        &&& (match new_admin {
                            Some(s) => room.admin@ == username@ && s@ == rem[0].username@,
                            None => room.admin@ != username@,
                        })
                        &&& recipients@ == senders_of(rem)
                        &&& users_msg@ == users_msg_view(rem, after.admin@)
                    }
                },
                _ => false,
            }
        },
{
    let ghost entry = *reg;
    match reg.find(room_name) {
        None => LeaveOutcome::NoRoom,
        Some(i) => {
            let mut room = reg.rooms.remove(i);
            let ghost before = entry.rooms@[i as int];
            room.remove_user(username);
            let left_msg = wire::build_left_notice(username.as_str(), room.name.as_str());
            if room.clients.len() == 0 {
                let users_msg = room.build_users_list_msg();
                proof {
                    assert(reg.rooms@ =~= entry.rooms@.remove(i as int));
                    lemma_quiescent_remove(entry, *reg, i as int);
                    assert forall|k: int|
                        0 <= k < reg.rooms@.len() implies (#[trigger] reg.rooms@[k]).name@
                        != room_name@ by {
                        let k0 = if k < i as int {
                            k
                        } else {
                            k + 1
                        };
                        assert(reg.rooms@[k] == entry.rooms@[k0]);
                        if entry.rooms@[k0].name@ == room_name@ {
                            entry.lemma_idx_unique(room_name@, k0);
                        }
                    }
                }
                LeaveOutcome::Left {
                    recipients: Vec::new(),
                    left_msg,
                    users_msg,
                    new_admin: None,
                    room_removed: true,
                }
            } else {
                let new_admin = if room.admin == *username {
                    let first = room.clients[0].username.clone();
                    room.admin = first.clone();
                    Some(first)
                } else {
                    None
                };
                let recipients = room.collect_senders();
                let users_msg = room.build_users_list_msg();
                reg.rooms.insert(i, room);
                proof {
                    let rem = without_user(before.clients@, username@);
                    assert(reg.rooms@ =~= entry.rooms@.update(i as int, reg.rooms@[i as int]));
                    if before.admin@ == username@ {
                        assert(rem[0].username@ == reg.rooms@[i as int].admin@);
                        assert(has_user(rem, reg.rooms@[i as int].admin@));
                    } else {
                        lemma_without_user_keeps(before.clients@, username@, before.admin@);
                    }
                    lemma_quiescent_update(entry, *reg, i as int);
                }
                LeaveOutcome::Left {
                    recipients,
                    left_msg,
                    users_msg,
                    new_admin,
                    room_removed: false,
                }
            }
        },
    }
}

/// Queues `text` to every handle in `senders`, in order; a recipient whose
/// channel has closed is skipped without an error (best-effort delivery).
pub fn send_to_senders(senders: Vec<UnboundedSender<WsFrame>>, text: &str) {
    let n = senders.len();
    let mut i: usize = 0;
    while i < n
        invariant
            n == senders@.len(),
            i <= n,
        decreases n - i,
    {
        send_text(&senders[i], text);
        i = i + 1;
    }
}

/// A room's history is append-only: every mutation above leaves it either
/// unchanged (`join_room`, `leave_room`, typing frames) or extended by one
/// message at the end (`handle_frame` on chat text), so what was accepted
/// earlier keeps both its place and its order for as long as the room
/// exists.
pub proof fn lemma_history_append_only(before: Seq<Message>, after: Seq<Message>)
    requires
        after == before || (after.len() == before.len() + 1 && after.take(before.len() as int)
            == before),
    ensures
        after.len() >= before.len(),
        forall|k: int| 0 <= k < before.len() ==> after[k] == before[k],
{
    if after != before {
        assert forall|k: int| 0 <= k < before.len() implies after[k] == before[k] by {
            assert(after.take(before.len() as int)[k] == after[k]);
        }
    }
}

/// At every quiescent point, each room's `admin` is the username of one of
/// its current members.
pub proof fn lemma_admin_always_member(reg: Registry, i: int)
    requires
        reg.quiescent(),
        0 <= i < reg.rooms@.len(),
    ensures
        has_user(reg.rooms@[i].clients@, reg.rooms@[i].admin@),
{
    assert(reg.rooms@[i].clients@.len() > 0);
}

} // verus!
