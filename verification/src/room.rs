use crate::channel::clone_sender;
use crate::message::Message;
use crate::wire;
use tokio::sync::mpsc::UnboundedSender;
use vstd::prelude::*;
use vstd::string::StringExecFns;
use warp::ws::Message as WsFrame;

verus! {

/// One connected session inside a room: a display name and the handle used
/// to queue outbound frames to that connection's private delivery task.
pub struct Client {
    pub username: String,
    pub sender: UnboundedSender<WsFrame>,
}

/// One chat room: its name, the current admin's username, the members in
/// join order and the full message history in arrival order.
pub struct Room {
    pub name: String,
    pub admin: String,
    pub clients: Vec<Client>,
    pub message_history: Vec<Message>,
}

/// The outbound handles of `clients`, in member order.
pub open spec fn senders_of(clients: Seq<Client>) -> Seq<UnboundedSender<WsFrame>>
    decreases clients.len(),
{
    if clients.len() == 0 {
        Seq::<UnboundedSender<WsFrame>>::empty()
    } else {
        senders_of(clients.drop_last()).push(clients.last().sender)
    }
}

/// A broadcast recipient list built from `senders_of` covers exactly the
/// members it was built from, in member order: entry `i` is member `i`'s
/// handle, so each member is reached once per broadcast.
pub proof fn lemma_senders_of(clients: Seq<Client>)
    ensures
        senders_of(clients).len() == clients.len(),
        forall|i: int| 0 <= i < clients.len() ==> senders_of(clients)[i] == clients[i].sender,
    decreases clients.len(),
{
    if clients.len() > 0 {
        lemma_senders_of(clients.drop_last());
    }
}

/// The members of `clients` whose username is not `name`, in order.
pub open spec fn without_user(clients: Seq<Client>, name: Seq<char>) -> Seq<Client>
    decreases clients.len(),
{
    if clients.len() == 0 {
        Seq::<Client>::empty()
    } else if clients.last().username@ == name {
        without_user(clients.drop_last(), name)
    } else {
        without_user(clients.drop_last(), name).push(clients.last())
    }
}

/// Whether some member of `clients` carries the username `name`.
pub open spec fn has_user(clients: Seq<Client>, name: Seq<char>) -> bool {
    exists|i: int| 0 <= i < clients.len() && clients[i].username@ == name
}

/// The roster payload body: one entry per member, comma separated, in
/// member order, each flagged as admin iff its username is `admin`.
pub open spec fn users_list(clients: Seq<Client>, admin: Seq<char>) -> Seq<char>
    decreases clients.len(),
{
    if clients.len() == 0 {
        Seq::<char>::empty()
    } else {
        users_list(clients.drop_last(), admin) + (if clients.len() == 1 {
            Seq::<char>::empty()
        } else {
            (",")@
        }) + wire::users_entry(clients.last().username@, clients.last().username@ == admin)
    }
}

/// The full roster update frame for a room.
pub open spec fn users_msg_view(clients: Seq<Client>, admin: Seq<char>) -> Seq<char> {
    ("__users__[")@ + users_list(clients, admin) + ("]")@
}

impl Room {
    /// A room always names a member as its admin; a room that has just been
    /// created and not yet joined is the one allowed exception, and it is
    /// never left behind at a quiescent point.
    pub open spec fn admin_ok(self) -> bool {
        self.clients@.len() > 0 ==> has_user(self.clients@, self.admin@)
    }

    /// A brand-new room: no members, no history, `admin` set to its creator.
    pub fn new(name: String, admin: String) -> (r: Room)
        ensures
            r.name@ == name@,
            r.admin@ == admin@,
            r.clients@.len() == 0,
            r.message_history@.len() == 0,
    {
        Room { name, admin, clients: Vec::new(), message_history: Vec::new() }
    }

    /// Clones the outbound handle of every member, in member order.
    pub fn collect_senders(&self) -> (r: Vec<UnboundedSender<WsFrame>>)
        ensures
            r@ == senders_of(self.clients@),
    {
        let mut r: Vec<UnboundedSender<WsFrame>> = Vec::new();
        let n = self.clients.len();
        let mut i: usize = 0;
        while i < n
            invariant
                n == self.clients@.len(),
                i <= n,
                r@ == senders_of(self.clients@.take(i as int)),
            decreases n - i,
        {
            r.push(clone_sender(&self.clients[i].sender));
            proof {
                assert(self.clients@.take(i + 1 as int).drop_last() =~= self.clients@.take(
                    i as int,
                ));
            }
            i = i + 1;
        }
        proof {
            assert(self.clients@.take(n as int) =~= self.clients@);
        }
        r
    }

    /// Clones the outbound handle of every member but `name`, in order.
    pub fn collect_senders_except(&self, name: &String) -> (r: Vec<UnboundedSender<WsFrame>>)
        ensures
            r@ == senders_of(without_user(self.clients@, name@)),
    {
        let mut r: Vec<UnboundedSender<WsFrame>> = Vec::new();
        let n = self.clients.len();
        let mut i: usize = 0;
        while i < n
            invariant
                n == self.clients@.len(),
                i <= n,
                r@ == senders_of(without_user(self.clients@.take(i as int), name@)),
            decreases n - i,
        {
            let c = &self.clients[i];
            if !(c.username == *name) {
                r.push(clone_sender(&c.sender));
            }
            proof {
                assert(self.clients@.take(i + 1 as int).drop_last() =~= self.clients@.take(
                    i as int,
                ));
                assert(self.clients@.take(i + 1 as int).last() == self.clients@[i as int]);
                let w = without_user(self.clients@.take(i as int), name@);
                if self.clients@[i as int].username@ != name@ {
                    let w2 = w.push(self.clients@[i as int]);
                    assert(w2.drop_last() =~= w);
                    assert(w2.last() == self.clients@[i as int]);
                    assert(senders_of(w2) == senders_of(w).push(self.clients@[i as int].sender));
                }
            }
            i = i + 1;
        }
        proof {
            assert(self.clients@.take(n as int) =~= self.clients@);
        }
        r
    }

    /// Removes every member named `name`, keeping the others in order.
    pub fn remove_user(&mut self, name: &String)
        ensures
            final(self).clients@ == without_user(old(self).clients@, name@),
            final(self).name@ == old(self).name@,
            final(self).admin@ == old(self).admin@,
            final(self).message_history@ == old(self).message_history@,
    {
        let mut kept: Vec<Client> = Vec::new();
        let n = self.clients.len();
        let mut i: usize = 0;
        while i < n
            invariant
                n == self.clients@.len(),
                i <= n,
                kept@ == without_user(self.clients@.take(i as int), name@),
            decreases n - i,
        {
            let c = &self.clients[i];
            if !(c.username == *name) {
                kept.push(Client { username: c.username.clone(), sender: clone_sender(&c.sender) });
                assert(kept@.last() == self.clients@[i as int]);
            }
            proof {
                assert(self.clients@.take(i + 1 as int).drop_last() =~= self.clients@.take(
                    i as int,
                ));
            }
            i = i + 1;
        }
        proof {
            assert(self.clients@.take(n as int) =~= self.clients@);
        }
        self.clients = kept;
    }

    /// Builds the roster update frame for the room as it stands.
    pub fn build_users_list_msg(&self) -> (r: String)
        ensures
            r@ == users_msg_view(self.clients@, self.admin@),
    {
        let mut out = String::from_str("__users__[");
        let ghost prefix = out@;
        let n = self.clients.len();
        let mut i: usize = 0;
        while i < n
            invariant
                n == self.clients@.len(),
                i <= n,
                prefix == ("__users__[")@,
                out@ == prefix + users_list(self.clients@.take(i as int), self.admin@),
            decreases n - i,
        {
            if i > 0 {
                out.append(",");
            }
            let c = &self.clients[i];
            out.append("{\"admin\":");
            if c.username == self.admin {
                out.append("true");
            } else {
                out.append("false");
            }
            out.append(",\"username\":\"");
            wire::append_escaped(&mut out, c.username.as_str());
            out.append("\"}");
            proof {
                assert(self.clients@.take(i + 1 as int).drop_last() =~= self.clients@.take(
                    i as int,
                ));
                assert(self.clients@.take(i + 1 as int).last() == self.clients@[i as int]);
                assert(out@ =~= prefix + users_list(self.clients@.take(i + 1 as int), self.admin@));
            }
            i = i + 1;
        }
        proof {
            assert(self.clients@.take(n as int) =~= self.clients@);
        }
        out.append("]");
        proof {
            assert(out@ =~= users_msg_view(self.clients@, self.admin@));
        }
        out
    }
}

} // verus!
