use crate::room::Room;
use vstd::prelude::*;

verus! {

/// The process-wide room table. The surrounding I/O layer guards one value
/// of this type with a single coarse lock and calls into it only between
/// taking and releasing that lock; each method here is one such critical
/// section.
pub struct Registry {
    pub rooms: Vec<Room>,
}

impl Registry {
    /// Room names are unique, so a name picks out at most one room.
    pub open spec fn wf(self) -> bool {
        forall|i: int, j: int|
            0 <= i < j < self.rooms@.len() ==> (#[trigger] self.rooms@[i]).name@ != (
            #[trigger] self.rooms@[j]).name@
    }

    /// What holds of the registry at every observable quiescent point:
    /// names are unique, no abandoned (empty) room lingers, and every
    /// room's admin is one of its members.
    pub open spec fn quiescent(self) -> bool {
        &&& self.wf()
        &&& forall|i: int|
            0 <= i < self.rooms@.len() ==> (#[trigger] self.rooms@[i]).clients@.len() > 0
                && self.rooms@[i].admin_ok()
    }

    pub open spec fn has_room(self, name: Seq<char>) -> bool {
        exists|i: int| 0 <= i < self.rooms@.len() && (#[trigger] self.rooms@[i]).name@ == name
    }

    /// The index of the room called `name`; meaningful only when
    /// `has_room(name)` holds, and unique under `wf`.
    pub open spec fn idx_of(self, name: Seq<char>) -> int {
        choose|i: int| 0 <= i < self.rooms@.len() && (#[trigger] self.rooms@[i]).name@ == name
    }

    /// The room called `name`; meaningful only when `has_room(name)` holds.
    pub open spec fn room_named(self, name: Seq<char>) -> Room {
        self.rooms@[self.idx_of(name)]
    }

    /// Under `wf`, any index whose room carries `name` is `idx_of(name)`.
    pub proof fn lemma_idx_unique(self, name: Seq<char>, i: int)
        requires
            self.wf(),
            0 <= i < self.rooms@.len(),
            self.rooms@[i].name@ == name,
        ensures
            self.has_room(name),
            self.idx_of(name) == i,
    {
        assert(self.has_room(name));
        let j = self.idx_of(name);
        if i != j {
            assert(self.rooms@[i].name@ != self.rooms@[j].name@);
        }
    }

    /// The registry a process starts with: no rooms at all.
    pub fn new() -> (r: Registry)
        ensures
            r.rooms@.len() == 0,
            r.quiescent(),
    {
        Registry { rooms: Vec::new() }
    }

    /// Looks a room up by name.
    pub fn find(&self, name: &String) -> (r: Option<usize>)
        requires
            self.wf(),
        ensures
            match r {
                Some(i) => {
                    &&& self.has_room(name@)
                    &&& i as int == self.idx_of(name@)
                    &&& 0 <= i < self.rooms@.len()
                    &&& self.rooms@[i as int].name@ == name@
                },
                None => !self.has_room(name@),
            },
    {
        let n = self.rooms.len();
        let mut i: usize = 0;
        while i < n
            invariant
                self.wf(),
                n == self.rooms@.len(),
                i <= n,
                forall|k: int| 0 <= k < i ==> (#[trigger] self.rooms@[k]).name@ != name@,
            decreases n - i,
        {
            if self.rooms[i].name == *name {
                proof {
                    self.lemma_idx_unique(name@, i as int);
                }
                return Some(i);
            }
            i = i + 1;
        }
        None
    }

    /// Inserts a new empty room named `name` with `creator` as admin iff no
    /// room of that name exists; reports whether it did. A no-op otherwise.
    pub fn create_if_absent(&mut self, name: &String, creator: &String) -> (created: bool)
        requires
            old(self).wf(),
        ensures
            final(self).wf(),
            created == !old(self).has_room(name@),
            final(self).has_room(name@),
            !created ==> *final(self) == *old(self),
            created ==> {
                &&& final(self).rooms@.len() == old(self).rooms@.len() + 1
                &&& final(self).rooms@.take(old(self).rooms@.len() as int) == old(self).rooms@
                &&& final(self).rooms@.last().name@ == name@
                &&& final(self).rooms@.last().admin@ == creator@
                &&& final(self).rooms@.last().clients@.len() == 0
                &&& final(self).rooms@.last().message_history@.len() == 0
            },
    {
        match self.find(name) {
            Some(_) => false,
            None => {
                let room = Room::new(name.clone(), creator.clone());
                self.rooms.push(room);
                proof {
                    assert(self.rooms@.take(old(self).rooms@.len() as int) =~= old(self).rooms@);
                    assert(self.rooms@[self.rooms@.len() - 1].name@ == name@);
                    assert forall|i: int, j: int|
                        0 <= i < j < self.rooms@.len() implies (#[trigger] self.rooms@[i]).name@
                        != (#[trigger] self.rooms@[j]).name@ by {
                        if j < self.rooms@.len() - 1 {
                            assert(old(self).rooms@[i].name@ != old(self).rooms@[j].name@);
                        } else {
                            assert(!old(self).has_room(name@));
                        }
                    }
                }
                true
            },
        }
    }

    /// Deletes the room named `name` if it is there; a safe no-op on an
    /// absent name, so concurrent teardown races stay idempotent.
    pub fn remove(&mut self, name: &String)
        requires
            old(self).wf(),
        ensures
            final(self).wf(),
            !final(self).has_room(name@),
            old(self).has_room(name@) ==> final(self).rooms@ == old(self).rooms@.remove(
                old(self).idx_of(name@),
            ),
            !old(self).has_room(name@) ==> *final(self) == *old(self),
            old(self).quiescent() ==> final(self).quiescent(),
    {
        match self.find(name) {
            Some(i) => {
                self.rooms.remove(i);
                proof {
                    let olds = old(self).rooms@;
                    assert(self.rooms@ =~= olds.remove(i as int));
                    assert forall|k: int| 0 <= k < self.rooms@.len() implies #[trigger] self.rooms@[k]
                        == olds[if k < i as int {
                        k
                    } else {
                        k + 1
                    }] by {}
                    assert(self.wf());
                    assert forall|k: int|
                        0 <= k < self.rooms@.len() implies (#[trigger] self.rooms@[k]).name@
                        != name@ by {
                        let k0 = if k < i as int {
                            k
                        } else {
                            k + 1
                        };
                        if olds[k0].name@ == name@ {
                            old(self).lemma_idx_unique(name@, k0);
                        }
                    }
                    assert(!self.has_room(name@));
                }
            },
            None => {},
        }
    }
}

} // verus!
