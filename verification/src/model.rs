//! The registry as mathematics: which connections are registered, which rooms
//! each has joined, through which channel each is reached, and who the
//! members of each room are.
//!
//! Every operation of the executable registry is specified as a function on
//! [`RegistryState`]. The laws at the end of this file are stated and proved
//! on that model alone.

use vstd::prelude::*;
use crate::ident::ClientId;
use crate::outbox::Outbound;

verus! {

/// The abstract state of a registry.
pub ghost struct RegistryState {
    /// For every registered connection, the rooms it has joined.
    pub clients: Map<ClientId, Set<Seq<char>>>,
    /// For every live room, its members.
    pub rooms: Map<Seq<char>, Set<ClientId>>,
    /// For every registered connection, its outbound channel.
    pub outbound: Map<ClientId, Outbound>,
}

/// One mutation of the registry.
pub ghost enum Operation {
    Register { id: ClientId, tx: Outbound },
    Unregister { id: ClientId },
    Join { id: ClientId, room: Seq<char> },
    Leave { id: ClientId, room: Seq<char> },
}

/// The rooms `rooms` once `id` has been taken out of those named in `left`:
/// each of them loses `id`, and goes if `id` was its last member. The other
/// rooms stay as they are.
pub open spec fn without_member(
    rooms: Map<Seq<char>, Set<ClientId>>,
    id: ClientId,
    left: Set<Seq<char>>,
) -> Map<Seq<char>, Set<ClientId>> {
    Map::new(
        |room: Seq<char>|
            rooms.contains_key(room) && !(left.contains(room) && rooms[room].remove(
                id,
            ).is_empty()),
        |room: Seq<char>|
            if left.contains(room) {
                rooms[room].remove(id)
            } else {
                rooms[room]
            },
    )
}

impl RegistryState {
    /// The registry with no connection and no room.
    pub open spec fn empty() -> Self {
        RegistryState { clients: Map::empty(), rooms: Map::empty(), outbound: Map::empty() }
    }

    pub open spec fn is_registered(self, id: ClientId) -> bool {
        self.clients.contains_key(id)
    }

    pub open spec fn has_room(self, room: Seq<char>) -> bool {
        self.rooms.contains_key(room)
    }

    /// The rooms that `id` has joined; none for an unknown connection.
    pub open spec fn rooms_of(self, id: ClientId) -> Set<Seq<char>> {
        if self.clients.contains_key(id) {
            self.clients[id]
        } else {
            Set::empty()
        }
    }

    /// The members of `room`; none for an unknown room.
    pub open spec fn members(self, room: Seq<char>) -> Set<ClientId> {
        if self.rooms.contains_key(room) {
            self.rooms[room]
        } else {
            Set::empty()
        }
    }

    /// A connection is a member of a room exactly when the room is one of the
    /// rooms that the connection has joined.
    pub open spec fn membership_is_mutual(self) -> bool {
        forall|id: ClientId, room: Seq<char>|
            #![trigger self.members(room).contains(id)]
            #![trigger self.rooms_of(id).contains(room)]
            self.members(room).contains(id) <==> self.rooms_of(id).contains(room)
    }

    /// No room is kept without a member.
    pub open spec fn no_room_is_empty(self) -> bool {
        forall|room: Seq<char>| #[trigger]
            self.rooms.contains_key(room) ==> self.rooms[room].len() > 0
    }

    /// Only finitely many connections and rooms are known, and every
    /// membership set is finite.
    pub open spec fn is_finite(self) -> bool {
        &&& self.clients.dom().finite()
        &&& self.rooms.dom().finite()
        &&& forall|id: ClientId| #[trigger]
            self.clients.contains_key(id) ==> self.clients[id].finite()
        &&& forall|room: Seq<char>| #[trigger]
            self.rooms.contains_key(room) ==> self.rooms[room].finite()
    }

    /// The connections that have an outbound channel are the registered ones.
    pub open spec fn every_client_has_a_channel(self) -> bool {
        self.outbound.dom() == self.clients.dom()
    }

    /// What holds of every registry between two operations.
    pub open spec fn well_formed(self) -> bool {
        &&& self.is_finite()
        &&& self.membership_is_mutual()
        &&& self.no_room_is_empty()
        &&& self.every_client_has_a_channel()
    }

    /// Registers `id` with no room and with `tx` as its outbound channel. A
    /// registered `id` is left as it is.
    pub open spec fn register(self, id: ClientId, tx: Outbound) -> Self {
        if self.clients.contains_key(id) {
            self
        } else {
            RegistryState {
                clients: self.clients.insert(id, Set::empty()),
                rooms: self.rooms,
                outbound: self.outbound.insert(id, tx),
            }
        }
    }

    /// The rooms that remain once `id` has left every room it had joined:
    /// those rooms lose `id`, and the ones that lose their last member go.
    pub open spec fn rooms_without(self, id: ClientId) -> Map<Seq<char>, Set<ClientId>> {
        without_member(self.rooms, id, self.rooms_of(id))
    }

    /// Forgets `id`. An unknown `id` changes nothing.
    pub open spec fn unregister(self, id: ClientId) -> Self {
        if !self.clients.contains_key(id) {
            self
        } else {
            RegistryState {
                clients: self.clients.remove(id),
                rooms: self.rooms_without(id),
                outbound: self.outbound.remove(id),
            }
        }
    }

    /// Forgets every connection of `ids`, one after the other.
    pub open spec fn unregister_all(self, ids: Seq<ClientId>) -> Self
        decreases ids.len(),
    {
        if ids.len() == 0 {
            self
        } else {
            self.unregister_all(ids.drop_last()).unregister(ids.last())
        }
    }

    /// Makes `id` a member of `room`, creating the room if need be. An unknown
    /// `id` changes nothing.
    pub open spec fn join(self, id: ClientId, room: Seq<char>) -> Self {
        if !self.clients.contains_key(id) {
            self
        } else {
            RegistryState {
                clients: self.clients.insert(id, self.clients[id].insert(room)),
                rooms: self.rooms.insert(room, self.members(room).insert(id)),
                outbound: self.outbound,
            }
        }
    }

    /// Takes `id` out of `room`, and drops the room with its last member. An
    /// unknown `id` or an unknown `room` changes nothing.
    pub open spec fn leave(self, id: ClientId, room: Seq<char>) -> Self {
        if !self.clients.contains_key(id) || !self.rooms.contains_key(room) {
            self
        } else {
            let remaining = self.rooms[room].remove(id);
            RegistryState {
                clients: self.clients.insert(id, self.clients[id].remove(room)),
                rooms: if remaining.is_empty() {
                    self.rooms.remove(room)
                } else {
                    self.rooms.insert(room, remaining)
                },
                outbound: self.outbound,
            }
        }
    }

    /// The state after one operation.
    pub open spec fn apply(self, op: Operation) -> Self {
        match op {
            Operation::Register { id, tx } => self.register(id, tx),
            Operation::Unregister { id } => self.unregister(id),
            Operation::Join { id, room } => self.join(id, room),
            Operation::Leave { id, room } => self.leave(id, room),
        }
    }

    /// The state after a sequence of operations, first to last.
    pub open spec fn run(self, ops: Seq<Operation>) -> Self
        decreases ops.len(),
    {
        if ops.len() == 0 {
            self
        } else {
            self.run(ops.drop_last()).apply(ops.last())
        }
    }
}

/// Registering keeps a well-formed registry well-formed.
pub proof fn lemma_register_keeps_well_formed(s: RegistryState, id: ClientId, tx: Outbound)
    requires
        s.well_formed(),
    ensures
        s.register(id, tx).well_formed(),
{
    let t = s.register(id, tx);
    if !s.clients.contains_key(id) {
        assert forall|c: ClientId, room: Seq<char>|
            t.members(room).contains(c) <==> t.rooms_of(c).contains(room) by {
            assert(s.members(room).contains(c) <==> s.rooms_of(c).contains(room));
        }
    }
}

/// Joining a room keeps a well-formed registry well-formed.
pub proof fn lemma_join_keeps_well_formed(s: RegistryState, id: ClientId, room: Seq<char>)
    requires
        s.well_formed(),
    ensures
        s.join(id, room).well_formed(),
{
    let t = s.join(id, room);
    if s.clients.contains_key(id) {
        assert(t.outbound.dom() =~= t.clients.dom());
        assert forall|c: ClientId, r: Seq<char>|
            t.members(r).contains(c) <==> t.rooms_of(c).contains(r) by {
            assert(s.members(r).contains(c) <==> s.rooms_of(c).contains(r));
        }
    }
}

/// Leaving a room keeps a well-formed registry well-formed.
pub proof fn lemma_leave_keeps_well_formed(s: RegistryState, id: ClientId, room: Seq<char>)
    requires
        s.well_formed(),
    ensures
        s.leave(id, room).well_formed(),
{
    let t = s.leave(id, room);
    if s.clients.contains_key(id) && s.rooms.contains_key(room) {
        assert(t.outbound.dom() =~= t.clients.dom());
        assert forall|c: ClientId, r: Seq<char>|
            t.members(r).contains(c) <==> t.rooms_of(c).contains(r) by {
            assert(s.members(r).contains(c) <==> s.rooms_of(c).contains(r));
        }
    }
}

/// Unregistering keeps a well-formed registry well-formed.
pub proof fn lemma_unregister_keeps_well_formed(s: RegistryState, id: ClientId)
    requires
        s.well_formed(),
    ensures
        s.unregister(id).well_formed(),
{
    let t = s.unregister(id);
    if s.clients.contains_key(id) {
        vstd::set_lib::lemma_len_subset(t.rooms.dom(), s.rooms.dom());
        assert forall|c: ClientId, r: Seq<char>|
            t.members(r).contains(c) <==> t.rooms_of(c).contains(r) by {
            assert(s.members(r).contains(c) <==> s.rooms_of(c).contains(r));
        }
    }
}

/// Unregistering several connections keeps a well-formed registry
/// well-formed, and leaves none of them registered.
pub proof fn lemma_unregister_all_keeps_well_formed(s: RegistryState, ids: Seq<ClientId>)
    requires
        s.well_formed(),
    ensures
        s.unregister_all(ids).well_formed(),
        forall|i: int|
            0 <= i < ids.len() ==> !s.unregister_all(ids).is_registered(#[trigger] ids[i]),
        forall|id: ClientId| #[trigger]
            s.unregister_all(ids).is_registered(id) ==> s.is_registered(id),
    decreases ids.len(),
{
    if ids.len() > 0 {
        lemma_unregister_all_keeps_well_formed(s, ids.drop_last());
        lemma_unregister_keeps_well_formed(s.unregister_all(ids.drop_last()), ids.last());
        assert forall|i: int| 0 <= i < ids.len() implies !s.unregister_all(ids).is_registered(
            #[trigger] ids[i],
        ) by {
            if i < ids.len() - 1 {
                assert(ids.drop_last()[i] == ids[i]);
            }
        }
    }
}

/// Membership stays mutual and no room stays empty, whatever is done: after
/// every one of a sequence of registrations, unregistrations, joins and leaves,
/// starting from a well-formed registry, the registry is well-formed.
pub proof fn lemma_well_formed_after_every_operation(
    s: RegistryState,
    ops: Seq<Operation>,
    done: int,
)
    requires
        s.well_formed(),
        0 <= done <= ops.len(),
    ensures
        s.run(ops.take(done)).well_formed(),
        s.run(ops.take(done)).membership_is_mutual(),
        s.run(ops.take(done)).no_room_is_empty(),
    decreases done,
{
    let prefix = ops.take(done);
    if done > 0 {
        lemma_well_formed_after_every_operation(s, ops, done - 1);
        assert(prefix.drop_last() =~= ops.take(done - 1));
        let before = s.run(ops.take(done - 1));
        match prefix.last() {
            Operation::Register { id, tx } => lemma_register_keeps_well_formed(before, id, tx),
            Operation::Unregister { id } => lemma_unregister_keeps_well_formed(before, id),
            Operation::Join { id, room } => lemma_join_keeps_well_formed(before, id, room),
            Operation::Leave { id, room } => lemma_leave_keeps_well_formed(before, id, room),
        }
    }
}

/// A connection is registered from its registration to its unregistration
/// and at no other time: registering makes it so, unregistering ends it, and
/// nothing else changes it.
pub proof fn lemma_registered_between_register_and_unregister(
    s: RegistryState,
    op: Operation,
    id: ClientId,
)
    ensures
        s.apply(op).is_registered(id) == (match op {
            Operation::Register { id: registered, .. } => registered == id || s.is_registered(id),
            Operation::Unregister { id: gone } => gone != id && s.is_registered(id),
            _ => s.is_registered(id),
        }),
{
}

/// The empty registry is well-formed.
pub proof fn lemma_empty_is_well_formed()
    ensures
        RegistryState::empty().well_formed(),
{
}

/// Every member of a room is a registered connection, and every room that a
/// connection has joined is a live room: nothing refers to what is gone.
pub proof fn lemma_nothing_dangles(s: RegistryState, id: ClientId, room: Seq<char>)
    requires
        s.well_formed(),
    ensures
        s.members(room).contains(id) ==> s.is_registered(id),
        s.rooms_of(id).contains(room) ==> s.has_room(room),
{
}

/// Unregistering a connection takes it out of every room, leaves no room
/// without a member, and touches no room that it had not joined. Doing it a
/// second time changes nothing.
pub proof fn lemma_unregister_removes_everywhere(s: RegistryState, id: ClientId)
    requires
        s.well_formed(),
    ensures
        !s.unregister(id).is_registered(id),
        forall|room: Seq<char>| !(#[trigger] s.unregister(id).members(room)).contains(id),
        forall|room: Seq<char>| #[trigger]
            s.unregister(id).has_room(room) ==> s.unregister(id).members(room).len() > 0,
        forall|room: Seq<char>|
            !s.members(room).contains(id) ==> #[trigger] s.unregister(id).members(room)
                == s.members(room),
        forall|room: Seq<char>|
            s.members(room).contains(id) ==> #[trigger] s.unregister(id).members(room)
                == s.members(room).remove(id),
        s.unregister(id).unregister(id) == s.unregister(id),
{
}

/// Joining a room a second time changes nothing: the room's member set does
/// not count the connection twice.
pub proof fn lemma_join_is_idempotent(s: RegistryState, id: ClientId, room: Seq<char>)
    ensures
        s.join(id, room).join(id, room) == s.join(id, room),
        s.join(id, room).join(id, room).members(room).len() == s.join(id, room).members(
            room,
        ).len(),
        s.is_registered(id) ==> s.join(id, room).members(room) == s.members(room).insert(id),
{
    let t = s.join(id, room);
    if s.clients.contains_key(id) {
        assert(t.clients[id].insert(room) =~= t.clients[id]);
        assert(t.members(room).insert(id) =~= t.members(room));
        assert(t.join(id, room).clients =~= t.clients);
        assert(t.join(id, room).rooms =~= t.rooms);
    }
}

/// A connection that is already a member of a room adds nothing to it by
/// joining again.
pub proof fn lemma_join_of_member_changes_nothing(s: RegistryState, id: ClientId, room: Seq<char>)
    requires
        s.well_formed(),
        s.members(room).contains(id),
    ensures
        s.join(id, room) == s,
{
    let t = s.join(id, room);
    assert(s.clients[id].insert(room) =~= s.clients[id]);
    assert(s.members(room).insert(id) =~= s.members(room));
    assert(t.clients =~= s.clients);
    assert(t.rooms =~= s.rooms);
}

} // verus!
