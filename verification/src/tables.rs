//! The registry's two tables as they are stored: a list of connections, each
//! with the names of the rooms it has joined, and a list of rooms, each with
//! the identifiers of its members.
//!
//! Every function here states what it does to the maps that the lists stand
//! for. The public registry is a thin layer over these.

use vstd::prelude::*;
use crate::assoc::{
    assoc, lemma_assoc_at, lemma_assoc_dom, lemma_assoc_push, lemma_assoc_remove,
    lemma_assoc_update, lemma_distinct_len, lemma_distinct_push, lemma_distinct_remove,
};
use crate::ident::{same_client, ClientId, RoomId};
use crate::model::{
    lemma_join_keeps_well_formed, lemma_leave_keeps_well_formed,
    lemma_register_keeps_well_formed, lemma_unregister_keeps_well_formed, without_member,
    RegistryState,
};
use crate::outbox::Outbound;

verus! {

/// What the registry keeps of one registered connection.
pub struct ClientInfo {
    /// The connection's identifier.
    pub(crate) id: ClientId,
    /// The rooms that the connection has joined, each once.
    pub(crate) rooms: Vec<RoomId>,
    /// The sending half of the connection's outbound channel.
    pub(crate) tx: Outbound,
}

/// One live room and its members.
pub(crate) struct Room {
    /// The room's name.
    pub(crate) name: RoomId,
    /// The room's members, each once, and at least one.
    pub(crate) members: Vec<ClientId>,
}

/// The two tables.
pub(crate) struct Tables {
    pub(crate) clients: Vec<ClientInfo>,
    pub(crate) rooms: Vec<Room>,
}

/// The room names that a list of strings holds.
pub open spec fn names(v: Seq<String>) -> Seq<Seq<char>> {
    Seq::new(v.len(), |j: int| v[j]@)
}

/// The identifiers of a list of connections, in its order.
pub(crate) open spec fn client_ids(clients: Seq<ClientInfo>) -> Seq<ClientId> {
    Seq::new(clients.len(), |i: int| clients[i].id)
}

/// The rooms that each connection of a list has joined, in its order.
pub(crate) open spec fn client_rooms(clients: Seq<ClientInfo>) -> Seq<Set<Seq<char>>> {
    Seq::new(clients.len(), |i: int| names(clients[i].rooms@).to_set())
}

/// The outbound channel of each connection of a list, in its order.
pub(crate) open spec fn client_channels(clients: Seq<ClientInfo>) -> Seq<Outbound> {
    Seq::new(clients.len(), |i: int| clients[i].tx)
}

/// The names of a list of rooms, in its order.
pub(crate) open spec fn room_names(rooms: Seq<Room>) -> Seq<Seq<char>> {
    Seq::new(rooms.len(), |k: int| rooms[k].name@)
}

/// The members of each room of a list, in its order.
pub(crate) open spec fn room_members(rooms: Seq<Room>) -> Seq<Set<ClientId>> {
    Seq::new(rooms.len(), |k: int| rooms[k].members@.to_set())
}

/// The map from each registered connection to the rooms it has joined.
pub(crate) open spec fn clients_view(clients: Seq<ClientInfo>) -> Map<ClientId, Set<Seq<char>>> {
    assoc(client_ids(clients), client_rooms(clients))
}

/// The map from each registered connection to its outbound channel.
pub(crate) open spec fn channels_view(clients: Seq<ClientInfo>) -> Map<ClientId, Outbound> {
    assoc(client_ids(clients), client_channels(clients))
}

/// The map from each live room to its members.
pub(crate) open spec fn rooms_view(rooms: Seq<Room>) -> Map<Seq<char>, Set<ClientId>> {
    assoc(room_names(rooms), room_members(rooms))
}

/// No connection is listed twice, and none lists a room twice.
pub(crate) open spec fn clients_ok(clients: Seq<ClientInfo>) -> bool {
    &&& client_ids(clients).no_duplicates()
    &&& forall|i: int|
        0 <= i < clients.len() ==> (#[trigger] names(clients[i].rooms@)).no_duplicates()
}

/// No room is listed twice, none lists a member twice, and none is empty.
pub(crate) open spec fn rooms_ok(rooms: Seq<Room>) -> bool {
    &&& room_names(rooms).no_duplicates()
    &&& forall|k: int|
        0 <= k < rooms.len() ==> (#[trigger] rooms[k]).members@.no_duplicates()
            && rooms[k].members@.len() > 0
}

/// The members of `room` in a map of rooms; none where the room is unknown.
pub(crate) open spec fn members_in(
    rooms: Map<Seq<char>, Set<ClientId>>,
    room: Seq<char>,
) -> Set<ClientId> {
    if rooms.contains_key(room) {
        rooms[room]
    } else {
        Set::empty()
    }
}

/// The map of rooms once `id` has been taken out of `room`.
pub(crate) open spec fn after_leaving(
    rooms: Map<Seq<char>, Set<ClientId>>,
    room: Seq<char>,
    id: ClientId,
) -> Map<Seq<char>, Set<ClientId>> {
    if !rooms.contains_key(room) {
        rooms
    } else if rooms[room].remove(id).is_empty() {
        rooms.remove(room)
    } else {
        rooms.insert(room, rooms[room].remove(id))
    }
}

/// A list of rooms in good order has finitely many rooms, each with a finite
/// and non-empty set of members.
pub(crate) proof fn lemma_rooms_view_shape(rooms: Seq<Room>)
    requires
        rooms_ok(rooms),
    ensures
        rooms_view(rooms).dom().finite(),
        rooms_view(rooms).dom().len() == rooms.len(),
        forall|r: Seq<char>| #[trigger]
            rooms_view(rooms).contains_key(r) ==> rooms_view(rooms)[r].finite() && rooms_view(
                rooms,
            )[r].len() > 0,
        forall|k: int|
            0 <= k < rooms.len() ==> rooms_view(rooms).contains_key(#[trigger] rooms[k].name@)
                && rooms_view(rooms)[rooms[k].name@] == rooms[k].members@.to_set(),
{
    lemma_assoc_dom(room_names(rooms), room_members(rooms));
    assert forall|r: Seq<char>| #[trigger] rooms_view(rooms).contains_key(r) implies rooms_view(
        rooms,
    )[r].finite() && rooms_view(rooms)[r].len() > 0 by {
        let k = room_names(rooms).index_of(r);
        lemma_distinct_len(rooms[k].members@);
    }
    assert forall|k: int| 0 <= k < rooms.len() implies rooms_view(rooms).contains_key(
        #[trigger] rooms[k].name@,
    ) && rooms_view(rooms)[rooms[k].name@] == rooms[k].members@.to_set() by {
        lemma_assoc_at(room_names(rooms), room_members(rooms), k);
    }
}

/// A list of connections in good order has finitely many connections, each
/// with a finite set of rooms.
pub(crate) proof fn lemma_clients_view_shape(clients: Seq<ClientInfo>)
    requires
        clients_ok(clients),
    ensures
        clients_view(clients).dom().finite(),
        clients_view(clients).dom().len() == clients.len(),
        forall|id: ClientId| #[trigger]
            clients_view(clients).contains_key(id) ==> clients_view(clients)[id].finite(),
        forall|i: int|
            0 <= i < clients.len() ==> clients_view(clients).contains_key(
                #[trigger] clients[i].id,
            ) && clients_view(clients)[clients[i].id] == names(clients[i].rooms@).to_set(),
{
    lemma_assoc_dom(client_ids(clients), client_rooms(clients));
    assert forall|i: int| 0 <= i < clients.len() implies clients_view(clients).contains_key(
        #[trigger] clients[i].id,
    ) && clients_view(clients)[clients[i].id] == names(clients[i].rooms@).to_set() by {
        lemma_assoc_at(client_ids(clients), client_rooms(clients), i);
    }
}

/// Where `id` stands in a list of identifiers.
pub(crate) fn position_of_id(ids: &Vec<ClientId>, id: ClientId) -> (found: Option<usize>)
    ensures
        match found {
            Some(b) => b < ids.len() && ids[b as int] == id,
            None => !ids@.contains(id),
        },
{
    let mut b: usize = 0;
    while b < ids.len()
        invariant
            b <= ids.len(),
            forall|j: int| 0 <= j < b ==> ids[j] != id,
        decreases ids.len() - b,
    {
        if same_client(ids[b], id) {
            return Some(b);
        }
        b += 1;
    }
    None
}

/// Where `name` stands in a list of room names.
pub(crate) fn position_of_name(list: &Vec<String>, name: &String) -> (found: Option<usize>)
    ensures
        match found {
            Some(a) => a < list.len() && list[a as int]@ == name@,
            None => !names(list@).contains(name@),
        },
{
    let mut a: usize = 0;
    while a < list.len()
        invariant
            a <= list.len(),
            forall|j: int| 0 <= j < a ==> list[j]@ != name@,
        decreases list.len() - a,
    {
        if list[a] == *name {
            return Some(a);
        }
        a += 1;
    }
    None
}

/// Where the connection `id` stands in the list of connections.
pub(crate) fn find_client(clients: &Vec<ClientInfo>, id: ClientId) -> (found: Option<usize>)
    ensures
        match found {
            Some(i) => i < clients.len() && clients[i as int].id == id,
            None => !client_ids(clients@).contains(id),
        },
{
    let mut i: usize = 0;
    while i < clients.len()
        invariant
            i <= clients.len(),
            forall|j: int| 0 <= j < i ==> clients[j].id != id,
        decreases clients.len() - i,
    {
        if same_client(clients[i].id, id) {
            return Some(i);
        }
        i += 1;
    }
    None
}

/// Where the room `name` stands in the list of rooms.
pub(crate) fn find_room(rooms: &Vec<Room>, name: &String) -> (found: Option<usize>)
    ensures
        match found {
            Some(k) => k < rooms.len() && rooms[k as int].name@ == name@,
            None => !room_names(rooms@).contains(name@),
        },
{
    let mut k: usize = 0;
    while k < rooms.len()
        invariant
            k <= rooms.len(),
            forall|j: int| 0 <= j < k ==> rooms[j].name@ != name@,
        decreases rooms.len() - k,
    {
        if rooms[k].name == *name {
            return Some(k);
        }
        k += 1;
    }
    None
}

/// Replacing the members of the room at place `k` by a list in good order
/// maps the room to the new members and keeps the rooms in good order.
proof fn lemma_room_replaced(before: Seq<Room>, after: Seq<Room>, k: int)
    requires
        rooms_ok(before),
        0 <= k < before.len(),
        after.len() == before.len(),
        forall|j: int| 0 <= j < before.len() && j != k ==> after[j] == before[j],
        after[k].name@ == before[k].name@,
        after[k].members@.no_duplicates(),
        after[k].members@.len() > 0,
    ensures
        rooms_ok(after),
        rooms_view(after) == rooms_view(before).insert(
            before[k].name@,
            after[k].members@.to_set(),
        ),
{
    let members = after[k].members@.to_set();
    assert(room_names(after) =~= room_names(before));
    lemma_assoc_update(room_names(before), room_members(before), k, members);
}

/// Pushing a room in good order under a new name adds it to the map and keeps
/// the rooms in good order.
proof fn lemma_room_pushed(before: Seq<Room>, room: Room)
    requires
        rooms_ok(before),
        !room_names(before).contains(room.name@),
        room.members@.no_duplicates(),
        room.members@.len() > 0,
    ensures
        rooms_ok(before.push(room)),
        rooms_view(before.push(room)) == rooms_view(before).insert(
            room.name@,
            room.members@.to_set(),
        ),
{
    let after = before.push(room);
    assert(room_names(after) =~= room_names(before).push(room.name@));
    lemma_assoc_push(
        room_names(before),
        room_members(before),
        room.name@,
        room.members@.to_set(),
    );
}

/// Removing the room at place `k` removes it from the map and keeps the rooms
/// in good order.
proof fn lemma_room_removed(before: Seq<Room>, k: int)
    requires
        rooms_ok(before),
        0 <= k < before.len(),
    ensures
        rooms_ok(before.remove(k)),
        rooms_view(before.remove(k)) == rooms_view(before).remove(before[k].name@),
{
    let after = before.remove(k);
    assert(room_names(after) =~= room_names(before).remove(k));
    lemma_assoc_remove(room_names(before), room_members(before), k);
}

/// Replacing the rooms of the connection at place `i` by a list without
/// duplicates maps the connection to the new rooms, keeps its channel, and
/// keeps the connections in good order.
proof fn lemma_client_replaced(before: Seq<ClientInfo>, after: Seq<ClientInfo>, i: int)
    requires
        clients_ok(before),
        0 <= i < before.len(),
        after.len() == before.len(),
        forall|j: int| 0 <= j < before.len() && j != i ==> after[j] == before[j],
        after[i].id == before[i].id,
        after[i].tx == before[i].tx,
        names(after[i].rooms@).no_duplicates(),
    ensures
        clients_ok(after),
        clients_view(after) == clients_view(before).insert(
            before[i].id,
            names(after[i].rooms@).to_set(),
        ),
        channels_view(after) == channels_view(before),
{
    let joined = names(after[i].rooms@).to_set();
    assert(client_ids(after) =~= client_ids(before));
    assert(client_channels(after) =~= client_channels(before));
    lemma_assoc_update(client_ids(before), client_rooms(before), i, joined);
}

/// Pushing a connection without rooms under a new identifier adds it to both
/// maps and keeps the connections in good order.
proof fn lemma_client_pushed(before: Seq<ClientInfo>, info: ClientInfo)
    requires
        clients_ok(before),
        !client_ids(before).contains(info.id),
        info.rooms@.len() == 0,
    ensures
        clients_ok(before.push(info)),
        clients_view(before.push(info)) == clients_view(before).insert(info.id, Set::empty()),
        channels_view(before.push(info)) == channels_view(before).insert(info.id, info.tx),
{
    let after = before.push(info);
    let none = Set::<Seq<char>>::empty();
    assert(names(info.rooms@).to_set() =~= none);
    assert(client_ids(after) =~= client_ids(before).push(info.id));
    lemma_assoc_push(client_ids(before), client_rooms(before), info.id, none);
    lemma_assoc_push(client_ids(before), client_channels(before), info.id, info.tx);
}

/// Removing the connection at place `i` removes it from both maps and keeps
/// the connections in good order.
proof fn lemma_client_removed(before: Seq<ClientInfo>, i: int)
    requires
        clients_ok(before),
        0 <= i < before.len(),
    ensures
        clients_ok(before.remove(i)),
        clients_view(before.remove(i)) == clients_view(before).remove(before[i].id),
        channels_view(before.remove(i)) == channels_view(before).remove(before[i].id),
{
    let after = before.remove(i);
    assert(client_ids(after) =~= client_ids(before).remove(i));
    lemma_assoc_remove(client_ids(before), client_rooms(before), i);
    lemma_assoc_remove(client_ids(before), client_channels(before), i);
}

/// Makes `id` a member of the room `name`, which is created if it is not there.
pub(crate) fn add_member(rooms: &mut Vec<Room>, name: &String, id: ClientId)
    requires
        rooms_ok(old(rooms)@),
    ensures
        rooms_ok(final(rooms)@),
        rooms_view(final(rooms)@) == rooms_view(old(rooms)@).insert(
            name@,
            members_in(rooms_view(old(rooms)@), name@).insert(id),
        ),
{
    let ghost before = rooms@;
    match find_room(rooms, name) {
        Some(k) => {
            let ghost members = before[k as int].members@;
            proof {
                lemma_assoc_at(room_names(before), room_members(before), k as int);
            }
            if position_of_id(&rooms[k].members, id).is_none() {
                rooms[k].members.push(id);
                proof {
                    lemma_distinct_push(members, id);
                    lemma_room_replaced(before, rooms@, k as int);
                }
            } else {
                proof {
                    assert(members.to_set().insert(id) =~= members.to_set());
                }
            }
        },
        None => {
            let mut members: Vec<ClientId> = Vec::new();
            members.push(id);
            let room = Room { name: name.clone(), members };
            proof {
                lemma_distinct_push(Seq::<ClientId>::empty(), id);
                assert(Seq::<ClientId>::empty().to_set() =~= Set::<ClientId>::empty());
                lemma_room_pushed(before, room);
            }
            rooms.push(room);
        },
    }
}

/// Takes `id` out of the room `name`, and drops the room if that leaves it
/// without a member. Nothing happens where the room is unknown.
pub(crate) fn remove_member(rooms: &mut Vec<Room>, name: &String, id: ClientId)
    requires
        rooms_ok(old(rooms)@),
    ensures
        rooms_ok(final(rooms)@),
        rooms_view(final(rooms)@) == after_leaving(rooms_view(old(rooms)@), name@, id),
{
    let ghost before = rooms@;
    match find_room(rooms, name) {
        Some(k) => {
            let ghost members = before[k as int].members@;
            proof {
                lemma_assoc_at(room_names(before), room_members(before), k as int);
                lemma_distinct_len(members);
            }
            match position_of_id(&rooms[k].members, id) {
                Some(b) => {
                    proof {
                        lemma_distinct_remove(members, b as int);
                    }
                    if rooms[k].members.len() == 1 {
                        rooms.remove(k);
                        proof {
                            lemma_room_removed(before, k as int);
                        }
                    } else {
                        rooms[k].members.remove(b);
                        proof {
                            lemma_room_replaced(before, rooms@, k as int);
                        }
                    }
                },
                None => {
                    proof {
                        assert(members.to_set().remove(id) =~= members.to_set());
                    }
                },
            }
        },
        None => {},
    }
}

/// Notes that the connection at place `i` has joined the room `name`.
pub(crate) fn note_joined(clients: &mut Vec<ClientInfo>, i: usize, name: &String)
    requires
        clients_ok(old(clients)@),
        i < old(clients)@.len(),
    ensures
        clients_ok(final(clients)@),
        clients_view(final(clients)@) == clients_view(old(clients)@).insert(
            old(clients)@[i as int].id,
            clients_view(old(clients)@)[old(clients)@[i as int].id].insert(name@),
        ),
        channels_view(final(clients)@) == channels_view(old(clients)@),
{
    let ghost before = clients@;
    let ghost joined = names(before[i as int].rooms@);
    proof {
        lemma_assoc_at(client_ids(before), client_rooms(before), i as int);
    }
    match position_of_name(&clients[i].rooms, name) {
        None => {
            clients[i].rooms.push(name.clone());
            proof {
                assert(names(clients@[i as int].rooms@) =~= joined.push(name@));
                lemma_distinct_push(joined, name@);
                lemma_client_replaced(before, clients@, i as int);
            }
        },
        Some(a) => {
            proof {
                assert(joined[a as int] == name@);
                assert(joined.to_set().insert(name@) =~= joined.to_set());
            }
        },
    }
}

/// Notes that the connection at place `i` has left the room `name`.
pub(crate) fn note_left(clients: &mut Vec<ClientInfo>, i: usize, name: &String)
    requires
        clients_ok(old(clients)@),
        i < old(clients)@.len(),
    ensures
        clients_ok(final(clients)@),
        clients_view(final(clients)@) == clients_view(old(clients)@).insert(
            old(clients)@[i as int].id,
            clients_view(old(clients)@)[old(clients)@[i as int].id].remove(name@),
        ),
        channels_view(final(clients)@) == channels_view(old(clients)@),
{
    let ghost before = clients@;
    let ghost joined = names(before[i as int].rooms@);
    proof {
        lemma_assoc_at(client_ids(before), client_rooms(before), i as int);
    }
    match position_of_name(&clients[i].rooms, name) {
        Some(a) => {
            clients[i].rooms.remove(a);
            proof {
                assert(names(clients@[i as int].rooms@) =~= joined.remove(a as int));
                lemma_distinct_remove(joined, a as int);
                lemma_client_replaced(before, clients@, i as int);
            }
        },
        None => {
            proof {
                assert(joined.to_set().remove(name@) =~= joined.to_set());
            }
        },
    }
}

impl Tables {
    /// The registry that the two tables stand for.
    pub(crate) open spec fn view(self) -> RegistryState {
        RegistryState {
            clients: clients_view(self.clients@),
            rooms: rooms_view(self.rooms@),
            outbound: channels_view(self.clients@),
        }
    }

    /// The tables are in good order, and membership is mutual.
    pub(crate) open spec fn ok(self) -> bool {
        &&& clients_ok(self.clients@)
        &&& rooms_ok(self.rooms@)
        &&& self.view().membership_is_mutual()
    }

    /// Tables in good order stand for a well-formed registry.
    pub(crate) proof fn lemma_well_formed(self)
        requires
            self.ok(),
        ensures
            self.view().well_formed(),
    {
        lemma_clients_view_shape(self.clients@);
        lemma_rooms_view_shape(self.rooms@);
        lemma_assoc_dom(client_ids(self.clients@), client_channels(self.clients@));
    }

    /// Two empty tables.
    pub(crate) fn new() -> (tables: Tables)
        ensures
            tables.ok(),
            tables.view() == RegistryState::empty(),
    {
        let tables = Tables { clients: Vec::new(), rooms: Vec::new() };
        proof {
            assert(tables.view().clients =~= Map::empty());
            assert(tables.view().rooms =~= Map::empty());
            assert(tables.view().outbound =~= Map::empty());
        }
        tables
    }

    /// Lists the connection `id`, unless it is listed already, and says
    /// whether it did.
    pub(crate) fn register(&mut self, id: ClientId, tx: Outbound) -> (added: bool)
        requires
            old(self).ok(),
        ensures
            final(self).ok(),
            added == !old(self).view().is_registered(id),
            final(self).view() == old(self).view().register(id, tx),
    {
        let ghost before = *self;
        match find_client(&self.clients, id) {
            Some(i) => {
                proof {
                    assert(client_ids(before.clients@)[i as int] == id);
                }
                false
            },
            None => {
                let info = ClientInfo { id, rooms: Vec::new(), tx };
                proof {
                    lemma_client_pushed(before.clients@, info);
                    before.lemma_well_formed();
                    lemma_register_keeps_well_formed(before.view(), id, tx);
                }
                self.clients.push(info);
                true
            },
        }
    }

    /// Lists the connection `id`, if it is known, as a member of `room`, and
    /// `room` among its rooms.
    pub(crate) fn join(&mut self, id: ClientId, room: &String)
        requires
            old(self).ok(),
        ensures
            final(self).ok(),
            final(self).view() == old(self).view().join(id, room@),
    {
        let ghost before = *self;
        match find_client(&self.clients, id) {
            Some(i) => {
                add_member(&mut self.rooms, room, id);
                note_joined(&mut self.clients, i, room);
                proof {
                    before.lemma_well_formed();
                    lemma_join_keeps_well_formed(before.view(), id, room@);
                }
            },
            None => {},
        }
    }

    /// Takes the connection `id`, if it is known, out of `room`, if that is
    /// known, and `room` out of its rooms.
    pub(crate) fn leave(&mut self, id: ClientId, room: &String)
        requires
            old(self).ok(),
        ensures
            final(self).ok(),
            final(self).view() == old(self).view().leave(id, room@),
    {
        let ghost before = *self;
        match find_client(&self.clients, id) {
            Some(i) => {
                proof {
                    lemma_assoc_at(
                        client_ids(before.clients@),
                        client_rooms(before.clients@),
                        i as int,
                    );
                }
                let found = find_room(&self.rooms, room);
                if found.is_some() {
                    proof {
                        assert(room_names(before.rooms@)[found.unwrap() as int] == room@);
                    }
                    remove_member(&mut self.rooms, room, id);
                    note_left(&mut self.clients, i, room);
                    proof {
                        before.lemma_well_formed();
                        lemma_leave_keeps_well_formed(before.view(), id, room@);
                    }
                }
            },
            None => {},
        }
    }

    /// Takes the connection `id`, if it is known, out of its list and out of
    /// every room that it had joined.
    pub(crate) fn unregister(&mut self, id: ClientId)
        requires
            old(self).ok(),
        ensures
            final(self).ok(),
            final(self).view() == old(self).view().unregister(id),
    {
        let ghost before = *self;
        match find_client(&self.clients, id) {
            Some(i) => {
                let client = self.clients.remove(i);
                let ghost joined = names(client.rooms@);
                let ghost rooms_before = rooms_view(before.rooms@);
                proof {
                    lemma_assoc_at(
                        client_ids(before.clients@),
                        client_rooms(before.clients@),
                        i as int,
                    );
                    lemma_client_removed(before.clients@, i as int);
                }
                let mut a: usize = 0;
                while a < client.rooms.len()
                    invariant
                        a <= client.rooms.len(),
                        joined == names(client.rooms@),
                        joined.no_duplicates(),
                        rooms_ok(self.rooms@),
                        self.clients@ == before.clients@.remove(i as int),
                        rooms_view(self.rooms@) == without_member(
                            rooms_before,
                            id,
                            joined.take(a as int).to_set(),
                        ),
                    decreases client.rooms.len() - a,
                {
                    remove_member(&mut self.rooms, &client.rooms[a], id);
                    proof {
                        let done = joined.take(a as int);
                        assert(joined.take(a + 1) =~= done.push(joined[a as int]));
                        lemma_distinct_push(done, joined[a as int]);
                    }
                    a += 1;
                }
                proof {
                    assert(joined.take(a as int) =~= joined);
                    before.lemma_well_formed();
                    lemma_unregister_keeps_well_formed(before.view(), id);
                }
            },
            None => {},
        }
    }
}

} // verus!
