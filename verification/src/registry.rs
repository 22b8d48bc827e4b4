//! The registry: the one directory of live connections and of the rooms they
//! have joined.
//!
//! [`RoomManager`] is the executable registry. Its view is a
//! [`RegistryState`], and each of its operations is specified by the operation
//! of the same name on that state. A `RoomManager` is well-formed at all times:
//! membership is mutual and no room is empty.

use vstd::prelude::*;
use crate::assoc::{lemma_assoc_at, lemma_distinct_len};
use crate::ident::ClientId;
use crate::model::RegistryState;
use crate::outbox::{offer, Outbound};
use crate::tables::{
    client_channels, client_ids, client_rooms, clients_view, find_client, find_room,
    lemma_clients_view_shape, lemma_rooms_view_shape, names, position_of_id, position_of_name,
    room_members, room_names, Tables,
};
pub use crate::tables::ClientInfo;

verus! {

/// Why a registration was refused.
#[derive(Debug, Clone, Copy, PartialEq, Eq)]
pub enum RegistryError {
    /// The identifier is registered already.
    AlreadyRegistered,
}

/// What became of one offer of a payload to one member of a room.
#[derive(Debug, Clone, Copy)]
pub struct Delivery {
    /// The member the payload was offered to.
    pub recipient: ClientId,
    /// Whether the member's outbound channel took it.
    pub accepted: bool,
}

/// The members that a report lists, in its order.
pub open spec fn recipients(report: Seq<Delivery>) -> Seq<ClientId> {
    Seq::new(report.len(), |i: int| report[i].recipient)
}

/// How many offers of a report were accepted.
pub open spec fn accepted_count(report: Seq<Delivery>) -> nat
    decreases report.len(),
{
    if report.len() == 0 {
        0
    } else {
        accepted_count(report.drop_last()) + if report.last().accepted {
            1nat
        } else {
            0nat
        }
    }
}

/// How many offers of a report were not accepted.
pub open spec fn rejected_count(report: Seq<Delivery>) -> nat
    decreases report.len(),
{
    if report.len() == 0 {
        0
    } else {
        rejected_count(report.drop_last()) + if report.last().accepted {
            0nat
        } else {
            1nat
        }
    }
}

/// The members that a report lists as not having taken the payload, in its
/// order.
pub open spec fn undelivered(report: Seq<Delivery>) -> Seq<ClientId>
    decreases report.len(),
{
    if report.len() == 0 {
        Seq::empty()
    } else if report.last().accepted {
        undelivered(report.drop_last())
    } else {
        undelivered(report.drop_last()).push(report.last().recipient)
    }
}

/// Every offer counts once, as accepted or as not: an offer that is not
/// accepted takes nothing from the count of the others.
pub proof fn lemma_every_offer_counts_once(report: Seq<Delivery>)
    ensures
        accepted_count(report) + rejected_count(report) == report.len(),
    decreases report.len(),
{
    if report.len() > 0 {
        lemma_every_offer_counts_once(report.drop_last());
    }
}

/// Counts the accepted offers of a report.
pub fn tally(report: &Vec<Delivery>) -> (count: usize)
    ensures
        count == accepted_count(report@),
        count == report.len() - rejected_count(report@),
{
    let mut count: usize = 0;
    let mut i: usize = 0;
    while i < report.len()
        invariant
            i <= report.len(),
            count <= i,
            count == accepted_count(report@.take(i as int)),
        decreases report.len() - i,
    {
        proof {
            assert(report@.take(i + 1).drop_last() =~= report@.take(i as int));
        }
        if report[i].accepted {
            count += 1;
        }
        i += 1;
    }
    proof {
        assert(report@.take(i as int) =~= report@);
        lemma_every_offer_counts_once(report@);
    }
    count
}

impl ClientInfo {
    /// The connection's identifier.
    pub closed spec fn spec_id(&self) -> ClientId {
        self.id
    }

    /// The rooms the connection has joined.
    pub closed spec fn joined(&self) -> Set<Seq<char>> {
        names(self.rooms@).to_set()
    }

    /// The connection's identifier.
    pub fn id(&self) -> (id: ClientId)
        ensures
            id == self.spec_id(),
    {
        self.id
    }

    /// Whether the connection has joined `room`.
    pub fn has_joined(&self, room: &String) -> (joined: bool)
        ensures
            joined == self.joined().contains(room@),
    {
        let found = position_of_name(&self.rooms, room);
        proof {
            if found.is_some() {
                assert(names(self.rooms@)[found.unwrap() as int] == room@);
            }
        }
        found.is_some()
    }

    /// The connection's outbound channel.
    pub closed spec fn spec_outbound(&self) -> Outbound {
        self.tx
    }

    /// The connection's outbound channel.
    pub fn outbound(&self) -> (outbound: &Outbound)
        ensures
            *outbound == self.spec_outbound(),
    {
        &self.tx
    }
}

/// The registry of live connections and rooms.
pub struct RoomManager {
    tables: Tables,
}

impl View for RoomManager {
    type V = RegistryState;

    closed spec fn view(&self) -> RegistryState {
        self.tables.view()
    }
}

impl RoomManager {
    #[verifier::type_invariant]
    pub(crate) closed spec fn in_good_order(self) -> bool {
        self.tables.ok()
    }

    /// A registry in good order is well-formed.
    pub(crate) proof fn lemma_well_formed(self)
        requires
            self.in_good_order(),
        ensures
            self@.well_formed(),
    {
        self.tables.lemma_well_formed();
    }

    /// A registry with no connection and no room.
    pub fn new() -> (manager: Self)
        ensures
            manager@ == RegistryState::empty(),
            manager@.well_formed(),
    {
        RoomManager { tables: Tables::new() }
    }

    /// Registers the connection `id`, with no room and with `tx` as its
    /// outbound channel. Fails, and changes nothing, exactly when `id` is
    /// registered already.
    pub fn register_client(&mut self, id: ClientId, tx: Outbound) -> (registered: Result<
        (),
        RegistryError,
    >)
        ensures
            registered is Ok <==> !old(self)@.is_registered(id),
            registered is Err ==> registered == Err::<(), RegistryError>(
                RegistryError::AlreadyRegistered,
            ),
            final(self)@ == old(self)@.register(id, tx),
            final(self)@.well_formed(),
    {
        proof {
            use_type_invariant(&*self);
        }
        let mut tables = Tables::new();
        std::mem::swap(&mut tables, &mut self.tables);
        let added = tables.register(id, tx);
        proof {
            tables.lemma_well_formed();
        }
        self.tables = tables;
        if added {
            Ok(())
        } else {
            Err(RegistryError::AlreadyRegistered)
        }
    }

    /// Forgets the connection `id`: takes it out of every room it had joined
    /// and drops the rooms that are left without a member. Nothing happens
    /// where `id` is unknown.
    pub fn unregister_client(&mut self, id: ClientId)
        ensures
            final(self)@ == old(self)@.unregister(id),
            final(self)@.well_formed(),
    {
        proof {
            use_type_invariant(&*self);
        }
        let mut tables = Tables::new();
        std::mem::swap(&mut tables, &mut self.tables);
        tables.unregister(id);
        proof {
            tables.lemma_well_formed();
        }
        self.tables = tables;
    }

    /// Makes the connection `client_id` a member of the room `room_id`, which
    /// is created if it is not there. Nothing happens where `client_id` is
    /// unknown.
    pub fn join_room(&mut self, client_id: ClientId, room_id: String)
        ensures
            final(self)@ == old(self)@.join(client_id, room_id@),
            final(self)@.well_formed(),
    {
        proof {
            use_type_invariant(&*self);
        }
        let mut tables = Tables::new();
        std::mem::swap(&mut tables, &mut self.tables);
        tables.join(client_id, &room_id);
        proof {
            tables.lemma_well_formed();
        }
        self.tables = tables;
    }

    /// Takes the connection `client_id` out of the room `room_id`, and drops
    /// the room if that leaves it without a member. Nothing happens where the
    /// connection or the room is unknown.
    pub fn leave_room(&mut self, client_id: ClientId, room_id: &String)
        ensures
            final(self)@ == old(self)@.leave(client_id, room_id@),
            final(self)@.well_formed(),
    {
        proof {
            use_type_invariant(&*self);
        }
        let mut tables = Tables::new();
        std::mem::swap(&mut tables, &mut self.tables);
        tables.leave(client_id, room_id);
        proof {
            tables.lemma_well_formed();
        }
        self.tables = tables;
    }

    /// Whether the connection `id` is registered.
    pub fn is_registered(&self, id: ClientId) -> (known: bool)
        ensures
            known == self@.is_registered(id),
            self@.well_formed(),
    {
        proof {
            use_type_invariant(self);
            self.tables.lemma_well_formed();
        }
        let found = find_client(&self.tables.clients, id);
        proof {
            if found.is_some() {
                assert(client_ids(self.tables.clients@)[found.unwrap() as int] == id);
            }
        }
        found.is_some()
    }

    /// What the registry keeps of the connection `id`, if it is registered.
    pub fn client(&self, id: ClientId) -> (info: Option<&ClientInfo>)
        ensures
            info is Some <==> self@.is_registered(id),
            info matches Some(found) ==> found.spec_id() == id && found.joined()
                == self@.rooms_of(id) && found.spec_outbound() == self@.outbound[id],
            self@.well_formed(),
    {
        proof {
            use_type_invariant(self);
            self.tables.lemma_well_formed();
        }
        match find_client(&self.tables.clients, id) {
            Some(i) => {
                proof {
                    lemma_assoc_at(
                        client_ids(self.tables.clients@),
                        client_rooms(self.tables.clients@),
                        i as int,
                    );
                    lemma_assoc_at(
                        client_ids(self.tables.clients@),
                        client_channels(self.tables.clients@),
                        i as int,
                    );
                }
                Some(&self.tables.clients[i])
            },
            None => None,
        }
    }

    /// Whether the room `room` has a member.
    pub fn has_room(&self, room: &String) -> (known: bool)
        ensures
            known == self@.has_room(room@),
            self@.well_formed(),
    {
        proof {
            use_type_invariant(self);
            self.tables.lemma_well_formed();
        }
        let found = find_room(&self.tables.rooms, room);
        proof {
            if found.is_some() {
                assert(room_names(self.tables.rooms@)[found.unwrap() as int] == room@);
            }
        }
        found.is_some()
    }

    /// Whether the connection `id` is a member of the room `room`.
    pub fn is_member(&self, id: ClientId, room: &String) -> (member: bool)
        ensures
            member == self@.members(room@).contains(id),
            self@.well_formed(),
    {
        proof {
            use_type_invariant(self);
            self.tables.lemma_well_formed();
        }
        match find_room(&self.tables.rooms, room) {
            Some(k) => {
                proof {
                    lemma_assoc_at(
                        room_names(self.tables.rooms@),
                        room_members(self.tables.rooms@),
                        k as int,
                    );
                }
                position_of_id(&self.tables.rooms[k].members, id).is_some()
            },
            None => false,
        }
    }

    /// How many members the room `room` has; none where it is unknown.
    pub fn room_size(&self, room: &String) -> (size: usize)
        ensures
            size == self@.members(room@).len(),
            self@.well_formed(),
    {
        proof {
            use_type_invariant(self);
            self.tables.lemma_well_formed();
        }
        match find_room(&self.tables.rooms, room) {
            Some(k) => {
                proof {
                    lemma_assoc_at(
                        room_names(self.tables.rooms@),
                        room_members(self.tables.rooms@),
                        k as int,
                    );
                    lemma_distinct_len(self.tables.rooms@[k as int].members@);
                }
                self.tables.rooms[k].members.len()
            },
            None => 0,
        }
    }

    /// The members of the room `room`, each once; none where it is unknown.
    pub fn members(&self, room: &String) -> (members: Vec<ClientId>)
        ensures
            members@.no_duplicates(),
            members@.to_set() == self@.members(room@),
            self@.well_formed(),
    {
        proof {
            use_type_invariant(self);
            self.tables.lemma_well_formed();
        }
        match find_room(&self.tables.rooms, room) {
            Some(k) => {
                proof {
                    lemma_assoc_at(
                        room_names(self.tables.rooms@),
                        room_members(self.tables.rooms@),
                        k as int,
                    );
                }
                let stored = &self.tables.rooms[k].members;
                let mut members: Vec<ClientId> = Vec::new();
                let mut b: usize = 0;
                while b < stored.len()
                    invariant
                        b <= stored.len(),
                        members@ == stored@.take(b as int),
                    decreases stored.len() - b,
                {
                    members.push(stored[b]);
                    b += 1;
                }
                proof {
                    assert(stored@.take(b as int) =~= stored@);
                }
                members
            },
            None => {
                let members: Vec<ClientId> = Vec::new();
                members
            },
        }
    }

    /// The rooms that the connection `id` has joined, each once; none where
    /// it is unknown.
    pub fn rooms_of(&self, id: ClientId) -> (rooms: Vec<String>)
        ensures
            names(rooms@).no_duplicates(),
            names(rooms@).to_set() == self@.rooms_of(id),
            self@.well_formed(),
    {
        proof {
            use_type_invariant(self);
            self.tables.lemma_well_formed();
        }
        match find_client(&self.tables.clients, id) {
            Some(i) => {
                proof {
                    lemma_assoc_at(
                        client_ids(self.tables.clients@),
                        client_rooms(self.tables.clients@),
                        i as int,
                    );
                }
                let stored = &self.tables.clients[i].rooms;
                let mut rooms: Vec<String> = Vec::new();
                let mut a: usize = 0;
                while a < stored.len()
                    invariant
                        a <= stored.len(),
                        names(rooms@) == names(stored@).take(a as int),
                    decreases stored.len() - a,
                {
                    rooms.push(stored[a].clone());
                    proof {
                        assert(names(rooms@) =~= names(stored@).take(a as int).push(
                            stored@[a as int]@,
                        ));
                    }
                    a += 1;
                }
                proof {
                    assert(names(stored@).take(a as int) =~= names(stored@));
                }
                rooms
            },
            None => {
                let rooms: Vec<String> = Vec::new();
                rooms
            },
        }
    }

    /// How many connections are registered.
    pub fn client_count(&self) -> (count: usize)
        ensures
            count == self@.clients.dom().len(),
            self@.well_formed(),
    {
        proof {
            use_type_invariant(self);
            self.tables.lemma_well_formed();
            lemma_clients_view_shape(self.tables.clients@);
        }
        self.tables.clients.len()
    }

    /// How many rooms have a member.
    pub fn room_count(&self) -> (count: usize)
        ensures
            count == self@.rooms.dom().len(),
            self@.well_formed(),
    {
        proof {
            use_type_invariant(self);
            self.tables.lemma_well_formed();
            lemma_rooms_view_shape(self.tables.rooms@);
        }
        self.tables.rooms.len()
    }

    /// Offers `payload` to the outbound channel of every member of `room`,
    /// once each, and reports what became of each offer. A member whose
    /// channel does not take the payload is passed over: the offers to the
    /// others are made all the same. The registry stays as it is.
    pub fn deliver(&self, room: &String, payload: &String) -> (report: Vec<Delivery>)
        ensures
            recipients(report@).no_duplicates(),
            recipients(report@).to_set() == self@.members(room@),
            report@.len() == self@.members(room@).len(),
            self@.well_formed(),
    {
        proof {
            use_type_invariant(self);
            self.tables.lemma_well_formed();
        }
        let mut report: Vec<Delivery> = Vec::new();
        match find_room(&self.tables.rooms, room) {
            Some(k) => {
                let members = &self.tables.rooms[k].members;
                proof {
                    lemma_assoc_at(
                        room_names(self.tables.rooms@),
                        room_members(self.tables.rooms@),
                        k as int,
                    );
                    lemma_distinct_len(members@);
                }
                let mut b: usize = 0;
                while b < members.len()
                    invariant
                        b <= members.len(),
                        recipients(report@) == members@.take(b as int),
                        self.tables.ok(),
                        self.tables.view().members(room@) == members@.to_set(),
                    decreases members.len() - b,
                {
                    let id = members[b];
                    match find_client(&self.tables.clients, id) {
                        Some(i) => {
                            let accepted = offer(&self.tables.clients[i].tx, payload.clone());
                            report.push(Delivery { recipient: id, accepted });
                        },
                        None => {
                            proof {
                                assert(members@.to_set().contains(id));
                                assert(self.tables.view().rooms_of(id).contains(room@));
                                assert(clients_view(self.tables.clients@).contains_key(id));
                            }
                            vstd::pervasive::unreached::<()>();
                        },
                    }
                    proof {
                        assert(recipients(report@) =~= members@.take(b as int).push(id));
                    }
                    b += 1;
                }
                proof {
                    assert(members@.take(b as int) =~= members@);
                }
            },
            None => {},
        }
        report
    }

    /// Unregisters every connection that `report` lists as not having taken
    /// a payload: a connection whose outbound channel takes nothing is gone.
    pub fn drop_undelivered(&mut self, report: &Vec<Delivery>)
        ensures
            final(self)@ == old(self)@.unregister_all(undelivered(report@)),
            final(self)@.well_formed(),
    {
        proof {
            use_type_invariant(&*self);
        }
        let ghost before = self@;
        let mut tables = Tables::new();
        std::mem::swap(&mut tables, &mut self.tables);
        let mut i: usize = 0;
        while i < report.len()
            invariant
                i <= report.len(),
                tables.ok(),
                tables.view() == before.unregister_all(undelivered(report@.take(i as int))),
            decreases report.len() - i,
        {
            proof {
                let done = undelivered(report@.take(i as int));
                assert(report@.take(i + 1).drop_last() =~= report@.take(i as int));
                assert(done.push(report@[i as int].recipient).drop_last() =~= done);
            }
            if !report[i].accepted {
                tables.unregister(report[i].recipient);
            }
            i += 1;
        }
        proof {
            assert(report@.take(i as int) =~= report@);
            tables.lemma_well_formed();
        }
        self.tables = tables;
    }

    /// Sends `payload` to every member of `room`, the sender included if it
    /// is one, and returns how many outbound channels took it. The sender
    /// need not be a member of the room, nor registered. A channel that does
    /// not take the payload is passed over.
    pub fn broadcast(&self, room: &String, _sender: ClientId, payload: &String) -> (count: usize)
        ensures
            count <= self@.members(room@).len(),
            self@.well_formed(),
    {
        let report = self.deliver(room, payload);
        tally(&report)
    }
}

} // verus!
