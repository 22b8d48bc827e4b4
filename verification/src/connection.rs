//! The life of one connection, as the task that reads from it sees it.
//!
//! A connection starts out `Connecting`. When the transport upgrade has
//! succeeded it gets its identifier, is registered and becomes `Active`. A
//! close frame or a failed read makes it `Closing`: the read loop stops. What
//! is left is to unregister it, which makes it `Closed`. The task that owns the
//! transport asks [`Connection::on_event`] what to do about each thing the
//! transport reports, does it, and calls [`Connection::finish`] on its way out.

use vstd::prelude::*;
use crate::dispatch::{audience, effect, handle_incoming_message, reply_text, Handled};
use crate::ident::{mint_client_id, ClientId};
use crate::outbox::Outbound;
use crate::protocol::{decode, greeting, greeting_text, json_object};
use crate::registry::{recipients, undelivered, RoomManager};

verus! {

/// Where a connection is in its life.
#[derive(Debug, Clone, Copy, PartialEq, Eq)]
pub enum ConnectionState {
    /// The transport upgrade is in progress.
    Connecting,
    /// The connection is registered and its frames are handled.
    Active,
    /// The read loop has stopped; the connection is yet to be unregistered.
    Closing,
    /// Nothing is left to do.
    Closed,
}

/// What the transport reports to the task that reads from a connection.
pub enum Event {
    /// The upgrade succeeded; the sender feeds the connection's write loop.
    Upgraded(Outbound),
    /// The upgrade failed.
    UpgradeFailed,
    /// A ping frame came in.
    Ping(Vec<u8>),
    /// A text frame came in.
    Text(String),
    /// A close frame came in.
    Close,
    /// A frame of another kind came in.
    Other,
    /// Reading failed, or the stream ended.
    ReadFailed,
}

/// What the task that reads from a connection does next.
pub enum Step {
    /// Send this greeting, then start the two loops.
    Greet(String),
    /// Give the connection up: nothing was registered.
    Reject,
    /// Answer the ping with a pong that carries the same bytes.
    Pong(Vec<u8>),
    /// Send the reply back to the client.
    Reply(Handled),
    /// Go on reading.
    Ignore,
    /// Stop reading.
    Stop,
}

/// One connection, as the task that reads from it sees it.
pub struct Connection {
    id: Option<ClientId>,
    state: ConnectionState,
}

impl Connection {
    #[verifier::type_invariant]
    spec fn identified_while_live(self) -> bool {
        &&& self.state is Connecting ==> self.id is None
        &&& (self.state is Active || self.state is Closing) ==> self.id is Some
    }

    /// Where the connection is in its life.
    pub closed spec fn spec_state(&self) -> ConnectionState {
        self.state
    }

    /// The connection's identifier, once it has one.
    pub closed spec fn spec_id(&self) -> Option<ClientId> {
        self.id
    }

    /// A connection whose upgrade is in progress.
    pub fn new() -> (connection: Self)
        ensures
            connection.spec_state() is Connecting,
            connection.spec_id() is None,
    {
        Connection { id: None, state: ConnectionState::Connecting }
    }

    /// Where the connection is in its life.
    pub fn state(&self) -> (state: ConnectionState)
        ensures
            state == self.spec_state(),
            self.spec_state() is Connecting ==> self.spec_id() is None,
            (self.spec_state() is Active || self.spec_state() is Closing) ==> self.spec_id()
                is Some,
    {
        proof {
            use_type_invariant(self);
        }
        self.state
    }

    /// The connection's identifier, once it has one.
    pub fn id(&self) -> (id: Option<ClientId>)
        ensures
            id == self.spec_id(),
    {
        self.id
    }

    /// Makes a connecting connection active under the identifier `id`:
    /// registers it with `tx` as its outbound channel and asks for the
    /// greeting to be sent. Where `id` is registered already the connection is
    /// given up and nothing is registered. A connection that is not connecting
    /// stays as it is.
    pub fn activate(
        &mut self,
        manager: &mut RoomManager,
        id: ClientId,
        tx: Outbound,
    ) -> (step: Step)
        ensures
            final(manager)@.well_formed(),
            !(old(self).spec_state() is Connecting) ==> {
                &&& *final(self) == *old(self)
                &&& final(manager)@ == old(manager)@
                &&& step is Ignore
            },
            old(self).spec_state() is Connecting && old(manager)@.is_registered(id) ==> {
                &&& final(self).spec_state() is Closed
                &&& final(self).spec_id() is None
                &&& final(manager)@ == old(manager)@
                &&& step is Reject
            },
            old(self).spec_state() is Connecting && !old(manager)@.is_registered(id) ==> {
                &&& final(self).spec_state() is Active
                &&& final(self).spec_id() == Some(id)
                &&& final(manager)@ == old(manager)@.register(id, tx)
                &&& step matches Step::Greet(text) && text@ == greeting_text()
            },
    {
        match self.state {
            ConnectionState::Connecting => {
                match manager.register_client(id, tx) {
                    Ok(()) => {
                        *self = Connection { id: Some(id), state: ConnectionState::Active };
                        Step::Greet(greeting())
                    },
                    Err(_) => {
                        *self = Connection { id: None, state: ConnectionState::Closed };
                        Step::Reject
                    },
                }
            },
            _ => {
                proof {
                    use_type_invariant(&*manager);
                    manager.lemma_well_formed();
                }
                Step::Ignore
            },
        }
    }

    /// Decides what to do about one thing that the transport reports.
    ///
    /// A connecting connection is activated by a successful upgrade, under a
    /// newly minted identifier, and given up by a failed one. An active
    /// connection answers a ping, handles a text frame and replies to it,
    /// stops reading at a close frame or a failed read, and passes over
    /// anything else. A connection that is closing or closed stops.
    pub fn on_event(&mut self, manager: &mut RoomManager, event: Event) -> (step: Step)
        ensures
            final(manager)@.well_formed(),
            match (old(self).spec_state(), event) {
                (ConnectionState::Connecting, Event::Upgraded(tx)) => {
                    ||| {
                        &&& final(self).spec_state() is Active
                        &&& final(self).spec_id() matches Some(id)
                        &&& !old(manager)@.is_registered(id)
                        &&& final(manager)@ == old(manager)@.register(id, tx)
                        &&& step matches Step::Greet(text)
                        &&& text@ == greeting_text()
                    }
                    ||| {
                        &&& final(self).spec_state() is Closed
                        &&& final(self).spec_id() is None
                        &&& final(manager)@ == old(manager)@
                        &&& step is Reject
                    }
                },
                (ConnectionState::Connecting, Event::UpgradeFailed) => {
                    &&& final(self).spec_state() is Closed
                    &&& final(self).spec_id() is None
                    &&& final(manager)@ == old(manager)@
                    &&& step is Reject
                },
                (ConnectionState::Active, Event::Ping(data)) => {
                    &&& *final(self) == *old(self)
                    &&& final(manager)@ == old(manager)@
                    &&& step matches Step::Pong(bytes)
                    &&& bytes@ == data@
                },
                (ConnectionState::Active, Event::Text(text)) => {
                    &&& *final(self) == *old(self)
                    &&& old(self).spec_id() matches Some(id)
                    &&& step matches Step::Reply(handled)
                    &&& final(manager)@ == effect(
                        old(manager)@,
                        id,
                        decode(json_object(text@)),
                    ).unregister_all(undelivered(handled.deliveries@))
                    &&& handled.reply@ == reply_text(decode(json_object(text@)))
                    &&& recipients(handled.deliveries@).no_duplicates()
                    &&& recipients(handled.deliveries@).to_set() == audience(
                        old(manager)@,
                        decode(json_object(text@)),
                    )
                    &&& handled.deliveries@.len() == audience(
                        old(manager)@,
                        decode(json_object(text@)),
                    ).len()
                },
                (ConnectionState::Active, Event::Close)
                | (ConnectionState::Active, Event::ReadFailed) => {
                    &&& final(self).spec_state() is Closing
                    &&& final(self).spec_id() == old(self).spec_id()
                    &&& final(manager)@ == old(manager)@
                    &&& step is Stop
                },
                (ConnectionState::Closing, _) | (ConnectionState::Closed, _) => {
                    &&& *final(self) == *old(self)
                    &&& final(manager)@ == old(manager)@
                    &&& step is Stop
                },
                _ => {
                    &&& *final(self) == *old(self)
                    &&& final(manager)@ == old(manager)@
                    &&& step is Ignore
                },
            },
    {
        proof {
            use_type_invariant(&*self);
            use_type_invariant(&*manager);
            manager.lemma_well_formed();
        }
        match self.state {
            ConnectionState::Connecting => match event {
                Event::Upgraded(tx) => self.activate(manager, mint_client_id(), tx),
                Event::UpgradeFailed => {
                    *self = Connection { id: None, state: ConnectionState::Closed };
                    Step::Reject
                },
                _ => Step::Ignore,
            },
            ConnectionState::Active => match event {
                Event::Ping(data) => Step::Pong(data),
                Event::Text(text) => match self.id {
                    Some(id) => Step::Reply(handle_incoming_message(manager, id, text.as_str())),
                    None => vstd::pervasive::unreached(),
                },
                Event::Close | Event::ReadFailed => {
                    *self = Connection { id: self.id, state: ConnectionState::Closing };
                    Step::Stop
                },
                _ => Step::Ignore,
            },
            ConnectionState::Closing | ConnectionState::Closed => Step::Stop,
        }
    }

    /// Ends the connection: unregisters it if it was registered and not yet
    /// ended. Ending a connection a second time does nothing.
    pub fn finish(&mut self, manager: &mut RoomManager)
        ensures
            final(self).spec_state() is Closed,
            final(self).spec_id() == old(self).spec_id(),
            final(manager)@.well_formed(),
            final(manager)@ == (match (old(self).spec_state(), old(self).spec_id()) {
                (ConnectionState::Active, Some(id)) | (ConnectionState::Closing, Some(id)) => old(
                    manager,
                )@.unregister(id),
                _ => old(manager)@,
            }),
    {
        proof {
            use_type_invariant(&*manager);
            manager.lemma_well_formed();
        }
        match (self.state, self.id) {
            (ConnectionState::Active, Some(id)) | (ConnectionState::Closing, Some(id)) => {
                manager.unregister_client(id);
            },
            _ => {},
        }
        *self = Connection { id: self.id, state: ConnectionState::Closed };
    }
}

/// Decides what the task that writes to the connection `id` does once it has
/// tried to write one message: it goes on after a write that succeeded, and
/// after one that failed it unregisters the connection and stops.
pub fn after_write(manager: &mut RoomManager, id: ClientId, written: bool) -> (go_on: bool)
    ensures
        go_on == written,
        final(manager)@ == (if written {
            old(manager)@
        } else {
            old(manager)@.unregister(id)
        }),
        final(manager)@.well_formed(),
{
    if !written {
        manager.unregister_client(id);
    } else {
        proof {
            use_type_invariant(&*manager);
            manager.lemma_well_formed();
        }
    }
    written
}

} // verus!
