//! The dispatcher: what one inbound text frame does to the registry, who gets
//! a message because of it, and what the sender is told.
//!
//! A frame that asks to join or leave a room changes the registry and is
//! acknowledged. A chat frame has its message offered to every member of the
//! room, whether or not the sender is one of them, and the sender is told
//! that it was sent; a member whose outbound channel does not take the
//! message is gone, and is unregistered. A frame that cannot be decoded
//! changes nothing and reaches nobody but its sender, who is told why.

use vstd::prelude::*;
use crate::ident::ClientId;
use crate::model::RegistryState;
use crate::protocol::{
    chat_frame, decode, decode_frame, decoded_view, error_frame, error_text, joined_frame,
    joined_text, json_object, left_frame, left_text, sent_frame, sent_text, Action, ClientAction,
};
use crate::registry::{
    accepted_count, recipients, rejected_count, tally, undelivered, Delivery, RoomManager,
};

verus! {

/// What handling one frame came to.
#[derive(Debug)]
pub struct Handled {
    /// The frame to send back to the connection that the frame came from.
    pub reply: String,
    /// The offers of the frame's message that were made, one for each member
    /// of the room it was meant for; none for a frame that carried no message.
    pub deliveries: Vec<Delivery>,
}

impl Handled {
    /// How many outbound channels took the frame's message.
    pub fn delivered(&self) -> (count: usize)
        ensures
            count == accepted_count(self.deliveries@),
            count == self.deliveries@.len() - rejected_count(self.deliveries@),
    {
        tally(&self.deliveries)
    }
}

/// The registry after a frame from `id` that decoded to `decoded`, before the
/// connections that did not take its message are unregistered.
pub open spec fn effect(
    state: RegistryState,
    id: ClientId,
    decoded: Result<Action, Seq<char>>,
) -> RegistryState {
    match decoded {
        Ok(Action::JoinRoom { room }) => state.join(id, room),
        Ok(Action::LeaveRoom { room }) => state.leave(id, room),
        Ok(Action::Chat { .. }) => state,
        Err(_) => state,
    }
}

/// The connections that a frame's message is offered to.
pub open spec fn audience(state: RegistryState, decoded: Result<Action, Seq<char>>) -> Set<
    ClientId,
> {
    match decoded {
        Ok(Action::Chat { room, .. }) => state.members(room),
        _ => Set::empty(),
    }
}

/// The frame sent back to the connection that a frame came from.
pub open spec fn reply_text(decoded: Result<Action, Seq<char>>) -> Seq<char> {
    match decoded {
        Ok(Action::JoinRoom { room }) => joined_text(room),
        Ok(Action::LeaveRoom { room }) => left_text(room),
        Ok(Action::Chat { room, message }) => sent_text(room, message),
        Err(details) => error_text(details),
    }
}

/// A chat message reaches the members of its room whoever sends it: the
/// sender need be neither a member of the room nor registered. Nobody joins
/// or leaves a room by it, and the sender is told that the message was sent.
pub proof fn lemma_chat_needs_no_membership(
    state: RegistryState,
    sender: ClientId,
    room: Seq<char>,
    message: Seq<char>,
)
    ensures
        audience(state, Ok(Action::Chat { room, message })) == state.members(room),
        effect(state, sender, Ok(Action::Chat { room, message })) == state,
        reply_text(Ok(Action::Chat { room, message })) == sent_text(room, message),
{
}

/// A frame that cannot be decoded changes nothing and reaches nobody: its
/// sender alone is told, with the reason.
pub proof fn lemma_undecodable_frame_changes_nothing(
    state: RegistryState,
    sender: ClientId,
    details: Seq<char>,
)
    ensures
        effect(state, sender, Err(details)) == state,
        audience(state, Err(details)) == Set::<ClientId>::empty(),
        reply_text(Err(details)) == error_text(details),
{
}

/// A chat message whose every offer is taken changes nothing.
pub proof fn lemma_nothing_undelivered(state: RegistryState, deliveries: Seq<Delivery>)
    requires
        rejected_count(deliveries) == 0,
    ensures
        undelivered(deliveries).len() == 0,
        state.unregister_all(undelivered(deliveries)) == state,
    decreases deliveries.len(),
{
    if deliveries.len() > 0 {
        lemma_nothing_undelivered(state, deliveries.drop_last());
    }
}

/// The report of a frame that carried no message.
fn nobody() -> (report: Vec<Delivery>)
    ensures
        report@.len() == 0,
        undelivered(report@).len() == 0,
        recipients(report@).no_duplicates(),
        recipients(report@).to_set() == Set::<ClientId>::empty(),
{
    Vec::new()
}

/// Does what a decoded frame from `client_id` asks for, and says what to send
/// back.
pub fn perform(
    manager: &mut RoomManager,
    client_id: ClientId,
    decoded: Result<ClientAction, String>,
) -> (handled: Handled)
    ensures
        final(manager)@ == effect(
            old(manager)@,
            client_id,
            decoded_view(decoded),
        ).unregister_all(undelivered(handled.deliveries@)),
        final(manager)@.well_formed(),
        handled.reply@ == reply_text(decoded_view(decoded)),
        recipients(handled.deliveries@).no_duplicates(),
        recipients(handled.deliveries@).to_set() == audience(
            old(manager)@,
            decoded_view(decoded),
        ),
        handled.deliveries@.len() == audience(old(manager)@, decoded_view(decoded)).len(),
        decoded is Err ==> final(manager)@ == old(manager)@,
{
    match decoded {
        Ok(ClientAction::JoinRoom { room }) => {
            let reply = joined_frame(&room);
            manager.join_room(client_id, room);
            Handled { reply, deliveries: nobody() }
        },
        Ok(ClientAction::LeaveRoom { room }) => {
            manager.leave_room(client_id, &room);
            Handled { reply: left_frame(&room), deliveries: nobody() }
        },
        Ok(ClientAction::Chat { room, message }) => {
            let payload = chat_frame(&message);
            let deliveries = manager.deliver(&room, &payload);
            manager.drop_undelivered(&deliveries);
            Handled { reply: sent_frame(&room, &message), deliveries }
        },
        Err(details) => {
            proof {
                use_type_invariant(&*manager);
                manager.lemma_well_formed();
            }
            Handled { reply: error_frame(&details), deliveries: nobody() }
        },
    }
}

/// Handles one inbound text frame from `client_id`: decodes it, does what it
/// asks for, and says what to send back.
pub fn handle_incoming_message(
    manager: &mut RoomManager,
    client_id: ClientId,
    message: &str,
) -> (handled: Handled)
    ensures
        final(manager)@ == effect(
            old(manager)@,
            client_id,
            decode(json_object(message@)),
        ).unregister_all(undelivered(handled.deliveries@)),
        final(manager)@.well_formed(),
        handled.reply@ == reply_text(decode(json_object(message@))),
        recipients(handled.deliveries@).no_duplicates(),
        recipients(handled.deliveries@).to_set() == audience(
            old(manager)@,
            decode(json_object(message@)),
        ),
        handled.deliveries@.len() == audience(
            old(manager)@,
            decode(json_object(message@)),
        ).len(),
        decode(json_object(message@)) is Err ==> final(manager)@ == old(manager)@,
{
    perform(manager, client_id, decode_frame(message))
}

} // verus!
