use room_relay::dispatch::{handle_incoming_message, perform};
use room_relay::ident::ClientId;
use room_relay::protocol::ClientAction;
use room_relay::registry::RoomManager;
use tokio::sync::mpsc::error::TryRecvError;
use tokio::sync::mpsc::{unbounded_channel, UnboundedReceiver};

fn join(manager: &mut RoomManager, room: &str) -> (ClientId, UnboundedReceiver<String>) {
    let id = snowflake::ProcessUniqueId::new();
    let (tx, rx) = unbounded_channel::<String>();
    assert!(manager.register_client(id, tx).is_ok());
    manager.join_room(id, room.to_string());
    (id, rx)
}

fn connect(manager: &mut RoomManager) -> (ClientId, UnboundedReceiver<String>) {
    let id = snowflake::ProcessUniqueId::new();
    let (tx, rx) = unbounded_channel::<String>();
    assert!(manager.register_client(id, tx).is_ok());
    (id, rx)
}

#[test]
fn a_join_frame_joins_and_is_acknowledged() {
    let mut manager = RoomManager::new();
    let (a, mut rx_a) = connect(&mut manager);
    let handled =
        handle_incoming_message(&mut manager, a, "{\"action\":\"join_room\",\"room\":\"lobby\"}");
    assert_eq!(handled.reply, "{\"status\":\"joined\",\"room\":\"lobby\"}");
    assert!(handled.deliveries.is_empty());
    assert_eq!(handled.delivered(), 0);
    assert_eq!(manager.members(&"lobby".to_string()), vec![a]);
    assert_eq!(rx_a.try_recv(), Err(TryRecvError::Empty));
}

#[test]
fn a_leave_frame_leaves_and_is_acknowledged() {
    let mut manager = RoomManager::new();
    let (a, _rx_a) = join(&mut manager, "lobby");
    let handled =
        handle_incoming_message(&mut manager, a, "{\"action\":\"leave_room\",\"room\":\"lobby\"}");
    assert_eq!(handled.reply, "{\"status\":\"left\",\"room\":\"lobby\"}");
    assert_eq!(handled.delivered(), 0);
    assert!(!manager.has_room(&"lobby".to_string()));
    assert!(manager.is_registered(a));
}

#[test]
fn a_leave_frame_for_an_unknown_room_is_acknowledged_all_the_same() {
    let mut manager = RoomManager::new();
    let (a, _rx_a) = join(&mut manager, "lobby");
    let handled =
        handle_incoming_message(&mut manager, a, "{\"action\":\"leave_room\",\"room\":\"attic\"}");
    assert_eq!(handled.reply, "{\"status\":\"left\",\"room\":\"attic\"}");
    assert_eq!(manager.members(&"lobby".to_string()), vec![a]);
}

#[test]
fn a_chat_frame_reaches_the_room_and_is_acknowledged() {
    let mut manager = RoomManager::new();
    let (a, mut rx_a) = join(&mut manager, "lobby");
    let (b, mut rx_b) = join(&mut manager, "lobby");
    let (_c, mut rx_c) = join(&mut manager, "games");
    let handled = handle_incoming_message(
        &mut manager,
        a,
        "{\"action\":\"chat\",\"room\":\"lobby\",\"message\":\"hi\"}",
    );
    assert_eq!(handled.reply, "{\"status\":\"sent message hi\",\"room\":\"lobby\"}");
    assert_eq!(handled.delivered(), 2);
    assert_eq!(handled.deliveries.len(), 2);
    assert_eq!(handled.deliveries[0].recipient, a);
    assert_eq!(handled.deliveries[1].recipient, b);
    assert_eq!(rx_a.try_recv(), Ok("{\"chat\":\"hi\"}".to_string()));
    assert_eq!(rx_b.try_recv(), Ok("{\"chat\":\"hi\"}".to_string()));
    assert_eq!(rx_c.try_recv(), Err(TryRecvError::Empty));
    assert_eq!(manager.room_size(&"lobby".to_string()), 2);
    assert_eq!(manager.room_size(&"games".to_string()), 1);
}

#[test]
fn a_chat_frame_from_outside_the_room_reaches_its_members() {
    let mut manager = RoomManager::new();
    let (outsider, mut rx_outsider) = connect(&mut manager);
    let (_b, mut rx_b) = join(&mut manager, "lobby");
    let handled = handle_incoming_message(
        &mut manager,
        outsider,
        "{\"action\":\"chat\",\"room\":\"lobby\",\"message\":\"psst\"}",
    );
    assert_eq!(handled.reply, "{\"status\":\"sent message psst\",\"room\":\"lobby\"}");
    assert_eq!(handled.delivered(), 1);
    assert_eq!(rx_b.try_recv(), Ok("{\"chat\":\"psst\"}".to_string()));
    assert_eq!(rx_outsider.try_recv(), Err(TryRecvError::Empty));
    assert!(!manager.is_member(outsider, &"lobby".to_string()));
}

#[test]
fn a_chat_frame_to_an_empty_room_is_acknowledged() {
    let mut manager = RoomManager::new();
    let (a, mut rx_a) = connect(&mut manager);
    let handled = handle_incoming_message(
        &mut manager,
        a,
        "{\"action\":\"chat\",\"room\":\"void\",\"message\":\"anyone?\"}",
    );
    assert_eq!(handled.reply, "{\"status\":\"sent message anyone?\",\"room\":\"void\"}");
    assert_eq!(handled.delivered(), 0);
    assert!(!manager.has_room(&"void".to_string()));
    assert_eq!(rx_a.try_recv(), Err(TryRecvError::Empty));
}

#[test]
fn a_chat_frame_passes_over_a_member_that_is_gone() {
    let mut manager = RoomManager::new();
    let (a, mut rx_a) = join(&mut manager, "lobby");
    let (b, rx_b) = join(&mut manager, "lobby");
    let (c, mut rx_c) = join(&mut manager, "lobby");
    drop(rx_b);
    let handled = handle_incoming_message(
        &mut manager,
        a,
        "{\"action\":\"chat\",\"room\":\"lobby\",\"message\":\"hi\"}",
    );
    assert_eq!(handled.reply, "{\"status\":\"sent message hi\",\"room\":\"lobby\"}");
    assert_eq!(handled.delivered(), 2);
    assert_eq!(handled.deliveries.len(), 3);
    assert_eq!(handled.deliveries[1].recipient, b);
    assert!(!handled.deliveries[1].accepted);
    assert_eq!(rx_a.try_recv(), Ok("{\"chat\":\"hi\"}".to_string()));
    assert_eq!(rx_c.try_recv(), Ok("{\"chat\":\"hi\"}".to_string()));
    assert!(!manager.is_registered(b));
    assert_eq!(manager.members(&"lobby".to_string()), vec![a, c]);
    assert_eq!(manager.client_count(), 2);
}

#[test]
fn a_chat_frame_drops_a_member_that_is_gone_from_all_its_rooms() {
    let mut manager = RoomManager::new();
    let (a, _rx_a) = join(&mut manager, "lobby");
    let (b, rx_b) = join(&mut manager, "lobby");
    manager.join_room(b, "games".to_string());
    drop(rx_b);
    let handled = handle_incoming_message(
        &mut manager,
        a,
        "{\"action\":\"chat\",\"room\":\"lobby\",\"message\":\"hi\"}",
    );
    assert_eq!(handled.delivered(), 1);
    assert!(!manager.is_registered(b));
    assert!(!manager.has_room(&"games".to_string()));
    assert_eq!(manager.room_size(&"lobby".to_string()), 1);
}

#[test]
fn a_sender_that_is_gone_is_dropped_by_its_own_chat() {
    let mut manager = RoomManager::new();
    let (a, rx_a) = join(&mut manager, "lobby");
    let (b, mut rx_b) = join(&mut manager, "lobby");
    drop(rx_a);
    let handled = handle_incoming_message(
        &mut manager,
        a,
        "{\"action\":\"chat\",\"room\":\"lobby\",\"message\":\"bye\"}",
    );
    assert_eq!(handled.reply, "{\"status\":\"sent message bye\",\"room\":\"lobby\"}");
    assert_eq!(handled.delivered(), 1);
    assert_eq!(rx_b.try_recv(), Ok("{\"chat\":\"bye\"}".to_string()));
    assert!(!manager.is_registered(a));
    assert_eq!(manager.members(&"lobby".to_string()), vec![b]);
}

#[test]
fn a_malformed_frame_is_answered_to_its_sender_only() {
    let mut manager = RoomManager::new();
    let (a, mut rx_a) = join(&mut manager, "lobby");
    let (b, mut rx_b) = join(&mut manager, "lobby");
    let handled = handle_incoming_message(&mut manager, a, "{\"action\":\"unknown\"}");
    let details = "unknown variant `unknown`, expected one of `join_room`, `leave_room`, `chat`";
    assert_eq!(
        handled.reply,
        format!("{{\"error\":\"invalid_json\",\"details\":\"{}\"}}", details)
    );
    assert!(handled.deliveries.is_empty());
    assert_eq!(handled.delivered(), 0);
    assert_eq!(rx_a.try_recv(), Err(TryRecvError::Empty));
    assert_eq!(rx_b.try_recv(), Err(TryRecvError::Empty));
    assert_eq!(manager.members(&"lobby".to_string()), vec![a, b]);
    assert_eq!(manager.rooms_of(a), vec!["lobby".to_string()]);
    assert_eq!(manager.room_count(), 1);
    assert_eq!(manager.client_count(), 2);
}

#[test]
fn a_frame_that_is_no_json_is_answered_with_the_reason() {
    let mut manager = RoomManager::new();
    let (a, _rx_a) = join(&mut manager, "lobby");
    let handled = handle_incoming_message(&mut manager, a, "hello");
    assert_eq!(
        handled.reply,
        "{\"error\":\"invalid_json\",\"details\":\"expected value at line 1 column 1\"}"
    );
    assert_eq!(manager.members(&"lobby".to_string()), vec![a]);
}

#[test]
fn a_frame_from_a_connection_that_is_gone_changes_nothing() {
    let mut manager = RoomManager::new();
    let (a, _rx_a) = join(&mut manager, "lobby");
    manager.unregister_client(a);
    let handled =
        handle_incoming_message(&mut manager, a, "{\"action\":\"join_room\",\"room\":\"lobby\"}");
    assert_eq!(handled.reply, "{\"status\":\"joined\",\"room\":\"lobby\"}");
    assert!(!manager.has_room(&"lobby".to_string()));
    assert_eq!(manager.client_count(), 0);
}

#[test]
fn performs_decoded_actions() {
    let mut manager = RoomManager::new();
    let (a, mut rx_a) = connect(&mut manager);
    let joined =
        perform(&mut manager, a, Ok(ClientAction::JoinRoom { room: "lobby".to_string() }));
    assert_eq!(joined.reply, "{\"status\":\"joined\",\"room\":\"lobby\"}");
    assert!(manager.is_member(a, &"lobby".to_string()));
    let sent = perform(
        &mut manager,
        a,
        Ok(ClientAction::Chat { room: "lobby".to_string(), message: "hi".to_string() }),
    );
    assert_eq!(sent.reply, "{\"status\":\"sent message hi\",\"room\":\"lobby\"}");
    assert_eq!(sent.delivered(), 1);
    assert_eq!(rx_a.try_recv(), Ok("{\"chat\":\"hi\"}".to_string()));
    let refused = perform(&mut manager, a, Err("no good".to_string()));
    assert_eq!(refused.reply, "{\"error\":\"invalid_json\",\"details\":\"no good\"}");
    assert!(manager.is_member(a, &"lobby".to_string()));
    let left =
        perform(&mut manager, a, Ok(ClientAction::LeaveRoom { room: "lobby".to_string() }));
    assert_eq!(left.reply, "{\"status\":\"left\",\"room\":\"lobby\"}");
    assert!(!manager.has_room(&"lobby".to_string()));
}
