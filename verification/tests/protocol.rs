use room_relay::protocol::{
    chat_frame, decode_frame, error_frame, greeting, interpret, joined_frame, left_frame,
    sent_frame, ClientAction, Field, FieldValue,
};

fn text(key: &str, value: &str) -> Field {
    Field { key: key.to_string(), value: FieldValue::Text(value.to_string()) }
}

fn serde_error(frame: &str) -> String {
    serde_json::from_str::<serde_json::Map<String, serde_json::Value>>(frame)
        .expect_err("not an object")
        .to_string()
}

#[test]
fn decodes_a_join() {
    assert_eq!(
        decode_frame("{\"action\":\"join_room\",\"room\":\"lobby\"}"),
        Ok(ClientAction::JoinRoom { room: "lobby".to_string() })
    );
}

#[test]
fn decodes_a_leave() {
    assert_eq!(
        decode_frame("{\"action\":\"leave_room\",\"room\":\"lobby\"}"),
        Ok(ClientAction::LeaveRoom { room: "lobby".to_string() })
    );
}

#[test]
fn decodes_a_chat() {
    assert_eq!(
        decode_frame("{\"action\":\"chat\",\"room\":\"lobby\",\"message\":\"hi there\"}"),
        Ok(ClientAction::Chat { room: "lobby".to_string(), message: "hi there".to_string() })
    );
}

#[test]
fn decodes_whatever_the_order_and_the_spacing() {
    assert_eq!(
        decode_frame(" { \"message\" : \"hi\", \"room\" : \"lobby\", \"action\" : \"chat\" } "),
        Ok(ClientAction::Chat { room: "lobby".to_string(), message: "hi".to_string() })
    );
}

#[test]
fn decodes_escaped_strings() {
    assert_eq!(
        decode_frame("{\"action\":\"join_room\",\"room\":\"a\\\"b\\u0041\"}"),
        Ok(ClientAction::JoinRoom { room: "a\"bA".to_string() })
    );
}

#[test]
fn ignores_fields_it_does_not_need() {
    assert_eq!(
        decode_frame("{\"action\":\"join_room\",\"room\":\"lobby\",\"message\":5,\"x\":[1]}"),
        Ok(ClientAction::JoinRoom { room: "lobby".to_string() })
    );
}

#[test]
fn refuses_an_unknown_action() {
    assert_eq!(
        decode_frame("{\"action\":\"unknown\"}"),
        Err("unknown variant `unknown`, expected one of `join_room`, `leave_room`, `chat`"
            .to_string())
    );
}

#[test]
fn refuses_a_frame_without_action() {
    assert_eq!(decode_frame("{\"room\":\"lobby\"}"), Err("missing field `action`".to_string()));
    assert_eq!(decode_frame("{}"), Err("missing field `action`".to_string()));
}

#[test]
fn refuses_a_frame_without_room() {
    assert_eq!(
        decode_frame("{\"action\":\"join_room\"}"),
        Err("missing field `room`".to_string())
    );
    assert_eq!(
        decode_frame("{\"action\":\"leave_room\"}"),
        Err("missing field `room`".to_string())
    );
    assert_eq!(
        decode_frame("{\"action\":\"chat\",\"message\":\"hi\"}"),
        Err("missing field `room`".to_string())
    );
}

#[test]
fn refuses_a_chat_without_message() {
    assert_eq!(
        decode_frame("{\"action\":\"chat\",\"room\":\"lobby\"}"),
        Err("missing field `message`".to_string())
    );
}

#[test]
fn refuses_a_field_that_is_no_string() {
    assert_eq!(
        decode_frame("{\"action\":\"join_room\",\"room\":5}"),
        Err("invalid type for field `room`: a number, expected a string".to_string())
    );
    assert_eq!(
        decode_frame("{\"action\":null}"),
        Err("invalid type for field `action`: null, expected a string".to_string())
    );
    assert_eq!(
        decode_frame("{\"action\":\"chat\",\"room\":\"lobby\",\"message\":true}"),
        Err("invalid type for field `message`: a boolean, expected a string".to_string())
    );
    assert_eq!(
        decode_frame("{\"action\":\"leave_room\",\"room\":[\"lobby\"]}"),
        Err("invalid type for field `room`: an array, expected a string".to_string())
    );
    assert_eq!(
        decode_frame("{\"action\":{\"name\":\"chat\"}}"),
        Err("invalid type for field `action`: an object, expected a string".to_string())
    );
}

#[test]
fn refuses_what_is_no_json_object() {
    for frame in ["hello", "", "{\"action\":", "[1,2]", "5", "null", "{} {}", "\"join_room\""] {
        assert_eq!(decode_frame(frame), Err(serde_error(frame)));
    }
    assert_eq!(decode_frame("hello"), Err("expected value at line 1 column 1".to_string()));
}

#[test]
fn interprets_fields_in_hand() {
    assert_eq!(
        interpret(Ok(vec![text("action", "join_room"), text("room", "lobby")])),
        Ok(ClientAction::JoinRoom { room: "lobby".to_string() })
    );
    assert_eq!(
        interpret(Ok(vec![text("room", "lobby"), text("action", "leave_room")])),
        Ok(ClientAction::LeaveRoom { room: "lobby".to_string() })
    );
    assert_eq!(
        interpret(Ok(vec![text("action", "chat"), text("room", "r"), text("message", "m")])),
        Ok(ClientAction::Chat { room: "r".to_string(), message: "m".to_string() })
    );
    assert_eq!(
        interpret(Ok(vec![text("action", "shout")])),
        Err("unknown variant `shout`, expected one of `join_room`, `leave_room`, `chat`"
            .to_string())
    );
    assert_eq!(interpret(Ok(Vec::new())), Err("missing field `action`".to_string()));
    assert_eq!(interpret(Err("no json".to_string())), Err("no json".to_string()));
}

#[test]
fn interprets_the_first_of_two_fields_of_one_name() {
    assert_eq!(
        interpret(Ok(vec![
            text("action", "join_room"),
            text("room", "first"),
            text("room", "second"),
        ])),
        Ok(ClientAction::JoinRoom { room: "first".to_string() })
    );
}

#[test]
fn interprets_every_kind_of_value() {
    let kinds = [
        (FieldValue::Null, "null"),
        (FieldValue::Bool, "a boolean"),
        (FieldValue::Number, "a number"),
        (FieldValue::Array, "an array"),
        (FieldValue::Object, "an object"),
    ];
    for (value, name) in kinds {
        assert_eq!(
            interpret(Ok(vec![
                text("action", "join_room"),
                Field { key: "room".to_string(), value },
            ])),
            Err(format!("invalid type for field `room`: {}, expected a string", name))
        );
    }
}

#[test]
fn outbound_frames_read_as_documented() {
    let lobby = "lobby".to_string();
    let hi = "hi".to_string();
    assert_eq!(greeting(), "Welcome");
    assert_eq!(joined_frame(&lobby), "{\"status\":\"joined\",\"room\":\"lobby\"}");
    assert_eq!(left_frame(&lobby), "{\"status\":\"left\",\"room\":\"lobby\"}");
    assert_eq!(sent_frame(&lobby, &hi), "{\"status\":\"sent message hi\",\"room\":\"lobby\"}");
    assert_eq!(chat_frame(&hi), "{\"chat\":\"hi\"}");
    assert_eq!(
        error_frame(&"missing field `action`".to_string()),
        "{\"error\":\"invalid_json\",\"details\":\"missing field `action`\"}"
    );
}

#[test]
fn outbound_frames_take_empty_strings() {
    let empty = String::new();
    assert_eq!(joined_frame(&empty), "{\"status\":\"joined\",\"room\":\"\"}");
    assert_eq!(sent_frame(&empty, &empty), "{\"status\":\"sent message \",\"room\":\"\"}");
    assert_eq!(chat_frame(&empty), "{\"chat\":\"\"}");
}
