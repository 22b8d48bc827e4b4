//! The protocol: the frames a client sends, how they are read, and the frames
//! it gets back.
//!
//! An inbound frame is one JSON object with a field `action` that says which
//! of the three actions it asks for. JSON itself is read by `serde_json`; what
//! the fields of the object mean is decided here.

use serde_json::Value;
use vstd::prelude::*;
use vstd::string::StringExecFns;

verus! {

/// What a client can ask for.
#[derive(Debug, PartialEq, Eq)]
pub enum ClientAction {
    JoinRoom { room: String },
    LeaveRoom { room: String },
    Chat { room: String, message: String },
}

/// A [`ClientAction`] as mathematics.
pub ghost enum Action {
    JoinRoom { room: Seq<char> },
    LeaveRoom { room: Seq<char> },
    Chat { room: Seq<char>, message: Seq<char> },
}

impl View for ClientAction {
    type V = Action;

    open spec fn view(&self) -> Action {
        match self {
            ClientAction::JoinRoom { room } => Action::JoinRoom { room: room@ },
            ClientAction::LeaveRoom { room } => Action::LeaveRoom { room: room@ },
            ClientAction::Chat { room, message } => Action::Chat {
                room: room@,
                message: message@,
            },
        }
    }
}

/// What a field of a JSON object holds. Only a string is kept; of anything
/// else, only its kind.
#[derive(Debug, PartialEq, Eq)]
pub enum FieldValue {
    Null,
    Bool,
    Number,
    Text(String),
    Array,
    Object,
}

/// A [`FieldValue`] as mathematics.
pub ghost enum FieldContent {
    Null,
    Bool,
    Number,
    Text(Seq<char>),
    Array,
    Object,
}

impl View for FieldValue {
    type V = FieldContent;

    open spec fn view(&self) -> FieldContent {
        match self {
            FieldValue::Null => FieldContent::Null,
            FieldValue::Bool => FieldContent::Bool,
            FieldValue::Number => FieldContent::Number,
            FieldValue::Text(text) => FieldContent::Text(text@),
            FieldValue::Array => FieldContent::Array,
            FieldValue::Object => FieldContent::Object,
        }
    }
}

/// One field of a JSON object.
#[derive(Debug, PartialEq, Eq)]
pub struct Field {
    pub key: String,
    pub value: FieldValue,
}

/// A [`Field`] as mathematics.
pub ghost struct FieldEntry {
    pub key: Seq<char>,
    pub value: FieldContent,
}

impl View for Field {
    type V = FieldEntry;

    open spec fn view(&self) -> FieldEntry {
        FieldEntry { key: self.key@, value: self.value@ }
    }
}

/// The fields of a list, as mathematics.
pub open spec fn entries(fields: Seq<Field>) -> Seq<FieldEntry> {
    Seq::new(fields.len(), |i: int| fields[i]@)
}

/// What reading a frame as a JSON object gave, as mathematics: the fields of
/// the object, or the reason why the frame is none.
pub open spec fn parsed_view(parsed: Result<Vec<Field>, String>) -> Result<
    Seq<FieldEntry>,
    Seq<char>,
> {
    match parsed {
        Ok(fields) => Ok(entries(fields@)),
        Err(details) => Err(details@),
    }
}

/// What decoding a frame gave, as mathematics.
pub open spec fn decoded_view(decoded: Result<ClientAction, String>) -> Result<Action, Seq<char>> {
    match decoded {
        Ok(action) => Ok(action@),
        Err(details) => Err(details@),
    }
}

/// What `serde_json` makes of `text` when asked for a JSON object: the fields
/// of the object, in the order in which its map hands them out, or the text of
/// its error.
pub uninterp spec fn json_object(text: Seq<char>) -> Result<Seq<FieldEntry>, Seq<char>>;

/// Reads `text` as one JSON object.
///
/// Trusted: calls `serde_json::from_str` for a `serde_json::Map<String, Value>`,
/// which reads the whole of `text` as one JSON object or gives an error. The
/// fields of that map are handed over one by one, a string as it is and
/// anything else as its kind; an error is handed over as the text that it
/// displays. The contract gives this result a name and so claims that it
/// depends on nothing but `text`.
#[verifier::external_body]
fn parse_object(text: &str) -> (parsed: Result<Vec<Field>, String>)
    ensures
        parsed_view(parsed) == json_object(text@),
{
    match serde_json::from_str::<serde_json::Map<String, Value>>(text) {
        Err(error) => Err(error.to_string()),
        Ok(object) => Ok(object.into_iter().map(|(key, value)| {
            let value = match value {
                Value::Null => FieldValue::Null,
                Value::Bool(_) => FieldValue::Bool,
                Value::Number(_) => FieldValue::Number,
                Value::String(text) => FieldValue::Text(text),
                Value::Array(_) => FieldValue::Array,
                Value::Object(_) => FieldValue::Object,
            };
            Field { key, value }
        }).collect()),
    }
}

/// The first field of `fields` whose key is `key`.
pub open spec fn lookup(fields: Seq<FieldEntry>, key: Seq<char>) -> Option<FieldContent>
    decreases fields.len(),
{
    if fields.len() == 0 {
        None
    } else if fields[0].key == key {
        Some(fields[0].value)
    } else {
        lookup(fields.skip(1), key)
    }
}

/// The name of a kind of JSON value.
pub open spec fn kind_text(content: FieldContent) -> Seq<char> {
    match content {
        FieldContent::Null => "null"@,
        FieldContent::Bool => "a boolean"@,
        FieldContent::Number => "a number"@,
        FieldContent::Text(_) => "a string"@,
        FieldContent::Array => "an array"@,
        FieldContent::Object => "an object"@,
    }
}

/// The reason given for a frame that lacks the field `key`.
pub open spec fn missing_field_text(key: Seq<char>) -> Seq<char> {
    "missing field `"@ + key + "`"@
}

/// The reason given for a frame whose field `key` is no string.
pub open spec fn wrong_type_text(key: Seq<char>, found: FieldContent) -> Seq<char> {
    "invalid type for field `"@ + key + "`: "@ + kind_text(found) + ", expected a string"@
}

/// The reason given for a frame that asks for an action that there is none of.
pub open spec fn unknown_action_text(action: Seq<char>) -> Seq<char> {
    "unknown variant `"@ + action + "`, expected one of `join_room`, `leave_room`, `chat`"@
}

/// The string that the field `key` holds, or the reason why there is none.
pub open spec fn text_field(fields: Seq<FieldEntry>, key: Seq<char>) -> Result<
    Seq<char>,
    Seq<char>,
> {
    match lookup(fields, key) {
        None => Err(missing_field_text(key)),
        Some(FieldContent::Text(text)) => Ok(text),
        Some(other) => Err(wrong_type_text(key, other)),
    }
}

/// The action that a JSON object with these fields asks for, or the reason
/// why it asks for none. Fields that the action does not need are ignored.
pub open spec fn decode_fields(fields: Seq<FieldEntry>) -> Result<Action, Seq<char>> {
    match text_field(fields, "action"@) {
        Err(details) => Err(details),
        Ok(action) => {
            if action == "join_room"@ {
                match text_field(fields, "room"@) {
                    Err(details) => Err(details),
                    Ok(room) => Ok(Action::JoinRoom { room }),
                }
            } else if action == "leave_room"@ {
                match text_field(fields, "room"@) {
                    Err(details) => Err(details),
                    Ok(room) => Ok(Action::LeaveRoom { room }),
                }
            } else if action == "chat"@ {
                match text_field(fields, "room"@) {
                    Err(details) => Err(details),
                    Ok(room) => match text_field(fields, "message"@) {
                        Err(details) => Err(details),
                        Ok(message) => Ok(Action::Chat { room, message }),
                    },
                }
            } else {
                Err(unknown_action_text(action))
            }
        },
    }
}

/// The action that a frame asks for, given what reading it as a JSON object
/// gave. A frame that is no JSON object asks for none, for the reason that the
/// reading gave.
pub open spec fn decode(parsed: Result<Seq<FieldEntry>, Seq<char>>) -> Result<Action, Seq<char>> {
    match parsed {
        Ok(fields) => decode_fields(fields),
        Err(details) => Err(details),
    }
}

/// A frame whose `action` is none of the three that there are is refused,
/// whatever else it holds.
pub proof fn lemma_unknown_action_is_refused(fields: Seq<FieldEntry>, action: Seq<char>)
    requires
        text_field(fields, "action"@) == Ok::<Seq<char>, Seq<char>>(action),
        action != "join_room"@,
        action != "leave_room"@,
        action != "chat"@,
    ensures
        decode_fields(fields) == Err::<Action, Seq<char>>(unknown_action_text(action)),
{
}

/// A frame without a string for `action` is refused, whatever else it holds.
pub proof fn lemma_action_is_required(fields: Seq<FieldEntry>)
    requires
        text_field(fields, "action"@) is Err,
    ensures
        decode_fields(fields) is Err,
        decode_fields(fields)->Err_0 == text_field(fields, "action"@)->Err_0,
{
}

/// The name of the kind of `value`.
fn kind_name(value: &FieldValue) -> (name: String)
    ensures
        name@ == kind_text(value@),
{
    match value {
        FieldValue::Null => "null".to_owned(),
        FieldValue::Bool => "a boolean".to_owned(),
        FieldValue::Number => "a number".to_owned(),
        FieldValue::Text(_) => "a string".to_owned(),
        FieldValue::Array => "an array".to_owned(),
        FieldValue::Object => "an object".to_owned(),
    }
}

/// The first field of `fields` whose key is `key`.
fn find_field<'a>(fields: &'a Vec<Field>, key: &String) -> (found: Option<&'a FieldValue>)
    ensures
        match found {
            Some(value) => lookup(entries(fields@), key@) == Some(value@),
            None => lookup(entries(fields@), key@) is None,
        },
{
    let mut i: usize = 0;
    proof {
        assert(entries(fields@).skip(0) =~= entries(fields@));
    }
    while i < fields.len()
        invariant
            i <= fields.len(),
            lookup(entries(fields@), key@) == lookup(entries(fields@).skip(i as int), key@),
        decreases fields.len() - i,
    {
        proof {
            let rest = entries(fields@).skip(i as int);
            assert(rest.skip(1) =~= entries(fields@).skip(i + 1));
        }
        if fields[i].key == *key {
            return Some(&fields[i].value);
        }
        i += 1;
    }
    None
}

/// The string that the field `key` holds, or the reason why there is none.
fn read_text(fields: &Vec<Field>, key: &str) -> (text: Result<String, String>)
    ensures
        match text {
            Ok(found) => text_field(entries(fields@), key@) == Ok::<Seq<char>, Seq<char>>(found@),
            Err(details) => text_field(entries(fields@), key@) == Err::<Seq<char>, Seq<char>>(
                details@,
            ),
        },
{
    let owned = key.to_owned();
    match find_field(fields, &owned) {
        None => {
            let mut details = "missing field `".to_owned();
            details.append(key);
            details.append("`");
            Err(details)
        },
        Some(FieldValue::Text(text)) => Ok(text.clone()),
        Some(other) => {
            let mut details = "invalid type for field `".to_owned();
            details.append(key);
            details.append("`: ");
            details.append(kind_name(other).as_str());
            details.append(", expected a string");
            Err(details)
        },
    }
}

/// Decides which action a frame asks for, given what reading it as a JSON
/// object gave.
pub fn interpret(parsed: Result<Vec<Field>, String>) -> (decoded: Result<ClientAction, String>)
    ensures
        decoded_view(decoded) == decode(parsed_view(parsed)),
{
    let fields = match parsed {
        Ok(fields) => fields,
        Err(details) => {
            return Err(details);
        },
    };
    let action = match read_text(&fields, "action") {
        Ok(action) => action,
        Err(details) => {
            return Err(details);
        },
    };
    if action == "join_room".to_owned() {
        match read_text(&fields, "room") {
            Ok(room) => Ok(ClientAction::JoinRoom { room }),
            Err(details) => Err(details),
        }
    } else if action == "leave_room".to_owned() {
        match read_text(&fields, "room") {
            Ok(room) => Ok(ClientAction::LeaveRoom { room }),
            Err(details) => Err(details),
        }
    } else if action == "chat".to_owned() {
        match read_text(&fields, "room") {
            Ok(room) => match read_text(&fields, "message") {
                Ok(message) => Ok(ClientAction::Chat { room, message }),
                Err(details) => Err(details),
            },
            Err(details) => Err(details),
        }
    } else {
        let mut details = "unknown variant `".to_owned();
        details.append(action.as_str());
        details.append("`, expected one of `join_room`, `leave_room`, `chat`");
        Err(details)
    }
}

/// Decodes one inbound text frame.
pub fn decode_frame(text: &str) -> (decoded: Result<ClientAction, String>)
    ensures
        decoded_view(decoded) == decode(json_object(text@)),
{
    interpret(parse_object(text))
}

/// The text sent to a client right after its connection is accepted.
pub open spec fn greeting_text() -> Seq<char> {
    "Welcome"@
}

/// The frame that acknowledges a join.
pub open spec fn joined_text(room: Seq<char>) -> Seq<char> {
    "{\"status\":\"joined\",\"room\":\""@ + room + "\"}"@
}

/// The frame that acknowledges a leave.
pub open spec fn left_text(room: Seq<char>) -> Seq<char> {
    "{\"status\":\"left\",\"room\":\""@ + room + "\"}"@
}

/// The frame that acknowledges a chat message to its sender.
pub open spec fn sent_text(room: Seq<char>, message: Seq<char>) -> Seq<char> {
    "{\"status\":\"sent message "@ + message + "\",\"room\":\""@ + room + "\"}"@
}

/// The frame that carries a chat message to the members of a room.
pub open spec fn chat_text(message: Seq<char>) -> Seq<char> {
    "{\"chat\":\""@ + message + "\"}"@
}

/// The frame that tells a client that its frame was not understood.
pub open spec fn error_text(details: Seq<char>) -> Seq<char> {
    "{\"error\":\"invalid_json\",\"details\":\""@ + details + "\"}"@
}

/// The text sent to a client right after its connection is accepted.
pub fn greeting() -> (text: String)
    ensures
        text@ == greeting_text(),
{
    "Welcome".to_owned()
}

/// The frame that acknowledges a join.
pub fn joined_frame(room: &String) -> (frame: String)
    ensures
        frame@ == joined_text(room@),
{
    let mut frame = "{\"status\":\"joined\",\"room\":\"".to_owned();
    frame.append(room.as_str());
    frame.append("\"}");
    frame
}

/// The frame that acknowledges a leave.
pub fn left_frame(room: &String) -> (frame: String)
    ensures
        frame@ == left_text(room@),
{
    let mut frame = "{\"status\":\"left\",\"room\":\"".to_owned();
    frame.append(room.as_str());
    frame.append("\"}");
    frame
}

/// The frame that acknowledges a chat message to its sender.
pub fn sent_frame(room: &String, message: &String) -> (frame: String)
    ensures
        frame@ == sent_text(room@, message@),
{
    let mut frame = "{\"status\":\"sent message ".to_owned();
    frame.append(message.as_str());
    frame.append("\",\"room\":\"");
    frame.append(room.as_str());
    frame.append("\"}");
    frame
}

/// The frame that carries a chat message to the members of a room.
pub fn chat_frame(message: &String) -> (frame: String)
    ensures
        frame@ == chat_text(message@),
{
    let mut frame = "{\"chat\":\"".to_owned();
    frame.append(message.as_str());
    frame.append("\"}");
    frame
}

/// The frame that tells a client that its frame was not understood.
pub fn error_frame(details: &String) -> (frame: String)
    ensures
        frame@ == error_text(details@),
{
    let mut frame = "{\"error\":\"invalid_json\",\"details\":\"".to_owned();
    frame.append(details.as_str());
    frame.append("\"}");
    frame
}

} // verus!
