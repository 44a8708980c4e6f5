//! The wire form of a chat message: one JSON object per text frame.
//!
//! Writing a message is this crate's own work, down to the order of the keys;
//! only the quoting of a string is left to `serde_json`. Reading goes through
//! `serde_json`'s parser: the text is parsed into a JSON object, and the eight
//! fields are then taken out of it one by one.

use vstd::prelude::*;
use crate::message::ChatMessage;
use crate::message::MessageView;
use crate::text::decimal;
use crate::text::decimal_text;

verus! {

/// `serde_json::Map`, the object that `serde_json` parses a text into. What
/// one holds is seen through [`object_entries`] alone.
#[verifier::external_type_specification]
#[verifier::external_body]
#[verifier::reject_recursive_types(K)]
#[verifier::reject_recursive_types(V)]
pub struct ExJsonMap<K, V>(serde_json::Map<K, V>);

/// `serde_json::Value`, one JSON value. What one holds is seen through
/// [`value_field`] alone.
#[verifier::external_type_specification]
#[verifier::external_body]
pub struct ExJsonValue(serde_json::Value);

/// `serde_json::Error`, which `serde_json::from_str` fails with. Nothing is
/// claimed of its values.
#[verifier::external_type_specification]
#[verifier::external_body]
pub struct ExJsonError(serde_json::Error);

/// What a JSON value is to this crate: a string, an integer that fits in 64
/// signed bits, or anything else.
pub ghost enum JsonField {
    Text(Seq<char>),
    Integer(i64),
    Other,
}

/// What a `serde_json::Value` holds, seen as a [`JsonField`].
pub uninterp spec fn value_field(value: serde_json::Value) -> JsonField;

/// The entries of a `serde_json::Map`: each key with what its value holds.
pub uninterp spec fn object_entries(object: serde_json::Map<String, serde_json::Value>) -> Map<
    Seq<char>,
    JsonField,
>;

/// The entries of the JSON object that a text is, as `serde_json` parses it;
/// `None` for a text that is no JSON object. Of a key that the text gives
/// more than once, `serde_json` keeps the last value.
pub uninterp spec fn parsed_object(text: Seq<char>) -> Option<Map<Seq<char>, JsonField>>;

/// The JSON string literal for a text, quotes and escapes included, as
/// `serde_json` writes it.
pub uninterp spec fn json_string_literal(text: Seq<char>) -> Seq<char>;

/// `serde_json::from_str` at the type `Map<String, Value>`. The contract
/// claims only that the outcome is a function of the text: `Ok` exactly where
/// [`parsed_object`] is `Some`, and then with those entries.
#[verifier::external_body]
fn parse_map(text: &str) -> (parsed: Result<
    serde_json::Map<String, serde_json::Value>,
    serde_json::Error,
>)
    ensures
        parsed is Ok <==> parsed_object(text@) is Some,
        parsed matches Ok(object) ==> parsed_object(text@) == Some(object_entries(object)),
{
    serde_json::from_str::<serde_json::Map<String, serde_json::Value>>(text)
}

/// `serde_json::Map::get`: the value stored under a key, if the key is there.
#[verifier::external_body]
fn map_get<'a>(object: &'a serde_json::Map<String, serde_json::Value>, key: &str) -> (found:
    Option<&'a serde_json::Value>)
    ensures
        found is Some <==> object_entries(*object).contains_key(key@),
        found matches Some(value) ==> object_entries(*object)[key@] == value_field(*value),
{
    object.get(key)
}

/// `serde_json::Value::as_str`: the text of a JSON string, `None` for any
/// other value.
#[verifier::external_body]
fn value_text(value: &serde_json::Value) -> (text: Option<String>)
    ensures
        text is Some <==> value_field(*value) is Text,
        text matches Some(t) ==> value_field(*value) == JsonField::Text(t@),
{
    value.as_str().map(|text| text.to_owned())
}

/// `serde_json::Value::as_i64`: the number, where the value is a number that
/// `serde_json` holds as an integer and that lies between `i64::MIN` and
/// `i64::MAX`; `None` for any other value, a number with a fraction, an
/// exponent or the sign of `-0` among them.
#[verifier::external_body]
fn value_integer(value: &serde_json::Value) -> (number: Option<i64>)
    ensures
        number is Some <==> value_field(*value) is Integer,
        number matches Some(n) ==> value_field(*value) == JsonField::Integer(n),
{
    value.as_i64()
}

/// `serde_json::to_string` at the type `str`, which cannot fail there: the
/// JSON string literal for the text.
#[verifier::external_body]
fn json_quote(text: &str) -> (literal: String)
    ensures
        literal@ == json_string_literal(text@),
{
    match serde_json::to_string(text) {
        Ok(literal) => literal,
        Err(_) => String::new(),
    }
}

/// The eight fields of a message, in the order in which they are written.
#[derive(Clone, Copy, Debug, PartialEq, Eq, Structural)]
pub enum MessageField {
    Username,
    Content,
    MessageType,
    SenderId,
    ReceiverId,
    Timestamp,
    TargetType,
    Direction,
}

/// Why a text frame is no chat message.
#[derive(Clone, Copy, Debug, PartialEq, Eq, Structural)]
pub enum MalformedMessage {
    /// The text is not a JSON object.
    Syntax,
    /// The object lacks this field, or holds a value of the wrong kind
    /// under its key; of several such fields, the first in writing order.
    Field(MessageField),
}

/// A parsed JSON object.
pub struct JsonObject {
    map: serde_json::Map<String, serde_json::Value>,
}

impl View for JsonObject {
    type V = Map<Seq<char>, JsonField>;

    closed spec fn view(&self) -> Map<Seq<char>, JsonField> {
        object_entries(self.map)
    }
}

/// The string stored under a key, if the key is there and holds a string.
pub open spec fn text_at(entries: Map<Seq<char>, JsonField>, key: Seq<char>) -> Option<Seq<char>> {
    if entries.contains_key(key) {
        match entries[key] {
            JsonField::Text(text) => Some(text),
            _ => None,
        }
    } else {
        None
    }
}

/// The integer stored under a key, if the key is there and holds one.
pub open spec fn integer_at(entries: Map<Seq<char>, JsonField>, key: Seq<char>) -> Option<i64> {
    if entries.contains_key(key) {
        match entries[key] {
            JsonField::Integer(number) => Some(number),
            _ => None,
        }
    } else {
        None
    }
}

/// The message that the entries of a JSON object stand for, or the first
/// field that they fail to give. Keys other than the eight are ignored.
pub open spec fn message_of(entries: Map<Seq<char>, JsonField>) -> Result<
    MessageView,
    MalformedMessage,
> {
    if text_at(entries, "username"@) is None {
        Err(MalformedMessage::Field(MessageField::Username))
    } else if text_at(entries, "content"@) is None {
        Err(MalformedMessage::Field(MessageField::Content))
    } else if text_at(entries, "message_type"@) is None {
        Err(MalformedMessage::Field(MessageField::MessageType))
    } else if integer_at(entries, "sender_id"@) is None {
        Err(MalformedMessage::Field(MessageField::SenderId))
    } else if integer_at(entries, "receiver_id"@) is None {
        Err(MalformedMessage::Field(MessageField::ReceiverId))
    } else if integer_at(entries, "timestamp"@) is None {
        Err(MalformedMessage::Field(MessageField::Timestamp))
    } else if text_at(entries, "target_type"@) is None {
        Err(MalformedMessage::Field(MessageField::TargetType))
    } else if text_at(entries, "direction"@) is None {
        Err(MalformedMessage::Field(MessageField::Direction))
    } else {
        Ok(
            MessageView {
                username: text_at(entries, "username"@).unwrap(),
                content: text_at(entries, "content"@).unwrap(),
                message_type: text_at(entries, "message_type"@).unwrap(),
                sender_id: integer_at(entries, "sender_id"@).unwrap(),
                receiver_id: integer_at(entries, "receiver_id"@).unwrap(),
                timestamp: integer_at(entries, "timestamp"@).unwrap(),
                target_type: text_at(entries, "target_type"@).unwrap(),
                direction: text_at(entries, "direction"@).unwrap(),
            },
        )
    }
}

/// The message that a frame's text stands for.
pub open spec fn decoded(text: Seq<char>) -> Result<MessageView, MalformedMessage> {
    match parsed_object(text) {
        None => Err(MalformedMessage::Syntax),
        Some(entries) => message_of(entries),
    }
}

/// The wire form of a message: a JSON object without any white space, its
/// eight keys in writing order, strings as JSON string literals and integers
/// in decimal.
pub open spec fn wire_form(message: MessageView) -> Seq<char> {
    "{\"username\":"@ + json_string_literal(message.username) + ",\"content\":"@
        + json_string_literal(message.content) + ",\"message_type\":"@ + json_string_literal(
        message.message_type,
    ) + ",\"sender_id\":"@ + decimal_text(message.sender_id as int) + ",\"receiver_id\":"@
        + decimal_text(message.receiver_id as int) + ",\"timestamp\":"@ + decimal_text(
        message.timestamp as int,
    ) + ",\"target_type\":"@ + json_string_literal(message.target_type) + ",\"direction\":"@
        + json_string_literal(message.direction) + "}"@
}

/// The outcome of decoding, with the message seen as its value.
pub open spec fn outcome_view(outcome: Result<ChatMessage, MalformedMessage>) -> Result<
    MessageView,
    MalformedMessage,
> {
    match outcome {
        Ok(message) => Ok(message@),
        Err(error) => Err(error),
    }
}

impl JsonObject {
    /// Parses a text as a JSON object.
    pub fn parse(text: &str) -> (parsed: Result<JsonObject, MalformedMessage>)
        ensures
            parsed is Ok <==> parsed_object(text@) is Some,
            parsed matches Ok(object) ==> parsed_object(text@) == Some(object@),
            parsed matches Err(error) ==> error == MalformedMessage::Syntax,
    {
        match parse_map(text) {
            Ok(map) => Ok(JsonObject { map }),
            Err(_) => Err(MalformedMessage::Syntax),
        }
    }

    /// The string stored under a key.
    pub fn text(&self, key: &str) -> (found: Option<String>)
        ensures
            found is Some <==> text_at(self@, key@) is Some,
            found matches Some(text) ==> text_at(self@, key@) == Some(text@),
    {
        match map_get(&self.map, key) {
            Some(value) => value_text(value),
            None => None,
        }
    }

    /// The integer stored under a key.
    pub fn integer(&self, key: &str) -> (found: Option<i64>)
        ensures
            found == integer_at(self@, key@),
    {
        match map_get(&self.map, key) {
            Some(value) => value_integer(value),
            None => None,
        }
    }
}

impl ChatMessage {
    /// Writes the message in its wire form.
    pub fn encode(&self) -> (wire: String)
        ensures
            wire@ == wire_form(self@),
    {
        let mut wire = String::from_str("{\"username\":");
        wire.append(json_quote(self.username.as_str()).as_str());
        wire.append(",\"content\":");
        wire.append(json_quote(self.content.as_str()).as_str());
        wire.append(",\"message_type\":");
        wire.append(json_quote(self.message_type.as_str()).as_str());
        wire.append(",\"sender_id\":");
        wire.append(decimal(self.sender_id).as_str());
        wire.append(",\"receiver_id\":");
        wire.append(decimal(self.receiver_id).as_str());
        wire.append(",\"timestamp\":");
        wire.append(decimal(self.timestamp).as_str());
        wire.append(",\"target_type\":");
        wire.append(json_quote(self.target_type.as_str()).as_str());
        wire.append(",\"direction\":");
        wire.append(json_quote(self.direction.as_str()).as_str());
        wire.append("}");
        wire
    }

    /// Takes a message out of a parsed JSON object.
    pub fn from_object(object: &JsonObject) -> (outcome: Result<ChatMessage, MalformedMessage>)
        ensures
            outcome_view(outcome) == message_of(object@),
    {
        let username = match object.text("username") {
            Some(text) => text,
            None => { return Err(MalformedMessage::Field(MessageField::Username)); },
        };
        let content = match object.text("content") {
            Some(text) => text,
            None => { return Err(MalformedMessage::Field(MessageField::Content)); },
        };
        let message_type = match object.text("message_type") {
            Some(text) => text,
            None => { return Err(MalformedMessage::Field(MessageField::MessageType)); },
        };
        let sender_id = match object.integer("sender_id") {
            Some(number) => number,
            None => { return Err(MalformedMessage::Field(MessageField::SenderId)); },
        };
        let receiver_id = match object.integer("receiver_id") {
            Some(number) => number,
            None => { return Err(MalformedMessage::Field(MessageField::ReceiverId)); },
        };
        let timestamp = match object.integer("timestamp") {
            Some(number) => number,
            None => { return Err(MalformedMessage::Field(MessageField::Timestamp)); },
        };
        let target_type = match object.text("target_type") {
            Some(text) => text,
            None => { return Err(MalformedMessage::Field(MessageField::TargetType)); },
        };
        let direction = match object.text("direction") {
            Some(text) => text,
            None => { return Err(MalformedMessage::Field(MessageField::Direction)); },
        };
        Ok(
            ChatMessage {
                username,
                content,
                message_type,
                sender_id,
                receiver_id,
                timestamp,
                target_type,
                direction,
            },
        )
    }

    /// Reads a message from the text of a frame.
    pub fn decode(text: &str) -> (outcome: Result<ChatMessage, MalformedMessage>)
        ensures
            outcome_view(outcome) == decoded(text@),
    {
        match JsonObject::parse(text) {
            Ok(object) => ChatMessage::from_object(&object),
            Err(error) => Err(error),
        }
    }
}

/// The entries of the JSON object that holds the eight fields of a message
/// and nothing else.
pub open spec fn fields_of(message: MessageView) -> Map<Seq<char>, JsonField> {
    map![
        "username"@ => JsonField::Text(message.username),
        "content"@ => JsonField::Text(message.content),
        "message_type"@ => JsonField::Text(message.message_type),
        "sender_id"@ => JsonField::Integer(message.sender_id),
        "receiver_id"@ => JsonField::Integer(message.receiver_id),
        "timestamp"@ => JsonField::Integer(message.timestamp),
        "target_type"@ => JsonField::Text(message.target_type),
        "direction"@ => JsonField::Text(message.direction),
    ]
}

/// The eight keys are eight different texts.
proof fn lemma_keys_differ()
    ensures
        "username"@.len() == 8,
        "content"@.len() == 7,
        "message_type"@.len() == 12,
        "sender_id"@.len() == 9,
        "receiver_id"@.len() == 11,
        "timestamp"@.len() == 9,
        "target_type"@.len() == 11,
        "direction"@.len() == 9,
        "sender_id"@[0] == 's',
        "timestamp"@[0] == 't',
        "direction"@[0] == 'd',
        "receiver_id"@[0] == 'r',
        "target_type"@[0] == 't',
{
    reveal_strlit("username");
    reveal_strlit("content");
    reveal_strlit("message_type");
    reveal_strlit("sender_id");
    reveal_strlit("receiver_id");
    reveal_strlit("timestamp");
    reveal_strlit("target_type");
    reveal_strlit("direction");
}

/// Taking a message out of an object that holds its eight fields yields the
/// message, equal in all fields, whatever the object holds under other keys.
pub proof fn law_fields_read_back(message: MessageView, entries: Map<Seq<char>, JsonField>)
    requires
        forall|key: Seq<char>| #[trigger]
            fields_of(message).contains_key(key) ==> entries.contains_key(key) && entries[key]
                == fields_of(message)[key],
    ensures
        message_of(fields_of(message)) == Ok::<MessageView, MalformedMessage>(message),
        message_of(entries) == Ok::<MessageView, MalformedMessage>(message),
{
    lemma_keys_differ();
    let fields = fields_of(message);
    assert(fields.contains_key("username"@));
    assert(fields.contains_key("content"@));
    assert(fields.contains_key("message_type"@));
    assert(fields.contains_key("sender_id"@));
    assert(fields.contains_key("receiver_id"@));
    assert(fields.contains_key("timestamp"@));
    assert(fields.contains_key("target_type"@));
    assert(fields.contains_key("direction"@));
}

/// A text that parses into an object with the eight fields of a message
/// decodes to that message.
pub proof fn law_decode_reads_fields(text: Seq<char>, message: MessageView)
    requires
        parsed_object(text) is Some,
        forall|key: Seq<char>| #[trigger]
            fields_of(message).contains_key(key) ==> parsed_object(text).unwrap().contains_key(key)
                && parsed_object(text).unwrap()[key] == fields_of(message)[key],
    ensures
        decoded(text) == Ok::<MessageView, MalformedMessage>(message),
{
    law_fields_read_back(message, parsed_object(text).unwrap());
}

/// Encoding and then decoding yields the message, equal in all fields,
/// wherever the parser reads the message's wire form back as the object of
/// its eight fields.
pub proof fn law_round_trip_where_json_reads_back(message: MessageView)
    requires
        parsed_object(wire_form(message)) == Some(fields_of(message)),
    ensures
        decoded(wire_form(message)) == Ok::<MessageView, MalformedMessage>(message),
{
    law_decode_reads_fields(wire_form(message), message);
}

} // verus!
