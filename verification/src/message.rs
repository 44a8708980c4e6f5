//! The chat message carried in every text frame.

use vstd::prelude::*;
use vstd::std_specs::cmp::PartialEqSpecImpl;

verus! {

/// One chat message, as sent and received over the transport.
#[derive(Debug)]
pub struct ChatMessage {
    pub username: String,
    pub content: String,
    pub message_type: String,
    pub sender_id: i64,
    pub receiver_id: i64,
    pub timestamp: i64,
    pub target_type: String,
    pub direction: String,
}

/// The mathematical value of a [`ChatMessage`]: its strings as character
/// sequences, its integers as they are.
pub ghost struct MessageView {
    pub username: Seq<char>,
    pub content: Seq<char>,
    pub message_type: Seq<char>,
    pub sender_id: i64,
    pub receiver_id: i64,
    pub timestamp: i64,
    pub target_type: Seq<char>,
    pub direction: Seq<char>,
}

impl View for ChatMessage {
    type V = MessageView;

    open spec fn view(&self) -> MessageView {
        MessageView {
            username: self.username@,
            content: self.content@,
            message_type: self.message_type@,
            sender_id: self.sender_id,
            receiver_id: self.receiver_id,
            timestamp: self.timestamp,
            target_type: self.target_type@,
            direction: self.direction@,
        }
    }
}

impl Clone for ChatMessage {
    /// A copy that is equal to `self` in every field.
    fn clone(&self) -> (copy: Self)
        ensures
            copy == *self,
            copy@ == self@,
    {
        ChatMessage {
            username: self.username.clone(),
            content: self.content.clone(),
            message_type: self.message_type.clone(),
            sender_id: self.sender_id,
            receiver_id: self.receiver_id,
            timestamp: self.timestamp,
            target_type: self.target_type.clone(),
            direction: self.direction.clone(),
        }
    }
}

impl PartialEq for ChatMessage {
    /// Two messages are equal when all eight fields are.
    fn eq(&self, other: &ChatMessage) -> (same: bool) {
        self.username == other.username && self.content == other.content && self.message_type
            == other.message_type && self.sender_id == other.sender_id && self.receiver_id
            == other.receiver_id && self.timestamp == other.timestamp && self.target_type
            == other.target_type && self.direction == other.direction
    }
}

impl PartialEqSpecImpl for ChatMessage {
    open spec fn obeys_eq_spec() -> bool {
        true
    }

    open spec fn eq_spec(&self, other: &ChatMessage) -> bool {
        self@ == other@
    }
}

impl Eq for ChatMessage {

}

impl ChatMessage {
    /// A text message that the user sends to one person.
    pub fn text_to_person(
        username: String,
        content: String,
        sender_id: i64,
        receiver_id: i64,
        timestamp: i64,
    ) -> (message: ChatMessage)
        ensures
            message@ == (MessageView {
                username: username@,
                content: content@,
                message_type: "text"@,
                sender_id,
                receiver_id,
                timestamp,
                target_type: "person"@,
                direction: "send"@,
            }),
    {
        ChatMessage {
            username,
            content,
            message_type: String::from_str("text"),
            sender_id,
            receiver_id,
            timestamp,
            target_type: String::from_str("person"),
            direction: String::from_str("send"),
        }
    }

    /// Whether the user sent the message or received it.
    pub fn send_type(&self, user_id: i64) -> (kind: &'static str)
        ensures
            kind@ == if self.sender_id == user_id {
                "send"@
            } else {
                "receive"@
            },
    {
        if self.sender_id == user_id {
            "send"
        } else {
            "receive"
        }
    }
}

} // verus!
