use vstd::prelude::*;
use vstd::utf8::encode_utf8;

verus! {

/// Largest accepted length of a room name, in UTF-8 bytes.
pub const ROOM_MAX_LEN: usize = 30;

/// Largest accepted length of a user name, in UTF-8 bytes.
pub const USERNAME_MAX_LEN: usize = 20;

/// The length of a text in UTF-8 bytes.
pub open spec fn byte_len(s: Seq<char>) -> nat {
    encode_utf8(s).len()
}

/// A room name that fits its bound.
pub open spec fn room_ok(room: Seq<char>) -> bool {
    byte_len(room) <= ROOM_MAX_LEN
}

/// A user name that fits its bound.
pub open spec fn username_ok(username: Seq<char>) -> bool {
    byte_len(username) <= USERNAME_MAX_LEN
}

/// The abstract content of a message: its three texts.
pub struct MessageView {
    pub room: Seq<char>,
    pub username: Seq<char>,
    pub message: Seq<char>,
}

/// One posted chat message. Its fields cannot change once it is built.
pub struct Message {
    room: String,
    username: String,
    message: String,
}

/// Why a message was refused at ingestion.
#[derive(Debug, PartialEq, Eq, Structural, Clone, Copy)]
pub enum ValidationError {
    RoomTooLong,
    UsernameTooLong,
}

impl View for Message {
    type V = MessageView;

    closed spec fn view(&self) -> MessageView {
        MessageView { room: self.room@, username: self.username@, message: self.message@ }
    }
}

impl Message {
    /// Both bounded fields are within their bounds.
    pub open spec fn wf(&self) -> bool {
        room_ok(self@.room) && username_ok(self@.username)
    }

    /// Builds a message, refusing a room longer than 30 bytes (checked first)
    /// or a user name longer than 20 bytes.
    pub fn new(room: String, username: String, message: String) -> (r: Result<
        Message,
        ValidationError,
    >)
        ensures
            match r {
                Ok(m) => room_ok(room@) && username_ok(username@) && m.wf() && m@ == (MessageView {
                    room: room@,
                    username: username@,
                    message: message@,
                }),
                Err(ValidationError::RoomTooLong) => !room_ok(room@),
                Err(ValidationError::UsernameTooLong) => room_ok(room@) && !username_ok(
                    username@,
                ),
            },
    {
        if room.as_str().as_bytes().len() > ROOM_MAX_LEN {
            return Err(ValidationError::RoomTooLong);
        }
        if username.as_str().as_bytes().len() > USERNAME_MAX_LEN {
            return Err(ValidationError::UsernameTooLong);
        }
        Ok(Message { room, username, message })
    }

    pub fn room(&self) -> (r: &str)
        ensures
            r@ == self@.room,
    {
        self.room.as_str()
    }

    pub fn username(&self) -> (r: &str)
        ensures
            r@ == self@.username,
    {
        self.username.as_str()
    }

    pub fn message(&self) -> (r: &str)
        ensures
            r@ == self@.message,
    {
        self.message.as_str()
    }

    /// An independent copy of the message, equal in every field.
    pub fn duplicate(&self) -> (r: Message)
        ensures
            r == *self,
            r@ == self@,
    {
        Message {
            room: self.room.clone(),
            username: self.username.clone(),
            message: self.message.clone(),
        }
    }
}

} // verus!
