//! Connection identity.
//!
//! A user may hold several sockets at once. Each is known to the library by
//! a 128-bit id alone; the channel behind it stays with the caller, keyed
//! by that id.

use crate::json::{notify_message, notify_text};
use vstd::prelude::*;

verus! {

/// Calls `uuid::Uuid::new_v4` and reads the UUID as an integer with
/// `Uuid::as_u128`. Trusted: the id is random, so only what `new_v4` fixes
/// is claimed of it, the version nibble 4 and the variant bits `10`. The
/// call aborts when the operating system cannot supply random bytes.
#[verifier::external_body]
fn random_uuid() -> (id: u128)
    ensures
        is_random_uuid(id),
{
    uuid::Uuid::new_v4().as_u128()
}

/// What marks an integer as a random UUID: the version nibble is 4 and the
/// variant bits are `10`.
pub open spec fn is_random_uuid(id: u128) -> bool {
    id & 0x0000_0000_0000_f000_c000_0000_0000_0000 == 0x0000_0000_0000_4000_8000_0000_0000_0000
}

/// One live connection. Two handles are the same connection exactly when
/// their ids are equal.
#[derive(Clone, Copy, Debug, PartialEq, Eq, Hash, Structural)]
pub struct IdentifiableWebSocket {
    /// The id drawn when the socket was opened.
    pub id: u128,
}

/// A text and the connection it is to be delivered to.
#[derive(Debug)]
pub struct OutboundMessage {
    pub connection_id: u128,
    pub text: String,
}

impl View for OutboundMessage {
    type V = (u128, Seq<char>);

    /// The connection id and the text.
    open spec fn view(&self) -> (u128, Seq<char>) {
        (self.connection_id, self.text@)
    }
}

/// The views of a list of messages, in order.
pub open spec fn message_views(messages: Seq<OutboundMessage>) -> Seq<(u128, Seq<char>)> {
    Seq::new(messages.len(), |i: int| messages[i]@)
}

impl IdentifiableWebSocket {
    /// A handle with a freshly drawn id: a random UUID of version 4, read
    /// as an integer.
    pub fn new() -> (socket: Self)
        ensures
            is_random_uuid(socket.id),
    {
        IdentifiableWebSocket { id: random_uuid() }
    }

    /// The handle of the connection with the given id.
    pub fn with_id(id: u128) -> (socket: Self)
        ensures
            socket.id == id,
    {
        IdentifiableWebSocket { id }
    }

    /// Addresses `text` to this connection.
    pub fn send(&self, text: String) -> (message: OutboundMessage)
        ensures
            message.connection_id == self.id,
            message.text == text,
    {
        OutboundMessage { connection_id: self.id, text }
    }

    /// The advisory `{"notify":<message>}`, addressed to this connection.
    pub fn notify_client(&self, message: &str) -> (notice: OutboundMessage)
        ensures
            notice.connection_id == self.id,
            notice.text@ == notify_text(message@),
    {
        OutboundMessage { connection_id: self.id, text: notify_message(message) }
    }
}

} // verus!
