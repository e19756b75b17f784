//! Routing by calls: a send is handed to the receivers at once, and returns what they answer.
//!
//! A type that sends has one `impl` for each message that it may send, and a messenger has one for
//! each route, so that a route that does not exist does not compile.
use vstd::prelude::*;

verus! {

/// Sends a message of this type's over a messenger. What comes back is to be awaited for the
/// response.
pub trait Sender<Message, DirectMessenger, Response = ()> {
    type Reply;

    fn send(message: &Message, router: &DirectMessenger) -> Self::Reply;
}

/// Hands the messages of `H` to their receivers. What comes back is to be awaited for the response
/// of the last of them.
pub trait MessengerRoute<H, Message, Response = ()> {
    type Reply;

    fn route(&self, message: &Message) -> Self::Reply;
}

/// Sends a message of this type's over a messenger, and returns the response.
pub trait SyncSender<Message, DirectMessenger, Response = ()> {
    fn send(message: &Message, router: &DirectMessenger) -> Response;
}

/// Hands the messages of `H` to their receivers, and returns the response of the last of them.
pub trait SyncMessengerRoute<H, Message, Response = ()> {
    fn route(&self, message: &Message) -> Response;
}

} // verus!
