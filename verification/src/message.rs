//! What travels on the wire, and what the user receives.
use vstd::prelude::*;

verus! {

/// The envelope of every message on the wire: the user's value, the number of the
/// conversation it belongs to, and whether it answers a question of the receiver.
pub struct InternalMessage<T> {
    pub user_message: T,
    pub conversation_id: u64,
    pub is_reply: bool,
}

/// A message received from the connected peer, which you may choose to reply to.
/// `W` is the handle through which a reply is written back to the peer.
pub struct ReceivedMessage<W, T> {
    message: Option<T>,
    conversation_id: u64,
    raw_write: W,
}

impl<W, T> ReceivedMessage<W, T> {
    /// The message still held (`None` once it has been taken).
    pub closed spec fn held(&self) -> Option<T> {
        self.message
    }

    /// The conversation the message belongs to; a reply continues it.
    pub closed spec fn conversation(&self) -> u64 {
        self.conversation_id
    }

    /// The handle replies are written through.
    pub closed spec fn writer(&self) -> W {
        self.raw_write
    }

    pub(crate) fn new(message: T, conversation_id: u64, raw_write: W) -> (r: Self)
        ensures
            r.held() == Some(message),
            r.conversation() == conversation_id,
            r.writer() == raw_write,
    {
        ReceivedMessage { message: Some(message), conversation_id, raw_write }
    }

    /// Peeks at the message, panicking if the message had already been taken prior.
    pub fn message(&self) -> (r: &T)
        requires
            self.held() is Some,
        ensures
            *r == self.held()->0,
    {
        self.message.as_ref().unwrap()
    }

    /// Peeks at the message, returning `None` if the message had already been taken prior.
    pub fn message_opt(&self) -> (r: Option<&T>)
        ensures
            r is Some <==> self.held() is Some,
            r is Some ==> *r->0 == self.held()->0,
    {
        self.message.as_ref()
    }

    /// Pulls the message from this, panicking if the message had already been taken prior.
    pub fn take_message(&mut self) -> (r: T)
        requires
            old(self).held() is Some,
        ensures
            r == old(self).held()->0,
            final(self).held() is None,
            final(self).conversation() == old(self).conversation(),
            final(self).writer() == old(self).writer(),
    {
        self.message.take().unwrap()
    }

    /// Pulls the message from this, returning `None` if the message had already been taken prior.
    pub fn take_message_opt(&mut self) -> (r: Option<T>)
        ensures
            r == old(self).held(),
            final(self).held() is None,
            final(self).conversation() == old(self).conversation(),
            final(self).writer() == old(self).writer(),
    {
        self.message.take()
    }

    /// The envelope that answers this message with `reply`, and the handle to write it
    /// through: it continues this message's conversation and is marked as a reply.
    pub fn into_reply(self, reply: T) -> (r: (W, InternalMessage<T>))
        ensures
            r.0 == self.writer(),
            r.1 == (InternalMessage { user_message: reply, conversation_id: self.conversation(), is_reply: true }),
    {
        (self.raw_write, InternalMessage { user_message: reply, conversation_id: self.conversation_id, is_reply: true })
    }
}

} // verus!
