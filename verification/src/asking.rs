//! The writing half's side of a conversation: numbering the questions, registering each
//! one so that its answer can find its way back, and settling what the asker gets.
use vstd::prelude::*;

use crate::channels::{oneshot_channel, unbounded_channel, unbounded_send};
use crate::error::Error;
use crate::message::InternalMessage;
use crate::replies::{PendingReplies, ReplySender};

verus! {

/// The most bytes one message may take on the wire, unless another limit is chosen: one mebibyte.
pub const DEFAULT_SIZE_LIMIT: u64 = 1048576;

/// How long an asker waits for a reply, in seconds, unless another timeout is chosen.
pub const DEFAULT_TIMEOUT_SECS: u64 = 5;

/// The number that follows `id`: one more, wrapping from the largest `u64` to zero.
pub open spec fn following(id: u64) -> u64 {
    ((id + 1) % 0x1_0000_0000_0000_0000) as u64
}

/// The number reached from `start` by taking the following number `k` times: what a
/// writing half numbers its next question after `k` questions were written.
pub open spec fn after_sends(start: u64, k: nat) -> u64
    decreases k,
{
    if k == 0 {
        start
    } else {
        following(after_sends(start, (k - 1) as nat))
    }
}

/// The number `k` places after `start`, wrapping around the `u64` range.
pub open spec fn id_after(start: u64, k: nat) -> u64 {
    ((start + k) % 0x1_0000_0000_0000_0000) as u64
}

/// Where the answer to a question will arrive, if it can arrive at all.
#[verifier::reject_recursive_types(T)]
pub enum ReplyTicket<T> {
    /// The question was registered with the reading half; the answer comes here.
    Waiting(tokio::sync::oneshot::Receiver<Result<T, Error>>),
    /// The reading half was gone when the question was asked: no answer can arrive.
    Unregistered,
}

/// A question ready to be written: its envelope, where its answer will arrive, and the
/// number it was registered under with the reading half (`None` if it could not be).
#[verifier::reject_recursive_types(T)]
pub struct Outgoing<T> {
    pub envelope: InternalMessage<T>,
    pub ticket: ReplyTicket<T>,
    pub registered_under: Ghost<Option<u64>>,
}

/// How the wait for an answer ended.
pub enum ReplyOutcome<T> {
    /// The reading half handed over this answer.
    Replied(Result<T, Error>),
    /// The reading half went away without answering.
    SenderDropped,
    /// The timeout passed first.
    TimedOut,
}

/// The writing half's numbering of its questions, and the queue on which it tells the
/// reading half which answers to wait for.
#[verifier::reject_recursive_types(T)]
pub struct Conversations<T> {
    reply_data_sender: tokio::sync::mpsc::UnboundedSender<ReplySender<T>>,
    next_id: u64,
}

impl<T> Conversations<T> {
    /// The number the next question will carry.
    pub closed spec fn next(&self) -> u64 {
        self.next_id
    }

    /// The queue on which questions are registered with the reading half.
    pub closed spec fn queue(&self) -> tokio::sync::mpsc::UnboundedSender<ReplySender<T>> {
        self.reply_data_sender
    }

    /// Prepares `message` as the next question: its envelope carries the next number and
    /// is not a reply; the question is registered with the reading half under that same
    /// number, and the ticket waits for the answer exactly when the registration went
    /// through (it does not once the reading half is gone). The number is not used up
    /// until `sent`.
    pub fn open(&self, message: T) -> (o: Outgoing<T>)
        ensures
            o.envelope == (InternalMessage { user_message: message, conversation_id: self.next(), is_reply: false }),
            o.ticket is Waiting <==> o.registered_under@ is Some,
            o.registered_under@ matches Some(n) ==> n == self.next(),
    {
        let (reply_sender, reply_receiver) = oneshot_channel();
        let entry = ReplySender::new(reply_sender, self.next_id);
        let ghost number = entry.conversation();
        let registered = unbounded_send(&self.reply_data_sender, entry);
        let ticket = ReplyTicket::after_registration(registered, reply_receiver);
        Outgoing {
            envelope: InternalMessage { user_message: message, conversation_id: self.next_id, is_reply: false },
            ticket,
            registered_under: Ghost(if registered { Some(number) } else { None }),
        }
    }

    /// The question was written: the next one takes the following number.
    pub fn sent(&mut self)
        ensures
            final(self).next() == following(old(self).next()),
            final(self).queue() == old(self).queue(),
    {
        self.next_id = self.next_id.wrapping_add(1);
    }
}

/// A fresh pair of halves for one connection: the writing half numbers its questions from
/// zero, and the reading half waits for no answer yet.
pub fn reply_channel<T>() -> (r: (Conversations<T>, PendingReplies<T>))
    ensures
        r.0.next() == 0,
        r.1@ == Seq::<ReplySender<T>>::empty(),
{
    let (reply_data_sender, reply_data_receiver) = unbounded_channel();
    (Conversations { reply_data_sender, next_id: 0 }, PendingReplies::new(reply_data_receiver))
}

impl<T> ReplyTicket<T> {
    /// The ticket for a question whose registration with the reading half did or did not
    /// go through: its answer arrives on `reply_receiver` exactly when it did.
    pub fn after_registration(registered: bool, reply_receiver: tokio::sync::oneshot::Receiver<Result<T, Error>>) -> (t: Self)
        ensures
            registered ==> t == ReplyTicket::Waiting(reply_receiver),
            !registered ==> t is Unregistered,
    {
        if registered {
            ReplyTicket::Waiting(reply_receiver)
        } else {
            ReplyTicket::Unregistered
        }
    }

    /// Where to wait for the answer; if the question could not be registered, the answer
    /// is at once that the read half was dropped.
    pub fn into_receiver(self) -> (r: Result<tokio::sync::oneshot::Receiver<Result<T, Error>>, Error>)
        ensures
            self is Unregistered ==> r matches Err(Error::ReadHalfDropped),
            self matches ReplyTicket::Waiting(rx) ==> r == Ok::<_, Error>(rx),
    {
        match self {
            ReplyTicket::Waiting(rx) => Ok(rx),
            ReplyTicket::Unregistered => Err(Error::ReadHalfDropped),
        }
    }
}

/// What the asker gets: the answer or the error handed over, `ReadHalfDropped` if the
/// reading half went away, `Timeout` if the time ran out.
pub fn resolve_reply<T>(outcome: ReplyOutcome<T>) -> (r: Result<T, Error>)
    ensures
        outcome matches ReplyOutcome::Replied(x) ==> r == x,
        outcome is SenderDropped ==> r matches Err(Error::ReadHalfDropped),
        outcome is TimedOut ==> r matches Err(Error::Timeout),
{
    match outcome {
        ReplyOutcome::Replied(x) => x,
        ReplyOutcome::SenderDropped => Err(Error::ReadHalfDropped),
        ReplyOutcome::TimedOut => Err(Error::Timeout),
    }
}

} // verus!
