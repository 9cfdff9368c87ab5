//! Conversations over a duplex byte connection: messages that can be answered with replies.
//!
//! The writing half numbers its questions and registers each with the reading half; the
//! reading half routes every incoming message either to the question it answers or to the
//! user, who may answer it in turn.

pub mod asking;
pub mod channels;
pub mod error;
pub mod laws;
pub mod message;
pub mod replies;
pub mod samples;

pub use asking::{
    reply_channel, resolve_reply, Conversations, Outgoing, ReplyOutcome, ReplyTicket, DEFAULT_SIZE_LIMIT,
    DEFAULT_TIMEOUT_SECS,
};
pub use error::{Error, TypedFailure};
pub use message::{InternalMessage, ReceivedMessage};
pub use replies::{PendingReplies, ReplySender, Routed};
pub use samples::{IdentifiableMessage, TestMessage};
