//! Message types for trying a connection out: a dialogue of two fixed lines, and numbered
//! messages that tell which side sent them.
use vstd::prelude::*;

verus! {

/// The two lines of a short dialogue.
#[derive(Debug, PartialEq, Eq, Structural)]
pub enum TestMessage {
    HelloThere,
    GeneralKenobiYouAreABoldOne,
}

/// A number, marked with the side that sent it.
#[derive(Debug, PartialEq, Eq, Structural)]
pub enum IdentifiableMessage {
    FromServer(u32),
    FromClient(u32),
}

} // verus!
