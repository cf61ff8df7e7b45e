//! The errors of the bot's operations.
use vstd::prelude::*;

verus! {

/// Why a nickname was turned down.
#[derive(Clone, Copy, Debug, PartialEq, Eq, Structural)]
pub enum NicknameIssue {
    /// Nothing is left once marks and surrounding whitespace are removed.
    Empty,
    /// Longer than the allowed number of characters.
    TooLong,
    /// Holds what looks like a link.
    ContainsLink,
    /// The message mentions someone besides the bot.
    MentionCount,
}

/// The failures an operation can report.
#[derive(Clone, Copy, Debug, PartialEq, Eq, Structural)]
pub enum BotError {
    /// The corpus or the store could not be read.
    ResourceUnavailable,
    /// The dictionary service could not be reached or answered badly.
    TransportError,
    /// The dictionary has no entry for the word.
    NotFound,
    /// The drawn record does not exist or could not be decoded.
    SampleExhausted,
    /// A command argument is malformed or out of range.
    InvalidArgument,
    /// The store refused a write.
    StoreUnavailable,
    /// A nickname was turned down.
    ValidationFailed(NicknameIssue),
}

} // verus!
