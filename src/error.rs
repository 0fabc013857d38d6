//! Error kinds of the chat core.

use vstd::prelude::*;

verus! {

/// Failures of a channel's connection or of the messages it carries.
#[derive(Clone, Copy, Debug, PartialEq, Eq, Structural)]
pub enum TwitchError {
    /// The transport failed: fatal to the channel's connection.
    ConnectionError,
    /// A chat line could not be parsed: the line is skipped.
    MessageParseError,
    /// A second live connection was offered for a channel that has one.
    RegistryConflict,
}

/// Failures of the moderation classifier: each aborts the handling of one message.
#[derive(Clone, Copy, Debug, PartialEq, Eq, Structural)]
pub enum ModerationError {
    /// The classifier answered with something other than category scores.
    ApiError,
    /// The classifier could not be reached.
    ConnectionError,
}

} // verus!
