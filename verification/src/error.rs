//! What can go wrong in a run.

use vstd::prelude::*;

verus! {

/// Why a response body could not be turned into records.
#[derive(Debug, Clone, Copy, PartialEq, Eq, Structural)]
pub enum DecodeError {
    /// The response body is not JSON at all.
    Syntax,
    /// The value is not of the JSON kind that the record asks for.
    Mismatch,
    /// An object lacks a field that the record cannot do without.
    Missing,
    /// A number does not fit the field it is meant for.
    Range,
    /// A date is not written as RFC 3339 asks.
    Date,
}

/// Why a page could not be rendered.
#[derive(Debug, Clone, Copy, PartialEq, Eq, Structural)]
pub enum RenderError {
    /// The tag pattern was refused by the regular-expression engine.
    Pattern,
    /// A date lies outside the range that can be written out.
    Date,
    /// No template goes by the given name.
    Template,
    /// The context does not hold what the template reads.
    Context,
}

/// The failures of a run, by where they arise.
#[derive(Debug, Clone, PartialEq, Eq)]
pub enum Error {
    /// The network request failed; the text is the transport's own message.
    Transport(String),
    /// The response arrived but does not have the expected shape.
    Decode(DecodeError),
    /// A page could not be rendered.
    Render(RenderError),
    /// A file could not be written; the text is the system's own message.
    Io(String),
}

} // verus!
