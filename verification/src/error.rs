use vstd::prelude::*;
use crate::{IconType, Size};

verus! {

/// A fault found while consuming the token stream. Positions index the
/// token sequence handed to the parser, so a diagnostic can point at the
/// offending argument.
#[derive(Clone, Copy, Debug, PartialEq, Eq, Structural)]
pub enum SyntaxError {
    /// The token at this position cannot appear where it stands.
    UnexpectedToken(usize),
    /// The stream ended in the middle of an entry or a filter selection.
    UnexpectedEnd,
    /// The stream ended after complete entries, with no container selector.
    MissingOutputFlag,
    /// Kept as part of the error vocabulary. A container selector with no
    /// following path means "write to standard output", so this parser
    /// never raises it.
    MissingOutputPath,
}

/// A fault found while checking parsed entries against the build plan's
/// invariants and the chosen container's limits.
#[derive(Clone, Debug, PartialEq)]
pub enum ValidationError {
    /// Two entries bind the same target size. Carries the size and the
    /// token positions where it was first and then again bound.
    DuplicateSize(Size, usize, usize),
    /// A bound size that the chosen container cannot hold.
    UnsupportedSizeForContainer(Size, IconType),
    /// A raster source would be shrunk under nearest-neighbour resampling,
    /// which is refused. Carries the requested size, the source's native
    /// dimensions and the source path.
    IllegalDownsizeWithoutInterpolation(Size, Size, String),
}

/// Any failure of one invocation. No error is retried; the first one found,
/// in token order, aborts the run.
#[derive(Clone, Debug, PartialEq)]
pub enum Error {
    Syntax(SyntaxError),
    Validation(ValidationError),
    /// A source image could not be found or decoded; carries its path.
    Source(String),
    /// Passed through from the encoding collaborator.
    Encode(String),
}

} // verus!
