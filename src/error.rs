//! The errors that end a comparison or an evaluation.

use vstd::prelude::*;

verus! {

/// Why a comparison or an evaluation stopped.
#[derive(Clone, Debug, PartialEq, Eq)]
pub enum EvalError {
    /// A layer name in a list is not recognized.
    UnknownLayer(String),
    /// The first (gold) treebank could not be read; the cause.
    ReadFirst(String),
    /// The second (predicted) treebank could not be read; the cause.
    ReadSecond(String),
    /// Two aligned sentences differ in their number of tokens.
    LengthMismatch { first: usize, second: usize },
    /// The token at this node index (counted from 1) has no head.
    MissingHead { index: usize },
}

} // verus!
