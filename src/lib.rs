//! Layer comparison and accuracy scoring for dependency treebanks.
//!
//! Tokens expose named annotation layers; two treebanks are walked
//! sentence by sentence to find differing tokens, to measure layer
//! agreement, and to compute labeled and unlabeled attachment scores.

pub mod accuracy;
pub mod align;
pub mod attachment;
pub mod compare;
pub mod convert;
pub mod cycle;
pub mod error;
pub mod layer;
pub mod shuffle;
pub mod sums;
pub mod text;
pub mod token;
pub mod unicode;
