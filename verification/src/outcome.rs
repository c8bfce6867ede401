//! What decoding comes to, as the contracts of the decoders state it.

use crate::error::{Failure, WadError};
use vstd::prelude::*;

verus! {

/// The outcome of decoding a value from a byte sequence: the value, or why
/// there is none, and in both cases the index at which reading stopped.
pub enum Decoded<T> {
    Value { value: T, end: int },
    Failed { failure: Failure, end: int },
}

impl<T> Decoded<T> {
    /// The index at which reading stopped.
    pub open spec fn end(self) -> int {
        match self {
            Decoded::Value { end, .. } => end,
            Decoded::Failed { end, .. } => end,
        }
    }

    /// Whether `result` holds what this outcome holds: the value, or an
    /// error that says why there is none.
    pub open spec fn yields<E: View<V = T>>(self, result: Result<E, WadError>) -> bool {
        match self {
            Decoded::Value { value, .. } => result matches Ok(decoded) && decoded@ == value,
            Decoded::Failed { failure, .. } => result matches Err(error) && error@ == failure,
        }
    }

    /// Whether `result`, handed out by a decoder that left its reader at
    /// `position`, is this outcome.
    pub open spec fn is_met_by<E: View<V = T>>(
        self,
        result: Result<E, WadError>,
        position: int,
    ) -> bool {
        self.yields(result) && position == self.end()
    }
}

} // verus!
