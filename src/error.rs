//! Why a sample could not be taken.

use vstd::prelude::*;

verus! {

#[derive(Clone, Copy, Debug, PartialEq, Eq, Structural)]
pub enum ReadError {
    /// The kernel interface could not be opened or read at all.
    SourceUnavailable,
    /// A recognised line lacked a field, or a field was not a counter.
    MalformedData,
}

} // verus!
