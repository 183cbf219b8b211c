use vstd::prelude::*;

verus! {

/// Why a request was turned down.
#[derive(Debug, Clone, Copy, PartialEq, Eq, Structural)]
pub enum QRError {
    /// The version is not one of 1 to 40.
    InvalidVersion,
    /// The row or the column is not below the symbol's size.
    IndexOutOfRange,
}

} // verus!
