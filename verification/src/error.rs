//! The failures that indexing and resolving report.

use vstd::prelude::*;

verus! {

/// Why an indexing run was abandoned.
#[derive(Clone, Copy, Debug, PartialEq, Eq, Structural)]
pub enum IndexError {
    /// A function header names no function of the module, or no name can
    /// be read from it.
    UnresolvedFunctionName,
    /// A block header names no block of the function entered last, or no
    /// name can be read from it.
    UnresolvedBlockName,
}

/// Why a query against an index failed.
#[derive(Clone, Copy, Debug, PartialEq, Eq, Structural)]
pub enum ResolveError {
    /// An operand is an instruction or a block that the index does not hold.
    UnindexedOperand,
    /// A use is consumed by an instruction that the index does not hold.
    UnindexedConsumer,
    /// A use is consumed by something other than an instruction, or the
    /// uses of a function were asked for.
    UnsupportedUseConsumer,
}

} // verus!
