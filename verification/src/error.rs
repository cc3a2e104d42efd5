//! The one error type of the library.

use vstd::prelude::*;

use crate::store::Request;

verus! {

/// Why a store read did not yield the data that was asked for.
#[derive(Clone, Debug, PartialEq, Eq)]
pub enum Cause {
    /// The store reported an I/O or decode failure, with its message.
    Failed(String),
    /// The store answered with data of another kind than the request names.
    Unexpected,
}

/// What was looked for and not there.
#[derive(Clone, Copy, Debug, PartialEq, Eq)]
pub enum Missing {
    /// The block has no body indices.
    BodyIndices { block: u64 },
    /// No record of the block's range `first..end` is in the archive segment.
    Records { block: u64, first: u64, end: u64 },
    /// The archive has no segment that holds the block.
    Segment { block: u64 },
    /// No record of the segment that holds the block is there, from `start`
    /// on, the record number at which its scan begins.
    SegmentRecords { block: u64, start: u64 },
}

/// Every failure a query can end in.
#[derive(Clone, Debug, PartialEq, Eq)]
pub enum AppError {
    /// A store read failed; `request` names the operation and the block,
    /// record or key it was made for.
    Store { request: Request, cause: Cause },
    /// A caller supplied a malformed address or hash; the argument is the text.
    InvalidArg(String),
    /// Data that a scan cannot go on without is absent.
    NotFound(Missing),
}

} // verus!
