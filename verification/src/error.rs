//! Decode errors. Every variant carries the byte offset at which the
//! failure was detected, to aid diagnosing malformed files.

use vstd::prelude::*;

verus! {

#[derive(Clone, Copy, Debug, PartialEq, Eq, Structural)]
pub enum SfromError {
    /// Fewer than the 48 header bytes were available.
    TruncatedHeader { offset: usize },
    /// Fewer than the 35 footer bytes were available at the footer offset.
    TruncatedFooter { offset: usize },
    /// The header's magic field did not hold the expected constant.
    BadMagic { offset: usize },
    /// A header-declared offset exceeds the buffer length or produces an
    /// invalid region.
    OutOfBounds { offset: usize },
    /// A tag payload was truncated, or a length-prefixed tag declared a
    /// length exceeding the remaining buffer.
    InvalidTagPayload { offset: usize },
}

impl SfromError {
    /// The byte offset at which the failure was detected.
    pub fn offset(&self) -> (r: usize)
        ensures
            r == self.spec_offset(),
    {
        match self {
            SfromError::TruncatedHeader { offset } => *offset,
            SfromError::TruncatedFooter { offset } => *offset,
            SfromError::BadMagic { offset } => *offset,
            SfromError::OutOfBounds { offset } => *offset,
            SfromError::InvalidTagPayload { offset } => *offset,
        }
    }

    pub open spec fn spec_offset(&self) -> usize {
        match self {
            SfromError::TruncatedHeader { offset } => *offset,
            SfromError::TruncatedFooter { offset } => *offset,
            SfromError::BadMagic { offset } => *offset,
            SfromError::OutOfBounds { offset } => *offset,
            SfromError::InvalidTagPayload { offset } => *offset,
        }
    }
}

} // verus!
