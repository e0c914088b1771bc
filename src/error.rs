//! Errors raised while walking atoms and decoding their contents.

use vstd::prelude::*;

use crate::fourcc::FourCC;
use crate::track::TrackIdentifier;

verus! {

/// Everything that can go wrong while navigating or decoding an MP4 file.
#[derive(Debug, Clone, PartialEq, Eq)]
pub enum Mp4Error {
    /// A header reports an atom size of zero.
    ZeroSizeAtom { name: FourCC, offset: u64 },
    /// A header reports a size smaller than the header itself.
    UnexpectedAtomSize { len: u64, offset: u64 },
    /// A typed decoder was handed an atom with another FourCC.
    AtomMismatch { got: FourCC, expected: FourCC },
    /// A position lies outside the declared `[min, max]` range.
    /// `(position, min, max)`.
    BoundsError(u64, u64, u64),
    /// No `moov` atom could be located when opening a file.
    MoovReadError,
    /// A search ended without finding an atom with this FourCC.
    NoSuchAtom(FourCC),
    /// A `hdlr` atom has no bytes left for its component name.
    MissingHandlerName,
    /// The sample table walk reached the next `trak` before it was complete.
    SampleOffsetError,
    /// No track matched the requested identifier.
    NoSuchTrack(TrackIdentifier),
    /// A read returned fewer bytes than requested.
    ReadMismatch { got: u64, expected: u64 },
    /// A seek did not land where requested.
    OffsetMismatch { got: u64, expected: u64 },
    /// Four zero bytes where a FourCC was expected (padding).
    InvalidFourCC,
    /// An underlying read of the file failed, with the reason given.
    IOError(String),
    /// A value did not fit the integer type it was converted to.
    NumericOverflow,
    /// The navigator passed the last byte.
    EndOfFile,
    /// Sample tables disagree on the number of samples
    /// (`stts` durations against `stsz` sizes and chunk expansion).
    SampleCountMismatch { durations: u64, sizes: u64, positions: u64 },
    /// The sample-to-chunk table does not cover a chunk index.
    MissingChunkEntry(u64),
    /// No video sample description found.
    ResolutionExtractionError,
    /// No video sample description found.
    VideoFormatExtractionError,
    /// No audio sample description found.
    AudioFormatExtractionError,
    /// No audio sample description found.
    SampleRateExtractionError,
}

} // verus!
