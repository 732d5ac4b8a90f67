//! Error types of the three codecs.
//!
//! `Incomplete` is not a failure: it tells the caller that more input bytes
//! are needed and that the parse may be retried from the same position.
use vstd::prelude::*;

verus! {

/// Errors of the FLV tag codec.
#[derive(Debug, Clone, PartialEq, Eq)]
pub enum TagReaderError {
    /// An I/O failure in the byte source feeding the codec.
    Io,
    /// A malformed fixed-width field at the given byte offset.
    ParseError(usize),
    /// A tag whose payload could not be parsed.
    ParseTagError(String),
    /// A malformed 9-byte file header.
    ParseFileHeaderError(String),
    /// A structurally invalid tag.
    InvalidTag(String),
    /// The operation was cancelled.
    Cancelled,
    /// A script payload whose AMF0 body could not be parsed.
    AmfParseError(String),
    /// A tag type byte other than audio, video or script data.
    UnknownTagType(u8),
    /// More input is needed; not a failure.
    Incomplete,
}

/// Errors of the AMF0 codec.
///
/// `InvalidDate` carries the raw IEEE-754 bit pattern of the rejected
/// millisecond field, as read from the eight wire bytes.
#[derive(Debug, Clone, Copy, PartialEq, Eq, Structural)]
pub enum Amf0ReadError {
    /// A marker byte outside the AMF0 value set.
    UnknownMarker(u8),
    /// A string field whose bytes are not valid UTF-8.
    StringParseError,
    /// A value of an unexpected kind.
    WrongType,
    /// An object end marker where a value was expected.
    UnexpectedObjectEnd,
    /// A reference index beyond the reference table.
    OutOfRangeReference(usize),
    /// A date whose millisecond field is negative or not finite.
    InvalidDate(u64),
    /// A reference to a value whose decoding has not finished.
    CircularReference,
    /// A marker that AMF0 reserves or that this codec does not accept.
    Unsupported,
    /// The input ended inside a value.
    Io,
}

/// Errors of the H.264 bitstream inspector.
#[derive(Debug, Clone, Copy, PartialEq, Eq, Structural)]
pub enum AVCError {
    /// A NAL unit type this inspector does not implement.
    UnknownNAL(u8),
    /// `sub_width_c` queried for a chroma format without one.
    SubWidthCUndefined,
    /// `sub_height_c` queried for a chroma format without one.
    SubHeightCUndefined,
    /// A length-prefixed parameter set longer than its buffer.
    ParameterLength,
    /// A bit read beyond the end of the bitstream.
    ReadBitsError,
}

} // verus!
