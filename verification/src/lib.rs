//! Verified core of an FLV stream recorder.
//!
//! The crate covers four byte-level subsystems: the FLV tag container codec,
//! the AMF0 value codec used inside FLV script-data tags, the H.264
//! bitstream inspector (NAL units, exponential-Golomb reader, SPS decode),
//! and the segmenter that splits a live tag sequence into self-contained
//! output files.  All parsing and serialization works on plain byte buffers;
//! network and file I/O stay outside the library.
use vstd::prelude::*;

pub mod amf;
pub mod avc;
pub mod bits;
pub mod error;
pub mod h264_nalu;
pub mod live;
pub mod parser;
pub mod pipeline;
pub mod reader;
pub mod script_values;
pub mod segmenter;
pub mod tag;
pub mod wire;
pub mod writer;

verus! {

/// Sum of two sizes.
pub fn add(left: usize, right: usize) -> (r: usize)
    requires
        left + right <= usize::MAX,
    ensures
        r == left + right,
{
    left + right
}

} // verus!
