//! NAL unit directory of an AVC sample: walks the length-prefixed NAL
//! units of a video payload and records position, size and kind of each.
use vstd::prelude::*;
use crate::error::AVCError;
use crate::wire::be32;
use crate::wire::read_be_u32;

verus! {

/// The kind of a NAL unit, as coded in the low five bits of its header.
#[derive(Debug, Clone, Copy, PartialEq, Eq, Structural)]
pub enum H264NaluType {
    Unspecified0,
    CodedSliceOfANonIdrPicture,
    CodedSliceDataPartitionA,
    CodedSliceDataPartitionB,
    CodedSliceDataPartitionC,
    CodedSliceOfAnIdrPicture,
    Sei,
    Sps,
    Pps,
    AccessUnitDelimiter,
    EndOfSequence,
    EndOfStream,
    FillerData,
    SpsExtension,
    PrefixNalUnit,
    SubsetSps,
    DepthParameterSet,
    Reserved17,
    Reserved18,
    SliceLayerWithoutPartitioning,
    SliceLayerExtension20,
    SliceLayerExtension21,
    Reserved22,
    Reserved23,
    Unspecified24,
    Unspecified25,
    Unspecified26,
    Unspecified27,
    Unspecified28,
    Unspecified29,
    Unspecified30,
    Unspecified31,
}

/// The NAL unit kind for a five-bit code.
pub open spec fn nalu_type_of(v: int) -> H264NaluType {
    if v == 0 {
        H264NaluType::Unspecified0
    } else if v == 1 {
        H264NaluType::CodedSliceOfANonIdrPicture
    } else if v == 2 {
        H264NaluType::CodedSliceDataPartitionA
    } else if v == 3 {
        H264NaluType::CodedSliceDataPartitionB
    } else if v == 4 {
        H264NaluType::CodedSliceDataPartitionC
    } else if v == 5 {
        H264NaluType::CodedSliceOfAnIdrPicture
    } else if v == 6 {
        H264NaluType::Sei
    } else if v == 7 {
        H264NaluType::Sps
    } else if v == 8 {
        H264NaluType::Pps
    } else if v == 9 {
        H264NaluType::AccessUnitDelimiter
    } else if v == 10 {
        H264NaluType::EndOfSequence
    } else if v == 11 {
        H264NaluType::EndOfStream
    } else if v == 12 {
        H264NaluType::FillerData
    } else if v == 13 {
        H264NaluType::SpsExtension
    } else if v == 14 {
        H264NaluType::PrefixNalUnit
    } else if v == 15 {
        H264NaluType::SubsetSps
    } else if v == 16 {
        H264NaluType::DepthParameterSet
    } else if v == 17 {
        H264NaluType::Reserved17
    } else if v == 18 {
        H264NaluType::Reserved18
    } else if v == 19 {
        H264NaluType::SliceLayerWithoutPartitioning
    } else if v == 20 {
        H264NaluType::SliceLayerExtension20
    } else if v == 21 {
        H264NaluType::SliceLayerExtension21
    } else if v == 22 {
        H264NaluType::Reserved22
    } else if v == 23 {
        H264NaluType::Reserved23
    } else if v == 24 {
        H264NaluType::Unspecified24
    } else if v == 25 {
        H264NaluType::Unspecified25
    } else if v == 26 {
        H264NaluType::Unspecified26
    } else if v == 27 {
        H264NaluType::Unspecified27
    } else if v == 28 {
        H264NaluType::Unspecified28
    } else if v == 29 {
        H264NaluType::Unspecified29
    } else if v == 30 {
        H264NaluType::Unspecified30
    } else {
        H264NaluType::Unspecified31
    }
}

/// One NAL unit found in a sample: where it starts, how long it is, and
/// what kind it is.
pub struct H264Nalu {
    pub start_position: i32,
    pub full_size: u32,
    pub type_of: H264NaluType,
    pub nalu_hash: Option<String>,
}

/// The directory of the length-prefixed NAL units starting at `pos`: five
/// bytes of packet header are skipped first by the caller.  Each entry is
/// the position of the unit's header byte, its length prefix and its kind.
pub open spec fn nalus_at(s: Seq<u8>, pos: int) -> Result<
    Seq<(int, u32, H264NaluType)>,
    AVCError,
>
    decreases (if pos <= s.len() {
        s.len() - pos
    } else {
        0int
    }),
{
    if pos < 0 || pos + 4 > s.len() {
        Ok(Seq::empty())
    } else if pos + 5 > s.len() {
        Err(AVCError::ReadBitsError)
    } else {
        let size = be32(s, pos);
        let byte = s[pos + 4];
        if byte >= 0x80 {
            Err(AVCError::UnknownNAL(byte))
        } else if size == 0 {
            Err(AVCError::ParameterLength)
        } else {
            match nalus_at(s, pos + 4 + size) {
                Err(e) => Err(e),
                Ok(rest) => Ok(
                    seq![(pos + 4, size as u32, nalu_type_of((byte as int) % 32))] + rest,
                ),
            }
        }
    }
}

impl H264Nalu {
    /// A unit record with no hash computed yet.
    pub fn new(start_position: i32, full_size: u32, type_of: H264NaluType) -> (r: Self)
        ensures
            r.start_position == start_position,
            r.full_size == full_size,
            r.type_of == type_of,
            r.nalu_hash is None,
    {
        Self { start_position, full_size, type_of, nalu_hash: None }
    }

    /// Walks the NAL units of an AVC sample: five header bytes, then
    /// repeated four-byte length prefix, header byte and payload.  A header
    /// byte with the forbidden bit set, a zero length or a truncated
    /// prefix is an error.
    pub fn parse_nalus(data: &[u8]) -> (r: Result<Vec<H264Nalu>, AVCError>)
        requires
            data@.len() <= 0x7FFFFFFF,
        ensures
            match nalus_at(data@, 5) {
                Ok(m) => r matches Ok(v) && v@.map_values(
                    |n: H264Nalu| (n.start_position as int, n.full_size, n.type_of),
                ) == m && forall|j: int| 0 <= j < v@.len() ==> (#[trigger] v@[j]).nalu_hash is None,
                Err(e) => r == Err::<Vec<H264Nalu>, AVCError>(e),
            },
    {
        let ghost s = data@;
        let mut h264_nalus: Vec<H264Nalu> = Vec::new();
        let mut pos: usize = 5;
        loop
            invariant
                s == data@,
                s.len() <= 0x7FFFFFFF,
                pos <= 0x7FFFFFFF + 4 + 0xFFFFFFFF,
                forall|j: int|
                    0 <= j < h264_nalus@.len() ==> (#[trigger] h264_nalus@[j]).nalu_hash is None,
                match nalus_at(s, pos as int) {
                    Ok(rest) => nalus_at(s, 5) == Ok::<_, AVCError>(
                        h264_nalus@.map_values(
                            |n: H264Nalu| (n.start_position as int, n.full_size, n.type_of),
                        ) + rest,
                    ),
                    Err(e) => nalus_at(s, 5) == Err::<Seq<(int, u32, H264NaluType)>, AVCError>(e),
                },
            ensures
                nalus_at(s, pos as int) == Ok::<Seq<(int, u32, H264NaluType)>, AVCError>(
                    Seq::empty(),
                ),
                nalus_at(s, 5) == Ok::<_, AVCError>(
                    h264_nalus@.map_values(
                        |n: H264Nalu| (n.start_position as int, n.full_size, n.type_of),
                    ),
                ),
                forall|j: int|
                    0 <= j < h264_nalus@.len() ==> (#[trigger] h264_nalus@[j]).nalu_hash is None,
            decreases s.len() + 4 - pos,
        {
            if pos > data.len() || data.len() - pos < 4 {
                proof {
                    let m = h264_nalus@.map_values(
                        |n: H264Nalu| (n.start_position as int, n.full_size, n.type_of),
                    );
                    assert(m + Seq::<(int, u32, H264NaluType)>::empty() =~= m);
                }
                break ;
            }
            if data.len() - pos < 5 {
                return Err(AVCError::ReadBitsError);
            }
            let size = read_be_u32(data, pos);
            let byte = data[pos + 4];
            if byte >= 0x80 {
                return Err(AVCError::UnknownNAL(byte));
            }
            if size == 0 {
                return Err(AVCError::ParameterLength);
            }
            let nalu_type = Self::parse_nalu_type(byte);
            let nalu = match nalu_type {
                Some(t) => Self::new((pos + 4) as i32, size, t),
                None => {
                    return Err(AVCError::UnknownNAL(byte));
                },
            };
            let ghost before = h264_nalus@.map_values(
                |n: H264Nalu| (n.start_position as int, n.full_size, n.type_of),
            );
            h264_nalus.push(nalu);
            proof {
                let entry = (pos + 4 as int, size, nalu_type_of((byte as int) % 32));
                assert(h264_nalus@.map_values(
                    |n: H264Nalu| (n.start_position as int, n.full_size, n.type_of),
                ) =~= before + seq![entry]);
                if let Ok(rest) = nalus_at(s, pos + 4 + size) {
                    assert((before + seq![entry]) + rest =~= before + (seq![entry] + rest));
                }
            }
            if data.len() - pos - 4 < size as usize {
                pos = data.len() + 4;
            } else {
                pos = pos + 4 + size as usize;
            }
        }
        Ok(h264_nalus)
    }

    /// The unit kind of a header byte; `None` when the forbidden bit is
    /// set.
    pub fn parse_nalu_type(first_byte: u8) -> (r: Option<H264NaluType>)
        ensures
            first_byte >= 0x80 ==> r is None,
            first_byte < 0x80 ==> r == Some(nalu_type_of((first_byte as int) % 32)),
    {
        if first_byte >= 0x80 {
            None
        } else {
            let v = first_byte % 32;
            Some(
                if v == 0 {
                    H264NaluType::Unspecified0
                } else if v == 1 {
                    H264NaluType::CodedSliceOfANonIdrPicture
                } else if v == 2 {
                    H264NaluType::CodedSliceDataPartitionA
                } else if v == 3 {
                    H264NaluType::CodedSliceDataPartitionB
                } else if v == 4 {
                    H264NaluType::CodedSliceDataPartitionC
                } else if v == 5 {
                    H264NaluType::CodedSliceOfAnIdrPicture
                } else if v == 6 {
                    H264NaluType::Sei
                } else if v == 7 {
                    H264NaluType::Sps
                } else if v == 8 {
                    H264NaluType::Pps
                } else if v == 9 {
                    H264NaluType::AccessUnitDelimiter
                } else if v == 10 {
                    H264NaluType::EndOfSequence
                } else if v == 11 {
                    H264NaluType::EndOfStream
                } else if v == 12 {
                    H264NaluType::FillerData
                } else if v == 13 {
                    H264NaluType::SpsExtension
                } else if v == 14 {
                    H264NaluType::PrefixNalUnit
                } else if v == 15 {
                    H264NaluType::SubsetSps
                } else if v == 16 {
                    H264NaluType::DepthParameterSet
                } else if v == 17 {
                    H264NaluType::Reserved17
                } else if v == 18 {
                    H264NaluType::Reserved18
                } else if v == 19 {
                    H264NaluType::SliceLayerWithoutPartitioning
                } else if v == 20 {
                    H264NaluType::SliceLayerExtension20
                } else if v == 21 {
                    H264NaluType::SliceLayerExtension21
                } else if v == 22 {
                    H264NaluType::Reserved22
                } else if v == 23 {
                    H264NaluType::Reserved23
                } else if v == 24 {
                    H264NaluType::Unspecified24
                } else if v == 25 {
                    H264NaluType::Unspecified25
                } else if v == 26 {
                    H264NaluType::Unspecified26
                } else if v == 27 {
                    H264NaluType::Unspecified27
                } else if v == 28 {
                    H264NaluType::Unspecified28
                } else if v == 29 {
                    H264NaluType::Unspecified29
                } else if v == 30 {
                    H264NaluType::Unspecified30
                } else {
                    H264NaluType::Unspecified31
                },
            )
        }
    }
}

} // verus!
