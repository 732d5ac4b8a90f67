//! Compact tag-header codec used on the media path: the one- or two-byte
//! audio tag header and the one- or five-byte video tag header, with
//! their numeric codec identifiers.
use vstd::prelude::*;
use crate::error::TagReaderError;

verus! {

/// Length of the fixed part of every FLV tag header.
pub const HEADER_LENGTH: u32 = 11;

/// AAC packet type byte of a sequence header.
pub const AAC_SEQHDR: u8 = 0;

/// AAC packet type byte of raw frames.
pub const AAC_RAW: u8 = 1;

/// AVC packet type byte of a sequence header.
pub const AVC_SEQHDR: u8 = 0;

/// AVC packet type byte of coded units.
pub const AVC_NALU: u8 = 1;

/// AVC packet type byte of an end-of-sequence marker.
pub const AVC_EOS: u8 = 2;

/// Frame type code of a keyframe.
pub const KEY_FRAME: u8 = 1;

/// Frame type code of an inter frame.
pub const INTER_FRAME: u8 = 2;

/// Tag type byte of an audio tag.
pub const AUDIO: u8 = 8;

/// Tag type byte of a video tag.
pub const VIDEO: u8 = 9;

/// Tag type byte of a script-data tag.
pub const SCRIPT_DATA_AMF: u8 = 18;

/// NAL unit type of an instantaneous decoder refresh slice.
pub const H264_NAL_IDR: u8 = 5;

/// NAL unit type of a sequence parameter set.
pub const H264_NAL_SPS: u8 = 7;

/// NAL unit type of a picture parameter set.
pub const H264_NAL_PPS: u8 = 8;

/// NAL unit type of an access unit delimiter.
pub const H264_NAL_AUD: u8 = 9;

/// Audio codec on the media path.
#[allow(non_camel_case_types)]
#[derive(Debug, Clone, Copy, PartialEq, Eq, Structural)]
pub enum SoundFormat {
    AAC,
    OPUS,
}

/// The sound format code.
pub open spec fn sound_format_code(f: SoundFormat) -> u8 {
    match f {
        SoundFormat::AAC => 10,
        SoundFormat::OPUS => 13,
    }
}

impl SoundFormat {
    /// The four-bit code of this format.
    pub fn code(self) -> (r: u8)
        ensures
            r == sound_format_code(self),
    {
        match self {
            SoundFormat::AAC => 10,
            SoundFormat::OPUS => 13,
        }
    }
}

impl Default for SoundFormat {
    fn default() -> (r: Self)
        ensures
            r == SoundFormat::AAC,
    {
        SoundFormat::AAC
    }
}

/// Video codec identifier.
#[allow(non_camel_case_types)]
#[derive(Debug, Clone, Copy, PartialEq, Eq, Structural)]
pub enum AvcCodecId {
    UNKNOWN,
    H264,
    HEVC,
}

/// The codec identifier code.
pub open spec fn avc_codec_id_code(c: AvcCodecId) -> u8 {
    match c {
        AvcCodecId::UNKNOWN => 0,
        AvcCodecId::H264 => 7,
        AvcCodecId::HEVC => 12,
    }
}

impl AvcCodecId {
    /// The four-bit code of this codec.
    pub fn code(self) -> (r: u8)
        ensures
            r == avc_codec_id_code(self),
    {
        match self {
            AvcCodecId::UNKNOWN => 0,
            AvcCodecId::H264 => 7,
            AvcCodecId::HEVC => 12,
        }
    }
}

impl Default for AvcCodecId {
    fn default() -> (r: Self)
        ensures
            r == AvcCodecId::UNKNOWN,
    {
        AvcCodecId::UNKNOWN
    }
}

/// AAC profile of an audio stream.
#[allow(non_camel_case_types)]
#[derive(Debug, Clone, Copy, PartialEq, Eq, Structural)]
pub enum AacProfile {
    UNKNOWN,
    LC,
    SSR,
    HE,
    HEV2,
}

/// The AAC profile code.
pub open spec fn aac_profile_code(p: AacProfile) -> u8 {
    match p {
        AacProfile::UNKNOWN => 0,
        AacProfile::LC => 2,
        AacProfile::SSR => 3,
        AacProfile::HE => 5,
        AacProfile::HEV2 => 29,
    }
}

impl AacProfile {
    /// The code of this profile.
    pub fn code(self) -> (r: u8)
        ensures
            r == aac_profile_code(self),
    {
        match self {
            AacProfile::UNKNOWN => 0,
            AacProfile::LC => 2,
            AacProfile::SSR => 3,
            AacProfile::HE => 5,
            AacProfile::HEV2 => 29,
        }
    }
}

impl Default for AacProfile {
    fn default() -> (r: Self)
        ensures
            r == AacProfile::UNKNOWN,
    {
        AacProfile::UNKNOWN
    }
}

/// AVC profile of a video stream.
#[derive(Debug, Clone, Copy, PartialEq, Eq, Structural)]
pub enum AvcProfile {
    UNKNOWN,
    Baseline,
    Main,
    Extended,
    High,
}

/// The AVC profile code.
pub open spec fn avc_profile_code(p: AvcProfile) -> u8 {
    match p {
        AvcProfile::UNKNOWN => 0,
        AvcProfile::Baseline => 66,
        AvcProfile::Main => 77,
        AvcProfile::Extended => 88,
        AvcProfile::High => 100,
    }
}

impl AvcProfile {
    /// The code of this profile.
    pub fn code(self) -> (r: u8)
        ensures
            r == avc_profile_code(self),
    {
        match self {
            AvcProfile::UNKNOWN => 0,
            AvcProfile::Baseline => 66,
            AvcProfile::Main => 77,
            AvcProfile::Extended => 88,
            AvcProfile::High => 100,
        }
    }
}

impl Default for AvcProfile {
    fn default() -> (r: Self)
        ensures
            r == AvcProfile::UNKNOWN,
    {
        AvcProfile::UNKNOWN
    }
}

/// AVC level of a video stream.
#[derive(Debug, Clone, Copy, PartialEq, Eq, Structural)]
pub enum AvcLevel {
    UNKNOWN,
    Level1,
    Level11,
    Level12,
    Level13,
    Level2,
    Level21,
    Level22,
    Level3,
    Level31,
    Level32,
    Level4,
    Level41,
    Level5,
    Level51,
}

/// The AVC level code.
pub open spec fn avc_level_code(l: AvcLevel) -> u8 {
    match l {
        AvcLevel::UNKNOWN => 0,
        AvcLevel::Level1 => 10,
        AvcLevel::Level11 => 11,
        AvcLevel::Level12 => 12,
        AvcLevel::Level13 => 13,
        AvcLevel::Level2 => 20,
        AvcLevel::Level21 => 21,
        AvcLevel::Level22 => 22,
        AvcLevel::Level3 => 30,
        AvcLevel::Level31 => 31,
        AvcLevel::Level32 => 32,
        AvcLevel::Level4 => 40,
        AvcLevel::Level41 => 41,
        AvcLevel::Level5 => 50,
        AvcLevel::Level51 => 51,
    }
}

impl AvcLevel {
    /// The code of this level.
    pub fn code(self) -> (r: u8)
        ensures
            r == avc_level_code(self),
    {
        match self {
            AvcLevel::UNKNOWN => 0,
            AvcLevel::Level1 => 10,
            AvcLevel::Level11 => 11,
            AvcLevel::Level12 => 12,
            AvcLevel::Level13 => 13,
            AvcLevel::Level2 => 20,
            AvcLevel::Level21 => 21,
            AvcLevel::Level22 => 22,
            AvcLevel::Level3 => 30,
            AvcLevel::Level31 => 31,
            AvcLevel::Level32 => 32,
            AvcLevel::Level4 => 40,
            AvcLevel::Level41 => 41,
            AvcLevel::Level5 => 50,
            AvcLevel::Level51 => 51,
        }
    }
}

impl Default for AvcLevel {
    fn default() -> (r: Self)
        ensures
            r == AvcLevel::UNKNOWN,
    {
        AvcLevel::UNKNOWN
    }
}

/// The flag fields of an audio tag header, packed into its first byte;
/// for AAC, the packet type follows in a second byte.
#[derive(Debug, Clone, Copy, PartialEq, Eq, Structural)]
pub struct AudioTagHeader {
    pub sound_format: u8,
    pub sound_rate: u8,
    pub sound_size: u8,
    pub sound_type: u8,
    pub aac_packet_type: u8,
}

impl Default for AudioTagHeader {
    fn default() -> (r: Self)
        ensures
            r == (AudioTagHeader {
                sound_format: 0,
                sound_rate: 0,
                sound_size: 0,
                sound_type: 0,
                aac_packet_type: 0,
            }),
    {
        Self { sound_format: 0, sound_rate: 0, sound_size: 0, sound_type: 0, aac_packet_type: 0 }
    }
}

impl AudioTagHeader {
    /// Reads the audio tag header: one flag byte and, for AAC, one packet
    /// type byte.
    pub fn unmarshal(reader: &[u8]) -> (r: Result<(AudioTagHeader, usize), TagReaderError>)
        ensures
            reader@.len() == 0 ==> r == Err::<(AudioTagHeader, usize), _>(
                TagReaderError::Incomplete,
            ),
            reader@.len() > 0 ==> {
                let flags = reader@[0] as int;
                if flags / 16 == 10 {
                    if reader@.len() < 2 {
                        r == Err::<(AudioTagHeader, usize), _>(TagReaderError::Incomplete)
                    } else {
                        r == Ok::<_, TagReaderError>(
                            (
                                AudioTagHeader {
                                    sound_format: (flags / 16) as u8,
                                    sound_rate: ((flags / 4) % 4) as u8,
                                    sound_size: ((flags / 2) % 2) as u8,
                                    sound_type: (flags % 2) as u8,
                                    aac_packet_type: reader@[1],
                                },
                                2usize,
                            ),
                        )
                    }
                } else {
                    r == Ok::<_, TagReaderError>(
                        (
                            AudioTagHeader {
                                sound_format: (flags / 16) as u8,
                                sound_rate: ((flags / 4) % 4) as u8,
                                sound_size: ((flags / 2) % 2) as u8,
                                sound_type: (flags % 2) as u8,
                                aac_packet_type: 0,
                            },
                            1usize,
                        ),
                    )
                }
            },
    {
        if reader.len() == 0 {
            return Err(TagReaderError::Incomplete);
        }
        let flags = reader[0];
        let sound_format = flags / 16;
        let sound_rate = (flags / 4) % 4;
        let sound_size = (flags / 2) % 2;
        let sound_type = flags % 2;
        if sound_format == 10 {
            if reader.len() < 2 {
                return Err(TagReaderError::Incomplete);
            }
            Ok(
                (
                    AudioTagHeader {
                        sound_format,
                        sound_rate,
                        sound_size,
                        sound_type,
                        aac_packet_type: reader[1],
                    },
                    2,
                ),
            )
        } else {
            Ok(
                (
                    AudioTagHeader {
                        sound_format,
                        sound_rate,
                        sound_size,
                        sound_type,
                        aac_packet_type: 0,
                    },
                    1,
                ),
            )
        }
    }

    /// Writes the audio tag header back: the packed flag byte and, for
    /// AAC, the packet type byte.
    pub fn marshal(&self) -> (r: Result<Vec<u8>, TagReaderError>)
        requires
            self.sound_format < 16,
            self.sound_rate < 4,
            self.sound_size < 2,
            self.sound_type < 2,
        ensures
            r matches Ok(v) && v@ == (if self.sound_format == 10 {
                seq![
                    (self.sound_format * 16 + self.sound_rate * 4 + self.sound_size * 2
                        + self.sound_type) as u8,
                    self.aac_packet_type,
                ]
            } else {
                seq![
                    (self.sound_format * 16 + self.sound_rate * 4 + self.sound_size * 2
                        + self.sound_type) as u8,
                ]
            }),
    {
        let mut out: Vec<u8> = Vec::new();
        let byte_1st = self.sound_format * 16 + self.sound_rate * 4 + self.sound_size * 2
            + self.sound_type;
        out.push(byte_1st);
        if self.sound_format == 10 {
            out.push(self.aac_packet_type);
            proof {
                assert(out@ =~= seq![byte_1st, self.aac_packet_type]);
            }
        } else {
            proof {
                assert(out@ =~= seq![byte_1st]);
            }
        }
        Ok(out)
    }
}

/// The flag fields of a video tag header; for AVC and HEVC, the packet
/// type and composition-time offset follow.
#[derive(Debug, Clone, Copy, PartialEq, Eq, Structural)]
pub struct VideoTagHeader {
    pub frame_type: u8,
    pub codec_id: u8,
    pub avc_packet_type: u8,
    pub composition_time: i32,
}

impl Default for VideoTagHeader {
    fn default() -> (r: Self)
        ensures
            r == (VideoTagHeader {
                frame_type: 0,
                codec_id: 0,
                avc_packet_type: 0,
                composition_time: 0,
            }),
    {
        Self { frame_type: 0, codec_id: 0, avc_packet_type: 0, composition_time: 0 }
    }
}

impl VideoTagHeader {
    /// Reads the video tag header: one flag byte and, for AVC or HEVC,
    /// the packet type byte and the big-endian signed composition-time
    /// offset.
    pub fn unmarshal(reader: &[u8]) -> (r: Result<(VideoTagHeader, usize), TagReaderError>)
        ensures
            reader@.len() == 0 ==> r == Err::<(VideoTagHeader, usize), _>(
                TagReaderError::Incomplete,
            ),
            reader@.len() > 0 ==> {
                let flags = reader@[0] as int;
                if flags % 16 == 7 || flags % 16 == 12 {
                    if reader@.len() < 5 {
                        r == Err::<(VideoTagHeader, usize), _>(TagReaderError::Incomplete)
                    } else {
                        r == Ok::<_, TagReaderError>(
                            (
                                VideoTagHeader {
                                    frame_type: (flags / 16) as u8,
                                    codec_id: (flags % 16) as u8,
                                    avc_packet_type: reader@[1],
                                    composition_time: crate::wire::sign_extend24(
                                        crate::wire::be24(reader@, 2),
                                    ) as i32,
                                },
                                5usize,
                            ),
                        )
                    }
                } else {
                    r == Ok::<_, TagReaderError>(
                        (
                            VideoTagHeader {
                                frame_type: (flags / 16) as u8,
                                codec_id: (flags % 16) as u8,
                                avc_packet_type: 0,
                                composition_time: 0,
                            },
                            1usize,
                        ),
                    )
                }
            },
    {
        if reader.len() == 0 {
            return Err(TagReaderError::Incomplete);
        }
        let flags = reader[0];
        let frame_type = flags / 16;
        let codec_id = flags % 16;
        if codec_id == 7 || codec_id == 12 {
            if reader.len() < 5 {
                return Err(TagReaderError::Incomplete);
            }
            let avc_packet_type = reader[1];
            let raw = crate::wire::read_be_u24(reader, 2);
            let composition_time: i32 = if raw >= 0x800000 {
                ((raw as i64) - 0x1000000) as i32
            } else {
                raw as i32
            };
            Ok((VideoTagHeader { frame_type, codec_id, avc_packet_type, composition_time }, 5))
        } else {
            Ok(
                (
                    VideoTagHeader {
                        frame_type,
                        codec_id,
                        avc_packet_type: 0,
                        composition_time: 0,
                    },
                    1,
                ),
            )
        }
    }

    /// Writes the video tag header back.  The composition-time offset is
    /// written as a signed 24-bit big-endian field, most significant byte
    /// first, exactly as `unmarshal` reads it.
    pub fn marshal(&self) -> (r: Result<Vec<u8>, TagReaderError>)
        requires
            self.frame_type < 16,
            self.codec_id < 16,
        ensures
            r matches Ok(v) && v@ == (if self.codec_id == 7 || self.codec_id == 12 {
                let c = (if self.composition_time >= 0 {
                    self.composition_time as int
                } else {
                    self.composition_time + 0x100000000
                });
                seq![
                    (self.frame_type * 16 + self.codec_id) as u8,
                    self.avc_packet_type,
                    ((c / 0x10000) % 0x100) as u8,
                    ((c / 0x100) % 0x100) as u8,
                    (c % 0x100) as u8,
                ]
            } else {
                seq![(self.frame_type * 16 + self.codec_id) as u8]
            }),
    {
        let mut out: Vec<u8> = Vec::new();
        let byte_1st = self.frame_type * 16 + self.codec_id;
        out.push(byte_1st);
        if self.codec_id == 7 || self.codec_id == 12 {
            out.push(self.avc_packet_type);
            let c: u32 = if self.composition_time >= 0 {
                self.composition_time as u32
            } else {
                ((self.composition_time as i64) + 0x100000000) as u32
            };
            out.push(((c / 0x10000) % 0x100) as u8);
            out.push(((c / 0x100) % 0x100) as u8);
            out.push((c % 0x100) as u8);
            proof {
                assert(out@ =~= seq![
                    byte_1st,
                    self.avc_packet_type,
                    (((c as int) / 0x10000) % 0x100) as u8,
                    (((c as int) / 0x100) % 0x100) as u8,
                    ((c as int) % 0x100) as u8,
                ]);
            }
        } else {
            proof {
                assert(out@ =~= seq![byte_1st]);
            }
        }
        Ok(out)
    }
}

} // verus!
