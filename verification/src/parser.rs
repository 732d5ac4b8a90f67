//! FLV container codec: the 9-byte file header, the 11-byte tag headers,
//! and the audio, video and script payload dispatch.
//!
//! Every parse function distinguishes a buffer that is merely too short
//! (`Incomplete`: feed more bytes and retry) from one that is malformed
//! (a typed error).  The spec functions return `Some` exactly on the
//! well-formed inputs, and the contracts name the error for each rejected
//! one.
use vstd::prelude::*;
use crate::amf::MAX_DEPTH;
use crate::amf::ValueView;
use crate::amf::Value;
use crate::amf::dec_value;
use crate::amf::value_view;
use crate::error::TagReaderError;
use crate::wire::be24;
use crate::wire::be32;
use crate::wire::sign_extend24;
use crate::wire::utf8_ok;

verus! {

/// The FLV file header: signature, version, stream flags, data offset.
#[derive(Debug, Clone, Copy, PartialEq, Eq, Structural)]
pub struct Header {
    pub version: u8,
    pub audio: bool,
    pub video: bool,
    pub offset: u32,
}

/// The file header at the start of the buffer: `FLV`, version one, a
/// flags byte and a 32-bit data offset.
pub open spec fn spec_header(s: Seq<u8>) -> Option<(Header, int)> {
    if s.len() >= 9 && s[0] == 0x46 && s[1] == 0x4c && s[2] == 0x56 && s[3] == 0x01 {
        Some(
            (
                Header {
                    version: s[3],
                    audio: ((s[4] as int) / 4) % 2 == 1,
                    video: (s[4] as int) % 2 == 1,
                    offset: be32(s, 5) as u32,
                },
                9,
            ),
        )
    } else {
        None
    }
}

/// Parses the FLV file header.  A buffer whose first bytes contradict the
/// `FLV` signature or whose version byte is not one is malformed however
/// short it is; a buffer that merely ends early is incomplete.
pub fn header(input: &[u8]) -> (r: Result<(Header, usize), TagReaderError>)
    ensures
        spec_header(input@) matches Some((h, n)) ==> r == Ok::<_, TagReaderError>((h, n as usize)),
        spec_header(input@) is None ==> r is Err,
        (input@.len() > 0 && input@[0] != 0x46) || (input@.len() > 1 && input@[1] != 0x4c) || (
        input@.len() > 2 && input@[2] != 0x56) || (input@.len() > 3 && input@[3] != 0x01)
            ==> r matches Err(TagReaderError::ParseFileHeaderError(_)),
        spec_header(input@) is None && !((input@.len() > 0 && input@[0] != 0x46) || (input@.len()
            > 1 && input@[1] != 0x4c) || (input@.len() > 2 && input@[2] != 0x56) || (input@.len()
            > 3 && input@[3] != 0x01)) ==> r == Err::<(Header, usize), _>(
            TagReaderError::Incomplete,
        ),
{
    if input.len() > 0 && input[0] != 0x46 {
        return Err(TagReaderError::ParseFileHeaderError(signature_note()));
    }
    if input.len() > 1 && input[1] != 0x4c {
        return Err(TagReaderError::ParseFileHeaderError(signature_note()));
    }
    if input.len() > 2 && input[2] != 0x56 {
        return Err(TagReaderError::ParseFileHeaderError(signature_note()));
    }
    if input.len() > 3 && input[3] != 0x01 {
        return Err(TagReaderError::ParseFileHeaderError(signature_note()));
    }
    if input.len() < 9 {
        return Err(TagReaderError::Incomplete);
    }
    let flags = input[4];
    Ok(
        (
            Header {
                version: input[3],
                audio: (flags / 4) % 2 == 1,
                video: flags % 2 == 1,
                offset: crate::wire::read_be_u32(input, 5),
            },
            9,
        ),
    )
}

/// The note carried by a malformed file header.
fn signature_note() -> String {
    "not a version-one FLV file header".to_string()
}

/// The kind of an FLV tag.
#[derive(Debug, Clone, Copy, PartialEq, Eq, Structural)]
pub enum TagType {
    Audio,
    Video,
    Script,
}

/// The tag kind for a type byte.
pub open spec fn tag_type_of(b: u8) -> Option<TagType> {
    if b == 8 {
        Some(TagType::Audio)
    } else if b == 9 {
        Some(TagType::Video)
    } else if b == 18 {
        Some(TagType::Script)
    } else {
        None
    }
}

/// The type byte of a tag kind.
pub open spec fn tag_type_byte(t: TagType) -> u8 {
    match t {
        TagType::Audio => 8,
        TagType::Video => 9,
        TagType::Script => 18,
    }
}

/// The 11-byte header of an FLV tag.  The timestamp combines the 24-bit
/// field with the extension byte as its high eight bits.
#[derive(Debug, Clone, Copy, PartialEq, Eq, Structural)]
pub struct TagHeader {
    pub tag_type: TagType,
    pub data_size: u32,
    pub timestamp: u32,
    pub stream_id: u32,
}

/// The tag header at the start of the buffer.
pub open spec fn spec_tag_header(s: Seq<u8>) -> Option<(TagHeader, int)> {
    if s.len() >= 11 && tag_type_of(s[0]) is Some {
        Some(
            (
                TagHeader {
                    tag_type: tag_type_of(s[0])->Some_0,
                    data_size: be24(s, 1) as u32,
                    timestamp: ((s[7] as int) * 0x1000000 + be24(s, 4)) as u32,
                    stream_id: be24(s, 8) as u32,
                },
                11,
            ),
        )
    } else {
        None
    }
}

/// Parses an 11-byte tag header: type byte, 24-bit payload size, 24-bit
/// timestamp plus extension byte, 24-bit stream id.
pub fn tag_header(input: &[u8]) -> (r: Result<(TagHeader, usize), TagReaderError>)
    ensures
        spec_tag_header(input@) matches Some((h, n)) ==> r == Ok::<_, TagReaderError>(
            (h, n as usize),
        ),
        input@.len() > 0 && tag_type_of(input@[0]) is None ==> r == Err::<(TagHeader, usize), _>(
            TagReaderError::UnknownTagType(input@[0]),
        ),
        (input@.len() == 0 || (tag_type_of(input@[0]) is Some && input@.len() < 11)) ==> r == Err::<
            (TagHeader, usize),
            _,
        >(TagReaderError::Incomplete),
{
    if input.len() == 0 {
        return Err(TagReaderError::Incomplete);
    }
    let b = input[0];
    let tag_type = if b == 8 {
        TagType::Audio
    } else if b == 9 {
        TagType::Video
    } else if b == 18 {
        TagType::Script
    } else {
        return Err(TagReaderError::UnknownTagType(b));
    };
    if input.len() < 11 {
        return Err(TagReaderError::Incomplete);
    }
    let data_size = crate::wire::read_be_u24(input, 1);
    let ts_low = crate::wire::read_be_u24(input, 4);
    let ts_ext = input[7];
    let stream_id = crate::wire::read_be_u24(input, 8);
    Ok(
        (
            TagHeader {
                tag_type,
                data_size,
                timestamp: (ts_ext as u32) * 0x1000000 + ts_low,
                stream_id,
            },
            11,
        ),
    )
}

/// Audio codec of an audio tag.
#[allow(non_camel_case_types)]
#[derive(Debug, Clone, Copy, PartialEq, Eq, Structural)]
pub enum SoundFormat {
    PCM_NE,
    ADPCM,
    MP3,
    PCM_LE,
    NELLYMOSER_16KHZ_MONO,
    NELLYMOSER_8KHZ_MONO,
    NELLYMOSER,
    PCM_ALAW,
    PCM_ULAW,
    AAC,
    SPEEX,
    MP3_8KHZ,
    DEVICE_SPECIFIC,
}

/// Sample rate of an audio tag.
#[allow(non_camel_case_types)]
#[derive(Debug, Clone, Copy, PartialEq, Eq, Structural)]
pub enum SoundRate {
    _5_5KHZ,
    _11KHZ,
    _22KHZ,
    _44KHZ,
}

/// Sample width of an audio tag.
#[derive(Debug, Clone, Copy, PartialEq, Eq, Structural)]
pub enum SoundSize {
    Snd8bit,
    Snd16bit,
}

/// Channel layout of an audio tag.
#[derive(Debug, Clone, Copy, PartialEq, Eq, Structural)]
pub enum SoundType {
    SndMono,
    SndStereo,
}

/// The audio codec for a four-bit code.
pub open spec fn sound_format_of(v: int) -> Option<SoundFormat> {
    if v == 0 {
        Some(SoundFormat::PCM_NE)
    } else if v == 1 {
        Some(SoundFormat::ADPCM)
    } else if v == 2 {
        Some(SoundFormat::MP3)
    } else if v == 3 {
        Some(SoundFormat::PCM_LE)
    } else if v == 4 {
        Some(SoundFormat::NELLYMOSER_16KHZ_MONO)
    } else if v == 5 {
        Some(SoundFormat::NELLYMOSER_8KHZ_MONO)
    } else if v == 6 {
        Some(SoundFormat::NELLYMOSER)
    } else if v == 7 {
        Some(SoundFormat::PCM_ALAW)
    } else if v == 8 {
        Some(SoundFormat::PCM_ULAW)
    } else if v == 10 {
        Some(SoundFormat::AAC)
    } else if v == 11 {
        Some(SoundFormat::SPEEX)
    } else if v == 14 {
        Some(SoundFormat::MP3_8KHZ)
    } else if v == 15 {
        Some(SoundFormat::DEVICE_SPECIFIC)
    } else {
        None
    }
}

/// The sample rate for a two-bit code.
pub open spec fn sound_rate_of(v: int) -> SoundRate {
    if v == 0 {
        SoundRate::_5_5KHZ
    } else if v == 1 {
        SoundRate::_11KHZ
    } else if v == 2 {
        SoundRate::_22KHZ
    } else {
        SoundRate::_44KHZ
    }
}

/// The sample width for a one-bit code.
pub open spec fn sound_size_of(v: int) -> SoundSize {
    if v == 0 {
        SoundSize::Snd8bit
    } else {
        SoundSize::Snd16bit
    }
}

/// The channel layout for a one-bit code.
pub open spec fn sound_type_of(v: int) -> SoundType {
    if v == 0 {
        SoundType::SndMono
    } else {
        SoundType::SndStereo
    }
}

/// Whether an AAC audio payload is a sequence header or raw frames.
#[derive(Debug, Clone, Copy, PartialEq, Eq, Structural)]
pub enum AACPacketType {
    SequenceHeader,
    Raw,
}

/// The AAC packet kind for its type byte.
pub open spec fn aac_packet_type_of(v: int) -> Option<AACPacketType> {
    if v == 0 {
        Some(AACPacketType::SequenceHeader)
    } else if v == 1 {
        Some(AACPacketType::Raw)
    } else {
        None
    }
}

/// The one-byte header of an AAC audio payload.
#[derive(Debug, Clone, PartialEq, Eq, Structural)]
pub struct AACAudioPacketHeader {
    pub packet_type: AACPacketType,
}

/// Parses the AAC packet-type byte.
pub fn aac_audio_packet_header(input: &[u8]) -> (r: Result<
    (AACAudioPacketHeader, usize),
    TagReaderError,
>)
    ensures
        input@.len() == 0 ==> r == Err::<(AACAudioPacketHeader, usize), _>(
            TagReaderError::Incomplete,
        ),
        input@.len() > 0 ==> match aac_packet_type_of(input@[0] as int) {
            Some(t) => r == Ok::<_, TagReaderError>((AACAudioPacketHeader { packet_type: t }, 1usize)),
            None => r == Err::<(AACAudioPacketHeader, usize), _>(
                TagReaderError::ParseError(0),
            ),
        },
{
    if input.len() == 0 {
        return Err(TagReaderError::Incomplete);
    }
    match input[0] {
        0 => Ok((AACAudioPacketHeader { packet_type: AACPacketType::SequenceHeader }, 1)),
        1 => Ok((AACAudioPacketHeader { packet_type: AACPacketType::Raw }, 1)),
        _ => Err(TagReaderError::ParseError(0)),
    }
}

/// An AAC audio payload: its packet kind and the codec bytes.
#[derive(Debug, Clone, PartialEq, Eq)]
pub struct AACAudioPacket {
    pub packet_type: AACPacketType,
    pub aac_data: Vec<u8>,
}

/// Parses an AAC audio payload of exactly `size` bytes.
pub fn aac_audio_packet(input: &[u8], size: usize) -> (r: Result<AACAudioPacket, TagReaderError>)
    ensures
        input@.len() < size || size < 1 ==> r == Err::<AACAudioPacket, _>(
            TagReaderError::Incomplete,
        ),
        input@.len() >= size >= 1 ==> match aac_packet_type_of(input@[0] as int) {
            Some(t) => r matches Ok(p) && p.packet_type == t && p.aac_data@ == input@.subrange(
                1,
                size as int,
            ),
            None => r == Err::<AACAudioPacket, _>(TagReaderError::ParseError(0)),
        },
{
    if input.len() < size || size < 1 {
        return Err(TagReaderError::Incomplete);
    }
    let packet_type = match input[0] {
        0 => AACPacketType::SequenceHeader,
        1 => AACPacketType::Raw,
        _ => {
            return Err(TagReaderError::ParseError(0));
        },
    };
    let mut aac_data: Vec<u8> = Vec::new();
    crate::wire::push_bytes(&mut aac_data, input, 1, size);
    Ok(AACAudioPacket { packet_type, aac_data })
}

/// An audio payload: the four header fields and the codec bytes.
#[derive(Debug, Clone, PartialEq, Eq)]
pub struct AudioData {
    pub sound_format: SoundFormat,
    pub sound_rate: SoundRate,
    pub sound_size: SoundSize,
    pub sound_type: SoundType,
    pub sound_data: Vec<u8>,
}

/// The shape of an audio payload.
#[verifier::ext_equal]
pub struct AudioDataView {
    pub sound_format: SoundFormat,
    pub sound_rate: SoundRate,
    pub sound_size: SoundSize,
    pub sound_type: SoundType,
    pub sound_data: Seq<u8>,
}

impl View for AudioData {
    type V = AudioDataView;

    open spec fn view(&self) -> AudioDataView {
        AudioDataView {
            sound_format: self.sound_format,
            sound_rate: self.sound_rate,
            sound_size: self.sound_size,
            sound_type: self.sound_type,
            sound_data: self.sound_data@,
        }
    }
}

/// The audio payload of `size` bytes at the start of the buffer.
pub open spec fn spec_audio_data(s: Seq<u8>, size: int) -> Option<AudioDataView> {
    if size >= 1 && s.len() >= size {
        match sound_format_of((s[0] as int) / 16) {
            None => None,
            Some(f) => Some(
                AudioDataView {
                    sound_format: f,
                    sound_rate: sound_rate_of(((s[0] as int) / 4) % 4),
                    sound_size: sound_size_of(((s[0] as int) / 2) % 2),
                    sound_type: sound_type_of((s[0] as int) % 2),
                    sound_data: s.subrange(1, size),
                },
            ),
        }
    } else {
        None
    }
}

/// Parses an audio payload of exactly `size` bytes: the flag byte, then
/// the codec bytes.
pub fn audio_data(input: &[u8], size: usize) -> (r: Result<AudioData, TagReaderError>)
    ensures
        input@.len() < size || size < 1 ==> r == Err::<AudioData, _>(TagReaderError::Incomplete),
        input@.len() >= size >= 1 ==> match spec_audio_data(input@, size as int) {
            Some(v) => r matches Ok(d) && d@ == v,
            None => r == Err::<AudioData, _>(TagReaderError::ParseError(0)),
        },
{
    if input.len() < size || size < 1 {
        return Err(TagReaderError::Incomplete);
    }
    let flags = input[0];
    let sound_format = match flags / 16 {
        0 => SoundFormat::PCM_NE,
        1 => SoundFormat::ADPCM,
        2 => SoundFormat::MP3,
        3 => SoundFormat::PCM_LE,
        4 => SoundFormat::NELLYMOSER_16KHZ_MONO,
        5 => SoundFormat::NELLYMOSER_8KHZ_MONO,
        6 => SoundFormat::NELLYMOSER,
        7 => SoundFormat::PCM_ALAW,
        8 => SoundFormat::PCM_ULAW,
        10 => SoundFormat::AAC,
        11 => SoundFormat::SPEEX,
        14 => SoundFormat::MP3_8KHZ,
        15 => SoundFormat::DEVICE_SPECIFIC,
        _ => {
            return Err(TagReaderError::ParseError(0));
        },
    };
    let sound_rate = match (flags / 4) % 4 {
        0 => SoundRate::_5_5KHZ,
        1 => SoundRate::_11KHZ,
        2 => SoundRate::_22KHZ,
        _ => SoundRate::_44KHZ,
    };
    let sound_size = if (flags / 2) % 2 == 0 {
        SoundSize::Snd8bit
    } else {
        SoundSize::Snd16bit
    };
    let sound_type = if flags % 2 == 0 {
        SoundType::SndMono
    } else {
        SoundType::SndStereo
    };
    let mut sound_data: Vec<u8> = Vec::new();
    crate::wire::push_bytes(&mut sound_data, input, 1, size);
    Ok(AudioData { sound_format, sound_rate, sound_size, sound_type, sound_data })
}

/// The four audio flag fields without the codec bytes.
#[derive(Debug, Clone, PartialEq, Eq, Structural)]
pub struct AudioDataHeader {
    pub sound_format: SoundFormat,
    pub sound_rate: SoundRate,
    pub sound_size: SoundSize,
    pub sound_type: SoundType,
}

/// Parses the one-byte audio flags.
pub fn audio_data_header(input: &[u8]) -> (r: Result<(AudioDataHeader, usize), TagReaderError>)
    ensures
        input@.len() == 0 ==> r == Err::<(AudioDataHeader, usize), _>(TagReaderError::Incomplete),
        input@.len() > 0 ==> match sound_format_of((input@[0] as int) / 16) {
            Some(f) => r == Ok::<_, TagReaderError>(
                (
                    AudioDataHeader {
                        sound_format: f,
                        sound_rate: sound_rate_of(((input@[0] as int) / 4) % 4),
                        sound_size: sound_size_of(((input@[0] as int) / 2) % 2),
                        sound_type: sound_type_of((input@[0] as int) % 2),
                    },
                    1usize,
                ),
            ),
            None => r == Err::<(AudioDataHeader, usize), _>(TagReaderError::ParseError(0)),
        },
{
    if input.len() == 0 {
        return Err(TagReaderError::Incomplete);
    }
    let flags = input[0];
    let sound_format = match flags / 16 {
        0 => SoundFormat::PCM_NE,
        1 => SoundFormat::ADPCM,
        2 => SoundFormat::MP3,
        3 => SoundFormat::PCM_LE,
        4 => SoundFormat::NELLYMOSER_16KHZ_MONO,
        5 => SoundFormat::NELLYMOSER_8KHZ_MONO,
        6 => SoundFormat::NELLYMOSER,
        7 => SoundFormat::PCM_ALAW,
        8 => SoundFormat::PCM_ULAW,
        10 => SoundFormat::AAC,
        11 => SoundFormat::SPEEX,
        14 => SoundFormat::MP3_8KHZ,
        15 => SoundFormat::DEVICE_SPECIFIC,
        _ => {
            return Err(TagReaderError::ParseError(0));
        },
    };
    let sound_rate = match (flags / 4) % 4 {
        0 => SoundRate::_5_5KHZ,
        1 => SoundRate::_11KHZ,
        2 => SoundRate::_22KHZ,
        _ => SoundRate::_44KHZ,
    };
    let sound_size = if (flags / 2) % 2 == 0 {
        SoundSize::Snd8bit
    } else {
        SoundSize::Snd16bit
    };
    let sound_type = if flags % 2 == 0 {
        SoundType::SndMono
    } else {
        SoundType::SndStereo
    };
    Ok((AudioDataHeader { sound_format, sound_rate, sound_size, sound_type }, 1))
}

/// Frame kind of a video tag.
#[derive(Debug, Clone, Copy, PartialEq, Eq, Structural)]
pub enum FrameType {
    Key,
    Inter,
    DisposableInter,
    Generated,
    Command,
}

/// Video codec of a video tag.
#[allow(non_camel_case_types)]
#[derive(Debug, Clone, Copy, PartialEq, Eq, Structural)]
pub enum CodecId {
    JPEG,
    SORENSON_H263,
    SCREEN,
    VP6,
    VP6A,
    SCREEN2,
    H264,
    H263,
    MPEG4Part2,
}

/// The frame kind for a four-bit code.
pub open spec fn frame_type_of(v: int) -> Option<FrameType> {
    if v == 1 {
        Some(FrameType::Key)
    } else if v == 2 {
        Some(FrameType::Inter)
    } else if v == 3 {
        Some(FrameType::DisposableInter)
    } else if v == 4 {
        Some(FrameType::Generated)
    } else if v == 5 {
        Some(FrameType::Command)
    } else {
        None
    }
}

/// The video codec for a four-bit code.
pub open spec fn codec_id_of(v: int) -> Option<CodecId> {
    if v == 1 {
        Some(CodecId::JPEG)
    } else if v == 2 {
        Some(CodecId::SORENSON_H263)
    } else if v == 3 {
        Some(CodecId::SCREEN)
    } else if v == 4 {
        Some(CodecId::VP6)
    } else if v == 5 {
        Some(CodecId::VP6A)
    } else if v == 6 {
        Some(CodecId::SCREEN2)
    } else if v == 7 {
        Some(CodecId::H264)
    } else if v == 8 {
        Some(CodecId::H263)
    } else if v == 9 {
        Some(CodecId::MPEG4Part2)
    } else {
        None
    }
}

/// Whether an AVC video payload is a sequence header, coded units, or an
/// end marker.
#[derive(Debug, Clone, Copy, PartialEq, Eq, Structural)]
pub enum AVCPacketType {
    SequenceHeader,
    NALU,
    EndOfSequence,
}

/// The AVC packet kind for its type byte.
pub open spec fn avc_packet_type_of(v: int) -> Option<AVCPacketType> {
    if v == 0 {
        Some(AVCPacketType::SequenceHeader)
    } else if v == 1 {
        Some(AVCPacketType::NALU)
    } else if v == 2 {
        Some(AVCPacketType::EndOfSequence)
    } else {
        None
    }
}

/// The AVC packet kind and the signed composition-time offset.
#[derive(Debug, Clone, PartialEq, Eq, Structural)]
pub struct AVCVideoPacketHeader {
    pub packet_type: AVCPacketType,
    pub composition_time: i32,
}

/// Parses the AVC packet-type byte and the 24-bit signed composition-time
/// offset.
pub fn avc_video_packet_header(input: &[u8]) -> (r: Result<
    (AVCVideoPacketHeader, usize),
    TagReaderError,
>)
    ensures
        input@.len() < 4 ==> r == Err::<(AVCVideoPacketHeader, usize), _>(
            TagReaderError::Incomplete,
        ),
        input@.len() >= 4 ==> match avc_packet_type_of(input@[0] as int) {
            Some(t) => r == Ok::<_, TagReaderError>(
                (
                    AVCVideoPacketHeader {
                        packet_type: t,
                        composition_time: sign_extend24(be24(input@, 1)) as i32,
                    },
                    4usize,
                ),
            ),
            None => r == Err::<(AVCVideoPacketHeader, usize), _>(TagReaderError::ParseError(0)),
        },
{
    if input.len() < 4 {
        return Err(TagReaderError::Incomplete);
    }
    let packet_type = match input[0] {
        0 => AVCPacketType::SequenceHeader,
        1 => AVCPacketType::NALU,
        2 => AVCPacketType::EndOfSequence,
        _ => {
            return Err(TagReaderError::ParseError(0));
        },
    };
    let raw = crate::wire::read_be_u24(input, 1);
    let composition_time: i32 = if raw >= 0x800000 {
        ((raw as i64) - 0x1000000) as i32
    } else {
        raw as i32
    };
    Ok((AVCVideoPacketHeader { packet_type, composition_time }, 4))
}

/// An AVC video payload: packet kind, composition time and the codec
/// bytes.
#[derive(Debug, Clone, PartialEq, Eq)]
pub struct AVCVideoPacket {
    pub packet_type: AVCPacketType,
    pub composition_time: i32,
    pub avc_data: Vec<u8>,
}

/// Parses an AVC video payload of exactly `size` bytes.
pub fn avc_video_packet(input: &[u8], size: usize) -> (r: Result<AVCVideoPacket, TagReaderError>)
    ensures
        input@.len() < size || size < 4 ==> r == Err::<AVCVideoPacket, _>(
            TagReaderError::Incomplete,
        ),
        input@.len() >= size >= 4 ==> match avc_packet_type_of(input@[0] as int) {
            Some(t) => r matches Ok(p) && p.packet_type == t && p.composition_time == sign_extend24(
                be24(input@, 1),
            ) && p.avc_data@ == input@.subrange(4, size as int),
            None => r == Err::<AVCVideoPacket, _>(TagReaderError::ParseError(0)),
        },
{
    if input.len() < size || size < 4 {
        return Err(TagReaderError::Incomplete);
    }
    let packet_type = match input[0] {
        0 => AVCPacketType::SequenceHeader,
        1 => AVCPacketType::NALU,
        2 => AVCPacketType::EndOfSequence,
        _ => {
            return Err(TagReaderError::ParseError(0));
        },
    };
    let raw = crate::wire::read_be_u24(input, 1);
    let composition_time: i32 = if raw >= 0x800000 {
        ((raw as i64) - 0x1000000) as i32
    } else {
        raw as i32
    };
    let mut avc_data: Vec<u8> = Vec::new();
    crate::wire::push_bytes(&mut avc_data, input, 4, size);
    Ok(AVCVideoPacket { packet_type, composition_time, avc_data })
}

/// A video payload: frame kind, codec, and the codec bytes.
#[derive(Debug, Clone, PartialEq, Eq)]
pub struct VideoData {
    pub frame_type: FrameType,
    pub codec_id: CodecId,
    pub video_data: Vec<u8>,
}

/// The shape of a video payload.
#[verifier::ext_equal]
pub struct VideoDataView {
    pub frame_type: FrameType,
    pub codec_id: CodecId,
    pub video_data: Seq<u8>,
}

impl View for VideoData {
    type V = VideoDataView;

    open spec fn view(&self) -> VideoDataView {
        VideoDataView {
            frame_type: self.frame_type,
            codec_id: self.codec_id,
            video_data: self.video_data@,
        }
    }
}

/// The video payload of `size` bytes at the start of the buffer.
pub open spec fn spec_video_data(s: Seq<u8>, size: int) -> Option<VideoDataView> {
    if size >= 1 && s.len() >= size {
        match (frame_type_of((s[0] as int) / 16), codec_id_of((s[0] as int) % 16)) {
            (Some(f), Some(c)) => Some(
                VideoDataView { frame_type: f, codec_id: c, video_data: s.subrange(1, size) },
            ),
            _ => None,
        }
    } else {
        None
    }
}

/// Parses a video payload of exactly `size` bytes: the flag byte, then
/// the codec bytes.
pub fn video_data(input: &[u8], size: usize) -> (r: Result<VideoData, TagReaderError>)
    ensures
        input@.len() < size || size < 1 ==> r == Err::<VideoData, _>(TagReaderError::Incomplete),
        input@.len() >= size >= 1 ==> match spec_video_data(input@, size as int) {
            Some(v) => r matches Ok(d) && d@ == v,
            None => r == Err::<VideoData, _>(TagReaderError::ParseError(0)),
        },
{
    if input.len() < size || size < 1 {
        return Err(TagReaderError::Incomplete);
    }
    let flags = input[0];
    let frame_type = match flags / 16 {
        1 => FrameType::Key,
        2 => FrameType::Inter,
        3 => FrameType::DisposableInter,
        4 => FrameType::Generated,
        5 => FrameType::Command,
        _ => {
            return Err(TagReaderError::ParseError(0));
        },
    };
    let codec_id = match flags % 16 {
        1 => CodecId::JPEG,
        2 => CodecId::SORENSON_H263,
        3 => CodecId::SCREEN,
        4 => CodecId::VP6,
        5 => CodecId::VP6A,
        6 => CodecId::SCREEN2,
        7 => CodecId::H264,
        8 => CodecId::H263,
        9 => CodecId::MPEG4Part2,
        _ => {
            return Err(TagReaderError::ParseError(0));
        },
    };
    let mut video_data: Vec<u8> = Vec::new();
    crate::wire::push_bytes(&mut video_data, input, 1, size);
    Ok(VideoData { frame_type, codec_id, video_data })
}

/// The frame kind and codec without the codec bytes.
#[derive(Debug, Clone, PartialEq, Eq, Structural)]
pub struct VideoDataHeader {
    pub frame_type: FrameType,
    pub codec_id: CodecId,
}

/// Parses the one-byte video flags.
pub fn video_data_header(input: &[u8]) -> (r: Result<(VideoDataHeader, usize), TagReaderError>)
    ensures
        input@.len() == 0 ==> r == Err::<(VideoDataHeader, usize), _>(TagReaderError::Incomplete),
        input@.len() > 0 ==> match (
            frame_type_of((input@[0] as int) / 16),
            codec_id_of((input@[0] as int) % 16),
        ) {
            (Some(f), Some(c)) => r == Ok::<_, TagReaderError>(
                (VideoDataHeader { frame_type: f, codec_id: c }, 1usize),
            ),
            _ => r == Err::<(VideoDataHeader, usize), _>(TagReaderError::ParseError(0)),
        },
{
    if input.len() == 0 {
        return Err(TagReaderError::Incomplete);
    }
    let flags = input[0];
    let frame_type = match flags / 16 {
        1 => FrameType::Key,
        2 => FrameType::Inter,
        3 => FrameType::DisposableInter,
        4 => FrameType::Generated,
        5 => FrameType::Command,
        _ => {
            return Err(TagReaderError::ParseError(0));
        },
    };
    let codec_id = match flags % 16 {
        1 => CodecId::JPEG,
        2 => CodecId::SORENSON_H263,
        3 => CodecId::SCREEN,
        4 => CodecId::VP6,
        5 => CodecId::VP6A,
        6 => CodecId::SCREEN2,
        7 => CodecId::H264,
        8 => CodecId::H263,
        9 => CodecId::MPEG4Part2,
        _ => {
            return Err(TagReaderError::ParseError(0));
        },
    };
    Ok((VideoDataHeader { frame_type, codec_id }, 1))
}

/// The parsed payload of a tag.  Script payloads are kept as raw bytes in
/// the tag and decoded on demand by `script_data`.
#[derive(Debug, Clone, PartialEq, Eq)]
pub enum TagData {
    Audio(AudioData),
    Video(VideoData),
    Script,
}

/// The shape of a parsed payload.
#[verifier::ext_equal]
pub enum TagDataView {
    Audio(AudioDataView),
    Video(VideoDataView),
    Script,
}

impl View for TagData {
    type V = TagDataView;

    open spec fn view(&self) -> TagDataView {
        match self {
            TagData::Audio(a) => TagDataView::Audio(a@),
            TagData::Video(v) => TagDataView::Video(v@),
            TagData::Script => TagDataView::Script,
        }
    }
}

/// The parsed payload of `size` bytes for a tag kind.
pub open spec fn spec_tag_data(t: TagType, s: Seq<u8>, size: int) -> Option<TagDataView> {
    match t {
        TagType::Audio => match spec_audio_data(s, size) {
            Some(a) => Some(TagDataView::Audio(a)),
            None => None,
        },
        TagType::Video => match spec_video_data(s, size) {
            Some(v) => Some(TagDataView::Video(v)),
            None => None,
        },
        TagType::Script => Some(TagDataView::Script),
    }
}

/// Parses the payload of `size` bytes for a tag kind.
pub fn tag_data(tag_type: TagType, size: usize, input: &[u8]) -> (r: Result<
    TagData,
    TagReaderError,
>)
    ensures
        tag_type != TagType::Script && (input@.len() < size || size < 1) ==> r == Err::<
            TagData,
            _,
        >(TagReaderError::Incomplete),
        tag_type == TagType::Script || (input@.len() >= size >= 1) ==> match spec_tag_data(
            tag_type,
            input@,
            size as int,
        ) {
            Some(v) => r matches Ok(d) && d@ == v,
            None => r == Err::<TagData, _>(TagReaderError::ParseError(0)),
        },
{
    match tag_type {
        TagType::Video => match video_data(input, size) {
            Ok(v) => Ok(TagData::Video(v)),
            Err(e) => Err(e),
        },
        TagType::Audio => match audio_data(input, size) {
            Ok(a) => Ok(TagData::Audio(a)),
            Err(e) => Err(e),
        },
        TagType::Script => Ok(TagData::Script),
    }
}

/// One FLV tag: its header, its raw payload bytes, and the parsed payload.
#[derive(Debug, Clone, PartialEq, Eq)]
pub struct Tag {
    pub header: TagHeader,
    pub data: TagData,
    pub payload: Vec<u8>,
}

/// The shape of a tag.
#[verifier::ext_equal]
pub struct TagView {
    pub header: TagHeader,
    pub data: TagDataView,
    pub payload: Seq<u8>,
}

impl View for Tag {
    type V = TagView;

    open spec fn view(&self) -> TagView {
        TagView { header: self.header, data: self.data@, payload: self.payload@ }
    }
}

/// The complete tag at the start of the buffer: header, payload bytes and
/// parsed payload.
pub open spec fn spec_complete_tag(s: Seq<u8>) -> Option<(TagView, int)> {
    match spec_tag_header(s) {
        None => None,
        Some((h, _)) => {
            let size = h.data_size as int;
            if s.len() < 11 + size {
                None
            } else {
                let payload = s.subrange(11, 11 + size);
                match spec_tag_data(h.tag_type, payload, size) {
                    None => None,
                    Some(d) => Some(
                        (TagView { header: h, data: d, payload }, 11 + size),
                    ),
                }
            }
        },
    }
}

/// Parses one complete tag: the 11-byte header and exactly `data_size`
/// payload bytes.  The trailing previous-tag-size field is not consumed.
pub fn complete_tag(input: &[u8]) -> (r: Result<(Tag, usize), TagReaderError>)
    ensures
        spec_complete_tag(input@) matches Some((t, n)) ==> (r matches Ok(p) && p.0@ == t && p.1
            == n),
        input@.len() > 0 && tag_type_of(input@[0]) is None ==> r == Err::<(Tag, usize), _>(
            TagReaderError::UnknownTagType(input@[0]),
        ),
        spec_complete_tag(input@) is None && (input@.len() == 0 || tag_type_of(input@[0]) is Some)
            ==> r is Err && (r matches Err(e) ==> e == TagReaderError::Incomplete || e
            == TagReaderError::ParseError(0)),
        spec_tag_header(input@) matches Some((h, _)) && input@.len() >= 11 + h.data_size
            && spec_tag_data(h.tag_type, input@.subrange(11, 11 + h.data_size as int), h.data_size as int) is None
            ==> r == Err::<(Tag, usize), _>(TagReaderError::ParseError(0)),
        (input@.len() == 0 || (tag_type_of(input@[0]) is Some && input@.len() < 11)) ==> r == Err::<
            (Tag, usize),
            _,
        >(TagReaderError::Incomplete),
        spec_tag_header(input@) matches Some((h, _)) && input@.len() < 11 + h.data_size ==> r
            == Err::<(Tag, usize), _>(TagReaderError::Incomplete),
{
    let (h, consumed) = match tag_header(input) {
        Ok(p) => p,
        Err(e) => {
            return Err(e);
        },
    };
    let size = h.data_size as usize;
    if input.len() - 11 < size {
        return Err(TagReaderError::Incomplete);
    }
    let mut payload: Vec<u8> = Vec::new();
    crate::wire::push_bytes(&mut payload, input, 11, 11 + size);
    let data = if size == 0 {
        match h.tag_type {
            TagType::Script => TagData::Script,
            _ => {
                return Err(TagReaderError::ParseError(0));
            },
        }
    } else {
        match tag_data(h.tag_type, size, payload.as_slice()) {
            Ok(d) => d,
            Err(e) => {
                return Err(e);
            },
        }
    };
    proof {
        assert(payload@ =~= input@.subrange(11, 11 + h.data_size));
    }
    Ok((Tag { header: h, data, payload }, 11 + size))
}

/// A structural copy of a tag.
pub fn clone_tag(t: &Tag) -> (r: Tag)
    ensures
        r@ == t@,
{
    let data = match &t.data {
        TagData::Audio(a) => TagData::Audio(
            AudioData {
                sound_format: a.sound_format,
                sound_rate: a.sound_rate,
                sound_size: a.sound_size,
                sound_type: a.sound_type,
                sound_data: crate::wire::copy_bytes(a.sound_data.as_slice()),
            },
        ),
        TagData::Video(v) => TagData::Video(
            VideoData {
                frame_type: v.frame_type,
                codec_id: v.codec_id,
                video_data: crate::wire::copy_bytes(v.video_data.as_slice()),
            },
        ),
        TagData::Script => TagData::Script,
    };
    Tag { header: t.header, data, payload: crate::wire::copy_bytes(t.payload.as_slice()) }
}

/// A script payload: the event name and its AMF0 value.
#[derive(Debug, PartialEq, Eq)]
pub struct ScriptData {
    pub name: Vec<u8>,
    pub arguments: Value,
}

/// The script pair at the start of the buffer: a string-marker name and
/// one AMF0 value, decoded with a fresh reference table.
pub open spec fn spec_script_data(s: Seq<u8>) -> Option<(Seq<u8>, ValueView, int)> {
    if s.len() < 3 || s[0] != 2 {
        None
    } else {
        let n = crate::wire::be16(s, 1);
        if 3 + n > s.len() || !utf8_ok(s.subrange(3, 3 + n)) {
            None
        } else {
            match dec_value(s, 3 + n, Seq::empty(), MAX_DEPTH as int) {
                Ok((v, p, _)) => Some((s.subrange(3, 3 + n), v, p)),
                Err(_) => None,
            }
        }
    }
}

/// Parses a script payload: the name must be a string-marker string, then
/// one AMF0 value follows.  A truncated buffer is incomplete; any other
/// fault of the value is a script parse error.
pub fn script_data(input: &[u8]) -> (r: Result<(ScriptData, usize), TagReaderError>)
    ensures
        spec_script_data(input@) matches Some((name, v, p)) ==> (r matches Ok(sd) && sd.0.name@
            == name && value_view(sd.0.arguments) == v && sd.1 == p),
        spec_script_data(input@) is None ==> r is Err,
        input@.len() == 0 ==> r == Err::<(ScriptData, usize), _>(TagReaderError::Incomplete),
        input@.len() > 0 && input@[0] != 2 ==> r matches Err(TagReaderError::AmfParseError(_)),
{
    if input.len() == 0 {
        return Err(TagReaderError::Incomplete);
    }
    if input[0] != 2 {
        return Err(TagReaderError::AmfParseError(script_name_note()));
    }
    if input.len() < 3 {
        return Err(TagReaderError::Incomplete);
    }
    let n = crate::wire::read_be_u16(input, 1) as usize;
    if input.len() - 3 < n {
        return Err(TagReaderError::Incomplete);
    }
    let mut name: Vec<u8> = Vec::new();
    crate::wire::push_bytes(&mut name, input, 3, 3 + n);
    if !crate::wire::check_utf8(name.as_slice()) {
        return Err(TagReaderError::AmfParseError(script_name_note()));
    }
    let mut dec = crate::amf::Decoder::new(crate::wire::copy_bytes(input));
    dec.set_position(3 + n);
    let arguments = match dec.decode() {
        Ok(v) => v,
        Err(crate::error::Amf0ReadError::Io) => {
            return Err(TagReaderError::Incomplete);
        },
        Err(_) => {
            return Err(TagReaderError::AmfParseError(script_name_note()));
        },
    };
    let consumed = dec.position();
    Ok((ScriptData { name, arguments }, consumed))
}

/// The note carried by a malformed script payload.
fn script_name_note() -> String {
    "script data does not start with a string name".to_string()
}

} // verus!
