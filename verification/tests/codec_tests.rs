use flv::add;
use flv::error::TagReaderError;
use flv::parser::AACPacketType;
use flv::parser::CodecId;
use flv::parser::FrameType;
use flv::parser::SoundFormat;
use flv::parser::Tag;
use flv::parser::TagData;
use flv::parser::TagHeader;
use flv::parser::TagType;
use flv::parser::VideoData;
use flv::parser::aac_audio_packet_header;
use flv::parser::audio_data_header;
use flv::parser::complete_tag;
use flv::parser::header;
use flv::parser::tag_header;
use flv::parser::video_data_header;
use flv::reader::FlvTagPipeReader;
use flv::writer::FlvWriterMuxer;

#[test]
fn it_works() {
    let result = add(2, 2);
    assert_eq!(result, 4);
}

fn video_tag(frame_type_code: u8, timestamp: u32, extra: &[u8]) -> Tag {
    let mut payload = vec![frame_type_code * 16 + 7, 0x01, 0x00, 0x00, 0x00];
    payload.extend_from_slice(extra);
    let (tag, n) = complete_tag(&full_tag_bytes(9, timestamp, &payload)).unwrap();
    assert_eq!(n, 11 + payload.len());
    tag
}

fn full_tag_bytes(tag_type: u8, timestamp: u32, payload: &[u8]) -> Vec<u8> {
    let mut m = FlvWriterMuxer::new(Vec::new());
    m.write_flv_header(tag_type, payload.len() as u32, timestamp);
    m.write_flv_tag_body(payload);
    m.write_previous_tag_size(11 + payload.len() as u32);
    m.writer
}

#[test]
fn file_header_parses() {
    let bytes = [0x46, 0x4c, 0x56, 0x01, 0x05, 0x00, 0x00, 0x00, 0x09];
    let (h, n) = header(&bytes).unwrap();
    assert_eq!(n, 9);
    assert_eq!(h.version, 1);
    assert!(h.audio);
    assert!(h.video);
    assert_eq!(h.offset, 9);
}

#[test]
fn file_header_bad_signature_is_fatal_not_incomplete() {
    // Nine bytes that do not start with FLV: a format fault, never a
    // request for more input.
    let bytes = [0x58, 0x4c, 0x56, 0x01, 0x05, 0x00, 0x00, 0x00, 0x09];
    match header(&bytes) {
        Err(TagReaderError::ParseFileHeaderError(_)) => {},
        other => panic!("expected file header fault, got {:?}", other),
    }
}

#[test]
fn file_header_wrong_version_is_fatal() {
    let bytes = [0x46, 0x4c, 0x56, 0x02, 0x05, 0x00, 0x00, 0x00, 0x09];
    match header(&bytes) {
        Err(TagReaderError::ParseFileHeaderError(_)) => {},
        other => panic!("expected file header fault, got {:?}", other),
    }
}

#[test]
fn file_header_short_is_incomplete() {
    let bytes = [0x46, 0x4c];
    assert_eq!(header(&bytes), Err(TagReaderError::Incomplete));
}

#[test]
fn tag_header_fields() {
    let bytes = [9u8, 0x00, 0x00, 0x05, 0x00, 0x00, 0x01, 0x02, 0x00, 0x00, 0x00];
    let (h, n) = tag_header(&bytes).unwrap();
    assert_eq!(n, 11);
    assert_eq!(h.tag_type, TagType::Video);
    assert_eq!(h.data_size, 5);
    assert_eq!(h.timestamp, 0x02000001);
    assert_eq!(h.stream_id, 0);
}

#[test]
fn tag_header_unknown_type() {
    let bytes = [7u8, 0, 0, 0, 0, 0, 0, 0, 0, 0, 0];
    assert_eq!(tag_header(&bytes), Err(TagReaderError::UnknownTagType(7)));
}

#[test]
fn audio_flags_decode() {
    let (h, _) = audio_data_header(&[0xAF]).unwrap();
    assert_eq!(h.sound_format, SoundFormat::AAC);
    let bad = audio_data_header(&[0x9F]);
    assert_eq!(bad, Err(TagReaderError::ParseError(0)));
}

#[test]
fn video_flags_decode() {
    let (h, _) = video_data_header(&[0x17]).unwrap();
    assert_eq!(h.frame_type, FrameType::Key);
    assert_eq!(h.codec_id, CodecId::H264);
    let bad = video_data_header(&[0x07]);
    assert_eq!(bad, Err(TagReaderError::ParseError(0)));
}

#[test]
fn aac_packet_header_decode() {
    let (h, _) = aac_audio_packet_header(&[0x00]).unwrap();
    assert_eq!(h.packet_type, AACPacketType::SequenceHeader);
    let (h, _) = aac_audio_packet_header(&[0x01]).unwrap();
    assert_eq!(h.packet_type, AACPacketType::Raw);
    assert_eq!(aac_audio_packet_header(&[0x02]), Err(TagReaderError::ParseError(0)));
}

#[test]
fn tag_write_read_write_is_byte_identical() {
    // Round trip: serializing a tag, parsing the bytes and serializing
    // the parsed tag reproduces the bytes exactly.
    let payload = vec![0x17, 0x01, 0x00, 0x00, 0x00, 0xAA, 0xBB];
    let bytes = full_tag_bytes(9, 0x01020304, &payload);
    let (tag, consumed) = complete_tag(&bytes).unwrap();
    assert_eq!(consumed + 4, bytes.len());
    assert_eq!(tag.payload, payload);
    match &tag.data {
        TagData::Video(VideoData { frame_type, codec_id, video_data }) => {
            assert_eq!(*frame_type, FrameType::Key);
            assert_eq!(*codec_id, CodecId::H264);
            assert_eq!(video_data.as_slice(), &payload[1..]);
        },
        other => panic!("expected video payload, got {:?}", other),
    }
    let mut m = FlvWriterMuxer::new(Vec::new());
    m.write_tag(&tag);
    assert_eq!(m.writer, bytes);
}

#[test]
fn reader_rejects_bad_signature() {
    let mut r = FlvTagPipeReader::new();
    r.feed(&[0x58, 0x4c, 0x56, 0x01, 0x05, 0x00, 0x00, 0x00, 0x09]);
    match r.read_next_tag() {
        Err(TagReaderError::ParseFileHeaderError(_)) => {},
        other => panic!("expected file header fault, got {:?}", other),
    }
}

#[test]
fn reader_rejects_wrong_version() {
    let mut r = FlvTagPipeReader::new();
    r.feed(&[0x46, 0x4c, 0x56, 0x02, 0x05, 0x00, 0x00, 0x00, 0x09]);
    match r.read_next_tag() {
        Err(TagReaderError::ParseFileHeaderError(_)) => {},
        other => panic!("expected file header fault, got {:?}", other),
    }
}

#[test]
fn reader_byte_by_byte_yields_incomplete_then_one_tag() {
    // A complete stream: file header, zero previous-tag-size, one audio
    // tag.  Fed one byte at a time, every prefix asks for more input;
    // the final byte yields exactly the tag, with nothing left over.
    let payload = vec![0x2F, 0x10, 0x20];
    let mut stream = vec![0x46, 0x4c, 0x56, 0x01, 0x05, 0x00, 0x00, 0x00, 0x09];
    stream.extend_from_slice(&[0, 0, 0, 0]);
    stream.extend_from_slice(&full_tag_bytes(8, 42, &payload));
    let mut r = FlvTagPipeReader::new();
    for (i, b) in stream.iter().enumerate() {
        if i + 1 < stream.len() {
            r.feed(&[*b]);
            assert_eq!(
                r.read_next_tag().err(),
                Some(TagReaderError::Incomplete),
                "prefix of {} bytes should be incomplete",
                i + 1
            );
            assert_eq!(r.buffered_len(), i + 1);
        } else {
            r.feed(&[*b]);
            let tag = r.read_next_tag().unwrap();
            assert_eq!(tag.header.tag_type, TagType::Audio);
            assert_eq!(tag.header.timestamp, 42);
            assert_eq!(tag.payload, payload);
            assert_eq!(r.buffered_len(), 0);
        }
    }
}

#[test]
fn reader_rejects_wrong_previous_tag_size() {
    let payload = vec![0x2F, 0x10];
    let mut stream = vec![0x46, 0x4c, 0x56, 0x01, 0x05, 0x00, 0x00, 0x00, 0x09];
    stream.extend_from_slice(&[0, 0, 0, 0]);
    let mut tag = full_tag_bytes(8, 0, &payload);
    let n = tag.len();
    tag[n - 1] = 0xEE;
    stream.extend_from_slice(&tag);
    let mut r = FlvTagPipeReader::new();
    r.feed(&stream);
    assert_eq!(r.read_next_tag(), Err(TagReaderError::ParseError(13)));
}

#[test]
fn reader_reads_two_tags_in_sequence() {
    let mut stream = vec![0x46, 0x4c, 0x56, 0x01, 0x05, 0x00, 0x00, 0x00, 0x09];
    stream.extend_from_slice(&[0, 0, 0, 0]);
    stream.extend_from_slice(&full_tag_bytes(8, 1, &[0x2F, 0x10]));
    stream.extend_from_slice(&full_tag_bytes(9, 2, &[0x17, 0x01, 0, 0, 0]));
    let mut r = FlvTagPipeReader::new();
    r.feed(&stream);
    let t1 = r.read_next_tag().unwrap();
    assert_eq!(t1.header.timestamp, 1);
    let t2 = r.read_next_tag().unwrap();
    assert_eq!(t2.header.timestamp, 2);
    assert_eq!(t2.header.tag_type, TagType::Video);
    assert_eq!(r.read_next_tag(), Err(TagReaderError::Incomplete));
    assert_eq!(r.buffered_len(), 0);
}

#[test]
fn reader_decodes_script_tag_and_rejects_bad_amf() {
    // A script payload must be an AMF0 name and value.
    let good = [0x02, 0x00, 0x03, b'c', b'u', b'e', 0x05];
    let mut stream = vec![0x46, 0x4c, 0x56, 0x01, 0x05, 0x00, 0x00, 0x00, 0x09, 0, 0, 0, 0];
    stream.extend_from_slice(&full_tag_bytes(18, 5, &good));
    let mut r = FlvTagPipeReader::new();
    r.feed(&stream);
    let tag = r.read_next_tag().unwrap();
    assert_eq!(tag.header.tag_type, TagType::Script);
    let bad = [0x09, 0x00];
    let mut stream2 = vec![0x46, 0x4c, 0x56, 0x01, 0x05, 0x00, 0x00, 0x00, 0x09, 0, 0, 0, 0];
    stream2.extend_from_slice(&full_tag_bytes(18, 5, &bad));
    let mut r2 = FlvTagPipeReader::new();
    r2.feed(&stream2);
    match r2.read_next_tag() {
        Err(TagReaderError::AmfParseError(_)) => {},
        other => panic!("expected a script parse fault, got {:?}", other),
    }
}

#[test]
fn muxer_writes_exact_header_bytes() {
    let mut m = FlvWriterMuxer::new(Vec::new());
    m.write_flv_header(9, 5, 0x01000002);
    assert_eq!(m.writer, vec![9, 0, 0, 5, 0, 0, 2, 1, 0, 0, 0]);
    let mut m2 = FlvWriterMuxer::new(Vec::new());
    m2.write_u24(0x123456);
    m2.write_previous_tag_size(15);
    assert_eq!(m2.writer, vec![0x12, 0x34, 0x56, 0, 0, 0, 15]);
    let mut m3 = FlvWriterMuxer::new(Vec::new());
    m3.write_flv_file_header();
    assert_eq!(m3.writer, vec![0x46, 0x4c, 0x56, 0x01, 0x05, 0x00, 0x00, 0x00, 0x09]);
}

#[test]
fn video_tag_helper_builds_keyframe() {
    let t = video_tag(1, 7, &[0xAB]);
    assert_eq!(t.header.tag_type, TagType::Video);
    assert_eq!(t.header.timestamp, 7);
    match &t.data {
        TagData::Video(v) => assert_eq!(v.frame_type, FrameType::Key),
        other => panic!("expected video payload, got {:?}", other),
    }
    let th = TagHeader { tag_type: TagType::Video, data_size: 6, timestamp: 7, stream_id: 0 };
    assert_eq!(t.header, th);
}
