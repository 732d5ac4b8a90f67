use flv::amf::Value;
use flv::error::Amf0ReadError;
use flv::error::TagReaderError;
use flv::live::LiveStatus;
use flv::live::QualityNumber;
use flv::live::RoomInfo;
use flv::parser::script_data;
use flv::pipeline::CommentType;
use flv::pipeline::ProcessingComment;
use flv::pipeline::State;
use flv::script_values::ScriptDataBoolean;
use flv::script_values::ScriptDataEcmaArray;
use flv::script_values::ScriptDataLongString;
use flv::script_values::ScriptDataNumber;
use flv::script_values::ScriptDataReference;
use flv::script_values::ScriptDataString;
use flv::script_values::ScriptDataType;
use flv::script_values::ScriptDataValue;
use flv::script_values::ScriptTagBody;
use flv::script_values::read_long_string;
use flv::script_values::read_script_data_string;
use flv::tag::AudioTagHeader;
use flv::tag::AvcCodecId;
use flv::tag::SoundFormat;
use flv::tag::VideoTagHeader;

#[test]
fn script_payload_decodes_name_and_value() {
    // "onMetaData" followed by an ECMA array of one number.
    let mut payload = vec![0x02, 0x00, 0x0A];
    payload.extend_from_slice(b"onMetaData");
    payload.extend_from_slice(&[0x08, 0x00, 0x00, 0x00, 0x01]);
    payload.extend_from_slice(&[0x00, 0x05]);
    payload.extend_from_slice(b"width");
    payload.extend_from_slice(&[0x00, 0x40, 0x9E, 0x00, 0x00, 0x00, 0x00, 0x00, 0x00]);
    payload.extend_from_slice(&[0x00, 0x00, 0x09]);
    let (sd, consumed) = script_data(&payload).unwrap();
    assert_eq!(consumed, payload.len());
    assert_eq!(sd.name, b"onMetaData".to_vec());
    match sd.arguments {
        Value::EcmaArray { entries } => {
            assert_eq!(entries.len(), 1);
            assert_eq!(entries[0].0, b"width".to_vec());
            assert_eq!(entries[0].1, Value::Number(0x409E000000000000));
        },
        other => panic!("expected an ECMA array, got {:?}", other),
    }
}

#[test]
fn script_payload_without_string_name_rejected() {
    match script_data(&[0x08, 0x00]) {
        Err(TagReaderError::AmfParseError(_)) => {},
        other => panic!("expected a script parse fault, got {:?}", other),
    }
    assert_eq!(script_data(&[]).err(), Some(TagReaderError::Incomplete));
}

#[test]
fn script_values_parse_flat_sequence() {
    let mut bytes = vec![0x00];
    bytes.extend_from_slice(&0x4045000000000000u64.to_be_bytes());
    bytes.extend_from_slice(&[0x01, 0x01]);
    let body = ScriptTagBody::parse(&bytes);
    assert_eq!(body.values.len(), 2);
    assert_eq!(
        body.values[0],
        ScriptDataValue::Number(ScriptDataNumber::new(0x4045000000000000))
    );
    assert_eq!(body.values[1], ScriptDataValue::Boolean(ScriptDataBoolean::new(true)));
}

#[test]
fn script_values_strings_strip_nul_bytes() {
    let bytes = vec![0x02, 0x00, 0x03, b'a', 0x00, b'b'];
    let (v, p) = ScriptTagBody::parse_value(&bytes, 0).unwrap();
    assert_eq!(p, 6);
    assert_eq!(v, ScriptDataValue::String(ScriptDataString::new(b"ab".to_vec())));
    let (s, p2) = read_script_data_string(&bytes, 1, false).unwrap();
    assert_eq!(p2, 6);
    assert_eq!(s, b"ab".to_vec());
}

#[test]
fn script_values_long_string_reads() {
    let mut bytes = vec![0x0C, 0x00, 0x00, 0x00, 0x02];
    bytes.extend_from_slice(b"hi");
    let (v, p) = ScriptTagBody::parse_value(&bytes, 0).unwrap();
    assert_eq!(p, 7);
    assert_eq!(
        v,
        ScriptDataValue::LongString(ScriptDataLongString::new(b"hi".to_vec()))
    );
    let (s, _) = read_long_string(&bytes, 1).unwrap();
    assert_eq!(s, b"hi".to_vec());
}

#[test]
fn script_values_strict_array_recurses() {
    let bytes = vec![
        0x0A, 0x00, 0x00, 0x00, 0x02, // two elements
        0x01, 0x00, // false
        0x07, 0x00, 0x03, // reference 3
    ];
    let (v, p) = ScriptTagBody::parse_value(&bytes, 0).unwrap();
    assert_eq!(p, bytes.len());
    match v {
        ScriptDataValue::StrictArray(a) => {
            assert_eq!(a.value.len(), 2);
            assert_eq!(a.value[0], ScriptDataValue::Boolean(ScriptDataBoolean::new(false)));
            assert_eq!(
                a.value[1],
                ScriptDataValue::Reference(ScriptDataReference::new(3))
            );
        },
        other => panic!("expected a strict array, got {:?}", other),
    }
}

#[test]
fn script_values_stop_at_first_fault() {
    let mut bytes = vec![0x01, 0x01];
    bytes.push(0x03);  // nested objects stay with the general decoder
    let body = ScriptTagBody::parse(&bytes);
    assert_eq!(body.values.len(), 1);
    assert_eq!(
        ScriptTagBody::parse_value(&bytes, 2).err(),
        Some(Amf0ReadError::UnknownMarker(3))
    );
}

#[test]
fn script_body_metadata_accessor() {
    let name = ScriptDataValue::String(ScriptDataString::new(b"onMetaData".to_vec()));
    let mut map = ScriptDataEcmaArray::new();
    map.value.push((
        b"duration".to_vec(),
        ScriptDataValue::Number(ScriptDataNumber::new(7)),
    ));
    let body = ScriptTagBody::new(vec![name, ScriptDataValue::EcmaArray(map)]);
    let meta = body.get_metadata_value().expect("second value is an ECMA array");
    assert_eq!(meta.value.len(), 1);
    assert_eq!(meta.value[0].0, b"duration".to_vec());
    let flat = ScriptTagBody::new(vec![ScriptDataValue::Boolean(ScriptDataBoolean::new(true))]);
    assert!(flat.get_metadata_value().is_none());
}

#[test]
fn script_data_type_codes() {
    assert_eq!(ScriptDataType::Number.code(), 0);
    assert_eq!(ScriptDataType::ObjectEndMarker.code(), 9);
    assert_eq!(ScriptDataType::LongString.code(), 12);
}

#[test]
fn audio_tag_header_round_trip() {
    let bytes = [0xAF, 0x01, 0xDE];
    let (h, n) = AudioTagHeader::unmarshal(&bytes).unwrap();
    assert_eq!(n, 2);
    assert_eq!(h.sound_format, 10);
    assert_eq!(h.sound_rate, 3);
    assert_eq!(h.sound_size, 1);
    assert_eq!(h.sound_type, 1);
    assert_eq!(h.aac_packet_type, 1);
    assert_eq!(h.marshal().unwrap(), vec![0xAF, 0x01]);
    let (h2, n2) = AudioTagHeader::unmarshal(&[0x2E]).unwrap();
    assert_eq!(n2, 1);
    assert_eq!(h2.sound_format, 2);
    assert_eq!(h2.marshal().unwrap(), vec![0x2E]);
    assert_eq!(AudioTagHeader::unmarshal(&[]).err(), Some(TagReaderError::Incomplete));
    assert_eq!(AudioTagHeader::unmarshal(&[0xAF]).err(), Some(TagReaderError::Incomplete));
}

#[test]
fn video_tag_header_reads_composition_time() {
    let bytes = [0x17, 0x01, 0x00, 0x00, 0x05];
    let (h, n) = VideoTagHeader::unmarshal(&bytes).unwrap();
    assert_eq!(n, 5);
    assert_eq!(h.frame_type, 1);
    assert_eq!(h.codec_id, 7);
    assert_eq!(h.avc_packet_type, 1);
    assert_eq!(h.composition_time, 5);
    // A negative 24-bit offset sign-extends.
    let neg = [0x27, 0x01, 0xFF, 0xFF, 0xFB];
    let (h2, _) = VideoTagHeader::unmarshal(&neg).unwrap();
    assert_eq!(h2.composition_time, -5);
    // The writer emits the offset big-endian, as the reader takes it, so
    // the header round-trips byte for byte.
    assert_eq!(h.marshal().unwrap(), bytes.to_vec());
    assert_eq!(h2.marshal().unwrap(), neg.to_vec());
    let (h3, n3) = VideoTagHeader::unmarshal(&[0x12]).unwrap();
    assert_eq!(n3, 1);
    assert_eq!(h3.codec_id, 2);
    assert_eq!(h3.marshal().unwrap(), vec![0x12]);
}

#[test]
fn media_codec_codes() {
    assert_eq!(SoundFormat::AAC.code(), 10);
    assert_eq!(SoundFormat::OPUS.code(), 13);
    assert_eq!(SoundFormat::default(), SoundFormat::AAC);
    assert_eq!(AvcCodecId::H264.code(), 7);
    assert_eq!(AvcCodecId::HEVC.code(), 12);
    assert_eq!(AvcCodecId::default(), AvcCodecId::UNKNOWN);
    assert_eq!(flv::tag::AacProfile::LC.code(), 2);
    assert_eq!(flv::tag::AvcProfile::High.code(), 100);
    assert_eq!(flv::tag::AvcLevel::Level41.code(), 41);
    assert_eq!(flv::tag::HEADER_LENGTH, 11);
    assert_eq!(flv::tag::AAC_SEQHDR, 0);
    assert_eq!(flv::tag::AVC_NALU, 1);
}

#[test]
fn room_info_reports_live_state() {
    let info = RoomInfo::new(
        7,
        1001,
        12,
        3,
        "stage".to_string(),
        1,
        "shows".to_string(),
        LiveStatus::Live,
        1700000000,
        250,
        "title".to_string(),
        "cover".to_string(),
        "tags".to_string(),
        "about".to_string(),
    );
    assert!(info.is_living());
    assert_eq!(info.room_id, 1001);
    assert_eq!(LiveStatus::from_code(2), LiveStatus::Offline);
    assert_eq!(LiveStatus::from_code(9), LiveStatus::Unknown);
    assert_eq!(QualityNumber::from_code(10000), QualityNumber::P10000);
    assert_eq!(QualityNumber::from_code(123), QualityNumber::P250);
    assert_eq!(QualityNumber::P401.code(), 401);
}

#[test]
fn state_gathers_comments() {
    let mut st = State::new();
    st.add_comment(ProcessingComment::new(
        CommentType::Unrepairable,
        true,
        "audio data before its header".to_string(),
    ));
    st.add_comment(ProcessingComment::new(
        CommentType::DecodingHeader,
        false,
        "late audio header".to_string(),
    ));
    assert_eq!(st.comments.len(), 2);
    assert_eq!(st.comments[0].comment_type, CommentType::Unrepairable);
    assert!(st.comments[0].action_required);
    assert_eq!(st.comments[1].comment, "late audio header");
}
