use flv::avc::AVCDecoderConfigurationRecord;
use flv::avc::NalUnit;
use flv::avc::SequenceParameterSetData;
use flv::avc::extract_resolution;
use flv::bits::BitReader;
use flv::error::AVCError;
use flv::h264_nalu::H264Nalu;
use flv::h264_nalu::H264NaluType;

// AVCDecoderConfigurationRecord carrying the canonical 1280x720 SPS,
// profile 66 (baseline).
const AVCC_720P: [u8; 18] = [
    0x01, 0x42, 0x00, 0x1f, 0xff, 0xe1, 0x00, 0x09, 0x67, 0x42, 0x00, 0x1f, 0xda, 0x01, 0x40,
    0x16, 0xe4, 0x00,
];

// AVCDecoderConfigurationRecord carrying the canonical 1920x1080 SPS,
// profile 100 (high), with bottom cropping from 1088 coded rows.
const AVCC_1080P: [u8; 21] = [
    0x01, 0x64, 0x00, 0x28, 0xff, 0xe1, 0x00, 0x0c, 0x67, 0x64, 0x00, 0x28, 0xac, 0xd9, 0x40,
    0x78, 0x02, 0x27, 0xe5, 0x40, 0x00,
];

#[test]
fn resolution_720p_baseline() {
    assert_eq!(extract_resolution(&AVCC_720P), Ok((1280, 720)));
}

#[test]
fn resolution_1080p_high() {
    assert_eq!(extract_resolution(&AVCC_1080P), Ok((1920, 1080)));
}

#[test]
fn resolution_of_empty_packet_fails() {
    assert_eq!(extract_resolution(&[]), Err(AVCError::ParameterLength));
}

#[test]
fn record_fields_parse() {
    let rec = AVCDecoderConfigurationRecord::parse(&AVCC_720P).unwrap();
    assert_eq!(rec.configuration_version, 1);
    assert_eq!(rec.avc_profile_indication, 66);
    assert_eq!(rec.avc_level_indication, 0x1f);
    assert_eq!(rec.num_of_sequence_parameter_sets, 1);
    assert_eq!(rec.sequence_parameter_sets.len(), 1);
    assert_eq!(rec.sequence_parameter_sets[0].sequence_parameter_set_length, 9);
    assert_eq!(rec.num_of_picture_parameter_sets, 0);
}

#[test]
fn record_truncated_parameter_set_fails() {
    let bytes = [0x01, 0x42, 0x00, 0x1f, 0xff, 0xe1, 0x00, 0x09, 0x67];
    assert_eq!(
        AVCDecoderConfigurationRecord::parse(&bytes).err(),
        Some(AVCError::ParameterLength)
    );
}

#[test]
fn sps_fields_decode() {
    // The RBSP of the 720p fixture, after the NAL header byte.
    let rbsp = [0x42, 0x00, 0x1f, 0xda, 0x01, 0x40, 0x16, 0xe4];
    let sps = SequenceParameterSetData::parse(&rbsp).unwrap();
    assert_eq!(sps.profile_idc, 66);
    assert_eq!(sps.level_idc, 31);
    assert_eq!(sps.chroma_format_idc, 1);
    assert_eq!(sps.pic_width_in_mbs_minus1, 79);
    assert_eq!(sps.pic_height_in_map_units_minus1, 44);
    assert_eq!(sps.frame_mbs_only_flag, 1);
    assert_eq!(sps.frame_cropping_flag, 0);
    assert_eq!(sps.chroma_array_type(), 1);
    assert_eq!(sps.sub_width_c(), Ok(2));
    assert_eq!(sps.sub_height_c(), Ok(2));
    assert_eq!(sps.pic_width_in_mbs(), 80);
    assert_eq!(sps.pic_width_in_samples_l(), 1280);
    assert_eq!(sps.pic_height_in_map_units(), 45);
    assert_eq!(sps.pic_size_in_map_units(), 3600);
    assert_eq!(sps.frame_height_in_mbs(), 45);
    assert_eq!(sps.crop_unit_x(), 2);
    assert_eq!(sps.crop_unit_y(), 2);
    assert_eq!(sps.frame_width(), 1280);
    assert_eq!(sps.frame_height(), 720);
    // 4:2:0 chroma macroblocks are 8x8 samples.
    assert_eq!(sps.mb_width_c(), 8);
    assert_eq!(sps.mb_height_c(), 8);
    assert_eq!(sps.pic_width_in_samples_c(), 640);
}

#[test]
fn nal_unit_strips_emulation_prevention() {
    // 00 00 03 collapses to 00 00 inside the payload.
    let nal = [0x67, 0x00, 0x00, 0x03, 0x01, 0x44];
    let u = NalUnit::parse(&nal).unwrap();
    assert_eq!(u.nal_unit_type, 7);
    assert_eq!(u.forbidden_zero_bit, 0);
    assert_eq!(u.rbsp_bytes, vec![0x00, 0x00, 0x01, 0x44]);
}

#[test]
fn nal_unit_rejects_extension_kinds() {
    assert_eq!(NalUnit::parse(&[0x0E, 0x01]).err(), Some(AVCError::UnknownNAL(14)));
    assert_eq!(NalUnit::parse(&[]).err(), Some(AVCError::ParameterLength));
}

#[test]
fn exp_golomb_reads() {
    // Bits: 1 | 010 | 011 | 00100 | 0000000 -> 0, 1, 2, 3.
    let bytes = [0xA6, 0x40];
    let mut br = BitReader::new(&bytes);
    assert_eq!(br.read_ue(), Some(0));
    assert_eq!(br.read_ue(), Some(1));
    assert_eq!(br.read_ue(), Some(2));
    assert_eq!(br.read_ue(), Some(3));
    let mut br2 = BitReader::new(&bytes);
    assert_eq!(br2.read_bits_as_int(8), Some(0xA6));
    assert_eq!(br2.read_bit(), Some(false));
    // Signed mapping: even code 2 gives 1, odd code 1 gives -1.
    let mut br3 = BitReader::new(&[0x40]);
    assert_eq!(br3.read_se(), Some(-1));
    let mut br4 = BitReader::new(&[0x60]);
    assert_eq!(br4.read_se(), Some(1));
}

#[test]
fn bit_reader_ends_cleanly() {
    let mut br = BitReader::new(&[0x80]);
    for _ in 0..8 {
        assert!(br.read_bit().is_some());
    }
    assert_eq!(br.read_bit(), None);
    assert_eq!(br.read_ue(), None);
}

#[test]
fn nalu_directory_walk() {
    // Five packet-header bytes, then two length-prefixed units.
    let data = [
        0x17, 0x01, 0x00, 0x00, 0x00, // packet header
        0x00, 0x00, 0x00, 0x02, 0x65, 0xAA, // IDR slice, 2 bytes
        0x00, 0x00, 0x00, 0x01, 0x67, // SPS, 1 byte
    ];
    let units = H264Nalu::parse_nalus(&data).unwrap();
    assert_eq!(units.len(), 2);
    assert_eq!(units[0].start_position, 9);
    assert_eq!(units[0].full_size, 2);
    assert_eq!(units[0].type_of, H264NaluType::CodedSliceOfAnIdrPicture);
    assert_eq!(units[1].start_position, 15);
    assert_eq!(units[1].full_size, 1);
    assert_eq!(units[1].type_of, H264NaluType::Sps);
    assert!(units[0].nalu_hash.is_none());
}

#[test]
fn nalu_directory_rejects_forbidden_bit() {
    let data = [0, 0, 0, 0, 0, 0x00, 0x00, 0x00, 0x01, 0x85];
    assert_eq!(H264Nalu::parse_nalus(&data).err(), Some(AVCError::UnknownNAL(0x85)));
}

#[test]
fn nalu_type_of_header_byte() {
    assert_eq!(H264Nalu::parse_nalu_type(0x67), Some(H264NaluType::Sps));
    assert_eq!(H264Nalu::parse_nalu_type(0x68), Some(H264NaluType::Pps));
    assert_eq!(H264Nalu::parse_nalu_type(0x80), None);
    let u = H264Nalu::new(4, 10, H264NaluType::Sei);
    assert_eq!(u.start_position, 4);
    assert_eq!(u.full_size, 10);
    assert_eq!(u.type_of, H264NaluType::Sei);
}
