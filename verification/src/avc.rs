//! H.264 elementary-stream inspector: the AVCDecoderConfigurationRecord,
//! NAL unit payload extraction, and the sequence parameter set decode from
//! which frame resolution is derived.
use vstd::prelude::*;
use crate::bits::BitReader;
use crate::bits::bitlen;
use crate::bits::bits_val;
use crate::bits::se_of;
use crate::bits::ue_at;
use crate::error::AVCError;
use crate::wire::be16;
use crate::wire::read_be_u16;

verus! {

/// `n` zero bytes.
pub open spec fn zero_bytes(n: int) -> Seq<u8> {
    Seq::new(if n >= 0 {
        n as nat
    } else {
        0
    }, |i: int| 0u8)
}

/// The raw byte sequence payload of a NAL unit body: emulation-prevention
/// bytes are stripped (`00 00 03` collapses to `00 00`), starting at `i`
/// with `zc` zero bytes already pending; trailing zero bytes are dropped.
pub open spec fn rbsp_scan(s: Seq<u8>, i: int, zc: int) -> Seq<u8>
    decreases s.len() - i,
{
    if i < 0 || i >= s.len() {
        Seq::empty()
    } else if s[i] == 0 {
        rbsp_scan(s, i + 1, zc + 1)
    } else if s[i] == 3 && zc >= 2 {
        zero_bytes(zc) + rbsp_scan(s, i + 1, 0)
    } else {
        zero_bytes(zc) + seq![s[i]] + rbsp_scan(s, i + 1, 0)
    }
}

/// The raw byte sequence payload of a whole NAL unit: everything after the
/// one-byte header, with emulation prevention stripped.
pub open spec fn rbsp_of(s: Seq<u8>) -> Seq<u8> {
    rbsp_scan(s, 1, 0)
}

/// Appends `n` zero bytes.
fn push_zero_bytes(out: &mut Vec<u8>, n: usize)
    ensures
        final(out)@ == old(out)@ + zero_bytes(n as int),
{
    let mut i: usize = 0;
    while i < n
        invariant
            i <= n,
            out@ == old(out)@ + zero_bytes(i as int),
        decreases n - i,
    {
        out.push(0u8);
        assert(out@ =~= old(out)@ + zero_bytes(i + 1));
        i = i + 1;
    }
}

/// Network abstraction layer unit: the one-byte header fields and the
/// payload with emulation prevention removed.
pub struct NalUnit {
    /// Must be zero in a conforming stream.
    pub forbidden_zero_bit: u8,
    /// Importance of this unit for reconstruction.
    pub nal_ref_idc: u8,
    /// Payload kind of this unit.
    pub nal_unit_type: u8,
    /// The raw byte sequence payload.
    pub rbsp_bytes: Vec<u8>,
}

impl NalUnit {
    /// Splits a NAL unit into its header fields and its raw byte sequence
    /// payload.  Extension unit kinds (14, 20, 21) are not implemented, and
    /// an empty buffer has no header byte to read.
    pub fn parse(reader: &[u8]) -> (r: Result<NalUnit, AVCError>)
        ensures
            reader@.len() == 0 ==> r == Err::<NalUnit, AVCError>(AVCError::ParameterLength),
            reader@.len() > 0 ==> {
                let t = (reader@[0] as int) % 32;
                if t == 14 || t == 20 || t == 21 {
                    r == Err::<NalUnit, AVCError>(AVCError::UnknownNAL(t as u8))
                } else {
                    {
                        &&& r matches Ok(u)
                        &&& u.forbidden_zero_bit == reader@[0] as int / 128
                        &&& u.nal_ref_idc == (reader@[0] as int / 32) % 4
                        &&& u.nal_unit_type == t
                        &&& u.rbsp_bytes@ == rbsp_of(reader@)
                    }
                }
            },
    {
        if reader.len() == 0 {
            return Err(AVCError::ParameterLength);
        }
        let byte = reader[0];
        let forbidden_zero_bit = byte / 128;
        let nal_ref_idc = (byte / 32) % 4;
        let nal_unit_type = byte % 32;
        if nal_unit_type == 14 || nal_unit_type == 20 || nal_unit_type == 21 {
            return Err(AVCError::UnknownNAL(nal_unit_type));
        }
        let ghost s = reader@;
        let mut rbsp_bytes: Vec<u8> = Vec::new();
        let mut zero_count: usize = 0;
        let mut i: usize = 1;
        while i < reader.len()
            invariant
                1 <= i <= s.len(),
                s == reader@,
                zero_count <= i,
                rbsp_of(s) == rbsp_bytes@ + rbsp_scan(s, i as int, zero_count as int),
            decreases s.len() - i,
        {
            let byte = reader[i];
            let ghost before = rbsp_bytes@;
            if byte == 0 {
                zero_count = zero_count + 1;
            } else if byte == 3 && zero_count >= 2 {
                push_zero_bytes(&mut rbsp_bytes, zero_count);
                proof {
                    assert(rbsp_bytes@ + rbsp_scan(s, i + 1, 0) =~= before + rbsp_scan(
                        s,
                        i as int,
                        zero_count as int,
                    ));
                }
                zero_count = 0;
            } else {
                push_zero_bytes(&mut rbsp_bytes, zero_count);
                rbsp_bytes.push(byte);
                proof {
                    assert(rbsp_bytes@ + rbsp_scan(s, i + 1, 0) =~= before + rbsp_scan(
                        s,
                        i as int,
                        zero_count as int,
                    ));
                }
                zero_count = 0;
            }
            i = i + 1;
        }
        assert(rbsp_of(s) =~= rbsp_bytes@);
        Ok(NalUnit { forbidden_zero_bit, nal_ref_idc, nal_unit_type, rbsp_bytes })
    }
}

/// Parses `n` length-prefixed blocks (16-bit big-endian length, then that
/// many bytes) starting at `pos`: the block contents and the position after
/// the last block.  A length that runs past the buffer is an error.
pub open spec fn parse_blocks(s: Seq<u8>, pos: int, n: int) -> Result<(Seq<Seq<u8>>, int), AVCError>
    decreases n,
{
    if n <= 0 {
        Ok((Seq::empty(), pos))
    } else if pos + 2 > s.len() {
        Err(AVCError::ParameterLength)
    } else {
        let l = be16(s, pos);
        if pos + 2 + l > s.len() {
            Err(AVCError::ParameterLength)
        } else {
            match parse_blocks(s, pos + 2 + l, n - 1) {
                Ok((rest, p)) => Ok((seq![s.subrange(pos + 2, pos + 2 + l)] + rest, p)),
                Err(e) => Err(e),
            }
        }
    }
}

/// The decoder configuration record as parsed: scalar fields and the raw
/// bytes of each parameter set.
pub struct AvccView {
    pub configuration_version: u8,
    pub avc_profile_indication: u8,
    pub profile_compatibility: u8,
    pub avc_level_indication: u8,
    pub length_size_minus_one: u8,
    pub num_of_sequence_parameter_sets: u8,
    pub sequence_parameter_sets: Seq<Seq<u8>>,
    pub num_of_picture_parameter_sets: u8,
    pub picture_parameter_sets: Seq<Seq<u8>>,
}

/// The AVCDecoderConfigurationRecord at the start of the buffer: six fixed
/// bytes, the SPS blocks, a PPS count byte, the PPS blocks.
pub open spec fn avcc_parse(s: Seq<u8>) -> Result<AvccView, AVCError> {
    if s.len() < 6 {
        Err(AVCError::ParameterLength)
    } else {
        let nsps = (s[5] as int) % 32;
        match parse_blocks(s, 6, nsps) {
            Err(e) => Err(e),
            Ok((sps, p)) => if p + 1 > s.len() {
                Err(AVCError::ParameterLength)
            } else {
                let npps = s[p] as int;
                match parse_blocks(s, p + 1, npps) {
                    Err(e) => Err(e),
                    Ok((pps, _)) => Ok(
                        AvccView {
                            configuration_version: s[0],
                            avc_profile_indication: s[1],
                            profile_compatibility: s[2],
                            avc_level_indication: s[3],
                            length_size_minus_one: ((s[4] as int) % 4) as u8,
                            num_of_sequence_parameter_sets: nsps as u8,
                            sequence_parameter_sets: sps,
                            num_of_picture_parameter_sets: npps as u8,
                            picture_parameter_sets: pps,
                        },
                    ),
                }
            },
        }
    }
}

/// A sequence parameter set carried in the configuration record: its length
/// prefix and its raw NAL unit bytes.
pub struct SequenceParameterSet {
    pub sequence_parameter_set_length: u16,
    pub sequence_parameter_set_nal_unit: Vec<u8>,
}

/// A picture parameter set carried in the configuration record.
pub struct PictureParameterSet {
    pub picture_parameter_set_length: u16,
    pub picture_parameter_set_nal_unit: Vec<u8>,
}

/// Configuration needed to set up an AVC decoder, as carried in the video
/// sequence-header tag of an FLV stream.
pub struct AVCDecoderConfigurationRecord {
    pub configuration_version: u8,
    pub avc_profile_indication: u8,
    pub profile_compatibility: u8,
    pub avc_level_indication: u8,
    pub length_size_minus_one: u8,
    pub num_of_sequence_parameter_sets: u8,
    pub sequence_parameter_sets: Vec<SequenceParameterSet>,
    pub num_of_picture_parameter_sets: u8,
    pub picture_parameter_sets: Vec<PictureParameterSet>,
}

impl View for AVCDecoderConfigurationRecord {
    type V = AvccView;

    open spec fn view(&self) -> AvccView {
        AvccView {
            configuration_version: self.configuration_version,
            avc_profile_indication: self.avc_profile_indication,
            profile_compatibility: self.profile_compatibility,
            avc_level_indication: self.avc_level_indication,
            length_size_minus_one: self.length_size_minus_one,
            num_of_sequence_parameter_sets: self.num_of_sequence_parameter_sets,
            sequence_parameter_sets: self.sequence_parameter_sets@.map_values(
                |u: SequenceParameterSet| u.sequence_parameter_set_nal_unit@,
            ),
            num_of_picture_parameter_sets: self.num_of_picture_parameter_sets,
            picture_parameter_sets: self.picture_parameter_sets@.map_values(
                |u: PictureParameterSet| u.picture_parameter_set_nal_unit@,
            ),
        }
    }
}

impl AVCDecoderConfigurationRecord {
    /// Every stored length prefix equals the length of its unit's bytes.
    pub open spec fn lengths_ok(&self) -> bool {
        &&& forall|j: int|
            0 <= j < self.sequence_parameter_sets@.len()
                ==> #[trigger] self.sequence_parameter_sets@[j].sequence_parameter_set_length
                == self.sequence_parameter_sets@[j].sequence_parameter_set_nal_unit@.len()
        &&& forall|j: int|
            0 <= j < self.picture_parameter_sets@.len()
                ==> #[trigger] self.picture_parameter_sets@[j].picture_parameter_set_length
                == self.picture_parameter_sets@[j].picture_parameter_set_nal_unit@.len()
    }

    /// Parses the configuration record at the start of the buffer.
    pub fn parse(reader: &[u8]) -> (r: Result<Self, AVCError>)
        ensures
            match avcc_parse(reader@) {
                Ok(m) => r matches Ok(rec) && rec@ == m && rec.lengths_ok(),
                Err(e) => r == Err::<Self, AVCError>(e),
            },
    {
        let ghost s = reader@;
        if reader.len() < 6 {
            return Err(AVCError::ParameterLength);
        }
        let configuration_version = reader[0];
        let avc_profile_indication = reader[1];
        let profile_compatibility = reader[2];
        let avc_level_indication = reader[3];
        let length_size_minus_one = reader[4] % 4;
        let num_of_sequence_parameter_sets = reader[5] % 32;
        let nsps = num_of_sequence_parameter_sets as usize;
        let mut sequence_parameter_sets: Vec<SequenceParameterSet> = Vec::new();
        let mut pos: usize = 6;
        let mut i: usize = 0;
        while i < nsps
            invariant
                s == reader@,
                6 <= pos <= s.len(),
                i <= nsps,
                nsps == (s[5] as int) % 32,
                sequence_parameter_sets@.len() == i,
                forall|j: int|
                    0 <= j < i
                        ==> #[trigger] sequence_parameter_sets@[j].sequence_parameter_set_length
                        == sequence_parameter_sets@[j].sequence_parameter_set_nal_unit@.len(),
                match parse_blocks(s, pos as int, nsps - i) {
                    Ok((rest, p)) => parse_blocks(s, 6, nsps as int) == Ok::<_, AVCError>(
                        (
                            sequence_parameter_sets@.map_values(
                                |u: SequenceParameterSet| u.sequence_parameter_set_nal_unit@,
                            ) + rest,
                            p,
                        ),
                    ),
                    Err(e) => parse_blocks(s, 6, nsps as int) == Err::<(Seq<Seq<u8>>, int),
                    AVCError>(e),
                },
            decreases nsps - i,
        {
            if reader.len() - pos < 2 {
                return Err(AVCError::ParameterLength);
            }
            let l = read_be_u16(reader, pos) as usize;
            if reader.len() - (pos + 2) < l {
                return Err(AVCError::ParameterLength);
            }
            let mut unit: Vec<u8> = Vec::new();
            crate::wire::push_bytes(&mut unit, reader, pos + 2, pos + 2 + l);
            let ghost before = sequence_parameter_sets@.map_values(
                |u: SequenceParameterSet| u.sequence_parameter_set_nal_unit@,
            );
            sequence_parameter_sets.push(
                SequenceParameterSet {
                    sequence_parameter_set_length: l as u16,
                    sequence_parameter_set_nal_unit: unit,
                },
            );
            proof {
                assert(sequence_parameter_sets@.map_values(
                    |u: SequenceParameterSet| u.sequence_parameter_set_nal_unit@,
                ) =~= before + seq![s.subrange(pos as int + 2, pos + 2 + l)]);
                if let Ok((rest, p)) = parse_blocks(s, pos + 2 + l, nsps - i - 1) {
                    assert((before + seq![s.subrange(pos as int + 2, pos + 2 + l)]) + rest =~=
                    before + (seq![s.subrange(pos as int + 2, pos + 2 + l)] + rest));
                }
            }
            pos = pos + 2 + l;
            i = i + 1;
        }
        let ghost sps_seq = sequence_parameter_sets@.map_values(
            |u: SequenceParameterSet| u.sequence_parameter_set_nal_unit@,
        );
        proof {
            assert(sps_seq + Seq::<Seq<u8>>::empty() =~= sps_seq);
        }
        if reader.len() - pos < 1 {
            return Err(AVCError::ParameterLength);
        }
        let num_of_picture_parameter_sets = reader[pos];
        let npps = num_of_picture_parameter_sets as usize;
        let ghost pstart = pos + 1;
        let mut picture_parameter_sets: Vec<PictureParameterSet> = Vec::new();
        let mut pos2: usize = pos + 1;
        let mut k: usize = 0;
        while k < npps
            invariant
                s == reader@,
                s.len() >= 6,
                7 <= pstart <= pos2 <= s.len(),
                k <= npps,
                parse_blocks(s, 6, (s[5] as int) % 32) matches Ok((sps0, p0)) && p0 == pstart - 1
                    && npps == s[pstart - 1] as int,
                picture_parameter_sets@.len() == k,
                forall|j: int|
                    0 <= j < k
                        ==> #[trigger] picture_parameter_sets@[j].picture_parameter_set_length
                        == picture_parameter_sets@[j].picture_parameter_set_nal_unit@.len(),
                match parse_blocks(s, pos2 as int, npps - k) {
                    Ok((rest, p)) => parse_blocks(s, pstart, npps as int) == Ok::<_, AVCError>(
                        (
                            picture_parameter_sets@.map_values(
                                |u: PictureParameterSet| u.picture_parameter_set_nal_unit@,
                            ) + rest,
                            p,
                        ),
                    ),
                    Err(e) => parse_blocks(s, pstart, npps as int) == Err::<(Seq<Seq<u8>>, int),
                    AVCError>(e),
                },
            decreases npps - k,
        {
            if reader.len() - pos2 < 2 {
                return Err(AVCError::ParameterLength);
            }
            let l = read_be_u16(reader, pos2) as usize;
            if reader.len() - (pos2 + 2) < l {
                return Err(AVCError::ParameterLength);
            }
            let mut unit: Vec<u8> = Vec::new();
            crate::wire::push_bytes(&mut unit, reader, pos2 + 2, pos2 + 2 + l);
            let ghost before = picture_parameter_sets@.map_values(
                |u: PictureParameterSet| u.picture_parameter_set_nal_unit@,
            );
            picture_parameter_sets.push(
                PictureParameterSet {
                    picture_parameter_set_length: l as u16,
                    picture_parameter_set_nal_unit: unit,
                },
            );
            proof {
                assert(picture_parameter_sets@.map_values(
                    |u: PictureParameterSet| u.picture_parameter_set_nal_unit@,
                ) =~= before + seq![s.subrange(pos2 as int + 2, pos2 + 2 + l)]);
                if let Ok((rest, p)) = parse_blocks(s, pos2 + 2 + l, npps - k - 1) {
                    assert((before + seq![s.subrange(pos2 as int + 2, pos2 + 2 + l)]) + rest =~=
                    before + (seq![s.subrange(pos2 as int + 2, pos2 + 2 + l)] + rest));
                }
            }
            pos2 = pos2 + 2 + l;
            k = k + 1;
        }
        proof {
            let pps_seq = picture_parameter_sets@.map_values(
                |u: PictureParameterSet| u.picture_parameter_set_nal_unit@,
            );
            assert(pps_seq + Seq::<Seq<u8>>::empty() =~= pps_seq);
        }
        Ok(
            AVCDecoderConfigurationRecord {
                configuration_version,
                avc_profile_indication,
                profile_compatibility,
                avc_level_indication,
                length_size_minus_one,
                num_of_sequence_parameter_sets,
                sequence_parameter_sets,
                num_of_picture_parameter_sets,
                picture_parameter_sets,
            },
        )
    }
}

/// The profiles whose SPS carries the chroma-format group of fields.
pub open spec fn profile_has_chroma(p: u8) -> bool {
    p == 100 || p == 110 || p == 122 || p == 244 || p == 44 || p == 83 || p == 86 || p == 118 || p
        == 128 || p == 138 || p == 139 || p == 134 || p == 135
}

/// The fixed 24-bit prefix of an SPS: profile, constraint flags, level.
pub open spec fn sps_fixed(s: Seq<u8>) -> Result<(u8, u8, u8, u8, u8, u8, u8, u8), AVCError> {
    if bitlen(s) < 24 {
        Err(AVCError::ReadBitsError)
    } else {
        Ok(
            (
                bits_val(s, 0, 8) as u8,
                bits_val(s, 8, 1) as u8,
                bits_val(s, 9, 1) as u8,
                bits_val(s, 10, 1) as u8,
                bits_val(s, 11, 1) as u8,
                bits_val(s, 12, 1) as u8,
                bits_val(s, 13, 1) as u8,
                bits_val(s, 16, 8) as u8,
            ),
        )
    }
}

/// `n` one-bit flags starting at bit `pos`.
pub open spec fn read_flags(s: Seq<u8>, pos: int, n: int) -> Result<(Seq<u8>, int), AVCError> {
    if n >= 0 && pos + n <= bitlen(s) {
        Ok((Seq::new(n as nat, |j: int| bits_val(s, pos + j, 1) as u8), pos + n))
    } else {
        Err(AVCError::ReadBitsError)
    }
}

/// `n` signed exponential-Golomb codes starting at bit `pos`.
pub open spec fn read_se_list(s: Seq<u8>, pos: int, n: int) -> Result<(Seq<i32>, int), AVCError>
    decreases n,
{
    if n <= 0 {
        Ok((Seq::empty(), pos))
    } else {
        match ue_at(s, pos) {
            None => Err(AVCError::ReadBitsError),
            Some((v, p)) => match read_se_list(s, p, n - 1) {
                Ok((rest, p2)) => Ok((seq![se_of(v) as i32] + rest, p2)),
                Err(e) => Err(e),
            },
        }
    }
}

/// The chroma-format group of an SPS: present only for some profiles, with
/// defaults otherwise.
pub struct SpsChroma {
    pub chroma_format_idc: u32,
    pub separate_colour_plane_flag: u8,
    pub bit_depth_luma_minus8: u32,
    pub bit_depth_chroma_minus8: u32,
    pub qpprime_y_zero_transform_bypass_flag: u8,
    pub seq_scaling_matrix_present_flag: u8,
    pub seq_scaling_list_present_flag: Seq<u8>,
}

/// The chroma-format group starting at bit `pos`.  Scaling list contents
/// themselves are not consumed, only their presence flags, as in the FLV
/// profile this codec accepts.
pub open spec fn sps_chroma(s: Seq<u8>, pos: int, profile: u8) -> Result<
    (SpsChroma, int),
    AVCError,
> {
    if !profile_has_chroma(profile) {
        Ok(
            (
                SpsChroma {
                    chroma_format_idc: 1,
                    separate_colour_plane_flag: 0,
                    bit_depth_luma_minus8: 0,
                    bit_depth_chroma_minus8: 0,
                    qpprime_y_zero_transform_bypass_flag: 0,
                    seq_scaling_matrix_present_flag: 0,
                    seq_scaling_list_present_flag: Seq::empty(),
                },
                pos,
            ),
        )
    } else {
        match ue_at(s, pos) {
            None => Err(AVCError::ReadBitsError),
            Some((cf, p1)) => {
                let sep_read = cf == 3;
                if sep_read && p1 + 1 > bitlen(s) {
                    Err(AVCError::ReadBitsError)
                } else {
                    let sep = if sep_read {
                        bits_val(s, p1, 1) as u8
                    } else {
                        0u8
                    };
                    let p2 = if sep_read {
                        p1 + 1
                    } else {
                        p1
                    };
                    match ue_at(s, p2) {
                        None => Err(AVCError::ReadBitsError),
                        Some((bdl, p3)) => match ue_at(s, p3) {
                            None => Err(AVCError::ReadBitsError),
                            Some((bdc, p4)) => if p4 + 2 > bitlen(s) {
                                Err(AVCError::ReadBitsError)
                            } else {
                                let qp = bits_val(s, p4, 1) as u8;
                                let matrix = bits_val(s, p4 + 1, 1) as u8;
                                let p5 = p4 + 2;
                                if matrix != 0 {
                                    let nlists: int = if cf != 3 {
                                        8
                                    } else {
                                        12
                                    };
                                    match read_flags(s, p5, nlists) {
                                        Err(e) => Err(e),
                                        Ok((flags, p6)) => Ok(
                                            (
                                                SpsChroma {
                                                    chroma_format_idc: cf as u32,
                                                    separate_colour_plane_flag: sep,
                                                    bit_depth_luma_minus8: bdl as u32,
                                                    bit_depth_chroma_minus8: bdc as u32,
                                                    qpprime_y_zero_transform_bypass_flag: qp,
                                                    seq_scaling_matrix_present_flag: matrix,
                                                    seq_scaling_list_present_flag: flags,
                                                },
                                                p6,
                                            ),
                                        ),
                                    }
                                } else {
                                    Ok(
                                        (
                                            SpsChroma {
                                                chroma_format_idc: cf as u32,
                                                separate_colour_plane_flag: sep,
                                                bit_depth_luma_minus8: bdl as u32,
                                                bit_depth_chroma_minus8: bdc as u32,
                                                qpprime_y_zero_transform_bypass_flag: qp,
                                                seq_scaling_matrix_present_flag: matrix,
                                                seq_scaling_list_present_flag: Seq::empty(),
                                            },
                                            p5,
                                        ),
                                    )
                                }
                            },
                        },
                    }
                }
            },
        }
    }
}

/// The picture-order-count group of an SPS.
pub struct SpsPoc {
    pub pic_order_cnt_type: u32,
    pub log2_max_pic_order_cnt_lsb_minus4: u32,
    pub delta_pic_order_always_zero_flag: u8,
    pub offset_for_non_ref_pic: i32,
    pub offset_for_top_to_bottom_field: i32,
    pub num_ref_frames_in_pic_order_cnt_cycle: u32,
    pub offset_for_ref_frame: Seq<i32>,
}

/// The picture-order-count group starting at bit `pos`.
pub open spec fn sps_poc(s: Seq<u8>, pos: int) -> Result<(SpsPoc, int), AVCError> {
    match ue_at(s, pos) {
        None => Err(AVCError::ReadBitsError),
        Some((t, p)) => {
            if t == 0 {
                match ue_at(s, p) {
                    None => Err(AVCError::ReadBitsError),
                    Some((lsb, p1)) => Ok(
                        (
                            SpsPoc {
                                pic_order_cnt_type: 0,
                                log2_max_pic_order_cnt_lsb_minus4: lsb as u32,
                                delta_pic_order_always_zero_flag: 0,
                                offset_for_non_ref_pic: 0,
                                offset_for_top_to_bottom_field: 0,
                                num_ref_frames_in_pic_order_cnt_cycle: 0,
                                offset_for_ref_frame: Seq::empty(),
                            },
                            p1,
                        ),
                    ),
                }
            } else if t == 1 {
                if p + 1 > bitlen(s) {
                    Err(AVCError::ReadBitsError)
                } else {
                    let delta = bits_val(s, p, 1) as u8;
                    match ue_at(s, p + 1) {
                        None => Err(AVCError::ReadBitsError),
                        Some((o1, p1)) => match ue_at(s, p1) {
                            None => Err(AVCError::ReadBitsError),
                            Some((o2, p2)) => match ue_at(s, p2) {
                                None => Err(AVCError::ReadBitsError),
                                Some((cnt, p3)) => match read_se_list(s, p3, cnt) {
                                    Err(e) => Err(e),
                                    Ok((offs, p4)) => Ok(
                                        (
                                            SpsPoc {
                                                pic_order_cnt_type: 1,
                                                log2_max_pic_order_cnt_lsb_minus4: 0,
                                                delta_pic_order_always_zero_flag: delta,
                                                offset_for_non_ref_pic: se_of(o1) as i32,
                                                offset_for_top_to_bottom_field: se_of(o2) as i32,
                                                num_ref_frames_in_pic_order_cnt_cycle: cnt as u32,
                                                offset_for_ref_frame: offs,
                                            },
                                            p4,
                                        ),
                                    ),
                                },
                            },
                        },
                    }
                }
            } else {
                Ok(
                    (
                        SpsPoc {
                            pic_order_cnt_type: t as u32,
                            log2_max_pic_order_cnt_lsb_minus4: 0,
                            delta_pic_order_always_zero_flag: 0,
                            offset_for_non_ref_pic: 0,
                            offset_for_top_to_bottom_field: 0,
                            num_ref_frames_in_pic_order_cnt_cycle: 0,
                            offset_for_ref_frame: Seq::empty(),
                        },
                        p,
                    ),
                )
            }
        },
    }
}

/// The closing group of an SPS: reference frame bounds, frame geometry,
/// cropping, and the VUI presence flag.
pub struct SpsTail {
    pub max_num_ref_frames: u32,
    pub gaps_in_frame_num_value_allowed_flag: u8,
    pub pic_width_in_mbs_minus1: u32,
    pub pic_height_in_map_units_minus1: u32,
    pub frame_mbs_only_flag: u8,
    pub mb_adaptive_frame_field_flag: u8,
    pub direct_8x8_inference_flag: u8,
    pub frame_cropping_flag: u8,
    pub frame_crop_left_offset: u32,
    pub frame_crop_right_offset: u32,
    pub frame_crop_top_offset: u32,
    pub frame_crop_bottom_offset: u32,
    pub vui_parameters_present_flag: u8,
}

/// The closing group starting at bit `pos`.
pub open spec fn sps_tail(s: Seq<u8>, pos: int) -> Result<(SpsTail, int), AVCError> {
    match ue_at(s, pos) {
        None => Err(AVCError::ReadBitsError),
        Some((maxref, p0)) => if p0 + 1 > bitlen(s) {
            Err(AVCError::ReadBitsError)
        } else {
            let gaps = bits_val(s, p0, 1) as u8;
            match ue_at(s, p0 + 1) {
                None => Err(AVCError::ReadBitsError),
                Some((pw, p1)) => match ue_at(s, p1) {
                    None => Err(AVCError::ReadBitsError),
                    Some((ph, p2)) => if p2 + 1 > bitlen(s) {
                        Err(AVCError::ReadBitsError)
                    } else {
                        let fmof = bits_val(s, p2, 1) as u8;
                        let p3 = p2 + 1;
                        let mbaff_read = fmof == 0;
                        if mbaff_read && p3 + 1 > bitlen(s) {
                            Err(AVCError::ReadBitsError)
                        } else {
                            let mbaff = if mbaff_read {
                                bits_val(s, p3, 1) as u8
                            } else {
                                0u8
                            };
                            let p4 = if mbaff_read {
                                p3 + 1
                            } else {
                                p3
                            };
                            if p4 + 2 > bitlen(s) {
                                Err(AVCError::ReadBitsError)
                            } else {
                                let d8 = bits_val(s, p4, 1) as u8;
                                let cropf = bits_val(s, p4 + 1, 1) as u8;
                                let p5 = p4 + 2;
                                if cropf != 0 {
                                    match ue_at(s, p5) {
                                        None => Err(AVCError::ReadBitsError),
                                        Some((cl, q1)) => match ue_at(s, q1) {
                                            None => Err(AVCError::ReadBitsError),
                                            Some((cr, q2)) => match ue_at(s, q2) {
                                                None => Err(AVCError::ReadBitsError),
                                                Some((ct, q3)) => match ue_at(s, q3) {
                                                    None => Err(AVCError::ReadBitsError),
                                                    Some((cb, q4)) => if q4 + 1 > bitlen(s) {
                                                        Err(AVCError::ReadBitsError)
                                                    } else {
                                                        Ok(
                                                            (
                                                                SpsTail {
                                                                    max_num_ref_frames: maxref as u32,
                                                                    gaps_in_frame_num_value_allowed_flag: gaps,
                                                                    pic_width_in_mbs_minus1: pw as u32,
                                                                    pic_height_in_map_units_minus1: ph as u32,
                                                                    frame_mbs_only_flag: fmof,
                                                                    mb_adaptive_frame_field_flag: mbaff,
                                                                    direct_8x8_inference_flag: d8,
                                                                    frame_cropping_flag: cropf,
                                                                    frame_crop_left_offset: cl as u32,
                                                                    frame_crop_right_offset: cr as u32,
                                                                    frame_crop_top_offset: ct as u32,
                                                                    frame_crop_bottom_offset: cb as u32,
                                                                    vui_parameters_present_flag: bits_val(
                                                                        s,
                                                                        q4,
                                                                        1,
                                                                    ) as u8,
                                                                },
                                                                q4 + 1,
                                                            ),
                                                        )
                                                    },
                                                },
                                            },
                                        },
                                    }
                                } else {
                                    if p5 + 1 > bitlen(s) {
                                        Err(AVCError::ReadBitsError)
                                    } else {
                                        Ok(
                                            (
                                                SpsTail {
                                                    max_num_ref_frames: maxref as u32,
                                                    gaps_in_frame_num_value_allowed_flag: gaps,
                                                    pic_width_in_mbs_minus1: pw as u32,
                                                    pic_height_in_map_units_minus1: ph as u32,
                                                    frame_mbs_only_flag: fmof,
                                                    mb_adaptive_frame_field_flag: mbaff,
                                                    direct_8x8_inference_flag: d8,
                                                    frame_cropping_flag: cropf,
                                                    frame_crop_left_offset: 0,
                                                    frame_crop_right_offset: 0,
                                                    frame_crop_top_offset: 0,
                                                    frame_crop_bottom_offset: 0,
                                                    vui_parameters_present_flag: bits_val(
                                                        s,
                                                        p5,
                                                        1,
                                                    ) as u8,
                                                },
                                                p5 + 1,
                                            ),
                                        )
                                    }
                                }
                            }
                        }
                    },
                },
            }
        },
    }
}

/// All decoded fields of a sequence parameter set.
pub struct SpsView {
    pub profile_idc: u8,
    pub constraint_set0_flag: u8,
    pub constraint_set1_flag: u8,
    pub constraint_set2_flag: u8,
    pub constraint_set3_flag: u8,
    pub constraint_set4_flag: u8,
    pub constraint_set5_flag: u8,
    pub level_idc: u8,
    pub seq_parameter_set_id: u32,
    pub chroma: SpsChroma,
    pub log2_max_frame_num_minus4: u32,
    pub poc: SpsPoc,
    pub tail: SpsTail,
}

/// The complete SPS decode from the raw byte sequence payload.
pub open spec fn sps_parse(s: Seq<u8>) -> Result<SpsView, AVCError> {
    match sps_fixed(s) {
        Err(e) => Err(e),
        Ok((profile, c0, c1, c2, c3, c4, c5, level)) => match ue_at(s, 24) {
            None => Err(AVCError::ReadBitsError),
            Some((id, pa)) => match sps_chroma(s, pa, profile) {
                Err(e) => Err(e),
                Ok((chroma, pb)) => match ue_at(s, pb) {
                    None => Err(AVCError::ReadBitsError),
                    Some((log2mfn, pc)) => match sps_poc(s, pc) {
                        Err(e) => Err(e),
                        Ok((poc, pd)) => match sps_tail(s, pd) {
                            Err(e) => Err(e),
                            Ok((tail, _)) => Ok(
                                SpsView {
                                    profile_idc: profile,
                                    constraint_set0_flag: c0,
                                    constraint_set1_flag: c1,
                                    constraint_set2_flag: c2,
                                    constraint_set3_flag: c3,
                                    constraint_set4_flag: c4,
                                    constraint_set5_flag: c5,
                                    level_idc: level,
                                    seq_parameter_set_id: id as u32,
                                    chroma,
                                    log2_max_frame_num_minus4: log2mfn as u32,
                                    poc,
                                    tail,
                                },
                            ),
                        },
                    },
                },
            },
        },
    }
}

/// Reads one flag bit.
fn read_flag(br: &mut BitReader<'_>) -> (r: Result<u8, AVCError>)
    requires
        old(br).wf(),
    ensures
        final(br).wf(),
        final(br).buf() == old(br).buf(),
        old(br).pos() + 1 <= bitlen(old(br).buf()) ==> r == Ok::<u8, AVCError>(
            bits_val(old(br).buf(), old(br).pos(), 1) as u8,
        ) && final(br).pos() == old(br).pos() + 1,
        old(br).pos() + 1 > bitlen(old(br).buf()) ==> r == Err::<u8, AVCError>(
            AVCError::ReadBitsError,
        ),
{
    proof {
        crate::bits::lemma_bits_val_bound(old(br).buf(), old(br).pos(), 1);
        vstd::arithmetic::power2::lemma2_to64();
    }
    match br.read_bits_as_int(1) {
        None => Err(AVCError::ReadBitsError),
        Some(v) => Ok(v as u8),
    }
}

/// Reads an eight-bit field.
fn read_bits8(br: &mut BitReader<'_>) -> (r: Result<u8, AVCError>)
    requires
        old(br).wf(),
    ensures
        final(br).wf(),
        final(br).buf() == old(br).buf(),
        old(br).pos() + 8 <= bitlen(old(br).buf()) ==> r == Ok::<u8, AVCError>(
            bits_val(old(br).buf(), old(br).pos(), 8) as u8,
        ) && final(br).pos() == old(br).pos() + 8,
        old(br).pos() + 8 > bitlen(old(br).buf()) ==> r == Err::<u8, AVCError>(
            AVCError::ReadBitsError,
        ),
{
    proof {
        crate::bits::lemma_bits_val_bound(old(br).buf(), old(br).pos(), 8);
        vstd::arithmetic::power2::lemma2_to64();
    }
    match br.read_bits_as_int(8) {
        None => Err(AVCError::ReadBitsError),
        Some(v) => Ok(v as u8),
    }
}

/// Reads an unsigned exponential-Golomb code.
fn read_ue32(br: &mut BitReader<'_>) -> (r: Result<u32, AVCError>)
    requires
        old(br).wf(),
    ensures
        final(br).wf(),
        final(br).buf() == old(br).buf(),
        ue_at(old(br).buf(), old(br).pos()) matches Some((v, newpos)) ==> r == Ok::<u32, AVCError>(
            v as u32,
        ) && 0 <= v < 0xFFFFFFFF && final(br).pos() == newpos,
        ue_at(old(br).buf(), old(br).pos()) is None ==> r == Err::<u32, AVCError>(
            AVCError::ReadBitsError,
        ),
{
    match br.read_ue() {
        None => Err(AVCError::ReadBitsError),
        Some(v) => Ok(v),
    }
}

/// Reads a signed exponential-Golomb code.
fn read_se32(br: &mut BitReader<'_>) -> (r: Result<i32, AVCError>)
    requires
        old(br).wf(),
    ensures
        final(br).wf(),
        final(br).buf() == old(br).buf(),
        ue_at(old(br).buf(), old(br).pos()) matches Some((v, newpos)) ==> r == Ok::<i32, AVCError>(
            se_of(v) as i32,
        ) && final(br).pos() == newpos,
        ue_at(old(br).buf(), old(br).pos()) is None ==> r == Err::<i32, AVCError>(
            AVCError::ReadBitsError,
        ),
{
    match br.read_se() {
        None => Err(AVCError::ReadBitsError),
        Some(v) => Ok(v),
    }
}

/// The chroma-group fields as read by the parser.
struct ChromaFields {
    chroma_format_idc: u32,
    separate_colour_plane_flag: u8,
    bit_depth_luma_minus8: u32,
    bit_depth_chroma_minus8: u32,
    qpprime_y_zero_transform_bypass_flag: u8,
    seq_scaling_matrix_present_flag: u8,
    seq_scaling_list_present_flag: Vec<u8>,
}

impl ChromaFields {
    spec fn model(&self) -> SpsChroma {
        SpsChroma {
            chroma_format_idc: self.chroma_format_idc,
            separate_colour_plane_flag: self.separate_colour_plane_flag,
            bit_depth_luma_minus8: self.bit_depth_luma_minus8,
            bit_depth_chroma_minus8: self.bit_depth_chroma_minus8,
            qpprime_y_zero_transform_bypass_flag: self.qpprime_y_zero_transform_bypass_flag,
            seq_scaling_matrix_present_flag: self.seq_scaling_matrix_present_flag,
            seq_scaling_list_present_flag: self.seq_scaling_list_present_flag@,
        }
    }
}

/// Reads the profile-conditional chroma-format group.
#[verifier::loop_isolation(false)]
fn parse_chroma_group(br: &mut BitReader<'_>, profile_idc: u8) -> (r: Result<
    ChromaFields,
    AVCError,
>)
    requires
        old(br).wf(),
    ensures
        final(br).wf(),
        final(br).buf() == old(br).buf(),
        match sps_chroma(old(br).buf(), old(br).pos(), profile_idc) {
            Ok((m, p)) => r matches Ok(f) && f.model() == m && final(br).pos() == p,
            Err(e) => r == Err::<ChromaFields, AVCError>(e),
        },
{
    let ghost s = br.buf();
    let ghost pa = br.pos();
    let mut chroma_format_idc: u32 = 1;
    let mut separate_colour_plane_flag: u8 = 0;
    let mut bit_depth_luma_minus8: u32 = 0;
    let mut bit_depth_chroma_minus8: u32 = 0;
    let mut qpprime_y_zero_transform_bypass_flag: u8 = 0;
    let mut seq_scaling_matrix_present_flag: u8 = 0;
    let mut seq_scaling_list_present_flag: Vec<u8> = Vec::new();
    let has_chroma = profile_idc == 100 || profile_idc == 110 || profile_idc == 122 || profile_idc
        == 244 || profile_idc == 44 || profile_idc == 83 || profile_idc == 86 || profile_idc == 118
        || profile_idc == 128 || profile_idc == 138 || profile_idc == 139 || profile_idc == 134
        || profile_idc == 135;
    if has_chroma {
        chroma_format_idc = match read_ue32(br) {
            Ok(v) => v,
            Err(e) => {
                return Err(e);
            },
        };
        if chroma_format_idc == 3 {
            separate_colour_plane_flag = match read_flag(br) {
                Ok(v) => v,
                Err(e) => {
                    return Err(e);
                },
            };
        }
        bit_depth_luma_minus8 = match read_ue32(br) {
            Ok(v) => v,
            Err(e) => {
                return Err(e);
            },
        };
        bit_depth_chroma_minus8 = match read_ue32(br) {
            Ok(v) => v,
            Err(e) => {
                return Err(e);
            },
        };
        qpprime_y_zero_transform_bypass_flag = match read_flag(br) {
            Ok(v) => v,
            Err(e) => {
                return Err(e);
            },
        };
        seq_scaling_matrix_present_flag = match read_flag(br) {
            Ok(v) => v,
            Err(e) => {
                return Err(e);
            },
        };
        if seq_scaling_matrix_present_flag != 0 {
            let nlists: usize = if chroma_format_idc != 3 {
                8
            } else {
                12
            };
            let ghost p5 = br.pos();
            let mut fi: usize = 0;
            while fi < nlists
                invariant
                    br.wf(),
                    br.buf() == s,
                    fi <= nlists,
                    br.pos() == p5 + fi,
                    p5 + fi <= bitlen(s),
                    seq_scaling_list_present_flag@ =~= Seq::new(
                        fi as nat,
                        |j: int| bits_val(s, p5 + j, 1) as u8,
                    ),
                decreases nlists - fi,
            {
                let flag = match read_flag(br) {
                    Ok(v) => v,
                    Err(e) => {
                        proof {
                            assert(read_flags(s, p5, nlists as int) is Err);
                        }
                        return Err(e);
                    },
                };
                seq_scaling_list_present_flag.push(flag);
                proof {
                    assert(seq_scaling_list_present_flag@ =~= Seq::new(
                        (fi + 1) as nat,
                        |j: int| bits_val(s, p5 + j, 1) as u8,
                    ));
                }
                fi = fi + 1;
            }
            proof {
                assert(read_flags(s, p5, nlists as int) == Ok::<_, AVCError>(
                    (seq_scaling_list_present_flag@, br.pos()),
                ));
            }
        }
    }
    Ok(
        ChromaFields {
            chroma_format_idc,
            separate_colour_plane_flag,
            bit_depth_luma_minus8,
            bit_depth_chroma_minus8,
            qpprime_y_zero_transform_bypass_flag,
            seq_scaling_matrix_present_flag,
            seq_scaling_list_present_flag,
        },
    )
}

/// The picture-order-count fields as read by the parser.
struct PocFields {
    pic_order_cnt_type: u32,
    log2_max_pic_order_cnt_lsb_minus4: u32,
    delta_pic_order_always_zero_flag: u8,
    offset_for_non_ref_pic: i32,
    offset_for_top_to_bottom_field: i32,
    num_ref_frames_in_pic_order_cnt_cycle: u32,
    offset_for_ref_frame: Vec<i32>,
}

impl PocFields {
    spec fn model(&self) -> SpsPoc {
        SpsPoc {
            pic_order_cnt_type: self.pic_order_cnt_type,
            log2_max_pic_order_cnt_lsb_minus4: self.log2_max_pic_order_cnt_lsb_minus4,
            delta_pic_order_always_zero_flag: self.delta_pic_order_always_zero_flag,
            offset_for_non_ref_pic: self.offset_for_non_ref_pic,
            offset_for_top_to_bottom_field: self.offset_for_top_to_bottom_field,
            num_ref_frames_in_pic_order_cnt_cycle: self.num_ref_frames_in_pic_order_cnt_cycle,
            offset_for_ref_frame: self.offset_for_ref_frame@,
        }
    }
}

/// Reads the picture-order-count group.
#[verifier::loop_isolation(false)]
fn parse_poc_group(br: &mut BitReader<'_>) -> (r: Result<PocFields, AVCError>)
    requires
        old(br).wf(),
    ensures
        final(br).wf(),
        final(br).buf() == old(br).buf(),
        match sps_poc(old(br).buf(), old(br).pos()) {
            Ok((m, p)) => r matches Ok(f) && f.model() == m && final(br).pos() == p,
            Err(e) => r == Err::<PocFields, AVCError>(e),
        },
{
    let ghost s = br.buf();
    let pic_order_cnt_type = match read_ue32(br) {
        Ok(v) => v,
        Err(e) => {
            return Err(e);
        },
    };
    let mut log2_max_pic_order_cnt_lsb_minus4: u32 = 0;
    let mut delta_pic_order_always_zero_flag: u8 = 0;
    let mut offset_for_non_ref_pic: i32 = 0;
    let mut offset_for_top_to_bottom_field: i32 = 0;
    let mut num_ref_frames_in_pic_order_cnt_cycle: u32 = 0;
    let mut offset_for_ref_frame: Vec<i32> = Vec::new();
    if pic_order_cnt_type == 0 {
        log2_max_pic_order_cnt_lsb_minus4 = match read_ue32(br) {
            Ok(v) => v,
            Err(e) => {
                return Err(e);
            },
        };
    } else if pic_order_cnt_type == 1 {
        delta_pic_order_always_zero_flag = match read_flag(br) {
            Ok(v) => v,
            Err(e) => {
                return Err(e);
            },
        };
        offset_for_non_ref_pic = match read_se32(br) {
            Ok(v) => v,
            Err(e) => {
                return Err(e);
            },
        };
        offset_for_top_to_bottom_field = match read_se32(br) {
            Ok(v) => v,
            Err(e) => {
                return Err(e);
            },
        };
        num_ref_frames_in_pic_order_cnt_cycle = match read_ue32(br) {
            Ok(v) => v,
            Err(e) => {
                return Err(e);
            },
        };
        let cnt = num_ref_frames_in_pic_order_cnt_cycle;
        let ghost p3 = br.pos();
        let mut oi: u32 = 0;
        while oi < cnt
            invariant
                br.wf(),
                br.buf() == s,
                oi <= cnt,
                offset_for_ref_frame@.len() == oi,
                match read_se_list(s, br.pos(), cnt - oi) {
                    Ok((rest, p)) => read_se_list(s, p3, cnt as int) == Ok::<_, AVCError>(
                        (offset_for_ref_frame@ + rest, p),
                    ),
                    Err(e) => read_se_list(s, p3, cnt as int) == Err::<(Seq<i32>, int), AVCError>(
                        e,
                    ),
                },
            decreases cnt - oi,
        {
            let ghost before = offset_for_ref_frame@;
            let off = match read_se32(br) {
                Ok(v) => v,
                Err(e) => {
                    return Err(e);
                },
            };
            offset_for_ref_frame.push(off);
            proof {
                assert(offset_for_ref_frame@ =~= before + seq![off]);
                if let Ok((rest, p)) = read_se_list(s, br.pos(), cnt - oi - 1) {
                    assert((before + seq![off]) + rest =~= before + (seq![off] + rest));
                }
            }
            oi = oi + 1;
        }
        proof {
            assert(offset_for_ref_frame@ + Seq::<i32>::empty() =~= offset_for_ref_frame@);
        }
    }
    Ok(
        PocFields {
            pic_order_cnt_type,
            log2_max_pic_order_cnt_lsb_minus4,
            delta_pic_order_always_zero_flag,
            offset_for_non_ref_pic,
            offset_for_top_to_bottom_field,
            num_ref_frames_in_pic_order_cnt_cycle,
            offset_for_ref_frame,
        },
    )
}

/// The closing fields as read by the parser.
struct TailFields {
    max_num_ref_frames: u32,
    gaps_in_frame_num_value_allowed_flag: u8,
    pic_width_in_mbs_minus1: u32,
    pic_height_in_map_units_minus1: u32,
    frame_mbs_only_flag: u8,
    mb_adaptive_frame_field_flag: u8,
    direct_8x8_inference_flag: u8,
    frame_cropping_flag: u8,
    frame_crop_left_offset: u32,
    frame_crop_right_offset: u32,
    frame_crop_top_offset: u32,
    frame_crop_bottom_offset: u32,
    vui_parameters_present_flag: u8,
}

impl TailFields {
    spec fn model(&self) -> SpsTail {
        SpsTail {
            max_num_ref_frames: self.max_num_ref_frames,
            gaps_in_frame_num_value_allowed_flag: self.gaps_in_frame_num_value_allowed_flag,
            pic_width_in_mbs_minus1: self.pic_width_in_mbs_minus1,
            pic_height_in_map_units_minus1: self.pic_height_in_map_units_minus1,
            frame_mbs_only_flag: self.frame_mbs_only_flag,
            mb_adaptive_frame_field_flag: self.mb_adaptive_frame_field_flag,
            direct_8x8_inference_flag: self.direct_8x8_inference_flag,
            frame_cropping_flag: self.frame_cropping_flag,
            frame_crop_left_offset: self.frame_crop_left_offset,
            frame_crop_right_offset: self.frame_crop_right_offset,
            frame_crop_top_offset: self.frame_crop_top_offset,
            frame_crop_bottom_offset: self.frame_crop_bottom_offset,
            vui_parameters_present_flag: self.vui_parameters_present_flag,
        }
    }
}

/// Reads the closing group.
#[verifier::rlimit(60)]
fn parse_tail_group(br: &mut BitReader<'_>) -> (r: Result<TailFields, AVCError>)
    requires
        old(br).wf(),
    ensures
        final(br).wf(),
        final(br).buf() == old(br).buf(),
        match sps_tail(old(br).buf(), old(br).pos()) {
            Ok((m, p)) => r matches Ok(f) && f.model() == m && final(br).pos() == p,
            Err(e) => r == Err::<TailFields, AVCError>(e),
        },
{
    let max_num_ref_frames = match read_ue32(br) {
        Ok(v) => v,
        Err(e) => {
            return Err(e);
        },
    };
    let gaps_in_frame_num_value_allowed_flag = match read_flag(br) {
        Ok(v) => v,
        Err(e) => {
            return Err(e);
        },
    };
    let pic_width_in_mbs_minus1 = match read_ue32(br) {
        Ok(v) => v,
        Err(e) => {
            return Err(e);
        },
    };
    let pic_height_in_map_units_minus1 = match read_ue32(br) {
        Ok(v) => v,
        Err(e) => {
            return Err(e);
        },
    };
    let frame_mbs_only_flag = match read_flag(br) {
        Ok(v) => v,
        Err(e) => {
            return Err(e);
        },
    };
    let mut mb_adaptive_frame_field_flag: u8 = 0;
    if frame_mbs_only_flag == 0 {
        mb_adaptive_frame_field_flag = match read_flag(br) {
            Ok(v) => v,
            Err(e) => {
                return Err(e);
            },
        };
    }
    let direct_8x8_inference_flag = match read_flag(br) {
        Ok(v) => v,
        Err(e) => {
            return Err(e);
        },
    };
    let frame_cropping_flag = match read_flag(br) {
        Ok(v) => v,
        Err(e) => {
            return Err(e);
        },
    };
    let mut frame_crop_left_offset: u32 = 0;
    let mut frame_crop_right_offset: u32 = 0;
    let mut frame_crop_top_offset: u32 = 0;
    let mut frame_crop_bottom_offset: u32 = 0;
    if frame_cropping_flag != 0 {
        frame_crop_left_offset = match read_ue32(br) {
            Ok(v) => v,
            Err(e) => {
                return Err(e);
            },
        };
        frame_crop_right_offset = match read_ue32(br) {
            Ok(v) => v,
            Err(e) => {
                return Err(e);
            },
        };
        frame_crop_top_offset = match read_ue32(br) {
            Ok(v) => v,
            Err(e) => {
                return Err(e);
            },
        };
        frame_crop_bottom_offset = match read_ue32(br) {
            Ok(v) => v,
            Err(e) => {
                return Err(e);
            },
        };
    }
    let vui_parameters_present_flag = match read_flag(br) {
        Ok(v) => v,
        Err(e) => {
            return Err(e);
        },
    };
    Ok(
        TailFields {
            max_num_ref_frames,
            gaps_in_frame_num_value_allowed_flag,
            pic_width_in_mbs_minus1,
            pic_height_in_map_units_minus1,
            frame_mbs_only_flag,
            mb_adaptive_frame_field_flag,
            direct_8x8_inference_flag,
            frame_cropping_flag,
            frame_crop_left_offset,
            frame_crop_right_offset,
            frame_crop_top_offset,
            frame_crop_bottom_offset,
            vui_parameters_present_flag,
        },
    )
}

/// Sequence parameter set data: the decoded key parameters of a coded video
/// sequence.
pub struct SequenceParameterSetData {
    pub profile_idc: u8,
    pub constraint_set0_flag: u8,
    pub constraint_set1_flag: u8,
    pub constraint_set2_flag: u8,
    pub constraint_set3_flag: u8,
    pub constraint_set4_flag: u8,
    pub constraint_set5_flag: u8,
    pub level_idc: u8,
    pub seq_parameter_set_id: u32,
    pub chroma_format_idc: u32,
    pub separate_colour_plane_flag: u8,
    pub bit_depth_luma_minus8: u32,
    pub bit_depth_chroma_minus8: u32,
    pub qpprime_y_zero_transform_bypass_flag: u8,
    pub seq_scaling_matrix_present_flag: u8,
    pub seq_scaling_list_present_flag: Vec<u8>,
    pub log2_max_frame_num_minus4: u32,
    pub pic_order_cnt_type: u32,
    pub log2_max_pic_order_cnt_lsb_minus4: u32,
    pub delta_pic_order_always_zero_flag: u8,
    pub offset_for_non_ref_pic: i32,
    pub offset_for_top_to_bottom_field: i32,
    pub num_ref_frames_in_pic_order_cnt_cycle: u32,
    pub offset_for_ref_frame: Vec<i32>,
    pub max_num_ref_frames: u32,
    pub gaps_in_frame_num_value_allowed_flag: u8,
    pub pic_width_in_mbs_minus1: u32,
    pub pic_height_in_map_units_minus1: u32,
    pub frame_mbs_only_flag: u8,
    pub mb_adaptive_frame_field_flag: u8,
    pub direct_8x8_inference_flag: u8,
    pub frame_cropping_flag: u8,
    pub frame_crop_left_offset: u32,
    pub frame_crop_right_offset: u32,
    pub frame_crop_top_offset: u32,
    pub frame_crop_bottom_offset: u32,
    pub vui_parameters_present_flag: u8,
}

impl View for SequenceParameterSetData {
    type V = SpsView;

    open spec fn view(&self) -> SpsView {
        SpsView {
            profile_idc: self.profile_idc,
            constraint_set0_flag: self.constraint_set0_flag,
            constraint_set1_flag: self.constraint_set1_flag,
            constraint_set2_flag: self.constraint_set2_flag,
            constraint_set3_flag: self.constraint_set3_flag,
            constraint_set4_flag: self.constraint_set4_flag,
            constraint_set5_flag: self.constraint_set5_flag,
            level_idc: self.level_idc,
            seq_parameter_set_id: self.seq_parameter_set_id,
            chroma: SpsChroma {
                chroma_format_idc: self.chroma_format_idc,
                separate_colour_plane_flag: self.separate_colour_plane_flag,
                bit_depth_luma_minus8: self.bit_depth_luma_minus8,
                bit_depth_chroma_minus8: self.bit_depth_chroma_minus8,
                qpprime_y_zero_transform_bypass_flag: self.qpprime_y_zero_transform_bypass_flag,
                seq_scaling_matrix_present_flag: self.seq_scaling_matrix_present_flag,
                seq_scaling_list_present_flag: self.seq_scaling_list_present_flag@,
            },
            log2_max_frame_num_minus4: self.log2_max_frame_num_minus4,
            poc: SpsPoc {
                pic_order_cnt_type: self.pic_order_cnt_type,
                log2_max_pic_order_cnt_lsb_minus4: self.log2_max_pic_order_cnt_lsb_minus4,
                delta_pic_order_always_zero_flag: self.delta_pic_order_always_zero_flag,
                offset_for_non_ref_pic: self.offset_for_non_ref_pic,
                offset_for_top_to_bottom_field: self.offset_for_top_to_bottom_field,
                num_ref_frames_in_pic_order_cnt_cycle: self.num_ref_frames_in_pic_order_cnt_cycle,
                offset_for_ref_frame: self.offset_for_ref_frame@,
            },
            tail: SpsTail {
                max_num_ref_frames: self.max_num_ref_frames,
                gaps_in_frame_num_value_allowed_flag: self.gaps_in_frame_num_value_allowed_flag,
                pic_width_in_mbs_minus1: self.pic_width_in_mbs_minus1,
                pic_height_in_map_units_minus1: self.pic_height_in_map_units_minus1,
                frame_mbs_only_flag: self.frame_mbs_only_flag,
                mb_adaptive_frame_field_flag: self.mb_adaptive_frame_field_flag,
                direct_8x8_inference_flag: self.direct_8x8_inference_flag,
                frame_cropping_flag: self.frame_cropping_flag,
                frame_crop_left_offset: self.frame_crop_left_offset,
                frame_crop_right_offset: self.frame_crop_right_offset,
                frame_crop_top_offset: self.frame_crop_top_offset,
                frame_crop_bottom_offset: self.frame_crop_bottom_offset,
                vui_parameters_present_flag: self.vui_parameters_present_flag,
            },
        }
    }
}

impl SequenceParameterSetData {
    /// Decodes a sequence parameter set from its raw byte sequence payload.
    #[verifier::rlimit(100)]
    #[verifier::loop_isolation(false)]
    pub fn parse(reader: &[u8]) -> (r: Result<Self, AVCError>)
        ensures
            reader@.len() * 8 > usize::MAX ==> r == Err::<Self, AVCError>(AVCError::ReadBitsError),
            reader@.len() * 8 <= usize::MAX ==> match sps_parse(reader@) {
                Ok(m) => r matches Ok(sps) && sps@ == m,
                Err(e) => r == Err::<Self, AVCError>(e),
            },
    {
        proof {
            vstd::arithmetic::div_mod::lemma_fundamental_div_mod(usize::MAX as int, 8);
        }
        if reader.len() > usize::MAX / 8 {
            return Err(AVCError::ReadBitsError);
        }
        let ghost s = reader@;
        let mut br = BitReader::new(reader);
        let profile_idc = match read_bits8(&mut br) {
            Ok(v) => v,
            Err(e) => {
                return Err(e);
            },
        };
        let constraint_set0_flag = match read_flag(&mut br) {
            Ok(v) => v,
            Err(e) => {
                return Err(e);
            },
        };
        let constraint_set1_flag = match read_flag(&mut br) {
            Ok(v) => v,
            Err(e) => {
                return Err(e);
            },
        };
        let constraint_set2_flag = match read_flag(&mut br) {
            Ok(v) => v,
            Err(e) => {
                return Err(e);
            },
        };
        let constraint_set3_flag = match read_flag(&mut br) {
            Ok(v) => v,
            Err(e) => {
                return Err(e);
            },
        };
        let constraint_set4_flag = match read_flag(&mut br) {
            Ok(v) => v,
            Err(e) => {
                return Err(e);
            },
        };
        let constraint_set5_flag = match read_flag(&mut br) {
            Ok(v) => v,
            Err(e) => {
                return Err(e);
            },
        };
        let _reserved_bit_one = match read_flag(&mut br) {
            Ok(v) => v,
            Err(e) => {
                return Err(e);
            },
        };
        let _reserved_bit_two = match read_flag(&mut br) {
            Ok(v) => v,
            Err(e) => {
                return Err(e);
            },
        };
        let level_idc = match read_bits8(&mut br) {
            Ok(v) => v,
            Err(e) => {
                return Err(e);
            },
        };
        assert(sps_fixed(s) == Ok::<_, AVCError>(
            (
                profile_idc,
                constraint_set0_flag,
                constraint_set1_flag,
                constraint_set2_flag,
                constraint_set3_flag,
                constraint_set4_flag,
                constraint_set5_flag,
                level_idc,
            ),
        ));
        assert(br.pos() == 24);
        let seq_parameter_set_id = match read_ue32(&mut br) {
            Ok(v) => v,
            Err(e) => {
                return Err(e);
            },
        };
        let ghost pa = br.pos();
        let cf = match parse_chroma_group(&mut br, profile_idc) {
            Ok(v) => v,
            Err(e) => {
                return Err(e);
            },
        };
        let log2_max_frame_num_minus4 = match read_ue32(&mut br) {
            Ok(v) => v,
            Err(e) => {
                return Err(e);
            },
        };
        let ghost pc = br.pos();
        let poc = match parse_poc_group(&mut br) {
            Ok(v) => v,
            Err(e) => {
                return Err(e);
            },
        };
        let tail = match parse_tail_group(&mut br) {
            Ok(v) => v,
            Err(e) => {
                return Err(e);
            },
        };
        let ChromaFields {
            chroma_format_idc,
            separate_colour_plane_flag,
            bit_depth_luma_minus8,
            bit_depth_chroma_minus8,
            qpprime_y_zero_transform_bypass_flag,
            seq_scaling_matrix_present_flag,
            seq_scaling_list_present_flag,
        } = cf;
        let PocFields {
            pic_order_cnt_type,
            log2_max_pic_order_cnt_lsb_minus4,
            delta_pic_order_always_zero_flag,
            offset_for_non_ref_pic,
            offset_for_top_to_bottom_field,
            num_ref_frames_in_pic_order_cnt_cycle,
            offset_for_ref_frame,
        } = poc;
        let TailFields {
            max_num_ref_frames,
            gaps_in_frame_num_value_allowed_flag,
            pic_width_in_mbs_minus1,
            pic_height_in_map_units_minus1,
            frame_mbs_only_flag,
            mb_adaptive_frame_field_flag,
            direct_8x8_inference_flag,
            frame_cropping_flag,
            frame_crop_left_offset,
            frame_crop_right_offset,
            frame_crop_top_offset,
            frame_crop_bottom_offset,
            vui_parameters_present_flag,
        } = tail;
        Ok(
            SequenceParameterSetData {
                profile_idc,
                constraint_set0_flag,
                constraint_set1_flag,
                constraint_set2_flag,
                constraint_set3_flag,
                constraint_set4_flag,
                constraint_set5_flag,
                level_idc,
                seq_parameter_set_id,
                chroma_format_idc,
                separate_colour_plane_flag,
                bit_depth_luma_minus8,
                bit_depth_chroma_minus8,
                qpprime_y_zero_transform_bypass_flag,
                seq_scaling_matrix_present_flag,
                seq_scaling_list_present_flag,
                log2_max_frame_num_minus4,
                pic_order_cnt_type,
                log2_max_pic_order_cnt_lsb_minus4,
                delta_pic_order_always_zero_flag,
                offset_for_non_ref_pic,
                offset_for_top_to_bottom_field,
                num_ref_frames_in_pic_order_cnt_cycle,
                offset_for_ref_frame,
                max_num_ref_frames,
                gaps_in_frame_num_value_allowed_flag,
                pic_width_in_mbs_minus1,
                pic_height_in_map_units_minus1,
                frame_mbs_only_flag,
                mb_adaptive_frame_field_flag,
                direct_8x8_inference_flag,
                frame_cropping_flag,
                frame_crop_left_offset,
                frame_crop_right_offset,
                frame_crop_top_offset,
                frame_crop_bottom_offset,
                vui_parameters_present_flag,
            },
        )
    }
}

impl SpsView {
    /// The chroma array type: the chroma format unless colour planes are
    /// coded separately.
    pub open spec fn chroma_array_type_spec(self) -> int {
        if self.chroma.separate_colour_plane_flag == 0 {
            self.chroma.chroma_format_idc as int
        } else {
            0
        }
    }

    /// Horizontal chroma subsampling ratio of the chroma format.
    pub open spec fn sub_width_c_spec(self) -> Result<u8, AVCError> {
        if self.chroma.chroma_format_idc == 1 || self.chroma.chroma_format_idc == 2 {
            Ok(2)
        } else if self.chroma.chroma_format_idc == 3 {
            Ok(1)
        } else {
            Err(AVCError::SubWidthCUndefined)
        }
    }

    /// Vertical chroma subsampling ratio of the chroma format.
    pub open spec fn sub_height_c_spec(self) -> Result<u8, AVCError> {
        if self.chroma.chroma_format_idc == 1 {
            Ok(2)
        } else if self.chroma.chroma_format_idc == 2 || self.chroma.chroma_format_idc == 3 {
            Ok(1)
        } else {
            Err(AVCError::SubHeightCUndefined)
        }
    }

    /// `sub_width_c`, with 1 where it is undefined.
    pub open spec fn sub_width_or_one(self) -> int {
        match self.sub_width_c_spec() {
            Ok(v) => v as int,
            Err(_) => 1,
        }
    }

    /// `sub_height_c`, with 1 where it is undefined.
    pub open spec fn sub_height_or_one(self) -> int {
        match self.sub_height_c_spec() {
            Ok(v) => v as int,
            Err(_) => 1,
        }
    }

    /// Width of a macroblock's chroma sample array: zero only for
    /// monochrome or separately coded colour planes, else sixteen over
    /// the horizontal subsampling ratio.
    pub open spec fn mb_width_c_spec(self) -> int {
        if self.chroma_array_type_spec() == 0 {
            0
        } else {
            16int / self.sub_width_or_one()
        }
    }

    /// Height of a macroblock's chroma sample array: zero only for
    /// monochrome or separately coded colour planes, else sixteen over
    /// the vertical subsampling ratio.
    pub open spec fn mb_height_c_spec(self) -> int {
        if self.chroma_array_type_spec() == 0 {
            0
        } else {
            16int / self.sub_height_or_one()
        }
    }

    /// Picture width in macroblocks.
    pub open spec fn pic_width_in_mbs_spec(self) -> int {
        self.tail.pic_width_in_mbs_minus1 + 1
    }

    /// Picture width in luma samples.
    pub open spec fn pic_width_in_samples_l_spec(self) -> int {
        self.pic_width_in_mbs_spec() * 16
    }

    /// Picture height in map units.
    pub open spec fn pic_height_in_map_units_spec(self) -> int {
        self.tail.pic_height_in_map_units_minus1 + 1
    }

    /// Picture size in map units.
    pub open spec fn pic_size_in_map_units_spec(self) -> int {
        self.pic_width_in_mbs_spec() * self.pic_height_in_map_units_spec()
    }

    /// Frame height in macroblocks: map units count double for field coding.
    pub open spec fn frame_height_in_mbs_spec(self) -> int {
        (2 - self.tail.frame_mbs_only_flag) * self.pic_height_in_map_units_spec()
    }

    /// Horizontal crop unit in luma samples.
    pub open spec fn crop_unit_x_spec(self) -> int {
        if self.chroma_array_type_spec() == 0 {
            1
        } else {
            self.sub_width_or_one()
        }
    }

    /// Vertical crop unit in luma samples.
    pub open spec fn crop_unit_y_spec(self) -> int {
        if self.chroma_array_type_spec() == 0 {
            2 - self.tail.frame_mbs_only_flag
        } else {
            self.sub_height_or_one() * (2 - self.tail.frame_mbs_only_flag)
        }
    }

    /// Decoded frame width: luma samples minus the cropped columns.
    pub open spec fn frame_width_spec(self) -> int {
        self.pic_width_in_samples_l_spec() - self.crop_unit_x_spec() * (
        self.tail.frame_crop_left_offset + self.tail.frame_crop_right_offset)
    }

    /// Decoded frame height: luma rows minus the cropped rows.
    pub open spec fn frame_height_spec(self) -> int {
        16 * self.frame_height_in_mbs_spec() - self.crop_unit_y_spec() * (
        self.tail.frame_crop_top_offset + self.tail.frame_crop_bottom_offset)
    }

    /// The frame geometry can be evaluated: the flag is a single bit, the
    /// sample counts fit the machine word, and the cropping leaves at least
    /// one sample in each direction.
    pub open spec fn resolution_computable(self) -> bool {
        &&& self.tail.frame_mbs_only_flag <= 1
        &&& self.pic_width_in_samples_l_spec() <= usize::MAX
        &&& 16 * self.frame_height_in_mbs_spec() <= usize::MAX
        &&& self.crop_unit_x_spec() * (self.tail.frame_crop_left_offset
            + self.tail.frame_crop_right_offset) + 1 <= self.pic_width_in_samples_l_spec()
        &&& self.crop_unit_y_spec() * (self.tail.frame_crop_top_offset
            + self.tail.frame_crop_bottom_offset) + 1 <= 16 * self.frame_height_in_mbs_spec()
    }
}

impl SequenceParameterSetData {
    /// The chroma array type: the chroma format unless colour planes are
    /// coded separately.
    pub fn chroma_array_type(&self) -> (r: u32)
        ensures
            r == self@.chroma_array_type_spec(),
    {
        if self.separate_colour_plane_flag == 0 {
            self.chroma_format_idc
        } else {
            0
        }
    }

    /// Horizontal chroma subsampling ratio; undefined for monochrome and
    /// reserved formats.
    pub fn sub_width_c(&self) -> (r: Result<u8, AVCError>)
        ensures
            r == self@.sub_width_c_spec(),
    {
        if self.chroma_format_idc == 1 || self.chroma_format_idc == 2 {
            Ok(2)
        } else if self.chroma_format_idc == 3 {
            Ok(1)
        } else {
            Err(AVCError::SubWidthCUndefined)
        }
    }

    /// Vertical chroma subsampling ratio; undefined for monochrome and
    /// reserved formats.
    pub fn sub_height_c(&self) -> (r: Result<u8, AVCError>)
        ensures
            r == self@.sub_height_c_spec(),
    {
        if self.chroma_format_idc == 1 {
            Ok(2)
        } else if self.chroma_format_idc == 2 || self.chroma_format_idc == 3 {
            Ok(1)
        } else {
            Err(AVCError::SubHeightCUndefined)
        }
    }

    /// Width of a macroblock's chroma sample array.
    pub fn mb_width_c(&self) -> (r: u8)
        ensures
            r == self@.mb_width_c_spec(),
    {
        let cat = self.chroma_array_type();
        if cat == 0 {
            0
        } else {
            let sw = match self.sub_width_c() {
                Ok(v) => v,
                Err(_) => 1,
            };
            16 / sw
        }
    }

    /// Height of a macroblock's chroma sample array.
    pub fn mb_height_c(&self) -> (r: u8)
        ensures
            r == self@.mb_height_c_spec(),
    {
        let cat = self.chroma_array_type();
        if cat == 0 {
            0
        } else {
            let sh = match self.sub_height_c() {
                Ok(v) => v,
                Err(_) => 1,
            };
            16 / sh
        }
    }

    /// Picture width in macroblocks.
    pub fn pic_width_in_mbs(&self) -> (r: usize)
        requires
            self.pic_width_in_mbs_minus1 + 1 <= usize::MAX,
        ensures
            r == self@.pic_width_in_mbs_spec(),
    {
        (self.pic_width_in_mbs_minus1 as usize) + 1
    }

    /// Picture width in luma samples.
    pub fn pic_width_in_samples_l(&self) -> (r: usize)
        requires
            (self.pic_width_in_mbs_minus1 + 1) * 16 <= usize::MAX,
        ensures
            r == self@.pic_width_in_samples_l_spec(),
    {
        self.pic_width_in_mbs() * 16
    }

    /// Picture width in chroma samples.
    pub fn pic_width_in_samples_c(&self) -> (r: usize)
        requires
            self.pic_width_in_mbs_minus1 + 1 <= usize::MAX,
            (self.pic_width_in_mbs_minus1 + 1) * self@.mb_width_c_spec() <= usize::MAX,
        ensures
            r == (self.pic_width_in_mbs_minus1 + 1) * self@.mb_width_c_spec(),
    {
        self.pic_width_in_mbs() * (self.mb_width_c() as usize)
    }

    /// Picture height in map units.
    pub fn pic_height_in_map_units(&self) -> (r: usize)
        requires
            self.pic_height_in_map_units_minus1 + 1 <= usize::MAX,
        ensures
            r == self@.pic_height_in_map_units_spec(),
    {
        (self.pic_height_in_map_units_minus1 as usize) + 1
    }

    /// Picture size in map units.
    pub fn pic_size_in_map_units(&self) -> (r: usize)
        requires
            (self.pic_width_in_mbs_minus1 + 1) * (self.pic_height_in_map_units_minus1 + 1)
                <= usize::MAX,
        ensures
            r == self@.pic_size_in_map_units_spec(),
    {
        proof {
            let a = self.pic_width_in_mbs_minus1 + 1;
            let b = self.pic_height_in_map_units_minus1 + 1;
            assert(a <= a * b && b <= a * b) by (nonlinear_arith)
                requires
                    a >= 1 && b >= 1,
            ;
        }
        self.pic_width_in_mbs() * self.pic_height_in_map_units()
    }

    /// Frame height in macroblocks.
    pub fn frame_height_in_mbs(&self) -> (r: usize)
        requires
            self.frame_mbs_only_flag <= 1,
            (2 - self.frame_mbs_only_flag) * (self.pic_height_in_map_units_minus1 + 1)
                <= usize::MAX,
        ensures
            r == self@.frame_height_in_mbs_spec(),
    {
        proof {
            let f = 2 - self.frame_mbs_only_flag;
            let hh = self.pic_height_in_map_units_minus1 + 1;
            assert(hh <= f * hh) by (nonlinear_arith)
                requires
                    f >= 1 && hh >= 0,
            ;
        }
        (2 - self.frame_mbs_only_flag as usize) * self.pic_height_in_map_units()
    }

    /// Horizontal crop unit in luma samples.
    pub fn crop_unit_x(&self) -> (r: usize)
        ensures
            r == self@.crop_unit_x_spec(),
            1 <= r <= 2,
    {
        if self.chroma_array_type() == 0 {
            1
        } else {
            match self.sub_width_c() {
                Ok(v) => v as usize,
                Err(_) => 1,
            }
        }
    }

    /// Vertical crop unit in luma samples.
    pub fn crop_unit_y(&self) -> (r: usize)
        requires
            self.frame_mbs_only_flag <= 1,
        ensures
            r == self@.crop_unit_y_spec(),
            1 <= r <= 4,
    {
        if self.chroma_array_type() == 0 {
            2 - self.frame_mbs_only_flag as usize
        } else {
            let sh = match self.sub_height_c() {
                Ok(v) => v as usize,
                Err(_) => 1,
            };
            proof {
                assert(1 <= sh * (2 - self.frame_mbs_only_flag) <= 4) by (nonlinear_arith)
                    requires
                        1 <= sh <= 2 && 0 <= self.frame_mbs_only_flag <= 1,
                ;
            }
            sh * (2 - self.frame_mbs_only_flag as usize)
        }
    }

    /// Decoded frame width in luma samples after cropping.
    pub fn frame_width(&self) -> (r: usize)
        requires
            self.frame_mbs_only_flag <= 1,
            (self.pic_width_in_mbs_minus1 + 1) * 16 <= usize::MAX,
            self@.crop_unit_x_spec() * (self.frame_crop_left_offset + self.frame_crop_right_offset)
                + 1 <= self@.pic_width_in_samples_l_spec(),
        ensures
            r == self@.frame_width_spec(),
    {
        let cux = self.crop_unit_x();
        proof {
            let c = self@.crop_unit_x_spec();
            let a = self.frame_crop_left_offset as int;
            let b = self.frame_crop_right_offset as int;
            vstd::arithmetic::mul::lemma_mul_is_distributive_add(c, a, b);
            vstd::arithmetic::mul::lemma_mul_nonnegative(c, a);
            vstd::arithmetic::mul::lemma_mul_nonnegative(c, b);
        }
        let x0 = cux * (self.frame_crop_left_offset as usize);
        let x1 = self.pic_width_in_samples_l() - (cux * (self.frame_crop_right_offset as usize)
            + 1);
        x1 - x0 + 1
    }

    /// Decoded frame height in luma samples after cropping.
    pub fn frame_height(&self) -> (r: usize)
        requires
            self.frame_mbs_only_flag <= 1,
            16 * self@.frame_height_in_mbs_spec() <= usize::MAX,
            self@.crop_unit_y_spec() * (self.frame_crop_top_offset + self.frame_crop_bottom_offset)
                + 1 <= 16 * self@.frame_height_in_mbs_spec(),
        ensures
            r == self@.frame_height_spec(),
    {
        let cuy = self.crop_unit_y();
        proof {
            vstd::arithmetic::mul::lemma_mul_nonnegative(
                2 - self.frame_mbs_only_flag,
                self.pic_height_in_map_units_minus1 + 1,
            );
            let c = self@.crop_unit_y_spec();
            let a = self.frame_crop_top_offset as int;
            let b = self.frame_crop_bottom_offset as int;
            vstd::arithmetic::mul::lemma_mul_is_distributive_add(c, a, b);
            vstd::arithmetic::mul::lemma_mul_nonnegative(c, a);
            vstd::arithmetic::mul::lemma_mul_nonnegative(c, b);
        }
        let y0 = cuy * (self.frame_crop_top_offset as usize);
        let y1 = 16 * self.frame_height_in_mbs() - (cuy * (self.frame_crop_bottom_offset as usize)
            + 1);
        y1 - y0 + 1
    }
}

/// Frame resolution from an AVCDecoderConfigurationRecord: the record's
/// first SPS, its payload, the SPS fields, then the cropping arithmetic.
pub open spec fn extract_resolution_spec(packet: Seq<u8>) -> Result<(int, int), AVCError> {
    match avcc_parse(packet) {
        Err(e) => Err(e),
        Ok(rec) => if rec.sequence_parameter_sets.len() == 0 {
            Err(AVCError::ParameterLength)
        } else {
            let nal = rec.sequence_parameter_sets[0];
            if nal.len() == 0 {
                Err(AVCError::ParameterLength)
            } else {
                let t = (nal[0] as int) % 32;
                if t == 14 || t == 20 || t == 21 {
                    Err(AVCError::UnknownNAL(t as u8))
                } else {
                    let rbsp = rbsp_of(nal);
                    if rbsp.len() * 8 > usize::MAX {
                        Err(AVCError::ReadBitsError)
                    } else {
                        match sps_parse(rbsp) {
                            Err(e) => Err(e),
                            Ok(m) => if !m.resolution_computable() {
                                Err(AVCError::ParameterLength)
                            } else {
                                Ok((m.frame_width_spec(), m.frame_height_spec()))
                            },
                        }
                    }
                }
            }
        },
    }
}

/// Frame width and height from the bytes of an
/// AVCDecoderConfigurationRecord, as carried in an FLV AVC sequence header.
#[verifier::rlimit(100)]
pub fn extract_resolution(packet: &[u8]) -> (r: Result<(usize, usize), AVCError>)
    ensures
        match extract_resolution_spec(packet@) {
            Ok(wh) => r matches Ok(p) && p.0 == wh.0 && p.1 == wh.1,
            Err(e) => r == Err::<(usize, usize), AVCError>(e),
        },
{
    let record = match AVCDecoderConfigurationRecord::parse(packet) {
        Ok(v) => v,
        Err(e) => {
            return Err(e);
        },
    };
    if record.sequence_parameter_sets.len() == 0 {
        return Err(AVCError::ParameterLength);
    }
    let nal_bytes: &Vec<u8> = &record.sequence_parameter_sets[0].sequence_parameter_set_nal_unit;
    proof {
        assert(record@.sequence_parameter_sets[0] == nal_bytes@);
    }
    let nal_unit = match NalUnit::parse(nal_bytes.as_slice()) {
        Ok(v) => v,
        Err(e) => {
            return Err(e);
        },
    };
    let sps = match SequenceParameterSetData::parse(nal_unit.rbsp_bytes.as_slice()) {
        Ok(v) => v,
        Err(e) => {
            return Err(e);
        },
    };
    if sps.frame_mbs_only_flag > 1 {
        return Err(AVCError::ParameterLength);
    }
    let samples_l: u64 = ((sps.pic_width_in_mbs_minus1 as u64) + 1) * 16;
    if samples_l > (usize::MAX as u64) {
        return Err(AVCError::ParameterLength);
    }
    let cux = sps.crop_unit_x();
    proof {
        let s2 = (sps.frame_crop_left_offset + sps.frame_crop_right_offset) as int;
        assert((cux as int) * s2 <= 2 * s2) by (nonlinear_arith)
            requires
                cux <= 2 && s2 >= 0,
        ;
    }
    if (cux as u64) * ((sps.frame_crop_left_offset as u64) + (sps.frame_crop_right_offset as u64))
        + 1 > samples_l {
        return Err(AVCError::ParameterLength);
    }
    proof {
        let f = 2 - (sps.frame_mbs_only_flag as int);
        let hh = sps.pic_height_in_map_units_minus1 + 1;
        vstd::arithmetic::mul::lemma_mul_is_associative(16, f, hh);
        assert((16 * f) * hh <= 32 * hh) by (nonlinear_arith)
            requires
                16 * f <= 32 && hh >= 0,
        ;
        vstd::arithmetic::mul::lemma_mul_nonnegative(f, hh);
    }
    let rows: u64 = (16 * (2 - (sps.frame_mbs_only_flag as u64))) * ((sps.pic_height_in_map_units_minus1
        as u64) + 1);
    if rows > (usize::MAX as u64) {
        return Err(AVCError::ParameterLength);
    }
    let cuy = sps.crop_unit_y();
    proof {
        let s2 = (sps.frame_crop_top_offset + sps.frame_crop_bottom_offset) as int;
        assert((cuy as int) * s2 <= 4 * s2) by (nonlinear_arith)
            requires
                cuy <= 4 && s2 >= 0,
        ;
    }
    if (cuy as u64) * ((sps.frame_crop_top_offset as u64) + (sps.frame_crop_bottom_offset as u64))
        + 1 > rows {
        return Err(AVCError::ParameterLength);
    }
    let w = sps.frame_width();
    let h = sps.frame_height();
    Ok((w, h))
}

} // verus!
