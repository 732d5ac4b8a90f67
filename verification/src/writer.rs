//! FLV writer: serializes file header, tag headers, payloads and the
//! trailing previous-tag-size fields, byte-exactly as the parser reads
//! them.  The round-trip lemma at the end ties the two directions.
use vstd::prelude::*;
use crate::parser::Tag;
use crate::parser::TagHeader;
use crate::parser::TagView;
use crate::parser::spec_complete_tag;
use crate::parser::spec_tag_data;
use crate::parser::spec_tag_header;
use crate::parser::tag_type_byte;
use crate::parser::tag_type_of;
use crate::wire::be24;
use crate::wire::u24_be_bytes;
use crate::wire::u32_be_bytes;

verus! {

/// The nine bytes that open every FLV file: signature, version 1, audio
/// and video flags, and the header size.
pub open spec fn flv_file_header() -> Seq<u8> {
    seq![0x46u8, 0x4cu8, 0x56u8, 0x01u8, 0x05u8, 0x00u8, 0x00u8, 0x00u8, 0x09u8]
}

/// The eleven header bytes of a tag.  The stream id is written as zero,
/// as this profile requires.
pub open spec fn tag_header_bytes(h: TagHeader) -> Seq<u8> {
    seq![tag_type_byte(h.tag_type)] + u24_be_bytes(h.data_size) + u24_be_bytes(
        (h.timestamp % 0x1000000) as u32,
    ) + seq![(h.timestamp / 0x1000000) as u8] + u24_be_bytes(0)
}

/// The full serialization of a tag: header, payload, then the four-byte
/// previous-tag-size field holding eleven plus the payload length.
pub open spec fn tag_bytes(t: TagView) -> Seq<u8> {
    tag_header_bytes(t.header) + t.payload + u32_be_bytes((11 + t.payload.len()) as u32)
}

/// A tag that the writer can serialize and the reader will give back: the
/// stored size matches the payload and fits 24 bits, the stream id is
/// zero, and the parsed payload matches the raw bytes.
pub open spec fn wf_tag(t: TagView) -> bool {
    &&& t.header.data_size == t.payload.len()
    &&& t.payload.len() < 0x1000000
    &&& t.header.stream_id == 0
    &&& spec_tag_data(t.header.tag_type, t.payload, t.payload.len() as int) == Some(t.data)
}

/// FLV muxer writing into an in-memory buffer.
pub struct FlvWriterMuxer {
    pub writer: Vec<u8>,
}

impl FlvWriterMuxer {
    /// A muxer over the given buffer; written bytes are appended.
    pub fn new(writer: Vec<u8>) -> (r: Self)
        ensures
            r.writer@ == writer@,
    {
        Self { writer }
    }

    /// Writes the low 24 bits of a value, big-endian.
    pub fn write_u24(&mut self, value: u32)
        ensures
            final(self).writer@ == old(self).writer@ + u24_be_bytes(value),
    {
        crate::wire::push_be_u24(&mut self.writer, value);
    }

    /// Writes the nine-byte FLV file header.
    pub fn write_flv_file_header(&mut self)
        ensures
            final(self).writer@ == old(self).writer@ + flv_file_header(),
    {
        self.writer.push(0x46);
        self.writer.push(0x4c);
        self.writer.push(0x56);
        self.writer.push(0x01);
        self.writer.push(0x05);
        self.writer.push(0x00);
        self.writer.push(0x00);
        self.writer.push(0x00);
        self.writer.push(0x09);
        proof {
            assert(self.writer@ =~= old(self).writer@ + flv_file_header());
        }
    }

    /// Writes the eleven header bytes of a tag: type, payload size, split
    /// timestamp, zero stream id.
    pub fn write_flv_header(&mut self, tag_type: u8, data_size: u32, timestamp: u32)
        ensures
            final(self).writer@ == old(self).writer@ + seq![tag_type] + u24_be_bytes(data_size)
                + u24_be_bytes((timestamp % 0x1000000) as u32) + seq![
                (timestamp / 0x1000000) as u8,
            ] + u24_be_bytes(0),
    {
        self.writer.push(tag_type);
        crate::wire::push_be_u24(&mut self.writer, data_size);
        crate::wire::push_be_u24(&mut self.writer, timestamp % 0x1000000);
        self.writer.push((timestamp / 0x1000000) as u8);
        crate::wire::push_be_u24(&mut self.writer, 0);
        proof {
            assert(self.writer@ =~= old(self).writer@ + seq![tag_type] + u24_be_bytes(data_size)
                + u24_be_bytes((timestamp % 0x1000000) as u32) + seq![
                (timestamp / 0x1000000) as u8,
            ] + u24_be_bytes(0));
        }
    }

    /// Writes a tag payload.
    pub fn write_flv_tag_body(&mut self, body: &[u8])
        ensures
            final(self).writer@ == old(self).writer@ + body@,
    {
        crate::wire::push_bytes(&mut self.writer, body, 0, body.len());
        proof {
            assert(body@.subrange(0, body@.len() as int) =~= body@);
        }
    }

    /// Writes a four-byte previous-tag-size field.
    pub fn write_previous_tag_size(&mut self, size: u32)
        ensures
            final(self).writer@ == old(self).writer@ + u32_be_bytes(size),
    {
        crate::wire::push_be_u32(&mut self.writer, size);
    }

    /// Writes one whole tag: header, payload, previous-tag-size.
    pub fn write_tag(&mut self, tag: &Tag)
        requires
            tag@.header.data_size == tag@.payload.len(),
            tag@.payload.len() < 0x1000000,
        ensures
            final(self).writer@ == old(self).writer@ + tag_bytes(tag@),
    {
        let b = match tag.header.tag_type {
            crate::parser::TagType::Audio => 8u8,
            crate::parser::TagType::Video => 9u8,
            crate::parser::TagType::Script => 18u8,
        };
        self.write_flv_header(b, tag.header.data_size, tag.header.timestamp);
        self.write_flv_tag_body(tag.payload.as_slice());
        self.write_previous_tag_size(11 + tag.header.data_size);
        proof {
            assert(self.writer@ =~= old(self).writer@ + tag_bytes(tag@));
        }
    }
}

/// Reading back the eleven header bytes gives the header: the serialized
/// form followed by anything parses to the same fields.
pub proof fn lemma_tag_header_roundtrip(h: TagHeader, rest: Seq<u8>)
    requires
        h.data_size < 0x1000000,
        h.stream_id == 0,
    ensures
        spec_tag_header(tag_header_bytes(h) + rest) == Some((h, 11int)),
{
    let s = tag_header_bytes(h) + rest;
    assert(s[0] == tag_type_byte(h.tag_type));
    assert(tag_type_of(s[0]) == Some(h.tag_type));
    crate::wire::lemma_u24_be_roundtrip(h.data_size);
    assert(s[1] == u24_be_bytes(h.data_size)[0] && s[2] == u24_be_bytes(h.data_size)[1] && s[3]
        == u24_be_bytes(h.data_size)[2]);
    assert(be24(s, 1) == be24(u24_be_bytes(h.data_size), 0));
    let low = (h.timestamp % 0x1000000) as u32;
    crate::wire::lemma_u24_be_roundtrip(low);
    assert(s[4] == u24_be_bytes(low)[0] && s[5] == u24_be_bytes(low)[1] && s[6] == u24_be_bytes(
        low,
    )[2]);
    assert(be24(s, 4) == be24(u24_be_bytes(low), 0));
    assert(s[7] == (h.timestamp / 0x1000000) as u8);
    assert((h.timestamp / 0x1000000) < 0x100);
    assert((s[7] as int) * 0x1000000 + be24(s, 4) == h.timestamp) by {
        vstd::arithmetic::div_mod::lemma_fundamental_div_mod(h.timestamp as int, 0x1000000);
    }
    crate::wire::lemma_u24_be_roundtrip(0);
    assert(s[8] == u24_be_bytes(0)[0] && s[9] == u24_be_bytes(0)[1] && s[10] == u24_be_bytes(0)[2]);
    assert(be24(s, 8) == 0);
}

/// Round trip of the tag codec: serializing a well-formed tag and parsing
/// the bytes gives the same tag back, consuming exactly its bytes; hence
/// re-serializing the parsed tag reproduces the bytes.
pub proof fn lemma_tag_roundtrip(t: TagView)
    requires
        wf_tag(t),
    ensures
        spec_complete_tag(tag_bytes(t)) == Some((t, 11 + t.payload.len() as int)),
        (spec_complete_tag(tag_bytes(t)) matches Some((t2, _)) && tag_bytes(t2) == tag_bytes(t)),
{
    let s = tag_bytes(t);
    let h = t.header;
    let size = t.payload.len() as int;
    assert(s.len() == 11 + size + 4);
    assert(s[0] == tag_type_byte(h.tag_type));
    assert(tag_type_of(s[0]) == Some(h.tag_type));
    assert(s[1] == u24_be_bytes(h.data_size)[0] && s[2] == u24_be_bytes(h.data_size)[1] && s[3]
        == u24_be_bytes(h.data_size)[2]);
    crate::wire::lemma_u24_be_roundtrip(h.data_size);
    assert(be24(s, 1) == be24(u24_be_bytes(h.data_size), 0));
    let low = (h.timestamp % 0x1000000) as u32;
    crate::wire::lemma_u24_be_roundtrip(low);
    assert(s[4] == u24_be_bytes(low)[0] && s[5] == u24_be_bytes(low)[1] && s[6] == u24_be_bytes(
        low,
    )[2]);
    assert(be24(s, 4) == be24(u24_be_bytes(low), 0));
    assert(s[7] == (h.timestamp / 0x1000000) as u8);
    assert((h.timestamp / 0x1000000) < 0x100);
    assert((s[7] as int) * 0x1000000 + be24(s, 4) == h.timestamp) by {
        vstd::arithmetic::div_mod::lemma_fundamental_div_mod(h.timestamp as int, 0x1000000);
    }
    crate::wire::lemma_u24_be_roundtrip(0);
    assert(s[8] == u24_be_bytes(0)[0] && s[9] == u24_be_bytes(0)[1] && s[10] == u24_be_bytes(0)[2]);
    assert(be24(s, 8) == 0);
    assert(spec_tag_header(s) == Some((h, 11int)));
    assert(s.subrange(11, 11 + size) =~= t.payload);
    assert(spec_complete_tag(s) == Some((TagView { header: h, data: t.data, payload: t.payload }, 11
        + size)));
    assert(TagView { header: h, data: t.data, payload: t.payload } == t);
}

} // verus!
