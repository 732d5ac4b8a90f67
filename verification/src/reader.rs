//! Incremental, resumable FLV reader: bytes from the live stream are fed
//! into an internal buffer, and `read_next_tag` either yields one complete
//! tag, asks for more input (`Incomplete`), or reports a malformed stream.
//!
//! No partial tag is ever surfaced: on `Incomplete` the buffer is left
//! exactly as it was, so the caller may feed more bytes and retry from the
//! same position.
use vstd::prelude::*;
use crate::error::TagReaderError;
use crate::parser::Tag;
use crate::parser::TagType;
use crate::parser::TagView;
use crate::parser::spec_script_data;
use crate::parser::spec_tag_data;
use crate::parser::spec_tag_header;
use crate::parser::tag_type_of;
use crate::wire::be24;
use crate::wire::be32;

verus! {

/// What one read step does with the buffered bytes.
pub enum ReadOutcome {
    /// More input is needed; nothing is consumed.
    More,
    /// The 9-byte file header or the leading previous-tag-size is
    /// malformed: wrong signature, wrong version, or a nonzero field.
    BadFileHeader,
    /// A tag type byte outside the audio, video and script set.
    BadTagType(u8),
    /// A payload whose flag bytes are malformed.
    BadPayload,
    /// A trailing previous-tag-size that contradicts the tag length; the
    /// value is the offset of the field in the buffer.
    BadPrevSize(int),
    /// A script payload that does not decode as an AMF0 name and value.
    BadScript,
    /// One tag, and the bytes remaining after it.
    Got(TagView, Seq<u8>),
}

/// One read step over a buffer holding a tag at its start.
pub open spec fn spec_read_tag(s: Seq<u8>) -> ReadOutcome {
    if s.len() == 0 {
        ReadOutcome::More
    } else if tag_type_of(s[0]) is None {
        ReadOutcome::BadTagType(s[0])
    } else if s.len() < 11 {
        ReadOutcome::More
    } else {
        let size = be24(s, 1);
        if s.len() < 11 + size {
            ReadOutcome::More
        } else {
            let h = spec_tag_header(s)->Some_0.0;
            let payload = s.subrange(11, 11 + size);
            match spec_tag_data(h.tag_type, payload, size) {
                None => ReadOutcome::BadPayload,
                Some(d) => if s.len() < 11 + size + 4 {
                    ReadOutcome::More
                } else if be32(s, 11 + size) != 11 + size {
                    ReadOutcome::BadPrevSize(11 + size)
                } else if h.tag_type == TagType::Script && spec_script_data(payload) is None {
                    ReadOutcome::BadScript
                } else {
                    ReadOutcome::Got(
                        TagView { header: h, data: d, payload },
                        s.skip(11 + size + 4),
                    )
                },
            }
        }
    }
}

/// One read step from the start of the stream: the 9-byte file header
/// with the `FLV` signature and version 1, then a zero previous-tag-size,
/// then the first tag.  A signature or version byte that contradicts the
/// format is a fault however short the buffer is.
pub open spec fn spec_read(started: bool, s: Seq<u8>) -> ReadOutcome {
    if started {
        spec_read_tag(s)
    } else {
        if (s.len() > 0 && s[0] != 0x46) || (s.len() > 1 && s[1] != 0x4c) || (s.len() > 2 && s[2]
            != 0x56) || (s.len() > 3 && s[3] != 0x01) {
            ReadOutcome::BadFileHeader
        } else if s.len() < 13 {
            ReadOutcome::More
        } else if be32(s, 9) != 0 {
            ReadOutcome::BadFileHeader
        } else {
            spec_read_tag(s.skip(13))
        }
    }
}

/// Incremental FLV reader over a growable internal buffer.
pub struct FlvTagPipeReader {
    file_header: bool,
    buffer: Vec<u8>,
}

impl FlvTagPipeReader {
    /// Whether the file header has already been consumed.
    pub closed spec fn started(&self) -> bool {
        self.file_header
    }

    /// The bytes buffered and not yet consumed.
    pub closed spec fn buf(&self) -> Seq<u8> {
        self.buffer@
    }

    /// A reader awaiting the file header.
    pub fn new() -> (r: Self)
        ensures
            !r.started(),
            r.buf() == Seq::<u8>::empty(),
    {
        FlvTagPipeReader { file_header: false, buffer: Vec::new() }
    }

    /// Feeds bytes read from the stream into the buffer.
    pub fn feed(&mut self, bytes: &[u8])
        ensures
            final(self).started() == old(self).started(),
            final(self).buf() == old(self).buf() + bytes@,
    {
        crate::wire::push_bytes(&mut self.buffer, bytes, 0, bytes.len());
        proof {
            assert(bytes@.subrange(0, bytes@.len() as int) =~= bytes@);
        }
    }

    /// How many bytes are buffered; at a clean end of stream this is zero.
    pub fn buffered_len(&self) -> (r: usize)
        ensures
            r == self.buf().len(),
    {
        self.buffer.len()
    }

    /// Reads the next complete tag from the buffer.  On the first success
    /// the 9-byte file header and its zero previous-tag-size are checked
    /// and consumed first.  A script payload must decode as an AMF0 name
    /// and value.  `Incomplete` leaves the buffer untouched.
    #[verifier::rlimit(60)]
    pub fn read_next_tag(&mut self) -> (r: Result<Tag, TagReaderError>)
        ensures
            match spec_read(old(self).started(), old(self).buf()) {
                ReadOutcome::More => r == Err::<Tag, _>(TagReaderError::Incomplete) && final(self).buf() == old(self).buf() && final(self).started() == old(self).started(),
                ReadOutcome::BadFileHeader => (r matches Err(
                    TagReaderError::ParseFileHeaderError(_),
                )) && final(self).buf() == old(self).buf() && final(self).started() == old(self).started(),
                ReadOutcome::BadTagType(b) => r == Err::<Tag, _>(TagReaderError::UnknownTagType(b))
                    && final(self).buf() == old(self).buf() && final(self).started() == old(self).started(),
                ReadOutcome::BadPayload => r == Err::<Tag, _>(TagReaderError::ParseError(0))
                    && final(self).buf() == old(self).buf() && final(self).started() == old(self).started(),
                ReadOutcome::BadPrevSize(off) => r == Err::<Tag, _>(
                    TagReaderError::ParseError(off as usize),
                ) && final(self).buf() == old(self).buf() && final(self).started() == old(self).started(),
                ReadOutcome::BadScript => (r matches Err(TagReaderError::AmfParseError(_)))
                    && final(self).buf() == old(self).buf() && final(self).started() == old(self).started(),
                ReadOutcome::Got(t, rest) => (r matches Ok(tag) && tag@ == t && final(self).buf()
                    == rest && final(self).started()),
            },
    {
        let mut start: usize = 0;
        if !self.file_header {
            if self.buffer.len() > 0 && self.buffer[0] != 0x46 {
                return Err(TagReaderError::ParseFileHeaderError(file_header_note()));
            }
            if self.buffer.len() > 1 && self.buffer[1] != 0x4c {
                return Err(TagReaderError::ParseFileHeaderError(file_header_note()));
            }
            if self.buffer.len() > 2 && self.buffer[2] != 0x56 {
                return Err(TagReaderError::ParseFileHeaderError(file_header_note()));
            }
            if self.buffer.len() > 3 && self.buffer[3] != 0x01 {
                return Err(TagReaderError::ParseFileHeaderError(file_header_note()));
            }
            if self.buffer.len() < 13 {
                return Err(TagReaderError::Incomplete);
            }
            if crate::wire::read_be_u32(self.buffer.as_slice(), 9) != 0 {
                return Err(TagReaderError::ParseFileHeaderError(file_header_note()));
            }
            start = 13;
        }
        let ghost s = self.buf().skip(start as int);
        proof {
            if self.started() {
                assert(self.buf().skip(0) =~= self.buf());
            }
        }
        let n = self.buffer.len() - start;
        if n == 0 {
            return Err(TagReaderError::Incomplete);
        }
        let b0 = self.buffer[start];
        if !(b0 == 8 || b0 == 9 || b0 == 18) {
            return Err(TagReaderError::UnknownTagType(b0));
        }
        if n < 11 {
            return Err(TagReaderError::Incomplete);
        }
        let size = crate::wire::read_be_u24(self.buffer.as_slice(), start + 1) as usize;
        if n - 11 < size {
            return Err(TagReaderError::Incomplete);
        }
        if size == 0 && b0 != 18 {
            return Err(TagReaderError::ParseError(0));
        }
        let mut rest: Vec<u8> = Vec::new();
        crate::wire::push_bytes(&mut rest, self.buffer.as_slice(), start, self.buffer.len());
        let (tag, consumed) = match crate::parser::complete_tag(rest.as_slice()) {
            Ok(p) => p,
            Err(TagReaderError::Incomplete) => {
                return Err(TagReaderError::Incomplete);
            },
            Err(e) => {
                return Err(e);
            },
        };
        if n - consumed < 4 {
            return Err(TagReaderError::Incomplete);
        }
        let prev = crate::wire::read_be_u32(rest.as_slice(), consumed);
        if prev as usize != consumed {
            return Err(TagReaderError::ParseError(consumed));
        }
        if b0 == 18 {
            match crate::parser::script_data(tag.payload.as_slice()) {
                Ok(_) => {},
                Err(_) => {
                    return Err(TagReaderError::AmfParseError(script_note()));
                },
            }
        }
        let mut remaining: Vec<u8> = Vec::new();
        crate::wire::push_bytes(
            &mut remaining,
            self.buffer.as_slice(),
            start + consumed + 4,
            self.buffer.len(),
        );
        proof {
            assert(remaining@ =~= s.skip(consumed + 4));
        }
        self.buffer = remaining;
        self.file_header = true;
        Ok(tag)
    }
}

/// The note carried by a malformed file header.
fn file_header_note() -> String {
    "malformed FLV file header".to_string()
}

/// The note carried by a script payload that is not an AMF0 pair.
fn script_note() -> String {
    "script payload is not an AMF0 name and value".to_string()
}

/// A buffer at least nine bytes long that does not begin with `FLV` or
/// whose version byte is not one is always a file-header fault, never
/// `Incomplete`.
pub proof fn lemma_header_fault_never_incomplete(s: Seq<u8>)
    requires
        s.len() >= 9,
        s[0] != 0x46 || s[1] != 0x4c || s[2] != 0x56 || s[3] != 0x01,
    ensures
        spec_read(false, s) == ReadOutcome::BadFileHeader,
{
}

/// Feeding a complete tag's bytes one at a time yields `Incomplete` at
/// every proper prefix of what the full read consumes, and the full read
/// yields exactly one tag with nothing dropped or duplicated: the
/// remainder is exactly the bytes beyond the consumed prefix.
pub proof fn lemma_incremental_read(started: bool, s: Seq<u8>, n: int)
    requires
        spec_read(started, s) matches ReadOutcome::Got(t, rest),
        0 <= n < s.len() - (spec_read(started, s)->Got_1.len()),
    ensures
        spec_read(started, s)->Got_1 == s.skip(
            s.len() - (spec_read(started, s)->Got_1.len() as int),
        ),
        spec_read(started, s.take(n)) == ReadOutcome::More,
{
    let rest = spec_read(started, s)->Got_1;
    let p = s.take(n);
    if started {
        lemma_incremental_read_tag(s, n);
        assert(spec_read_tag(s)->Got_1 =~= s.skip(s.len() - (spec_read_tag(s)->Got_1.len() as int)));
    } else {
        assert(s.len() >= 13);
        assert(be32(s, 9) == 0);
        assert(forall|i: int| 0 <= i < n ==> p[i] == s[i]);
        if n < 13 {
            assert(spec_read(false, p) == ReadOutcome::More);
        } else {
            let s2 = s.skip(13);
            let p2 = p.skip(13);
            assert(p2 =~= s2.take(n - 13));
            lemma_incremental_read_tag(s2, n - 13);
            assert(spec_read(false, p) == spec_read_tag(p2));
        }
        assert(spec_read_tag(s.skip(13))->Got_1 =~= s.skip(
            s.len() - (spec_read_tag(s.skip(13))->Got_1.len() as int),
        )) by {
            lemma_incremental_read_tag(s.skip(13), 0);
        }
    }
}

/// Round trip through the reader: the serialized form of a well-formed
/// tag, followed by anything, reads back as exactly that tag with the
/// trailing bytes untouched.  For a script tag the payload must hold an
/// AMF0 name and value, as the reader checks it.
pub proof fn lemma_reader_roundtrip(t: TagView, rest: Seq<u8>)
    requires
        crate::writer::wf_tag(t),
        t.header.tag_type == TagType::Script ==> spec_script_data(t.payload) is Some,
    ensures
        spec_read_tag(crate::writer::tag_bytes(t) + rest) == ReadOutcome::Got(t, rest),
{
    let s = crate::writer::tag_bytes(t) + rest;
    let size = t.payload.len() as int;
    assert(crate::writer::tag_header_bytes(t.header) + (t.payload + crate::wire::u32_be_bytes((11
        + t.payload.len()) as u32) + rest) =~= s);
    crate::writer::lemma_tag_header_roundtrip(
        t.header,
        t.payload + crate::wire::u32_be_bytes((11 + t.payload.len()) as u32) + rest,
    );
    assert(spec_tag_header(s) == Some((t.header, 11int)));
    assert(tag_type_of(s[0]) is Some);
    assert(be24(s, 1) == size);
    assert(s.subrange(11, 11 + size) =~= t.payload);
    crate::wire::lemma_u32_be_roundtrip((11 + t.payload.len()) as u32);
    assert(s[11 + size] == crate::wire::u32_be_bytes((11 + t.payload.len()) as u32)[0] && s[12
        + size] == crate::wire::u32_be_bytes((11 + t.payload.len()) as u32)[1] && s[13 + size]
        == crate::wire::u32_be_bytes((11 + t.payload.len()) as u32)[2] && s[14 + size]
        == crate::wire::u32_be_bytes((11 + t.payload.len()) as u32)[3]);
    assert(be32(s, 11 + size) == 11 + size);
    assert(s.skip(11 + size + 4) =~= rest);
}

/// The tag-level half of the incremental-read law.
pub proof fn lemma_incremental_read_tag(s: Seq<u8>, n: int)
    requires
        spec_read_tag(s) matches ReadOutcome::Got(t, rest),
        0 <= n < s.len() - (spec_read_tag(s)->Got_1.len()),
    ensures
        spec_read_tag(s)->Got_1 == s.skip(s.len() - (spec_read_tag(s)->Got_1.len() as int)),
        spec_read_tag(s.take(n)) == ReadOutcome::More,
{
    let size = be24(s, 1);
    let consumed = 11 + size + 4;
    let rest = spec_read_tag(s)->Got_1;
    assert(rest == s.skip(consumed));
    assert(rest.len() == s.len() - consumed);
    let p = s.take(n);
    assert(forall|i: int| 0 <= i < n ==> p[i] == s[i]);
    if n == 0 {
    } else {
        assert(tag_type_of(p[0]) is Some);
        if n < 11 {
        } else {
            assert(be24(p, 1) == size);
            assert(p.len() < 11 + size + 4);
            if p.len() < 11 + size {
            } else {
                let payload = s.subrange(11, 11 + size);
                let ppayload = p.subrange(11, 11 + size);
                assert(ppayload =~= payload);
                assert(spec_tag_header(p)->Some_0.0 == spec_tag_header(s)->Some_0.0);
            }
        }
    }
}

} // verus!
