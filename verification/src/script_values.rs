//! Script-data value model of the media path: one newtype per AMF0
//! marker, and a body parser that reads the values of a script tag one
//! after another.
//!
//! Unlike the general AMF0 decoder, this reader keeps no reference table
//! and accepts only the flat value kinds; nested objects stay with the
//! general decoder.  String values have their NUL bytes stripped, as the
//! media path does before matching on event names.
use vstd::prelude::*;
use crate::error::Amf0ReadError;
use crate::wire::be16;
use crate::wire::be32;
use crate::wire::be64;
use crate::wire::utf8_ok;

verus! {

/// The marker byte of each script-data value kind.
#[derive(Debug, Clone, Copy, PartialEq, Eq, Structural)]
pub enum ScriptDataType {
    Number,
    Boolean,
    String,
    Object,
    MovieClip,
    Null,
    Undefined,
    Reference,
    EcmaArray,
    ObjectEndMarker,
    StrictArray,
    Date,
    LongString,
}

/// The marker byte of a value kind.
pub open spec fn script_data_type_code(t: ScriptDataType) -> u8 {
    match t {
        ScriptDataType::Number => 0,
        ScriptDataType::Boolean => 1,
        ScriptDataType::String => 2,
        ScriptDataType::Object => 3,
        ScriptDataType::MovieClip => 4,
        ScriptDataType::Null => 5,
        ScriptDataType::Undefined => 6,
        ScriptDataType::Reference => 7,
        ScriptDataType::EcmaArray => 8,
        ScriptDataType::ObjectEndMarker => 9,
        ScriptDataType::StrictArray => 10,
        ScriptDataType::Date => 11,
        ScriptDataType::LongString => 12,
    }
}

impl ScriptDataType {
    /// The marker byte of this kind.
    pub fn code(self) -> (r: u8)
        ensures
            r == script_data_type_code(self),
    {
        match self {
            ScriptDataType::Number => 0,
            ScriptDataType::Boolean => 1,
            ScriptDataType::String => 2,
            ScriptDataType::Object => 3,
            ScriptDataType::MovieClip => 4,
            ScriptDataType::Null => 5,
            ScriptDataType::Undefined => 6,
            ScriptDataType::Reference => 7,
            ScriptDataType::EcmaArray => 8,
            ScriptDataType::ObjectEndMarker => 9,
            ScriptDataType::StrictArray => 10,
            ScriptDataType::Date => 11,
            ScriptDataType::LongString => 12,
        }
    }
}

/// A boolean value.
#[derive(Debug, Clone, Copy, PartialEq, Eq, Structural)]
pub struct ScriptDataBoolean {
    pub value: bool,
}

impl ScriptDataBoolean {
    /// A boolean value.
    pub fn new(value: bool) -> (r: Self)
        ensures
            r.value == value,
    {
        ScriptDataBoolean { value }
    }
}

/// A number, held as the IEEE-754 bit pattern of its eight wire bytes.
#[derive(Debug, Clone, Copy, PartialEq, Eq, Structural)]
pub struct ScriptDataNumber {
    pub value_bits: u64,
}

impl ScriptDataNumber {
    /// A number from its bit pattern.
    pub fn new(value_bits: u64) -> (r: Self)
        ensures
            r.value_bits == value_bits,
    {
        ScriptDataNumber { value_bits }
    }
}

/// A short string of UTF-8 bytes.
#[derive(Debug, Clone, PartialEq, Eq)]
pub struct ScriptDataString {
    pub value: Vec<u8>,
}

impl ScriptDataString {
    /// A string value.
    pub fn new(value: Vec<u8>) -> (r: Self)
        ensures
            r.value@ == value@,
    {
        ScriptDataString { value }
    }
}

/// A long string of UTF-8 bytes.
#[derive(Debug, Clone, PartialEq, Eq)]
pub struct ScriptDataLongString {
    pub value: Vec<u8>,
}

impl ScriptDataLongString {
    /// A long string value.
    pub fn new(value: Vec<u8>) -> (r: Self)
        ensures
            r.value@ == value@,
    {
        ScriptDataLongString { value }
    }
}

/// The null value.
#[derive(Debug, Clone, Copy, PartialEq, Eq, Structural)]
pub struct ScriptDataNull;

/// The undefined value.
#[derive(Debug, Clone, Copy, PartialEq, Eq, Structural)]
pub struct ScriptDataUndefined;

/// A reference index into a decoder's value table.
#[derive(Debug, Clone, Copy, PartialEq, Eq, Structural)]
pub struct ScriptDataReference {
    pub value: u16,
}

impl ScriptDataReference {
    /// A reference to the table slot with this index.
    pub fn new(value: u16) -> (r: Self)
        ensures
            r.value == value,
    {
        ScriptDataReference { value }
    }
}

/// A date, held as the IEEE-754 bit pattern of its millisecond field; the
/// time-zone offset of the wire form is read and discarded.
#[derive(Debug, Clone, Copy, PartialEq, Eq, Structural)]
pub struct ScriptDataDate {
    pub value_bits: u64,
}

impl ScriptDataDate {
    /// A date from the bit pattern of its millisecond field.
    pub fn new(value_bits: u64) -> (r: Self)
        ensures
            r.value_bits == value_bits,
    {
        ScriptDataDate { value_bits }
    }
}

/// An ordered array of values.
#[derive(Debug, PartialEq, Eq)]
pub struct ScriptDataStrictArray {
    pub value: Vec<ScriptDataValue>,
}

/// An ordered map of named values.
#[derive(Debug, PartialEq, Eq)]
pub struct ScriptDataEcmaArray {
    pub value: Vec<(Vec<u8>, ScriptDataValue)>,
}

/// An ordered object of named values.
#[derive(Debug, PartialEq, Eq)]
pub struct ScriptDataObject {
    pub value: Vec<(Vec<u8>, ScriptDataValue)>,
}

/// One script-data value.
#[derive(Debug, PartialEq, Eq)]
pub enum ScriptDataValue {
    Number(ScriptDataNumber),
    Boolean(ScriptDataBoolean),
    String(ScriptDataString),
    Object(ScriptDataObject),
    Null(ScriptDataNull),
    Undefined(ScriptDataUndefined),
    Reference(ScriptDataReference),
    EcmaArray(ScriptDataEcmaArray),
    StrictArray(ScriptDataStrictArray),
    Date(ScriptDataDate),
    LongString(ScriptDataLongString),
}

/// The shape of a script-data value.
#[verifier::ext_equal]
pub enum SvView {
    Number(u64),
    Boolean(bool),
    String(Seq<u8>),
    Object(Seq<(Seq<u8>, SvView)>),
    Null,
    Undefined,
    Reference(u16),
    EcmaArray(Seq<(Seq<u8>, SvView)>),
    StrictArray(Seq<SvView>),
    Date(u64),
    LongString(Seq<u8>),
}

/// The shape of a value.
pub open spec fn sv_view(v: ScriptDataValue) -> SvView
    decreases v,
{
    match v {
        ScriptDataValue::Number(n) => SvView::Number(n.value_bits),
        ScriptDataValue::Boolean(b) => SvView::Boolean(b.value),
        ScriptDataValue::String(s) => SvView::String(s.value@),
        ScriptDataValue::Object(o) => SvView::Object(sv_pairs_view(o.value@)),
        ScriptDataValue::Null(_) => SvView::Null,
        ScriptDataValue::Undefined(_) => SvView::Undefined,
        ScriptDataValue::Reference(x) => SvView::Reference(x.value),
        ScriptDataValue::EcmaArray(e) => SvView::EcmaArray(sv_pairs_view(e.value@)),
        ScriptDataValue::StrictArray(a) => SvView::StrictArray(sv_elems_view(a.value@)),
        ScriptDataValue::Date(d) => SvView::Date(d.value_bits),
        ScriptDataValue::LongString(s) => SvView::LongString(s.value@),
    }
}

/// The shape of a list of named values.
pub open spec fn sv_pairs_view(es: Seq<(Vec<u8>, ScriptDataValue)>) -> Seq<(Seq<u8>, SvView)>
    decreases es,
{
    if es.len() == 0 {
        Seq::empty()
    } else {
        seq![(es[0].0@, sv_view(es[0].1))] + sv_pairs_view(es.drop_first())
    }
}

/// The shape of a list of values.
pub open spec fn sv_elems_view(es: Seq<ScriptDataValue>) -> Seq<SvView>
    decreases es,
{
    if es.len() == 0 {
        Seq::empty()
    } else {
        seq![sv_view(es[0])] + sv_elems_view(es.drop_first())
    }
}

impl View for ScriptDataValue {
    type V = SvView;

    open spec fn view(&self) -> SvView {
        sv_view(*self)
    }
}

impl ScriptDataStrictArray {
    /// An empty array.
    pub fn new() -> (r: Self)
        ensures
            r.value@.len() == 0,
    {
        ScriptDataStrictArray { value: Vec::new() }
    }

    /// Appends one value.
    pub fn push(&mut self, value: ScriptDataValue)
        ensures
            final(self).value@ == old(self).value@.push(value),
    {
        self.value.push(value);
    }
}

impl ScriptDataEcmaArray {
    /// An empty map.
    pub fn new() -> (r: Self)
        ensures
            r.value@.len() == 0,
    {
        ScriptDataEcmaArray { value: Vec::new() }
    }
}

impl ScriptDataObject {
    /// An empty object.
    pub fn new() -> (r: Self)
        ensures
            r.value@.len() == 0,
    {
        ScriptDataObject { value: Vec::new() }
    }
}

/// The bytes of a string with its NUL bytes stripped.
pub open spec fn strip_nul(s: Seq<u8>) -> Seq<u8>
    decreases s.len(),
{
    if s.len() == 0 {
        Seq::empty()
    } else {
        let rest = strip_nul(s.drop_last());
        if s.last() == 0 {
            rest
        } else {
            rest.push(s.last())
        }
    }
}

/// Copies the bytes of a range, leaving out NUL bytes.
fn copy_strip_nul(src: &[u8], from: usize, to: usize) -> (r: Vec<u8>)
    requires
        from <= to <= src@.len(),
    ensures
        r@ == strip_nul(src@.subrange(from as int, to as int)),
{
    let mut out: Vec<u8> = Vec::new();
    let mut i: usize = from;
    while i < to
        invariant
            from <= i <= to <= src@.len(),
            out@ == strip_nul(src@.subrange(from as int, i as int)),
        decreases to - i,
    {
        let ghost before = src@.subrange(from as int, i as int);
        if src[i] != 0 {
            out.push(src[i]);
        }
        proof {
            assert(src@.subrange(from as int, i + 1).drop_last() =~= before);
        }
        i = i + 1;
    }
    out
}

/// The string field at `pos`: a 16-bit length, that many UTF-8 bytes,
/// NULs stripped.  With `expect_object_end_marker`, a zero length must be
/// followed by the end-marker byte.
pub open spec fn spec_read_script_string(s: Seq<u8>, pos: int, expect_end: bool) -> Result<
    (Seq<u8>, int),
    Amf0ReadError,
> {
    if pos < 0 || pos + 2 > s.len() {
        Err(Amf0ReadError::Io)
    } else {
        let n = be16(s, pos);
        if n == 0 {
            if expect_end {
                if pos + 3 > s.len() {
                    Err(Amf0ReadError::Io)
                } else if s[pos + 2] != 9 {
                    Err(Amf0ReadError::UnexpectedObjectEnd)
                } else {
                    Ok((Seq::empty(), pos + 3))
                }
            } else {
                Ok((Seq::empty(), pos + 2))
            }
        } else if pos + 2 + n > s.len() {
            Err(Amf0ReadError::Io)
        } else {
            let bytes = s.subrange(pos + 2, pos + 2 + n);
            if !utf8_ok(bytes) {
                Err(Amf0ReadError::StringParseError)
            } else {
                Ok((strip_nul(bytes), pos + 2 + n))
            }
        }
    }
}

/// Reads a length-prefixed string, stripping NUL bytes.
pub fn read_script_data_string(reader: &[u8], pos: usize, expect_object_end_marker: bool) -> (r:
    Result<(Vec<u8>, usize), Amf0ReadError>)
    ensures
        match spec_read_script_string(reader@, pos as int, expect_object_end_marker) {
            Ok((bytes, p)) => r matches Ok(v) && v.0@ == bytes && v.1 == p,
            Err(e) => r == Err::<(Vec<u8>, usize), _>(e),
        },
{
    if pos > reader.len() || reader.len() - pos < 2 {
        return Err(Amf0ReadError::Io);
    }
    let n = crate::wire::read_be_u16(reader, pos) as usize;
    if n == 0 {
        if expect_object_end_marker {
            if reader.len() - pos < 3 {
                return Err(Amf0ReadError::Io);
            }
            if reader[pos + 2] != 9 {
                return Err(Amf0ReadError::UnexpectedObjectEnd);
            }
            return Ok((Vec::new(), pos + 3));
        }
        return Ok((Vec::new(), pos + 2));
    }
    if reader.len() - (pos + 2) < n {
        return Err(Amf0ReadError::Io);
    }
    let raw = {
        let mut v: Vec<u8> = Vec::new();
        crate::wire::push_bytes(&mut v, reader, pos + 2, pos + 2 + n);
        v
    };
    if !crate::wire::check_utf8(raw.as_slice()) {
        return Err(Amf0ReadError::StringParseError);
    }
    let out = copy_strip_nul(reader, pos + 2, pos + 2 + n);
    Ok((out, pos + 2 + n))
}

/// The long-string field at `pos`: a 32-bit length, that many UTF-8
/// bytes, NULs stripped.
pub open spec fn spec_read_long_string(s: Seq<u8>, pos: int) -> Result<
    (Seq<u8>, int),
    Amf0ReadError,
> {
    if pos < 0 || pos + 4 > s.len() {
        Err(Amf0ReadError::Io)
    } else {
        let n = be32(s, pos);
        if pos + 4 + n > s.len() {
            Err(Amf0ReadError::Io)
        } else {
            let bytes = s.subrange(pos + 4, pos + 4 + n);
            if !utf8_ok(bytes) {
                Err(Amf0ReadError::StringParseError)
            } else {
                Ok((strip_nul(bytes), pos + 4 + n))
            }
        }
    }
}

/// Reads a long string, stripping NUL bytes.
pub fn read_long_string(reader: &[u8], pos: usize) -> (r: Result<(Vec<u8>, usize), Amf0ReadError>)
    ensures
        match spec_read_long_string(reader@, pos as int) {
            Ok((bytes, p)) => r matches Ok(v) && v.0@ == bytes && v.1 == p,
            Err(e) => r == Err::<(Vec<u8>, usize), _>(e),
        },
{
    if pos > reader.len() || reader.len() - pos < 4 {
        return Err(Amf0ReadError::Io);
    }
    let n = crate::wire::read_be_u32(reader, pos) as usize;
    if reader.len() - (pos + 4) < n {
        return Err(Amf0ReadError::Io);
    }
    let raw = {
        let mut v: Vec<u8> = Vec::new();
        crate::wire::push_bytes(&mut v, reader, pos + 4, pos + 4 + n);
        v
    };
    if !crate::wire::check_utf8(raw.as_slice()) {
        return Err(Amf0ReadError::StringParseError);
    }
    let out = copy_strip_nul(reader, pos + 4, pos + 4 + n);
    Ok((out, pos + 4 + n))
}

/// Distance still to walk, clamped at zero.
pub open spec fn sv_rem(s: Seq<u8>, pos: int) -> int {
    if pos <= s.len() {
        s.len() - pos
    } else {
        0
    }
}

/// The flat value at `pos`.  Nested objects and maps belong to the
/// general decoder and are rejected here; a null marker reads as the
/// undefined value, as the media path treats the two alike.
pub open spec fn sv_parse_value(s: Seq<u8>, pos: int) -> Result<(SvView, int), Amf0ReadError>
    decreases sv_rem(s, pos), 0int, 0int,
{
    if pos < 0 || pos + 1 > s.len() {
        Err(Amf0ReadError::Io)
    } else {
        let m = s[pos];
        if m == 0 {
            if pos + 9 > s.len() {
                Err(Amf0ReadError::Io)
            } else {
                Ok((SvView::Number(be64(s, pos + 1) as u64), pos + 9))
            }
        } else if m == 1 {
            if pos + 2 > s.len() {
                Err(Amf0ReadError::Io)
            } else {
                Ok((SvView::Boolean(s[pos + 1] != 0), pos + 2))
            }
        } else if m == 2 {
            match spec_read_script_string(s, pos + 1, false) {
                Err(e) => Err(e),
                Ok((bytes, p)) => Ok((SvView::String(bytes), p)),
            }
        } else if m == 4 {
            Err(Amf0ReadError::Unsupported)
        } else if m == 5 || m == 6 {
            Ok((SvView::Undefined, pos + 1))
        } else if m == 7 {
            if pos + 3 > s.len() {
                Err(Amf0ReadError::Io)
            } else {
                Ok((SvView::Reference(be16(s, pos + 1) as u16), pos + 3))
            }
        } else if m == 9 {
            Err(Amf0ReadError::UnexpectedObjectEnd)
        } else if m == 10 {
            if pos + 5 > s.len() {
                Err(Amf0ReadError::Io)
            } else {
                match sv_parse_elems(s, pos + 5, be32(s, pos + 1), Seq::empty()) {
                    Err(e) => Err(e),
                    Ok((es, p)) => Ok((SvView::StrictArray(es), p)),
                }
            }
        } else if m == 11 {
            if pos + 11 > s.len() {
                Err(Amf0ReadError::Io)
            } else {
                Ok((SvView::Date(be64(s, pos + 1) as u64), pos + 11))
            }
        } else if m == 12 {
            match spec_read_long_string(s, pos + 1) {
                Err(e) => Err(e),
                Ok((bytes, p)) => Ok((SvView::LongString(bytes), p)),
            }
        } else {
            Err(Amf0ReadError::UnknownMarker(m))
        }
    }
}

/// `n` flat array elements from `pos` on, appended to `acc`.
pub open spec fn sv_parse_elems(s: Seq<u8>, pos: int, n: int, acc: Seq<SvView>) -> Result<
    (Seq<SvView>, int),
    Amf0ReadError,
>
    decreases sv_rem(s, pos), 1int, n,
{
    if n <= 0 {
        Ok((acc, pos))
    } else if pos < 0 || pos >= s.len() {
        Err(Amf0ReadError::Io)
    } else {
        match sv_parse_value(s, pos) {
            Err(e) => Err(e),
            Ok((v, p)) => sv_parse_elems(s, crate::amf::bump(p, pos), n - 1, acc.push(v)),
        }
    }
}

/// All values of a script tag body, read until the first fault; the
/// values before it stand.
pub open spec fn sv_parse_body(s: Seq<u8>, pos: int, acc: Seq<SvView>) -> Seq<SvView>
    decreases sv_rem(s, pos),
{
    if pos < 0 || pos >= s.len() {
        acc
    } else {
        match sv_parse_value(s, pos) {
            Err(_) => acc,
            Ok((v, p)) => sv_parse_body(s, crate::amf::bump(p, pos), acc.push(v)),
        }
    }
}

/// The body of a script tag: its values in order.
#[derive(Debug, PartialEq, Eq)]
pub struct ScriptTagBody {
    pub values: Vec<ScriptDataValue>,
}

impl ScriptTagBody {
    /// A body from its values.
    pub fn new(values: Vec<ScriptDataValue>) -> (r: Self)
        ensures
            sv_elems_view(r.values@) == sv_elems_view(values@),
    {
        ScriptTagBody { values }
    }

    /// Reads one flat value at `pos`.
    #[verifier::loop_isolation(false)]
    pub fn parse_value(reader: &[u8], pos: usize) -> (r: Result<
        (ScriptDataValue, usize),
        Amf0ReadError,
    >)
        ensures
            match sv_parse_value(reader@, pos as int) {
                Ok((v, p)) => r matches Ok(x) && sv_view(x.0) == v && x.1 == p && pos < p
                    <= reader@.len(),
                Err(e) => r == Err::<(ScriptDataValue, usize), _>(e),
            },
        decreases reader@.len() - pos, 0int,
    {
        broadcast use vstd::seq_lib::group_seq_properties;

        if pos >= reader.len() {
            return Err(Amf0ReadError::Io);
        }
        let m = reader[pos];
        if m == 0 {
            if reader.len() - pos < 9 {
                return Err(Amf0ReadError::Io);
            }
            let bits = crate::wire::read_be_u64(reader, pos + 1);
            Ok((ScriptDataValue::Number(ScriptDataNumber::new(bits)), pos + 9))
        } else if m == 1 {
            if reader.len() - pos < 2 {
                return Err(Amf0ReadError::Io);
            }
            Ok((ScriptDataValue::Boolean(ScriptDataBoolean::new(reader[pos + 1] != 0)), pos + 2))
        } else if m == 2 {
            match read_script_data_string(reader, pos + 1, false) {
                Err(e) => Err(e),
                Ok((bytes, p)) => Ok((ScriptDataValue::String(ScriptDataString::new(bytes)), p)),
            }
        } else if m == 4 {
            Err(Amf0ReadError::Unsupported)
        } else if m == 5 || m == 6 {
            Ok((ScriptDataValue::Undefined(ScriptDataUndefined), pos + 1))
        } else if m == 7 {
            if reader.len() - pos < 3 {
                return Err(Amf0ReadError::Io);
            }
            let idx = crate::wire::read_be_u16(reader, pos + 1);
            Ok((ScriptDataValue::Reference(ScriptDataReference::new(idx)), pos + 3))
        } else if m == 9 {
            Err(Amf0ReadError::UnexpectedObjectEnd)
        } else if m == 10 {
            if reader.len() - pos < 5 {
                return Err(Amf0ReadError::Io);
            }
            let n = crate::wire::read_be_u32(reader, pos + 1);
            let mut array = ScriptDataStrictArray::new();
            let mut i: u32 = 0;
            let mut cur: usize = pos + 5;
            proof {
                assert(sv_elems_view(array.value@) =~= Seq::<SvView>::empty());
            }
            while i < n
                invariant
                    pos + 5 <= cur,
                    i > 0 ==> cur <= reader@.len(),
                    i == 0 ==> cur == pos + 5,
                    i <= n,
                    pos + 5 <= reader@.len(),
                    match sv_parse_elems(reader@, cur as int, n - i, sv_elems_view(array.value@)) {
                        Ok((es, p)) => sv_parse_elems(
                            reader@,
                            pos + 5,
                            n as int,
                            Seq::empty(),
                        ) == Ok::<(Seq<SvView>, int), Amf0ReadError>((es, p)),
                        Err(e) => sv_parse_elems(reader@, pos + 5, n as int, Seq::empty())
                            == Err::<(Seq<SvView>, int), Amf0ReadError>(e),
                    },
                decreases n - i,
            {
                if cur >= reader.len() {
                    return Err(Amf0ReadError::Io);
                }
                let (v, p) = match Self::parse_value(reader, cur) {
                    Ok(x) => x,
                    Err(e) => {
                        return Err(e);
                    },
                };
                proof {
                    crate::script_values::lemma_sv_elems_view_push(array.value@, v);
                }
                array.push(v);
                cur = p;
                i = i + 1;
            }
            Ok((ScriptDataValue::StrictArray(array), cur))
        } else if m == 11 {
            if reader.len() - pos < 11 {
                return Err(Amf0ReadError::Io);
            }
            let bits = crate::wire::read_be_u64(reader, pos + 1);
            Ok((ScriptDataValue::Date(ScriptDataDate::new(bits)), pos + 11))
        } else if m == 12 {
            match read_long_string(reader, pos + 1) {
                Err(e) => Err(e),
                Ok((bytes, p)) => Ok(
                    (ScriptDataValue::LongString(ScriptDataLongString::new(bytes)), p),
                ),
            }
        } else {
            Err(Amf0ReadError::UnknownMarker(m))
        }
    }

    /// Reads a whole body: values until the buffer ends or a value
    /// faults; what was read before the fault stands.
    #[verifier::loop_isolation(false)]
    pub fn parse(reader: &[u8]) -> (r: ScriptTagBody)
        ensures
            sv_elems_view(r.values@) == sv_parse_body(reader@, 0, Seq::empty()),
    {
        let mut values: Vec<ScriptDataValue> = Vec::new();
        let mut pos: usize = 0;
        proof {
            assert(sv_elems_view(values@) =~= Seq::<SvView>::empty());
        }
        while pos < reader.len()
            invariant
                pos <= reader@.len() || reader@.len() == 0,
                sv_parse_body(reader@, 0, Seq::empty()) == sv_parse_body(
                    reader@,
                    pos as int,
                    sv_elems_view(values@),
                ),
            decreases reader@.len() - pos,
        {
            let (v, p) = match Self::parse_value(reader, pos) {
                Ok(x) => x,
                Err(_) => {
                    return ScriptTagBody { values };
                },
            };
            proof {
                crate::script_values::lemma_sv_elems_view_push(values@, v);
            }
            values.push(v);
            pos = p;
        }
        ScriptTagBody { values }
    }

    /// The metadata map: the second value of the body, when it is an
    /// ECMA array.
    pub fn get_metadata_value(&self) -> (r: Option<&ScriptDataEcmaArray>)
        ensures
            match r {
                Some(e) => self.values@.len() > 1 && sv_view(self.values@[1])
                    == SvView::EcmaArray(sv_pairs_view(e.value@)),
                None => self.values@.len() <= 1 || !(sv_view(self.values@[1]) is EcmaArray),
            },
    {
        if self.values.len() > 1 {
            match &self.values[1] {
                ScriptDataValue::EcmaArray(e) => Some(e),
                _ => None,
            }
        } else {
            None
        }
    }
}

/// `sv_elems_view` maps the values one for one.
pub proof fn lemma_sv_elems_view(es: Seq<ScriptDataValue>)
    ensures
        sv_elems_view(es).len() == es.len(),
        forall|i: int| 0 <= i < es.len() ==> #[trigger] sv_elems_view(es)[i] == sv_view(es[i]),
    decreases es,
{
    if es.len() != 0 {
        lemma_sv_elems_view(es.drop_first());
        assert forall|i: int|
            0 <= i < es.len() implies #[trigger] sv_elems_view(es)[i] == sv_view(es[i]) by {
            if i > 0 {
                assert(es.drop_first()[i - 1] == es[i]);
            }
        }
    }
}

/// Appending a value appends its shape.
pub proof fn lemma_sv_elems_view_push(es: Seq<ScriptDataValue>, v: ScriptDataValue)
    ensures
        sv_elems_view(es.push(v)) == sv_elems_view(es).push(sv_view(v)),
{
    lemma_sv_elems_view(es.push(v));
    lemma_sv_elems_view(es);
    assert(sv_elems_view(es.push(v)) =~~= sv_elems_view(es).push(sv_view(v)));
}

} // verus!
