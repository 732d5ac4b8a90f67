//! AMF0 value codec: a marker-driven binary serialization of numbers,
//! strings, objects, arrays and dates, used inside FLV script-data tags.
//!
//! Values are modelled on raw bytes: a `Number` holds the eight wire bytes
//! of its IEEE-754 value as a `u64` bit pattern, strings hold their UTF-8
//! bytes, and object entries keep insertion order.  Decoding keeps a
//! reference table of the complex values met so far; a `Reference` marker
//! resolves to a finished entry of the table, while an index into a value
//! still being decoded is a circular reference and is rejected.
use vstd::prelude::*;
use crate::error::Amf0ReadError;
use crate::wire::be16;
use crate::wire::be64;
use crate::wire::u16_be_bytes;
use crate::wire::u32_be_bytes;
use crate::wire::u64_be_bytes;
use crate::wire::utf8_ok;

verus! {

pub const MARKER_NUMBER: u8 = 0x00;

pub const MARKER_BOOLEAN: u8 = 0x01;

pub const MARKER_STRING: u8 = 0x02;

pub const MARKER_OBJECT: u8 = 0x03;

pub const MARKER_MOVIECLIP: u8 = 0x04;

pub const MARKER_NULL: u8 = 0x05;

pub const MARKER_UNDEFINED: u8 = 0x06;

pub const MARKER_REFERENCE: u8 = 0x07;

pub const MARKER_ECMA_ARRAY: u8 = 0x08;

pub const MARKER_OBJECT_END: u8 = 0x09;

pub const MARKER_STRICT_ARRAY: u8 = 0x0A;

pub const MARKER_DATE: u8 = 0x0B;

pub const MARKER_LONG_STRING: u8 = 0x0C;

pub const MARKER_UNSUPPORTED: u8 = 0x0D;

pub const MARKER_RECORDSET: u8 = 0x0E;

pub const MARKER_XML_DOCUMENT: u8 = 0x0F;

pub const MARKER_TYPED_OBJECT: u8 = 0x10;

/// The nesting bound of the decoder: deeper input is rejected rather than
/// recursed into.
pub const MAX_DEPTH: u32 = 64;

/// The mathematical shape of an AMF0 value.
#[verifier::ext_equal]
pub enum ValueView {
    Number(u64),
    Boolean(bool),
    String(Seq<u8>),
    Object { class_name: Option<Seq<u8>>, entries: Seq<(Seq<u8>, ValueView)> },
    Null,
    Undefined,
    EcmaArray { entries: Seq<(Seq<u8>, ValueView)> },
    Array { entries: Seq<ValueView> },
    Date { millis_bits: u64, time_zone: i16 },
    XmlDocument(Seq<u8>),
}

/// An AMF0 value.  `Number` and `Date` carry the raw IEEE-754 bit pattern
/// of their eight wire bytes; strings carry UTF-8 bytes.
#[derive(Debug, PartialEq, Eq)]
pub enum Value {
    Number(u64),
    Boolean(bool),
    String(Vec<u8>),
    Object { class_name: Option<Vec<u8>>, entries: Vec<(Vec<u8>, Value)> },
    Null,
    Undefined,
    EcmaArray { entries: Vec<(Vec<u8>, Value)> },
    Array { entries: Vec<Value> },
    Date { millis_bits: u64, time_zone: i16 },
    XmlDocument(Vec<u8>),
}

/// The mathematical shape of a value.
pub open spec fn value_view(v: Value) -> ValueView
    decreases v,
{
    match v {
        Value::Number(b) => ValueView::Number(b),
        Value::Boolean(b) => ValueView::Boolean(b),
        Value::String(s) => ValueView::String(s@),
        Value::Object { class_name, entries } => ValueView::Object {
            class_name: match class_name {
                Some(c) => Some(c@),
                None => None,
            },
            entries: entries_view(entries@),
        },
        Value::Null => ValueView::Null,
        Value::Undefined => ValueView::Undefined,
        Value::EcmaArray { entries } => ValueView::EcmaArray { entries: entries_view(entries@) },
        Value::Array { entries } => ValueView::Array { entries: elems_view(entries@) },
        Value::Date { millis_bits, time_zone } => ValueView::Date { millis_bits, time_zone },
        Value::XmlDocument(s) => ValueView::XmlDocument(s@),
    }
}

/// The mathematical shape of a list of key-value entries.
pub open spec fn entries_view(es: Seq<(Vec<u8>, Value)>) -> Seq<(Seq<u8>, ValueView)>
    decreases es,
{
    if es.len() == 0 {
        Seq::empty()
    } else {
        seq![(es[0].0@, value_view(es[0].1))] + entries_view(es.drop_first())
    }
}

/// The mathematical shape of a list of values.
pub open spec fn elems_view(es: Seq<Value>) -> Seq<ValueView>
    decreases es,
{
    if es.len() == 0 {
        Seq::empty()
    } else {
        seq![value_view(es[0])] + elems_view(es.drop_first())
    }
}

impl View for Value {
    type V = ValueView;

    open spec fn view(&self) -> ValueView {
        value_view(*self)
    }
}

/// `entries_view` keeps the length.
pub broadcast proof fn lemma_entries_view_len(es: Seq<(Vec<u8>, Value)>)
    ensures
        (#[trigger] entries_view(es)).len() == es.len(),
    decreases es,
{
    if es.len() != 0 {
        lemma_entries_view_len(es.drop_first());
    }
}

/// `elems_view` keeps the length.
pub broadcast proof fn lemma_elems_view_len(es: Seq<Value>)
    ensures
        (#[trigger] elems_view(es)).len() == es.len(),
    decreases es,
{
    if es.len() != 0 {
        lemma_elems_view_len(es.drop_first());
    }
}

/// `entries_view` maps the entries one for one.
pub proof fn lemma_entries_view(es: Seq<(Vec<u8>, Value)>)
    ensures
        entries_view(es).len() == es.len(),
        forall|i: int|
            0 <= i < es.len() ==> #[trigger] entries_view(es)[i] == (es[i].0@, value_view(
                es[i].1,
            )),
    decreases es,
{
    if es.len() != 0 {
        lemma_entries_view(es.drop_first());
        assert forall|i: int|
            0 <= i < es.len() implies #[trigger] entries_view(es)[i] == (es[i].0@, value_view(
            es[i].1,
        )) by {
            if i > 0 {
                assert(es.drop_first()[i - 1] == es[i]);
            }
        }
    }
}

/// `elems_view` maps the values one for one.
pub proof fn lemma_elems_view(es: Seq<Value>)
    ensures
        elems_view(es).len() == es.len(),
        forall|i: int|
            0 <= i < es.len() ==> #[trigger] elems_view(es)[i] == value_view(es[i]),
    decreases es,
{
    if es.len() != 0 {
        lemma_elems_view(es.drop_first());
        assert forall|i: int|
            0 <= i < es.len() implies #[trigger] elems_view(es)[i] == value_view(es[i]) by {
            if i > 0 {
                assert(es.drop_first()[i - 1] == es[i]);
            }
        }
    }
}

impl Value {
    /// The bytes of a string or XML document value.
    pub fn try_as_str(&self) -> (r: Option<&Vec<u8>>)
        ensures
            match self {
                Value::String(x) => r matches Some(v) && v@ == x@,
                Value::XmlDocument(x) => r matches Some(v) && v@ == x@,
                _ => r is None,
            },
    {
        match self {
            Value::String(x) => Some(x),
            Value::XmlDocument(x) => Some(x),
            _ => None,
        }
    }

    /// The elements of a strict array; anything else is handed back.
    pub fn try_into_values(self) -> (r: Result<Vec<Value>, Value>)
        ensures
            match r {
                Ok(es) => self matches Value::Array { entries } && es == entries,
                Err(v) => !(self is Array) && v == self,
            },
    {
        match self {
            Value::Array { entries } => Ok(entries),
            other => Err(other),
        }
    }

    /// The entries of an object or ECMA array; anything else is handed
    /// back.
    pub fn try_into_pairs(self) -> (r: Result<Vec<(Vec<u8>, Value)>, Value>)
        ensures
            match r {
                Ok(es) => (self matches Value::EcmaArray { entries } && es == entries) || (
                self matches Value::Object { entries, .. } && es == entries),
                Err(v) => !(self is EcmaArray) && !(self is Object) && v == self,
            },
    {
        match self {
            Value::EcmaArray { entries } => Ok(entries),
            Value::Object { entries, .. } => Ok(entries),
            other => Err(other),
        }
    }
}

/// A string value from its UTF-8 bytes.
pub fn string(t: Vec<u8>) -> (r: Value)
    ensures
        r == Value::String(t),
{
    Value::String(t)
}

/// A number value from its IEEE-754 bit pattern.
pub fn number(bits: u64) -> (r: Value)
    ensures
        r == Value::Number(bits),
{
    Value::Number(bits)
}

/// An anonymous object from its entries, taken in the given order.
pub fn object(entries: Vec<(Vec<u8>, Value)>) -> (r: Value)
    ensures
        r == (Value::Object { class_name: None::<Vec<u8>>, entries }),
{
    Value::Object { class_name: None, entries }
}

/// A strict array from its elements.
pub fn array(entries: Vec<Value>) -> (r: Value)
    ensures
        r == (Value::Array { entries }),
{
    Value::Array { entries }
}

/// The IEEE-754 bit pattern is a finite, non-negative number: sign bit
/// clear and exponent not all ones.
pub open spec fn date_bits_valid(b: u64) -> bool {
    b < 0x8000000000000000 && ((b as int) / 0x10000000000000) % 0x800 != 0x7FF
}

/// A 16-bit field reinterpreted as a signed value (two's complement).
pub open spec fn as_i16(v: int) -> int {
    if v >= 0x8000 {
        v - 0x10000
    } else {
        v
    }
}

/// The index of the first entry with the given key, or the length if none
/// holds it.
pub open spec fn find_key(es: Seq<(Seq<u8>, ValueView)>, k: Seq<u8>) -> int
    decreases es.len(),
{
    if es.len() == 0 {
        0
    } else if es[0].0 == k {
        0
    } else {
        1 + find_key(es.drop_first(), k)
    }
}

/// Inserts a key-value pair as an ordered map does: an existing key keeps
/// its position and takes the new value, a new key is appended.
pub open spec fn insert_pair(es: Seq<(Seq<u8>, ValueView)>, k: Seq<u8>, v: ValueView) -> Seq<
    (Seq<u8>, ValueView),
> {
    let i = find_key(es, k);
    if i < es.len() {
        es.update(i, (k, v))
    } else {
        es.push((k, v))
    }
}

/// `find_key` stays within bounds and finds only the key itself.
pub proof fn lemma_find_key(es: Seq<(Seq<u8>, ValueView)>, k: Seq<u8>)
    ensures
        0 <= find_key(es, k) <= es.len(),
        find_key(es, k) < es.len() ==> es[find_key(es, k)].0 == k,
        forall|j: int| 0 <= j < find_key(es, k) ==> (#[trigger] es[j]).0 != k,
    decreases es.len(),
{
    if es.len() != 0 && es[0].0 != k {
        lemma_find_key(es.drop_first(), k);
        assert forall|j: int| 0 <= j < find_key(es, k) implies (#[trigger] es[j]).0 != k by {
            if j > 0 {
                assert(es.drop_first()[j - 1] == es[j]);
            }
        }
    }
}

/// Distance still to walk, clamped at zero so it can serve as a measure.
pub open spec fn rem(s: Seq<u8>, pos: int) -> int {
    if pos <= s.len() {
        s.len() - pos
    } else {
        0
    }
}

/// The next position: what the inner decode returned, forced forward by at
/// least one byte so the scan always advances.
pub open spec fn bump(p: int, q: int) -> int {
    if p > q {
        p
    } else {
        q + 1
    }
}

/// Decodes the AMF0 value at `pos`.  `tab` is the reference table: complex
/// values enter it as `Null` placeholders before their members decode, and
/// are replaced once finished.  `depth` bounds the remaining nesting.
/// Returns the value, the position after it, and the updated table.
pub open spec fn dec_value(s: Seq<u8>, pos: int, tab: Seq<ValueView>, depth: int) -> Result<
    (ValueView, int, Seq<ValueView>),
    Amf0ReadError,
>
    decreases depth, rem(s, pos), 0int, 0int,
{
    if depth <= 0 {
        Err(Amf0ReadError::Unsupported)
    } else if pos < 0 || pos + 1 > s.len() {
        Err(Amf0ReadError::Io)
    } else {
        let m = s[pos];
        if m == MARKER_NUMBER {
            if pos + 9 > s.len() {
                Err(Amf0ReadError::Io)
            } else {
                Ok((ValueView::Number(be64(s, pos + 1) as u64), pos + 9, tab))
            }
        } else if m == MARKER_BOOLEAN {
            if pos + 2 > s.len() {
                Err(Amf0ReadError::Io)
            } else {
                Ok((ValueView::Boolean(s[pos + 1] != 0), pos + 2, tab))
            }
        } else if m == MARKER_STRING {
            if pos + 3 > s.len() {
                Err(Amf0ReadError::Io)
            } else {
                let n = be16(s, pos + 1);
                if pos + 3 + n > s.len() {
                    Err(Amf0ReadError::Io)
                } else {
                    let bytes = s.subrange(pos + 3, pos + 3 + n);
                    if !utf8_ok(bytes) {
                        Err(Amf0ReadError::StringParseError)
                    } else {
                        Ok((ValueView::String(bytes), pos + 3 + n, tab))
                    }
                }
            }
        } else if m == MARKER_OBJECT {
            let idx = tab.len() as int;
            match dec_pairs(s, pos + 1, Seq::empty(), tab.push(ValueView::Null), depth - 1) {
                Err(e) => Err(e),
                Ok((entries, p, tab2)) => {
                    let value = ValueView::Object { class_name: None, entries };
                    Ok((value, p, tab2.update(idx, value)))
                },
            }
        } else if m == MARKER_MOVIECLIP {
            Err(Amf0ReadError::Unsupported)
        } else if m == MARKER_NULL {
            Ok((ValueView::Null, pos + 1, tab))
        } else if m == MARKER_UNDEFINED {
            Ok((ValueView::Undefined, pos + 1, tab))
        } else if m == MARKER_REFERENCE {
            if pos + 3 > s.len() {
                Err(Amf0ReadError::Io)
            } else {
                let idx = be16(s, pos + 1);
                if idx >= tab.len() {
                    Err(Amf0ReadError::OutOfRangeReference(idx as usize))
                } else if tab[idx] is Null {
                    Err(Amf0ReadError::CircularReference)
                } else {
                    Ok((tab[idx], pos + 3, tab))
                }
            }
        } else if m == MARKER_ECMA_ARRAY {
            if pos + 5 > s.len() {
                Err(Amf0ReadError::Io)
            } else {
                let idx = tab.len() as int;
                match dec_pairs(s, pos + 5, Seq::empty(), tab.push(ValueView::Null), depth - 1) {
                    Err(e) => Err(e),
                    Ok((entries, p, tab2)) => {
                        let value = ValueView::EcmaArray { entries };
                        Ok((value, p, tab2.update(idx, value)))
                    },
                }
            }
        } else if m == MARKER_OBJECT_END {
            Err(Amf0ReadError::Unsupported)
        } else if m == MARKER_STRICT_ARRAY {
            if pos + 5 > s.len() {
                Err(Amf0ReadError::Io)
            } else {
                let count = crate::wire::be32(s, pos + 1);
                let idx = tab.len() as int;
                match dec_elems(
                    s,
                    pos + 5,
                    count,
                    Seq::empty(),
                    tab.push(ValueView::Null),
                    depth - 1,
                ) {
                    Err(e) => Err(e),
                    Ok((entries, p, tab2)) => {
                        let value = ValueView::Array { entries };
                        Ok((value, p, tab2.update(idx, value)))
                    },
                }
            }
        } else if m == MARKER_DATE {
            if pos + 11 > s.len() {
                Err(Amf0ReadError::Io)
            } else {
                let bits = be64(s, pos + 1) as u64;
                if !date_bits_valid(bits) {
                    Err(Amf0ReadError::InvalidDate(bits))
                } else {
                    Ok(
                        (
                            ValueView::Date {
                                millis_bits: bits,
                                time_zone: as_i16(be16(s, pos + 9)) as i16,
                            },
                            pos + 11,
                            tab,
                        ),
                    )
                }
            }
        } else if m == MARKER_LONG_STRING || m == MARKER_XML_DOCUMENT {
            if pos + 5 > s.len() {
                Err(Amf0ReadError::Io)
            } else {
                let n = crate::wire::be32(s, pos + 1);
                if pos + 5 + n > s.len() {
                    Err(Amf0ReadError::Io)
                } else {
                    let bytes = s.subrange(pos + 5, pos + 5 + n);
                    if !utf8_ok(bytes) {
                        Err(Amf0ReadError::StringParseError)
                    } else if m == MARKER_LONG_STRING {
                        Ok((ValueView::String(bytes), pos + 5 + n, tab))
                    } else {
                        Ok((ValueView::XmlDocument(bytes), pos + 5 + n, tab))
                    }
                }
            }
        } else if m == MARKER_UNSUPPORTED || m == MARKER_RECORDSET {
            Err(Amf0ReadError::Unsupported)
        } else if m == MARKER_TYPED_OBJECT {
            if pos + 3 > s.len() {
                Err(Amf0ReadError::Io)
            } else {
                let n = be16(s, pos + 1);
                if pos + 3 + n > s.len() {
                    Err(Amf0ReadError::Io)
                } else {
                    let class = s.subrange(pos + 3, pos + 3 + n);
                    if !utf8_ok(class) {
                        Err(Amf0ReadError::StringParseError)
                    } else {
                        let idx = tab.len() as int;
                        match dec_pairs(
                            s,
                            pos + 3 + n,
                            Seq::empty(),
                            tab.push(ValueView::Null),
                            depth - 1,
                        ) {
                            Err(e) => Err(e),
                            Ok((entries, p, tab2)) => {
                                let value = ValueView::Object { class_name: Some(class), entries };
                                Ok((value, p, tab2.update(idx, value)))
                            },
                        }
                    }
                }
            }
        } else {
            Err(Amf0ReadError::UnknownMarker(m))
        }
    }
}

/// Decodes key-value pairs up to the three-byte end marker, folding them
/// into `acc` with ordered-map insertion.
pub open spec fn dec_pairs(
    s: Seq<u8>,
    pos: int,
    acc: Seq<(Seq<u8>, ValueView)>,
    tab: Seq<ValueView>,
    depth: int,
) -> Result<(Seq<(Seq<u8>, ValueView)>, int, Seq<ValueView>), Amf0ReadError>
    decreases depth, rem(s, pos), 1int, 0int,
{
    if pos < 0 || pos + 2 > s.len() {
        Err(Amf0ReadError::Io)
    } else {
        let klen = be16(s, pos);
        if klen == 0 {
            if pos + 3 > s.len() {
                Err(Amf0ReadError::Io)
            } else if s[pos + 2] == MARKER_OBJECT_END {
                Ok((acc, pos + 3, tab))
            } else {
                Err(Amf0ReadError::UnexpectedObjectEnd)
            }
        } else if pos + 2 + klen > s.len() {
            Err(Amf0ReadError::Io)
        } else {
            let key = s.subrange(pos + 2, pos + 2 + klen);
            if !utf8_ok(key) {
                Err(Amf0ReadError::StringParseError)
            } else {
                match dec_value(s, pos + 2 + klen, tab, depth) {
                    Err(e) => Err(e),
                    Ok((v, p, tab2)) => dec_pairs(
                        s,
                        bump(p, pos + 2 + klen),
                        insert_pair(acc, key, v),
                        tab2,
                        depth,
                    ),
                }
            }
        }
    }
}

/// Decodes `n` array elements, appending them to `acc`.
pub open spec fn dec_elems(
    s: Seq<u8>,
    pos: int,
    n: int,
    acc: Seq<ValueView>,
    tab: Seq<ValueView>,
    depth: int,
) -> Result<(Seq<ValueView>, int, Seq<ValueView>), Amf0ReadError>
    decreases depth, rem(s, pos), 1int, n,
{
    if n <= 0 {
        Ok((acc, pos, tab))
    } else if pos < 0 || pos >= s.len() {
        Err(Amf0ReadError::Io)
    } else {
        match dec_value(s, pos, tab, depth) {
            Err(e) => Err(e),
            Ok((v, p, tab2)) => dec_elems(s, bump(p, pos), n - 1, acc.push(v), tab2, depth),
        }
    }
}

/// Appending an entry appends its view.
pub proof fn lemma_entries_view_push(es: Seq<(Vec<u8>, Value)>, k: Vec<u8>, v: Value)
    ensures
        entries_view(es.push((k, v))) == entries_view(es).push((k@, value_view(v))),
    decreases es,
{
    lemma_entries_view(es.push((k, v)));
    lemma_entries_view(es);
    assert(entries_view(es.push((k, v))) =~~= entries_view(es).push((k@, value_view(v))));
}

/// Updating an entry updates its view.
pub proof fn lemma_entries_view_update(es: Seq<(Vec<u8>, Value)>, i: int, k: Vec<u8>, v: Value)
    requires
        0 <= i < es.len(),
    ensures
        entries_view(es.update(i, (k, v))) == entries_view(es).update(i, (k@, value_view(v))),
{
    lemma_entries_view(es.update(i, (k, v)));
    lemma_entries_view(es);
    assert(entries_view(es.update(i, (k, v))) =~~= entries_view(es).update(
        i,
        (k@, value_view(v)),
    ));
}

/// Appending a value appends its view.
pub proof fn lemma_elems_view_push(es: Seq<Value>, v: Value)
    ensures
        elems_view(es.push(v)) == elems_view(es).push(value_view(v)),
{
    lemma_elems_view(es.push(v));
    lemma_elems_view(es);
    assert(elems_view(es.push(v)) =~~= elems_view(es).push(value_view(v)));
}

/// Updating a value updates its view.
pub proof fn lemma_elems_view_update(es: Seq<Value>, i: int, v: Value)
    requires
        0 <= i < es.len(),
    ensures
        elems_view(es.update(i, v)) == elems_view(es).update(i, value_view(v)),
{
    lemma_elems_view(es.update(i, v));
    lemma_elems_view(es);
    assert(elems_view(es.update(i, v)) =~~= elems_view(es).update(i, value_view(v)));
}

/// A structural copy of a value.
pub fn clone_value(v: &Value) -> (r: Value)
    ensures
        value_view(r) == value_view(*v),
    decreases v,
{
    match v {
        Value::Number(b) => Value::Number(*b),
        Value::Boolean(b) => Value::Boolean(*b),
        Value::String(s) => Value::String(crate::wire::copy_bytes(s.as_slice())),
        Value::Object { class_name, entries } => {
            let class2 = match class_name {
                Some(c) => Some(crate::wire::copy_bytes(c.as_slice())),
                None => None,
            };
            let entries2 = clone_entries(entries);
            Value::Object { class_name: class2, entries: entries2 }
        },
        Value::Null => Value::Null,
        Value::Undefined => Value::Undefined,
        Value::EcmaArray { entries } => Value::EcmaArray { entries: clone_entries(entries) },
        Value::Array { entries } => Value::Array { entries: clone_elems(entries) },
        Value::Date { millis_bits, time_zone } => Value::Date {
            millis_bits: *millis_bits,
            time_zone: *time_zone,
        },
        Value::XmlDocument(s) => Value::XmlDocument(crate::wire::copy_bytes(s.as_slice())),
    }
}

/// A structural copy of a list of entries.
fn clone_entries(entries: &Vec<(Vec<u8>, Value)>) -> (r: Vec<(Vec<u8>, Value)>)
    ensures
        entries_view(r@) == entries_view(entries@),
    decreases entries,
{
    let mut out: Vec<(Vec<u8>, Value)> = Vec::new();
    let mut i: usize = 0;
    while i < entries.len()
        invariant
            i <= entries@.len(),
            out@.len() == i,
            forall|j: int|
                0 <= j < i ==> (#[trigger] out@[j]).0@ == entries@[j].0@ && value_view(out@[j].1)
                    == value_view(entries@[j].1),
        decreases entries@.len() - i,
    {
        proof {
            vstd::std_specs::vec::axiom_vec_index_decreases(*entries, i as int);
            assert(decreases_to!(entries@[i as int] => entries@[i as int].1));
        }
        let k = crate::wire::copy_bytes(entries[i].0.as_slice());
        let c = clone_value(&entries[i].1);
        out.push((k, c));
        i = i + 1;
    }
    proof {
        lemma_entries_view(out@);
        lemma_entries_view(entries@);
        assert(entries_view(out@) =~~= entries_view(entries@));
    }
    out
}

/// A structural copy of a list of values.
fn clone_elems(entries: &Vec<Value>) -> (r: Vec<Value>)
    ensures
        elems_view(r@) == elems_view(entries@),
    decreases entries,
{
    let mut out: Vec<Value> = Vec::new();
    let mut i: usize = 0;
    while i < entries.len()
        invariant
            i <= entries@.len(),
            out@.len() == i,
            forall|j: int| 0 <= j < i ==> value_view(#[trigger] out@[j]) == value_view(entries@[j]),
        decreases entries@.len() - i,
    {
        proof {
            vstd::std_specs::vec::axiom_vec_index_decreases(*entries, i as int);
        }
        let c = clone_value(&entries[i]);
        out.push(c);
        i = i + 1;
    }
    proof {
        lemma_elems_view(out@);
        lemma_elems_view(entries@);
        assert(elems_view(out@) =~~= elems_view(entries@));
    }
    out
}

/// Inserts a pair as an ordered map does: an existing key keeps its
/// position and takes the new value, a new key is appended.
fn insert_pair_entries(entries: &mut Vec<(Vec<u8>, Value)>, key: Vec<u8>, value: Value)
    ensures
        entries_view(final(entries)@) == insert_pair(
            entries_view(old(entries)@),
            key@,
            value_view(value),
        ),
{
    broadcast use lemma_entries_view_len, lemma_elems_view_len;

    let ghost es = entries_view(entries@);
    proof {
        lemma_entries_view(entries@);
        lemma_find_key(es, key@);
    }
    let mut i: usize = 0;
    while i < entries.len()
        invariant
            i <= entries@.len(),
            entries@ == old(entries)@,
            es == entries_view(entries@),
            es.len() == entries@.len(),
            forall|j: int|
                0 <= j < entries@.len() ==> #[trigger] es[j] == (entries@[j].0@, value_view(
                    entries@[j].1,
                )),
            forall|j: int| 0 <= j < i ==> (#[trigger] es[j]).0 != key@,
        decreases entries@.len() - i,
    {
        if crate::wire::bytes_eq(entries[i].0.as_slice(), key.as_slice()) {
            proof {
                lemma_find_key(es, key@);
                assert(es[i as int].0 == key@);
                let f = find_key(es, key@);
                if f > i {
                    assert(es[i as int].0 != key@);
                }
                if f < i {
                    assert(es[f].0 != key@);
                    assert(es[f].0 == key@);
                }
                assert(f == i);
                lemma_entries_view_update(entries@, i as int, key, value);
            }
            entries[i] = (key, value);
            return ;
        }
        i = i + 1;
    }
    proof {
        lemma_find_key(es, key@);
        assert(find_key(es, key@) == es.len());
        lemma_entries_view_push(entries@, key, value);
    }
    entries.push((key, value));
}

/// AMF0 decoder over an in-memory buffer, with the reference table of the
/// complex values decoded so far.
pub struct Decoder {
    inner: Vec<u8>,
    pos: usize,
    complexes: Vec<Value>,
}

impl Decoder {
    /// The bytes being decoded.
    pub closed spec fn buf(&self) -> Seq<u8> {
        self.inner@
    }

    /// The position of the next byte to decode.
    pub closed spec fn cursor(&self) -> int {
        self.pos as int
    }

    /// The reference table.
    pub closed spec fn table(&self) -> Seq<ValueView> {
        elems_view(self.complexes@)
    }

    /// A decoder at the start of the buffer with an empty reference table.
    pub fn new(inner: Vec<u8>) -> (r: Self)
        ensures
            r.buf() == inner@,
            r.cursor() == 0,
            r.table() == Seq::<ValueView>::empty(),
    {
        Decoder { inner, pos: 0, complexes: Vec::new() }
    }

    /// Hands the buffer back.
    pub fn into_inner(self) -> (r: Vec<u8>)
        ensures
            r@ == self.buf(),
    {
        self.inner
    }

    /// The buffer.
    pub fn inner(&self) -> (r: &Vec<u8>)
        ensures
            r@ == self.buf(),
    {
        &self.inner
    }

    /// The buffer, writable; the cursor and the reference table stay.
    pub fn inner_mut(&mut self) -> (r: &mut Vec<u8>)
        ensures
            r@ == old(self).buf(),
            final(self).buf() == final(r)@,
            final(self).cursor() == old(self).cursor(),
            final(self).table() == old(self).table(),
    {
        &mut self.inner
    }

    /// Moves the cursor.
    pub fn set_position(&mut self, pos: usize)
        ensures
            final(self).buf() == old(self).buf(),
            final(self).cursor() == pos,
            final(self).table() == old(self).table(),
    {
        self.pos = pos;
    }

    /// The cursor.
    pub fn position(&self) -> (r: usize)
        ensures
            r == self.cursor(),
    {
        self.pos
    }

    /// Empties the reference table, as must happen between independent
    /// AMF0 messages.
    pub fn clear_reference_table(&mut self)
        ensures
            final(self).buf() == old(self).buf(),
            final(self).cursor() == old(self).cursor(),
            final(self).table() == Seq::<ValueView>::empty(),
    {
        self.complexes.clear();
    }

    /// Decodes one value at the cursor, updating cursor and reference
    /// table.  On an error the cursor stands wherever the fault was met,
    /// no earlier than where it started, and every table entry from
    /// before the call is kept as it was; the table may have grown with
    /// values of the failed decode.
    pub fn decode(&mut self) -> (r: Result<Value, Amf0ReadError>)
        ensures
            final(self).buf() == old(self).buf(),
            final(self).cursor() >= old(self).cursor(),
            final(self).table().len() >= old(self).table().len(),
            forall|i: int|
                0 <= i < old(self).table().len() ==> final(self).table()[i] == old(
                    self,
                ).table()[i],
            match dec_value(old(self).buf(), old(self).cursor(), old(self).table(), MAX_DEPTH as int) {
                Ok((v, p, t)) => r matches Ok(x) && value_view(x) == v && final(self).cursor() == p
                    && final(self).table() == t,
                Err(e) => r == Err::<Value, Amf0ReadError>(e),
            },
    {
        self.decode_value(MAX_DEPTH)
    }

    /// One byte at the cursor.
    fn read_u8(&mut self) -> (r: Result<u8, Amf0ReadError>)
        ensures
            final(self).buf() == old(self).buf(),
            final(self).table() == old(self).table(),
            old(self).cursor() + 1 <= old(self).buf().len() ==> r == Ok::<u8, Amf0ReadError>(
                old(self).buf()[old(self).cursor()],
            ) && final(self).cursor() == old(self).cursor() + 1,
            old(self).cursor() + 1 > old(self).buf().len() ==> r == Err::<u8, Amf0ReadError>(
                Amf0ReadError::Io,
            ) && final(self).cursor() == old(self).cursor(),
    {
        if self.pos < self.inner.len() {
            let b = self.inner[self.pos];
            self.pos = self.pos + 1;
            Ok(b)
        } else {
            Err(Amf0ReadError::Io)
        }
    }

    /// A big-endian 16-bit field at the cursor.
    fn read_u16(&mut self) -> (r: Result<u16, Amf0ReadError>)
        ensures
            final(self).buf() == old(self).buf(),
            final(self).table() == old(self).table(),
            old(self).cursor() + 2 <= old(self).buf().len() ==> r == Ok::<u16, Amf0ReadError>(
                be16(old(self).buf(), old(self).cursor()) as u16,
            ) && final(self).cursor() == old(self).cursor() + 2,
            old(self).cursor() + 2 > old(self).buf().len() ==> r == Err::<u16, Amf0ReadError>(
                Amf0ReadError::Io,
            ) && final(self).cursor() == old(self).cursor(),
    {
        if self.pos < self.inner.len() && self.inner.len() - self.pos >= 2 {
            let v = crate::wire::read_be_u16(self.inner.as_slice(), self.pos);
            self.pos = self.pos + 2;
            Ok(v)
        } else {
            Err(Amf0ReadError::Io)
        }
    }

    /// A big-endian 32-bit field at the cursor.
    fn read_u32(&mut self) -> (r: Result<u32, Amf0ReadError>)
        ensures
            final(self).buf() == old(self).buf(),
            final(self).table() == old(self).table(),
            old(self).cursor() + 4 <= old(self).buf().len() ==> r == Ok::<u32, Amf0ReadError>(
                crate::wire::be32(old(self).buf(), old(self).cursor()) as u32,
            ) && final(self).cursor() == old(self).cursor() + 4,
            old(self).cursor() + 4 > old(self).buf().len() ==> r == Err::<u32, Amf0ReadError>(
                Amf0ReadError::Io,
            ) && final(self).cursor() == old(self).cursor(),
    {
        if self.pos < self.inner.len() && self.inner.len() - self.pos >= 4 {
            let v = crate::wire::read_be_u32(self.inner.as_slice(), self.pos);
            self.pos = self.pos + 4;
            Ok(v)
        } else {
            Err(Amf0ReadError::Io)
        }
    }

    /// A big-endian 64-bit field at the cursor.
    fn read_u64(&mut self) -> (r: Result<u64, Amf0ReadError>)
        ensures
            final(self).buf() == old(self).buf(),
            final(self).table() == old(self).table(),
            old(self).cursor() + 8 <= old(self).buf().len() ==> r == Ok::<u64, Amf0ReadError>(
                be64(old(self).buf(), old(self).cursor()) as u64,
            ) && final(self).cursor() == old(self).cursor() + 8,
            old(self).cursor() + 8 > old(self).buf().len() ==> r == Err::<u64, Amf0ReadError>(
                Amf0ReadError::Io,
            ) && final(self).cursor() == old(self).cursor(),
    {
        if self.pos < self.inner.len() && self.inner.len() - self.pos >= 8 {
            let v = crate::wire::read_be_u64(self.inner.as_slice(), self.pos);
            self.pos = self.pos + 8;
            Ok(v)
        } else {
            Err(Amf0ReadError::Io)
        }
    }

    /// `n` bytes at the cursor.
    fn read_bytes(&mut self, n: usize) -> (r: Result<Vec<u8>, Amf0ReadError>)
        ensures
            final(self).buf() == old(self).buf(),
            final(self).table() == old(self).table(),
            old(self).cursor() + n <= old(self).buf().len() ==> (r matches Ok(v) && v@ == old(
                self,
            ).buf().subrange(old(self).cursor(), old(self).cursor() + n) && final(self).cursor()
                == old(self).cursor() + n),
            old(self).cursor() + n > old(self).buf().len() ==> r == Err::<Vec<u8>, Amf0ReadError>(
                Amf0ReadError::Io,
            ) && final(self).cursor() == old(self).cursor(),
    {
        if self.pos <= self.inner.len() && self.inner.len() - self.pos >= n {
            let mut out: Vec<u8> = Vec::new();
            crate::wire::push_bytes(&mut out, self.inner.as_slice(), self.pos, self.pos + n);
            self.pos = self.pos + n;
            proof {
                assert(out@ =~= old(self).buf().subrange(
                    old(self).cursor(),
                    old(self).cursor() + n,
                ));
            }
            Ok(out)
        } else {
            Err(Amf0ReadError::Io)
        }
    }

    /// Decodes one value with `depth` nesting levels left.
    #[verifier::rlimit(100)]
    fn decode_value(&mut self, depth: u32) -> (r: Result<Value, Amf0ReadError>)
        ensures
            final(self).buf() == old(self).buf(),
            final(self).cursor() >= old(self).cursor(),
            final(self).table().len() >= old(self).table().len(),
            forall|i: int|
                0 <= i < old(self).table().len() ==> final(self).table()[i] == old(
                    self,
                ).table()[i],
            match dec_value(old(self).buf(), old(self).cursor(), old(self).table(), depth as int) {
                Ok((v, p, t)) => r matches Ok(x) && value_view(x) == v && final(self).cursor() == p
                    && final(self).table() == t && old(self).cursor() < p <= old(self).buf().len()
                    && t.len() >= old(self).table().len(),
                Err(e) => r == Err::<Value, Amf0ReadError>(e),
            },
        decreases depth, 0int,
    {
        broadcast use lemma_entries_view_len, lemma_elems_view_len;

        let ghost s = self.buf();
        let ghost pos0 = self.cursor();
        let ghost tab0 = self.table();
        if depth == 0 {
            return Err(Amf0ReadError::Unsupported);
        }
        let m = match self.read_u8() {
            Ok(v) => v,
            Err(e) => {
                return Err(e);
            },
        };
        if m == MARKER_NUMBER {
            let b = match self.read_u64() {
                Ok(v) => v,
                Err(e) => {
                    return Err(e);
                },
            };
            Ok(Value::Number(b))
        } else if m == MARKER_BOOLEAN {
            let x = match self.read_u8() {
                Ok(v) => v,
                Err(e) => {
                    return Err(e);
                },
            };
            Ok(Value::Boolean(x != 0))
        } else if m == MARKER_STRING {
            let n = match self.read_u16() {
                Ok(v) => v,
                Err(e) => {
                    return Err(e);
                },
            };
            let bytes = match self.read_bytes(n as usize) {
                Ok(v) => v,
                Err(e) => {
                    return Err(e);
                },
            };
            if !crate::wire::check_utf8(bytes.as_slice()) {
                return Err(Amf0ReadError::StringParseError);
            }
            Ok(Value::String(bytes))
        } else if m == MARKER_OBJECT {
            let idx = self.complexes.len();
            proof {
                lemma_elems_view_push(self.complexes@, Value::Null);
            }
            self.complexes.push(Value::Null);
            let entries = match self.decode_pairs(depth - 1) {
                Ok(v) => v,
                Err(e) => {
                    return Err(e);
                },
            };
            let value = Value::Object { class_name: None, entries };
            let copy = clone_value(&value);
            proof {
                lemma_elems_view_update(self.complexes@, idx as int, copy);
            }
            self.complexes[idx] = copy;
            Ok(value)
        } else if m == MARKER_MOVIECLIP {
            Err(Amf0ReadError::Unsupported)
        } else if m == MARKER_NULL {
            Ok(Value::Null)
        } else if m == MARKER_UNDEFINED {
            Ok(Value::Undefined)
        } else if m == MARKER_REFERENCE {
            let idx = match self.read_u16() {
                Ok(v) => v,
                Err(e) => {
                    return Err(e);
                },
            };
            proof {
                lemma_elems_view(self.complexes@);
            }
            if idx as usize >= self.complexes.len() {
                return Err(Amf0ReadError::OutOfRangeReference(idx as usize));
            }
            match &self.complexes[idx as usize] {
                Value::Null => Err(Amf0ReadError::CircularReference),
                other => Ok(clone_value(other)),
            }
        } else if m == MARKER_ECMA_ARRAY {
            let _count = match self.read_u32() {
                Ok(v) => v,
                Err(e) => {
                    return Err(e);
                },
            };
            let idx = self.complexes.len();
            proof {
                lemma_elems_view_push(self.complexes@, Value::Null);
            }
            self.complexes.push(Value::Null);
            let entries = match self.decode_pairs(depth - 1) {
                Ok(v) => v,
                Err(e) => {
                    return Err(e);
                },
            };
            let value = Value::EcmaArray { entries };
            let copy = clone_value(&value);
            proof {
                lemma_elems_view_update(self.complexes@, idx as int, copy);
            }
            self.complexes[idx] = copy;
            Ok(value)
        } else if m == MARKER_OBJECT_END {
            Err(Amf0ReadError::Unsupported)
        } else if m == MARKER_STRICT_ARRAY {
            let count = match self.read_u32() {
                Ok(v) => v,
                Err(e) => {
                    return Err(e);
                },
            };
            let idx = self.complexes.len();
            proof {
                lemma_elems_view_push(self.complexes@, Value::Null);
            }
            self.complexes.push(Value::Null);
            let entries = match self.decode_strict_elems(count, depth - 1) {
                Ok(v) => v,
                Err(e) => {
                    return Err(e);
                },
            };
            let value = Value::Array { entries };
            let copy = clone_value(&value);
            proof {
                lemma_elems_view_update(self.complexes@, idx as int, copy);
            }
            self.complexes[idx] = copy;
            Ok(value)
        } else if m == MARKER_DATE {
            let bits = match self.read_u64() {
                Ok(v) => v,
                Err(e) => {
                    return Err(e);
                },
            };
            let raw = match self.read_u16() {
                Ok(v) => v,
                Err(e) => {
                    return Err(e);
                },
            };
            if !(bits < 0x8000000000000000 && (bits / 0x10000000000000) % 0x800 != 0x7FF) {
                return Err(Amf0ReadError::InvalidDate(bits));
            }
            let time_zone: i16 = if raw >= 0x8000 {
                ((raw as i32) - 0x10000) as i16
            } else {
                raw as i16
            };
            Ok(Value::Date { millis_bits: bits, time_zone })
        } else if m == MARKER_LONG_STRING || m == MARKER_XML_DOCUMENT {
            let n = match self.read_u32() {
                Ok(v) => v,
                Err(e) => {
                    return Err(e);
                },
            };
            if self.inner.len() - self.pos < n as usize {
                return Err(Amf0ReadError::Io);
            }
            let bytes = match self.read_bytes(n as usize) {
                Ok(v) => v,
                Err(e) => {
                    return Err(e);
                },
            };
            if !crate::wire::check_utf8(bytes.as_slice()) {
                return Err(Amf0ReadError::StringParseError);
            }
            if m == MARKER_LONG_STRING {
                Ok(Value::String(bytes))
            } else {
                Ok(Value::XmlDocument(bytes))
            }
        } else if m == MARKER_UNSUPPORTED || m == MARKER_RECORDSET {
            Err(Amf0ReadError::Unsupported)
        } else if m == MARKER_TYPED_OBJECT {
            let n = match self.read_u16() {
                Ok(v) => v,
                Err(e) => {
                    return Err(e);
                },
            };
            let class = match self.read_bytes(n as usize) {
                Ok(v) => v,
                Err(e) => {
                    return Err(e);
                },
            };
            if !crate::wire::check_utf8(class.as_slice()) {
                return Err(Amf0ReadError::StringParseError);
            }
            let idx = self.complexes.len();
            proof {
                lemma_elems_view_push(self.complexes@, Value::Null);
            }
            self.complexes.push(Value::Null);
            let entries = match self.decode_pairs(depth - 1) {
                Ok(v) => v,
                Err(e) => {
                    return Err(e);
                },
            };
            let value = Value::Object { class_name: Some(class), entries };
            let copy = clone_value(&value);
            proof {
                lemma_elems_view_update(self.complexes@, idx as int, copy);
            }
            self.complexes[idx] = copy;
            Ok(value)
        } else {
            Err(Amf0ReadError::UnknownMarker(m))
        }
    }

    /// Decodes key-value pairs up to the three-byte end marker.
    #[verifier::rlimit(100)]
    fn decode_pairs(&mut self, depth: u32) -> (r: Result<Vec<(Vec<u8>, Value)>, Amf0ReadError>)
        ensures
            final(self).buf() == old(self).buf(),
            final(self).cursor() >= old(self).cursor(),
            final(self).table().len() >= old(self).table().len(),
            forall|i: int|
                0 <= i < old(self).table().len() ==> final(self).table()[i] == old(
                    self,
                ).table()[i],
            match dec_pairs(
                old(self).buf(),
                old(self).cursor(),
                Seq::empty(),
                old(self).table(),
                depth as int,
            ) {
                Ok((es, p, t)) => r matches Ok(v) && entries_view(v@) == es && final(self).cursor()
                    == p && final(self).table() == t && old(self).cursor() < p <= old(
                    self,
                ).buf().len() && t.len() >= old(self).table().len(),
                Err(e) => r == Err::<Vec<(Vec<u8>, Value)>, Amf0ReadError>(e),
            },
        decreases depth, 1int,
    {
        broadcast use lemma_entries_view_len, lemma_elems_view_len;

        let ghost s = self.buf();
        let ghost start = self.cursor();
        let ghost tab0 = self.table();
        if self.pos > self.inner.len() || self.inner.len() - self.pos < 2 {
            return Err(Amf0ReadError::Io);
        }
        let mut entries: Vec<(Vec<u8>, Value)> = Vec::new();
        loop
            invariant_except_break
                self.buf() == s,
                s == old(self).buf(),
                start == old(self).cursor(),
                tab0 == old(self).table(),
                start <= self.cursor() <= s.len(),
                self.table().len() >= tab0.len(),
                forall|i: int| 0 <= i < tab0.len() ==> self.table()[i] == tab0[i],
                dec_pairs(s, start, Seq::empty(), tab0, depth as int) == dec_pairs(
                    s,
                    self.cursor(),
                    entries_view(entries@),
                    self.table(),
                    depth as int,
                ),
            ensures
                self.buf() == s,
                start + 3 <= self.cursor() <= s.len(),
                self.table().len() >= tab0.len(),
                forall|i: int| 0 <= i < tab0.len() ==> self.table()[i] == tab0[i],
                dec_pairs(s, start, Seq::empty(), tab0, depth as int) == Ok::<_, Amf0ReadError>(
                    (entries_view(entries@), self.cursor(), self.table()),
                ),
            decreases s.len() - self.cursor(),
        {
            let klen = match self.read_u16() {
                Ok(v) => v,
                Err(e) => {
                    return Err(e);
                },
            };
            if klen == 0 {
                let b = match self.read_u8() {
                    Ok(v) => v,
                    Err(e) => {
                        return Err(e);
                    },
                };
                if b == MARKER_OBJECT_END {
                    break ;
                } else {
                    return Err(Amf0ReadError::UnexpectedObjectEnd);
                }
            }
            let key = match self.read_bytes(klen as usize) {
                Ok(v) => v,
                Err(e) => {
                    return Err(e);
                },
            };
            if !crate::wire::check_utf8(key.as_slice()) {
                return Err(Amf0ReadError::StringParseError);
            }
            let value = match self.decode_value(depth) {
                Ok(v) => v,
                Err(e) => {
                    return Err(e);
                },
            };
            insert_pair_entries(&mut entries, key, value);
        }
        Ok(entries)
    }

    /// Decodes `count` array elements.
    #[verifier::rlimit(100)]
    fn decode_strict_elems(&mut self, count: u32, depth: u32) -> (r: Result<
        Vec<Value>,
        Amf0ReadError,
    >)
        ensures
            final(self).buf() == old(self).buf(),
            final(self).cursor() >= old(self).cursor(),
            final(self).table().len() >= old(self).table().len(),
            forall|i: int|
                0 <= i < old(self).table().len() ==> final(self).table()[i] == old(
                    self,
                ).table()[i],
            match dec_elems(
                old(self).buf(),
                old(self).cursor(),
                count as int,
                Seq::empty(),
                old(self).table(),
                depth as int,
            ) {
                Ok((es, p, t)) => r matches Ok(v) && elems_view(v@) == es && final(self).cursor()
                    == p && final(self).table() == t && old(self).cursor() <= p && (p <= old(
                    self,
                ).buf().len() || p == old(self).cursor()) && t.len() >= old(self).table().len(),
                Err(e) => r == Err::<Vec<Value>, Amf0ReadError>(e),
            },
        decreases depth, 1int,
    {
        broadcast use lemma_entries_view_len, lemma_elems_view_len;

        let ghost s = self.buf();
        let ghost start = self.cursor();
        let ghost tab0 = self.table();
        let mut out: Vec<Value> = Vec::new();
        let mut i: u32 = 0;
        while i < count
            invariant
                self.buf() == s,
                s == old(self).buf(),
                start == old(self).cursor(),
                tab0 == old(self).table(),
                start <= self.cursor(),
                i > 0 ==> self.cursor() <= s.len(),
                self.table().len() >= tab0.len(),
                forall|i: int| 0 <= i < tab0.len() ==> self.table()[i] == tab0[i],
                i <= count,
                dec_elems(s, start, count as int, Seq::empty(), tab0, depth as int) == dec_elems(
                    s,
                    self.cursor(),
                    count - i,
                    elems_view(out@),
                    self.table(),
                    depth as int,
                ),
            decreases count - i,
        {
            if self.pos >= self.inner.len() {
                return Err(Amf0ReadError::Io);
            }
            let value = match self.decode_value(depth) {
                Ok(v) => v,
                Err(e) => {
                    return Err(e);
                },
            };
            proof {
                lemma_elems_view_push(out@, value);
            }
            out.push(value);
            i = i + 1;
        }
        Ok(out)
    }
}

/// The encoding of a value.  Strings switch to the long-string marker
/// beyond the 16-bit length; a key, class name or count over its field's
/// limit is an error rather than a silent truncation.
pub open spec fn enc_value(v: ValueView) -> Result<Seq<u8>, Amf0ReadError>
    decreases v,
{
    match v {
        ValueView::Number(b) => Ok(seq![MARKER_NUMBER] + u64_be_bytes(b)),
        ValueView::Boolean(x) => Ok(
            seq![
                MARKER_BOOLEAN,
                if x {
                    1u8
                } else {
                    0u8
                },
            ],
        ),
        ValueView::String(s) => if s.len() <= 0xFFFF {
            Ok(seq![MARKER_STRING] + u16_be_bytes(s.len() as u16) + s)
        } else if s.len() <= 0xFFFFFFFF {
            Ok(seq![MARKER_LONG_STRING] + u32_be_bytes(s.len() as u32) + s)
        } else {
            Err(Amf0ReadError::Unsupported)
        },
        ValueView::Object { class_name, entries } => if entries.len() > 0xFFFFFFFF {
            Err(Amf0ReadError::Unsupported)
        } else {
            match class_name {
                None => match enc_pairs_from(entries, 0) {
                    Err(e) => Err(e),
                    Ok(p) => Ok(seq![MARKER_OBJECT] + p),
                },
                Some(c) => if c.len() > 0xFFFF {
                    Err(Amf0ReadError::Unsupported)
                } else {
                    match enc_pairs_from(entries, 0) {
                        Err(e) => Err(e),
                        Ok(p) => Ok(
                            seq![MARKER_TYPED_OBJECT] + u16_be_bytes(c.len() as u16) + c + p,
                        ),
                    }
                },
            }
        },
        ValueView::Null => Ok(seq![MARKER_NULL]),
        ValueView::Undefined => Ok(seq![MARKER_UNDEFINED]),
        ValueView::EcmaArray { entries } => if entries.len() > 0xFFFFFFFF {
            Err(Amf0ReadError::Unsupported)
        } else {
            match enc_pairs_from(entries, 0) {
                Err(e) => Err(e),
                Ok(p) => Ok(
                    seq![MARKER_ECMA_ARRAY] + u32_be_bytes(entries.len() as u32) + p,
                ),
            }
        },
        ValueView::Array { entries } => if entries.len() > 0xFFFFFFFF {
            Err(Amf0ReadError::Unsupported)
        } else {
            match enc_elems_from(entries, 0) {
                Err(e) => Err(e),
                Ok(p) => Ok(
                    seq![MARKER_STRICT_ARRAY] + u32_be_bytes(entries.len() as u32) + p,
                ),
            }
        },
        ValueView::Date { millis_bits, time_zone } => Ok(
            seq![MARKER_DATE] + u64_be_bytes(millis_bits) + u16_be_bytes(
                (if time_zone < 0 {
                    time_zone + 0x10000
                } else {
                    time_zone as int
                }) as u16,
            ),
        ),
        ValueView::XmlDocument(x) => if x.len() <= 0xFFFFFFFF {
            Ok(seq![MARKER_XML_DOCUMENT] + u32_be_bytes(x.len() as u32) + x)
        } else {
            Err(Amf0ReadError::Unsupported)
        },
    }
}

/// The encoding of the object entries from index `i` on, closed by the
/// three-byte end marker.
pub open spec fn enc_pairs_from(es: Seq<(Seq<u8>, ValueView)>, i: int) -> Result<
    Seq<u8>,
    Amf0ReadError,
>
    decreases es, es.len() - i,
{
    if i < 0 || i >= es.len() {
        Ok(u16_be_bytes(0) + seq![MARKER_OBJECT_END])
    } else if es[i].0.len() > 0xFFFF {
        Err(Amf0ReadError::Unsupported)
    } else {
        match enc_value(es[i].1) {
            Err(e) => Err(e),
            Ok(vb) => match enc_pairs_from(es, i + 1) {
                Err(e) => Err(e),
                Ok(rest) => Ok(
                    u16_be_bytes(es[i].0.len() as u16) + es[i].0 + vb + rest,
                ),
            },
        }
    }
}

/// The encoding of object entries, closed by the three-byte end marker.
pub open spec fn enc_pairs(es: Seq<(Seq<u8>, ValueView)>) -> Result<Seq<u8>, Amf0ReadError> {
    enc_pairs_from(es, 0)
}

/// The encoding of the array elements from index `i` on.
pub open spec fn enc_elems_from(es: Seq<ValueView>, i: int) -> Result<Seq<u8>, Amf0ReadError>
    decreases es, es.len() - i,
{
    if i < 0 || i >= es.len() {
        Ok(Seq::empty())
    } else {
        match enc_value(es[i]) {
            Err(e) => Err(e),
            Ok(vb) => match enc_elems_from(es, i + 1) {
                Err(e) => Err(e),
                Ok(rest) => Ok(vb + rest),
            },
        }
    }
}

/// The encoding of array elements, in order.
pub open spec fn enc_elems(es: Seq<ValueView>) -> Result<Seq<u8>, Amf0ReadError> {
    enc_elems_from(es, 0)
}

/// AMF0 encoder writing into an in-memory buffer.
pub struct Encoder {
    inner: Vec<u8>,
}

impl Encoder {
    /// The bytes written so far.
    pub closed spec fn sink(&self) -> Seq<u8> {
        self.inner@
    }

    /// An encoder over the given buffer; encoded bytes are appended.
    pub fn new(inner: Vec<u8>) -> (r: Self)
        ensures
            r.sink() == inner@,
    {
        Encoder { inner }
    }

    /// Hands the buffer back.
    pub fn into_inner(self) -> (r: Vec<u8>)
        ensures
            r@ == self.sink(),
    {
        self.inner
    }

    /// Encodes one value, appending its bytes.  On an error nothing is
    /// promised of the buffer: bytes written before the fault remain.
    pub fn encode(&mut self, value: &Value) -> (r: Result<(), Amf0ReadError>)
        ensures
            match enc_value(value@) {
                Ok(bytes) => r is Ok && final(self).sink() == old(self).sink() + bytes,
                Err(e) => r == Err::<(), Amf0ReadError>(e),
            },
        decreases value,
    {
        broadcast use lemma_entries_view_len, lemma_elems_view_len;

        let ghost start = self.inner@;
        match value {
            Value::Number(b) => {
                self.inner.push(MARKER_NUMBER);
                crate::wire::push_be_u64(&mut self.inner, *b);
                proof {
                    assert(self.inner@ =~= start + (seq![MARKER_NUMBER] + u64_be_bytes(*b)));
                }
                Ok(())
            },
            Value::Boolean(x) => {
                self.inner.push(MARKER_BOOLEAN);
                self.inner.push(
                    if *x {
                        1u8
                    } else {
                        0u8
                    },
                );
                proof {
                    assert(self.inner@ =~= start + seq![
                        MARKER_BOOLEAN,
                        if *x {
                            1u8
                        } else {
                            0u8
                        },
                    ]);
                }
                Ok(())
            },
            Value::String(s) => {
                if s.len() <= 0xFFFF {
                    self.inner.push(MARKER_STRING);
                    crate::wire::push_be_u16(&mut self.inner, s.len() as u16);
                    crate::wire::push_bytes(&mut self.inner, s.as_slice(), 0, s.len());
                    proof {
                        assert(s@.subrange(0, s@.len() as int) =~= s@);
                        assert(self.inner@ =~= start + (seq![MARKER_STRING] + u16_be_bytes(
                            s@.len() as u16,
                        ) + s@));
                    }
                    Ok(())
                } else if s.len() <= 0xFFFFFFFF {
                    self.inner.push(MARKER_LONG_STRING);
                    crate::wire::push_be_u32(&mut self.inner, s.len() as u32);
                    crate::wire::push_bytes(&mut self.inner, s.as_slice(), 0, s.len());
                    proof {
                        assert(s@.subrange(0, s@.len() as int) =~= s@);
                        assert(self.inner@ =~= start + (seq![MARKER_LONG_STRING] + u32_be_bytes(
                            s@.len() as u32,
                        ) + s@));
                    }
                    Ok(())
                } else {
                    Err(Amf0ReadError::Unsupported)
                }
            },
            Value::Object { class_name, entries } => {
                if entries.len() > 0xFFFFFFFF {
                    return Err(Amf0ReadError::Unsupported);
                }
                match class_name {
                    None => {
                        self.inner.push(MARKER_OBJECT);
                        match self.encode_pairs(entries) {
                            Ok(()) => {
                                proof {
                                    if let Ok(p) = enc_pairs(entries_view(entries@)) {
                                        assert(self.inner@ =~= start + (seq![MARKER_OBJECT] + p));
                                    }
                                }
                                Ok(())
                            },
                            Err(e) => Err(e),
                        }
                    },
                    Some(c) => {
                        if c.len() > 0xFFFF {
                            return Err(Amf0ReadError::Unsupported);
                        }
                        self.inner.push(MARKER_TYPED_OBJECT);
                        crate::wire::push_be_u16(&mut self.inner, c.len() as u16);
                        crate::wire::push_bytes(&mut self.inner, c.as_slice(), 0, c.len());
                        match self.encode_pairs(entries) {
                            Ok(()) => {
                                proof {
                                    assert(c@.subrange(0, c@.len() as int) =~= c@);
                                    if let Ok(p) = enc_pairs(entries_view(entries@)) {
                                        assert(self.inner@ =~= start + (seq![MARKER_TYPED_OBJECT]
                                            + u16_be_bytes(c@.len() as u16) + c@ + p));
                                    }
                                }
                                Ok(())
                            },
                            Err(e) => Err(e),
                        }
                    },
                }
            },
            Value::Null => {
                self.inner.push(MARKER_NULL);
                proof {
                    assert(self.inner@ =~= start + seq![MARKER_NULL]);
                }
                Ok(())
            },
            Value::Undefined => {
                self.inner.push(MARKER_UNDEFINED);
                proof {
                    assert(self.inner@ =~= start + seq![MARKER_UNDEFINED]);
                }
                Ok(())
            },
            Value::EcmaArray { entries } => {
                if entries.len() > 0xFFFFFFFF {
                    return Err(Amf0ReadError::Unsupported);
                }
                self.inner.push(MARKER_ECMA_ARRAY);
                crate::wire::push_be_u32(&mut self.inner, entries.len() as u32);
                match self.encode_pairs(entries) {
                    Ok(()) => {
                        proof {
                            if let Ok(p) = enc_pairs(entries_view(entries@)) {
                                assert(self.inner@ =~= start + (seq![MARKER_ECMA_ARRAY]
                                    + u32_be_bytes(entries@.len() as u32) + p));
                            }
                        }
                        Ok(())
                    },
                    Err(e) => Err(e),
                }
            },
            Value::Array { entries } => {
                if entries.len() > 0xFFFFFFFF {
                    return Err(Amf0ReadError::Unsupported);
                }
                self.inner.push(MARKER_STRICT_ARRAY);
                crate::wire::push_be_u32(&mut self.inner, entries.len() as u32);
                match self.encode_elems(entries) {
                    Ok(()) => {
                        proof {
                            if let Ok(p) = enc_elems(elems_view(entries@)) {
                                assert(self.inner@ =~= start + (seq![MARKER_STRICT_ARRAY]
                                    + u32_be_bytes(entries@.len() as u32) + p));
                            }
                        }
                        Ok(())
                    },
                    Err(e) => Err(e),
                }
            },
            Value::Date { millis_bits, time_zone } => {
                self.inner.push(MARKER_DATE);
                crate::wire::push_be_u64(&mut self.inner, *millis_bits);
                let raw: u16 = if *time_zone < 0 {
                    ((*time_zone as i32) + 0x10000) as u16
                } else {
                    *time_zone as u16
                };
                crate::wire::push_be_u16(&mut self.inner, raw);
                proof {
                    assert(self.inner@ =~= start + (seq![MARKER_DATE] + u64_be_bytes(*millis_bits)
                        + u16_be_bytes(raw)));
                }
                Ok(())
            },
            Value::XmlDocument(x) => {
                if x.len() > 0xFFFFFFFF {
                    return Err(Amf0ReadError::Unsupported);
                }
                self.inner.push(MARKER_XML_DOCUMENT);
                crate::wire::push_be_u32(&mut self.inner, x.len() as u32);
                crate::wire::push_bytes(&mut self.inner, x.as_slice(), 0, x.len());
                proof {
                    assert(x@.subrange(0, x@.len() as int) =~= x@);
                    assert(self.inner@ =~= start + (seq![MARKER_XML_DOCUMENT] + u32_be_bytes(
                        x@.len() as u32,
                    ) + x@));
                }
                Ok(())
            },
        }
    }

    /// Encodes object entries and the end marker.
    fn encode_pairs(&mut self, entries: &Vec<(Vec<u8>, Value)>) -> (r: Result<(), Amf0ReadError>)
        ensures
            match enc_pairs(entries_view(entries@)) {
                Ok(bytes) => r is Ok && final(self).sink() == old(self).sink() + bytes,
                Err(e) => r == Err::<(), Amf0ReadError>(e),
            },
        decreases entries,
    {
        broadcast use lemma_entries_view_len, lemma_elems_view_len;

        let ghost es = entries_view(entries@);
        proof {
            lemma_entries_view(entries@);
        }
        let ghost sink0 = self.sink();
        let mut i: usize = 0;
        while i < entries.len()
            invariant
                i <= entries@.len(),
                sink0 == old(self).sink(),
                es == entries_view(entries@),
                es.len() == entries@.len(),
                forall|j: int|
                    0 <= j < entries@.len() ==> #[trigger] es[j] == (entries@[j].0@, value_view(
                        entries@[j].1,
                    )),
                sink0.len() <= self.sink().len(),
                sink0 == self.sink().subrange(0, sink0.len() as int),
                match enc_pairs_from(es, i as int) {
                    Ok(rest) => enc_pairs_from(es, 0) == Ok::<Seq<u8>, Amf0ReadError>(
                        self.sink().subrange(sink0.len() as int, self.sink().len() as int) + rest,
                    ),
                    Err(e) => enc_pairs_from(es, 0) == Err::<Seq<u8>, Amf0ReadError>(e),
                },
            decreases entries@.len() - i,
        {
            proof {
                vstd::std_specs::vec::axiom_vec_index_decreases(*entries, i as int);
            }
            let ghost sink_i = self.sink();
            let klen = entries[i].0.len();
            if klen > 0xFFFF {
                return Err(Amf0ReadError::Unsupported);
            }
            crate::wire::push_be_u16(&mut self.inner, klen as u16);
            crate::wire::push_bytes(&mut self.inner, entries[i].0.as_slice(), 0, klen);
            match self.encode(&entries[i].1) {
                Ok(()) => {},
                Err(e) => {
                    return Err(e);
                },
            }
            proof {
                assert(entries@[i as int].0@.subrange(0, entries@[i as int].0@.len() as int)
                    =~= entries@[i as int].0@);
                if let Ok(vb) = enc_value(es[i as int].1) {
                    assert(self.sink() =~= sink_i + (u16_be_bytes(es[i as int].0.len() as u16)
                        + es[i as int].0 + vb));
                    if let Ok(rest) = enc_pairs_from(es, i + 1) {
                        assert(self.sink().subrange(sink0.len() as int, self.sink().len() as int)
                            =~= sink_i.subrange(sink0.len() as int, sink_i.len() as int) + (
                        u16_be_bytes(es[i as int].0.len() as u16) + es[i as int].0 + vb));
                        assert((sink_i.subrange(sink0.len() as int, sink_i.len() as int) + (
                        u16_be_bytes(es[i as int].0.len() as u16) + es[i as int].0 + vb)) + rest
                            =~= sink_i.subrange(sink0.len() as int, sink_i.len() as int) + ((
                        u16_be_bytes(es[i as int].0.len() as u16) + es[i as int].0 + vb) + rest));
                    }
                }
                assert(sink0 =~= self.sink().subrange(0, sink0.len() as int));
            }
            i = i + 1;
        }
        let ghost done = self.sink().subrange(sink0.len() as int, self.sink().len() as int);
        crate::wire::push_be_u16(&mut self.inner, 0);
        self.inner.push(MARKER_OBJECT_END);
        proof {
            assert(self.sink() =~= sink0 + (done + (u16_be_bytes(0) + seq![MARKER_OBJECT_END])));
        }
        Ok(())
    }

    /// Encodes array elements in order.
    fn encode_elems(&mut self, entries: &Vec<Value>) -> (r: Result<(), Amf0ReadError>)
        ensures
            match enc_elems(elems_view(entries@)) {
                Ok(bytes) => r is Ok && final(self).sink() == old(self).sink() + bytes,
                Err(e) => r == Err::<(), Amf0ReadError>(e),
            },
        decreases entries,
    {
        broadcast use lemma_entries_view_len, lemma_elems_view_len;

        let ghost es = elems_view(entries@);
        proof {
            lemma_elems_view(entries@);
        }
        let ghost sink0 = self.sink();
        let mut i: usize = 0;
        while i < entries.len()
            invariant
                i <= entries@.len(),
                sink0 == old(self).sink(),
                es == elems_view(entries@),
                es.len() == entries@.len(),
                forall|j: int|
                    0 <= j < entries@.len() ==> #[trigger] es[j] == value_view(entries@[j]),
                sink0.len() <= self.sink().len(),
                sink0 == self.sink().subrange(0, sink0.len() as int),
                match enc_elems_from(es, i as int) {
                    Ok(rest) => enc_elems_from(es, 0) == Ok::<Seq<u8>, Amf0ReadError>(
                        self.sink().subrange(sink0.len() as int, self.sink().len() as int) + rest,
                    ),
                    Err(e) => enc_elems_from(es, 0) == Err::<Seq<u8>, Amf0ReadError>(e),
                },
            decreases entries@.len() - i,
        {
            proof {
                vstd::std_specs::vec::axiom_vec_index_decreases(*entries, i as int);
            }
            let ghost sink_i = self.sink();
            match self.encode(&entries[i]) {
                Ok(()) => {},
                Err(e) => {
                    return Err(e);
                },
            }
            proof {
                if let Ok(vb) = enc_value(es[i as int]) {
                    assert(self.sink() =~= sink_i + vb);
                    if let Ok(rest) = enc_elems_from(es, i + 1) {
                        assert(self.sink().subrange(sink0.len() as int, self.sink().len() as int)
                            =~= sink_i.subrange(sink0.len() as int, sink_i.len() as int) + vb);
                        assert((sink_i.subrange(sink0.len() as int, sink_i.len() as int) + vb)
                            + rest =~= sink_i.subrange(sink0.len() as int, sink_i.len() as int) + (
                        vb + rest));
                    }
                }
                assert(sink0 =~= self.sink().subrange(0, sink0.len() as int));
            }
            i = i + 1;
        }
        proof {
            let done = self.sink().subrange(sink0.len() as int, self.sink().len() as int);
            assert(self.sink() =~= sink0 + done);
            assert(done + Seq::<u8>::empty() =~= done);
        }
        Ok(())
    }
}

/// A key the codec round-trips: valid UTF-8, nonempty (an empty key marks
/// the end of an object), and within the 16-bit length prefix.
pub open spec fn key_ok(k: Seq<u8>) -> bool {
    utf8_ok(k) && 1 <= k.len() <= 0xFFFF
}

/// No two entries share a key.
pub open spec fn distinct_keys(es: Seq<(Seq<u8>, ValueView)>) -> bool {
    forall|i: int, j: int| 0 <= i < j < es.len() ==> (#[trigger] es[i]).0 != (#[trigger] es[j]).0
}

/// A value the codec round-trips byte-exactly: strings are valid UTF-8
/// within the 32-bit length, dates carry finite non-negative bit
/// patterns, and object keys are well-formed and distinct.
pub open spec fn wf_value(v: ValueView) -> bool
    decreases v, 0int,
{
    match v {
        ValueView::Number(_) => true,
        ValueView::Boolean(_) => true,
        ValueView::String(s) => utf8_ok(s) && s.len() <= 0xFFFFFFFF,
        ValueView::Object { class_name, entries } => {
            &&& match class_name {
                Some(c) => utf8_ok(c) && c.len() <= 0xFFFF,
                None => true,
            }
            &&& entries.len() <= 0xFFFFFFFF
            &&& distinct_keys(entries)
            &&& wf_entries(entries)
        },
        ValueView::Null => true,
        ValueView::Undefined => true,
        ValueView::EcmaArray { entries } => entries.len() <= 0xFFFFFFFF && distinct_keys(entries)
            && wf_entries(entries),
        ValueView::Array { entries } => entries.len() <= 0xFFFFFFFF && wf_elems(entries),
        ValueView::Date { millis_bits, .. } => date_bits_valid(millis_bits),
        ValueView::XmlDocument(x) => utf8_ok(x) && x.len() <= 0xFFFFFFFF,
    }
}

/// Every entry has a well-formed key and value.
pub open spec fn wf_entries(es: Seq<(Seq<u8>, ValueView)>) -> bool
    decreases es, 1int,
{
    if es.len() == 0 {
        true
    } else {
        key_ok(es[0].0) && wf_value(es[0].1) && wf_entries(es.drop_first())
    }
}

/// Every element is well-formed.
pub open spec fn wf_elems(es: Seq<ValueView>) -> bool
    decreases es, 1int,
{
    if es.len() == 0 {
        true
    } else {
        wf_value(es[0]) && wf_elems(es.drop_first())
    }
}

/// Nesting depth of a value: containers add one level.
pub open spec fn vdepth(v: ValueView) -> int
    decreases v, 0int,
{
    match v {
        ValueView::Object { entries, .. } => 1 + vdepth_entries(entries),
        ValueView::EcmaArray { entries } => 1 + vdepth_entries(entries),
        ValueView::Array { entries } => 1 + vdepth_elems(entries),
        _ => 1,
    }
}

/// Greatest nesting depth among entry values.
pub open spec fn vdepth_entries(es: Seq<(Seq<u8>, ValueView)>) -> int
    decreases es, 1int,
{
    if es.len() == 0 {
        0
    } else {
        let d = vdepth(es[0].1);
        let r = vdepth_entries(es.drop_first());
        if d > r {
            d
        } else {
            r
        }
    }
}

/// Greatest nesting depth among elements.
pub open spec fn vdepth_elems(es: Seq<ValueView>) -> int
    decreases es, 1int,
{
    if es.len() == 0 {
        0
    } else {
        let d = vdepth(es[0]);
        let r = vdepth_elems(es.drop_first());
        if d > r {
            d
        } else {
            r
        }
    }
}

/// Well-formedness and depth, entry by entry.
pub proof fn lemma_wf_entries_pointwise(es: Seq<(Seq<u8>, ValueView)>)
    requires
        wf_entries(es),
    ensures
        forall|i: int|
            0 <= i < es.len() ==> key_ok((#[trigger] es[i]).0) && wf_value(es[i].1) && vdepth(
                es[i].1,
            ) <= vdepth_entries(es),
        vdepth_entries(es) >= 0,
    decreases es,
{
    if es.len() != 0 {
        lemma_wf_entries_pointwise(es.drop_first());
        assert forall|i: int|
            0 <= i < es.len() implies key_ok((#[trigger] es[i]).0) && wf_value(es[i].1) && vdepth(
            es[i].1,
        ) <= vdepth_entries(es) by {
            if i > 0 {
                assert(es.drop_first()[i - 1] == es[i]);
            }
        }
    }
}

/// Well-formedness and depth, element by element.
pub proof fn lemma_wf_elems_pointwise(es: Seq<ValueView>)
    requires
        wf_elems(es),
    ensures
        forall|i: int|
            0 <= i < es.len() ==> wf_value(#[trigger] es[i]) && vdepth(es[i]) <= vdepth_elems(es),
        vdepth_elems(es) >= 0,
    decreases es,
{
    if es.len() != 0 {
        lemma_wf_elems_pointwise(es.drop_first());
        assert forall|i: int|
            0 <= i < es.len() implies wf_value(#[trigger] es[i]) && vdepth(es[i]) <= vdepth_elems(
            es,
        ) by {
            if i > 0 {
                assert(es.drop_first()[i - 1] == es[i]);
            }
        }
    }
}

/// One kind of the value round trip.
#[verifier::rlimit(50)]
proof fn lemma_round_number(
    v: ValueView,
    pre: Seq<u8>,
    suf: Seq<u8>,
    tab: Seq<ValueView>,
    depth: int,
)
    requires
        wf_value(v),
        vdepth(v) <= depth,
        v is Number,
    ensures
        enc_value(v) matches Ok(b) && (dec_value(pre + b + suf, pre.len() as int, tab, depth)
            matches Ok((w, p, t2)) && w == v && p == pre.len() as int + b.len()),
{
    match v {
        ValueView::Number(bits) => {
            let b = seq![MARKER_NUMBER] + u64_be_bytes(bits);
            let s = pre + b + suf;
            crate::wire::lemma_u64_be_roundtrip(bits);
            assert(s[pre.len() as int] == MARKER_NUMBER);
            assert(s[pre.len() as int + 1] == u64_be_bytes(bits)[0] && s[pre.len() as int + 2]
                == u64_be_bytes(bits)[1] && s[pre.len() as int + 3] == u64_be_bytes(bits)[2] && s[
                pre.len() as int + 4] == u64_be_bytes(bits)[3] && s[pre.len() as int + 5]
                == u64_be_bytes(bits)[4] && s[pre.len() as int + 6] == u64_be_bytes(bits)[5] && s[
                pre.len() as int + 7] == u64_be_bytes(bits)[6] && s[pre.len() as int + 8]
                == u64_be_bytes(bits)[7]);
            assert(crate::wire::be64(s, pre.len() as int + 1) == crate::wire::be64(u64_be_bytes(bits), 0));
        },
        _ => {},
    }
}

/// One kind of the value round trip.
#[verifier::rlimit(50)]
proof fn lemma_round_boolean(
    v: ValueView,
    pre: Seq<u8>,
    suf: Seq<u8>,
    tab: Seq<ValueView>,
    depth: int,
)
    requires
        wf_value(v),
        vdepth(v) <= depth,
        v is Boolean,
    ensures
        enc_value(v) matches Ok(b) && (dec_value(pre + b + suf, pre.len() as int, tab, depth)
            matches Ok((w, p, t2)) && w == v && p == pre.len() as int + b.len()),
{
    match v {
        ValueView::Boolean(x) => {
            let b = seq![
                MARKER_BOOLEAN,
                if x {
                    1u8
                } else {
                    0u8
                },
            ];
            let s = pre + b + suf;
            assert(s[pre.len() as int] == MARKER_BOOLEAN);
            assert(s[pre.len() as int + 1] == b[1]);
        },
        _ => {},
    }
}

/// One kind of the value round trip.
#[verifier::rlimit(50)]
proof fn lemma_round_string(
    v: ValueView,
    pre: Seq<u8>,
    suf: Seq<u8>,
    tab: Seq<ValueView>,
    depth: int,
)
    requires
        wf_value(v),
        vdepth(v) <= depth,
        v is String,
    ensures
        enc_value(v) matches Ok(b) && (dec_value(pre + b + suf, pre.len() as int, tab, depth)
            matches Ok((w, p, t2)) && w == v && p == pre.len() as int + b.len()),
{
    match v {
        ValueView::String(st) => {
            let s_all = if st.len() <= 0xFFFF {
                pre + (seq![MARKER_STRING] + u16_be_bytes(st.len() as u16) + st) + suf
            } else {
                pre + (seq![MARKER_LONG_STRING] + u32_be_bytes(st.len() as u32) + st) + suf
            };
            if st.len() <= 0xFFFF {
                crate::wire::lemma_u16_be_roundtrip(st.len() as u16);
                assert(s_all[pre.len() as int] == MARKER_STRING);
                assert(s_all[pre.len() as int + 1] == u16_be_bytes(st.len() as u16)[0] && s_all[pre.len() as int
                    + 2] == u16_be_bytes(st.len() as u16)[1]);
                assert(be16(s_all, pre.len() as int + 1) == st.len());
                assert(s_all.subrange(pre.len() as int + 3, pre.len() as int + 3 + st.len() as int) =~= st);
            } else {
                crate::wire::lemma_u32_be_roundtrip(st.len() as u32);
                assert(s_all[pre.len() as int] == MARKER_LONG_STRING);
                assert(s_all[pre.len() as int + 1 + 0] == u32_be_bytes(st.len() as u32)[0] && s_all[pre.len() as int + 1 + 1] == u32_be_bytes(st.len() as u32)[1] && s_all[pre.len() as int + 1 + 2] == u32_be_bytes(st.len() as u32)[2] && s_all[pre.len() as int + 1 + 3] == u32_be_bytes(st.len() as u32)[3]);
                assert(crate::wire::be32(s_all, pre.len() as int + 1) == crate::wire::be32(
                    u32_be_bytes(st.len() as u32),
                    0,
                ));
                assert(s_all.subrange(pre.len() as int + 5, pre.len() as int + 5 + st.len() as int) =~= st);
            }
        },
        _ => {},
    }
}

/// One kind of the value round trip.
#[verifier::rlimit(50)]
proof fn lemma_round_plain(
    v: ValueView,
    pre: Seq<u8>,
    suf: Seq<u8>,
    tab: Seq<ValueView>,
    depth: int,
)
    requires
        wf_value(v),
        vdepth(v) <= depth,
        v is Null || v is Undefined,
    ensures
        enc_value(v) matches Ok(b) && (dec_value(pre + b + suf, pre.len() as int, tab, depth)
            matches Ok((w, p, t2)) && w == v && p == pre.len() as int + b.len()),
{
    match v {
        ValueView::Null => {
            let s = pre + seq![MARKER_NULL] + suf;
            assert(s[pre.len() as int] == MARKER_NULL);
        },
        ValueView::Undefined => {
            let s = pre + seq![MARKER_UNDEFINED] + suf;
            assert(s[pre.len() as int] == MARKER_UNDEFINED);
        },
        _ => {},
    }
}

/// One kind of the value round trip.
#[verifier::rlimit(50)]
proof fn lemma_round_date(
    v: ValueView,
    pre: Seq<u8>,
    suf: Seq<u8>,
    tab: Seq<ValueView>,
    depth: int,
)
    requires
        wf_value(v),
        vdepth(v) <= depth,
        v is Date,
    ensures
        enc_value(v) matches Ok(b) && (dec_value(pre + b + suf, pre.len() as int, tab, depth)
            matches Ok((w, p, t2)) && w == v && p == pre.len() as int + b.len()),
{
    match v {
        ValueView::Date { millis_bits, time_zone } => {
            let raw: u16 = (if time_zone < 0 {
                time_zone + 0x10000
            } else {
                time_zone as int
            }) as u16;
            let b = seq![MARKER_DATE] + u64_be_bytes(millis_bits) + u16_be_bytes(raw);
            let s = pre + b + suf;
            crate::wire::lemma_u64_be_roundtrip(millis_bits);
            crate::wire::lemma_u16_be_roundtrip(raw);
            assert(s[pre.len() as int] == MARKER_DATE);
            assert(s[pre.len() as int + 1 + 0] == u64_be_bytes(millis_bits)[0] && s[pre.len() as int + 1 + 1] == u64_be_bytes(millis_bits)[1] && s[pre.len() as int + 1 + 2] == u64_be_bytes(millis_bits)[2] && s[pre.len() as int + 1 + 3] == u64_be_bytes(millis_bits)[3] && s[pre.len() as int + 1 + 4] == u64_be_bytes(millis_bits)[4] && s[pre.len() as int + 1 + 5] == u64_be_bytes(millis_bits)[5] && s[pre.len() as int + 1 + 6] == u64_be_bytes(millis_bits)[6] && s[pre.len() as int + 1 + 7] == u64_be_bytes(millis_bits)[7]);
            assert(crate::wire::be64(s, pre.len() as int + 1) == crate::wire::be64(
                u64_be_bytes(millis_bits),
                0,
            ));
            assert(s[pre.len() as int + 9] == u16_be_bytes(raw)[0] && s[pre.len() as int + 10] == u16_be_bytes(
                raw,
            )[1]);
            assert(be16(s, pre.len() as int + 9) == raw);
            assert(as_i16(raw as int) == time_zone);
        },
        _ => {},
    }
}

/// One kind of the value round trip.
#[verifier::rlimit(50)]
proof fn lemma_round_xml(
    v: ValueView,
    pre: Seq<u8>,
    suf: Seq<u8>,
    tab: Seq<ValueView>,
    depth: int,
)
    requires
        wf_value(v),
        vdepth(v) <= depth,
        v is XmlDocument,
    ensures
        enc_value(v) matches Ok(b) && (dec_value(pre + b + suf, pre.len() as int, tab, depth)
            matches Ok((w, p, t2)) && w == v && p == pre.len() as int + b.len()),
{
    match v {
        ValueView::XmlDocument(x) => {
            let b = seq![MARKER_XML_DOCUMENT] + u32_be_bytes(x.len() as u32) + x;
            let s = pre + b + suf;
            crate::wire::lemma_u32_be_roundtrip(x.len() as u32);
            assert(s[pre.len() as int] == MARKER_XML_DOCUMENT);
            assert(s[pre.len() as int + 1 + 0] == u32_be_bytes(x.len() as u32)[0] && s[pre.len() as int + 1 + 1] == u32_be_bytes(x.len() as u32)[1] && s[pre.len() as int + 1 + 2] == u32_be_bytes(x.len() as u32)[2] && s[pre.len() as int + 1 + 3] == u32_be_bytes(x.len() as u32)[3]);
            assert(crate::wire::be32(s, pre.len() as int + 1) == crate::wire::be32(
                u32_be_bytes(x.len() as u32),
                0,
            ));
            assert(s.subrange(pre.len() as int + 5, pre.len() as int + 5 + x.len() as int) =~= x);
        },
        _ => {},
    }
}

/// One kind of the value round trip.
#[verifier::rlimit(80)]
proof fn lemma_round_object(
    v: ValueView,
    pre: Seq<u8>,
    suf: Seq<u8>,
    tab: Seq<ValueView>,
    depth: int,
)
    requires
        wf_value(v),
        vdepth(v) <= depth,
        v is Object,
    ensures
        enc_value(v) matches Ok(b) && (dec_value(pre + b + suf, pre.len() as int, tab, depth)
            matches Ok((w, p, t2)) && w == v && p == pre.len() as int + b.len()),
    decreases v, 0int,
{
    match v {
        ValueView::Object { class_name, entries } => {
            lemma_wf_entries_pointwise(entries);
            match class_name {
                None => {
                    lemma_round_pairs(
                        entries,
                        0,
                        pre + seq![MARKER_OBJECT],
                        suf,
                        Seq::empty(),
                        tab.push(ValueView::Null),
                        depth - 1,
                    );
                    let pb = enc_pairs_from(entries, 0)->Ok_0;
                    let b = seq![MARKER_OBJECT] + pb;
                    let s = pre + b + suf;
                    assert(s =~= (pre + seq![MARKER_OBJECT]) + pb + suf);
                    assert(s[pre.len() as int] == MARKER_OBJECT);
                    assert(Seq::<(Seq<u8>, ValueView)>::empty() + entries.subrange(
                        0,
                        entries.len() as int,
                    ) =~= entries);
                },
                Some(c) => {
                    let hd = pre + (seq![MARKER_TYPED_OBJECT] + u16_be_bytes(c.len() as u16) + c);
                    lemma_round_pairs(
                        entries,
                        0,
                        hd,
                        suf,
                        Seq::empty(),
                        tab.push(ValueView::Null),
                        depth - 1,
                    );
                    let pb = enc_pairs_from(entries, 0)->Ok_0;
                    let b = seq![MARKER_TYPED_OBJECT] + u16_be_bytes(c.len() as u16) + c + pb;
                    let s = pre + b + suf;
                    assert(s =~= hd + pb + suf);
                    crate::wire::lemma_u16_be_roundtrip(c.len() as u16);
                    assert(s[pre.len() as int] == MARKER_TYPED_OBJECT);
                    assert(s[pre.len() as int + 1] == u16_be_bytes(c.len() as u16)[0] && s[pre.len() as int + 2]
                        == u16_be_bytes(c.len() as u16)[1]);
                    assert(be16(s, pre.len() as int + 1) == c.len());
                    assert(s.subrange(pre.len() as int + 3, pre.len() as int + 3 + c.len() as int) =~= c);
                    assert(Seq::<(Seq<u8>, ValueView)>::empty() + entries.subrange(
                        0,
                        entries.len() as int,
                    ) =~= entries);
                },
            }
        },
        _ => {},
    }
}

/// One kind of the value round trip.
#[verifier::rlimit(80)]
proof fn lemma_round_ecma(
    v: ValueView,
    pre: Seq<u8>,
    suf: Seq<u8>,
    tab: Seq<ValueView>,
    depth: int,
)
    requires
        wf_value(v),
        vdepth(v) <= depth,
        v is EcmaArray,
    ensures
        enc_value(v) matches Ok(b) && (dec_value(pre + b + suf, pre.len() as int, tab, depth)
            matches Ok((w, p, t2)) && w == v && p == pre.len() as int + b.len()),
    decreases v, 0int,
{
    match v {
        ValueView::EcmaArray { entries } => {
            lemma_wf_entries_pointwise(entries);
            let hd = pre + (seq![MARKER_ECMA_ARRAY] + u32_be_bytes(entries.len() as u32));
            lemma_round_pairs(
                entries,
                0,
                hd,
                suf,
                Seq::empty(),
                tab.push(ValueView::Null),
                depth - 1,
            );
            let pb = enc_pairs_from(entries, 0)->Ok_0;
            let b = seq![MARKER_ECMA_ARRAY] + u32_be_bytes(entries.len() as u32) + pb;
            let s = pre + b + suf;
            assert(s =~= hd + pb + suf);
            assert(s[pre.len() as int] == MARKER_ECMA_ARRAY);
            assert(Seq::<(Seq<u8>, ValueView)>::empty() + entries.subrange(
                0,
                entries.len() as int,
            ) =~= entries);
        },
        _ => {},
    }
}

/// One kind of the value round trip.
#[verifier::rlimit(80)]
proof fn lemma_round_array(
    v: ValueView,
    pre: Seq<u8>,
    suf: Seq<u8>,
    tab: Seq<ValueView>,
    depth: int,
)
    requires
        wf_value(v),
        vdepth(v) <= depth,
        v is Array,
    ensures
        enc_value(v) matches Ok(b) && (dec_value(pre + b + suf, pre.len() as int, tab, depth)
            matches Ok((w, p, t2)) && w == v && p == pre.len() as int + b.len()),
    decreases v, 0int,
{
    match v {
        ValueView::Array { entries } => {
            lemma_wf_elems_pointwise(entries);
            let hd = pre + (seq![MARKER_STRICT_ARRAY] + u32_be_bytes(entries.len() as u32));
            lemma_round_elems(
                entries,
                0,
                hd,
                suf,
                Seq::empty(),
                tab.push(ValueView::Null),
                depth - 1,
            );
            let pb = enc_elems_from(entries, 0)->Ok_0;
            let b = seq![MARKER_STRICT_ARRAY] + u32_be_bytes(entries.len() as u32) + pb;
            let s = pre + b + suf;
            assert(s =~= hd + pb + suf);
            crate::wire::lemma_u32_be_roundtrip(entries.len() as u32);
            assert(s[pre.len() as int] == MARKER_STRICT_ARRAY);
            assert(s[pre.len() as int + 1 + 0] == u32_be_bytes(entries.len() as u32)[0] && s[pre.len() as int + 1 + 1] == u32_be_bytes(entries.len() as u32)[1] && s[pre.len() as int + 1 + 2] == u32_be_bytes(entries.len() as u32)[2] && s[pre.len() as int + 1 + 3] == u32_be_bytes(entries.len() as u32)[3]);
            assert(crate::wire::be32(s, pre.len() as int + 1) == crate::wire::be32(
                u32_be_bytes(entries.len() as u32),
                0,
            ));
            assert(Seq::<ValueView>::empty() + entries.subrange(0, entries.len() as int)
                =~= entries);
        },
        _ => {},
    }
}

/// Round trip of one value inside a larger buffer: encoding a
/// well-formed value succeeds, and decoding its bytes wherever they stand
/// gives the value back, consuming exactly those bytes, whatever the
/// reference table held.
pub proof fn lemma_round_value(
    v: ValueView,
    pre: Seq<u8>,
    suf: Seq<u8>,
    tab: Seq<ValueView>,
    depth: int,
)
    requires
        wf_value(v),
        vdepth(v) <= depth,
    ensures
        enc_value(v) matches Ok(b) && (dec_value(pre + b + suf, pre.len() as int, tab, depth)
            matches Ok((w, p, t2)) && w == v && p == pre.len() as int + b.len()),
    decreases v, 1int,
{
    match v {
        ValueView::Number(_) => lemma_round_number(v, pre, suf, tab, depth),
        ValueView::Boolean(_) => lemma_round_boolean(v, pre, suf, tab, depth),
        ValueView::String(_) => lemma_round_string(v, pre, suf, tab, depth),
        ValueView::Null => lemma_round_plain(v, pre, suf, tab, depth),
        ValueView::Undefined => lemma_round_plain(v, pre, suf, tab, depth),
        ValueView::Date { .. } => lemma_round_date(v, pre, suf, tab, depth),
        ValueView::XmlDocument(_) => lemma_round_xml(v, pre, suf, tab, depth),
        ValueView::Object { .. } => lemma_round_object(v, pre, suf, tab, depth),
        ValueView::EcmaArray { .. } => lemma_round_ecma(v, pre, suf, tab, depth),
        ValueView::Array { .. } => lemma_round_array(v, pre, suf, tab, depth),
    }
}

/// Round trip of the object entries from index `i` on: their encoding
/// decodes back to exactly those entries appended to the accumulator,
/// provided no key repeats and none is already accumulated.
#[verifier::rlimit(100)]
pub proof fn lemma_round_pairs(
    es: Seq<(Seq<u8>, ValueView)>,
    i: int,
    pre: Seq<u8>,
    suf: Seq<u8>,
    acc: Seq<(Seq<u8>, ValueView)>,
    tab: Seq<ValueView>,
    depth: int,
)
    requires
        0 <= i <= es.len(),
        forall|k: int|
            i <= k < es.len() ==> key_ok((#[trigger] es[k]).0) && wf_value(es[k].1) && vdepth(
                es[k].1,
            ) <= depth,
        forall|k1: int, k2: int|
            i <= k1 < k2 < es.len() ==> (#[trigger] es[k1]).0 != (#[trigger] es[k2]).0,
        forall|k: int, j: int|
            i <= k < es.len() && 0 <= j < acc.len() ==> (#[trigger] acc[j]).0 != (
            #[trigger] es[k]).0,
    ensures
        enc_pairs_from(es, i) matches Ok(b) && (dec_pairs(
            pre + b + suf,
            pre.len() as int,
            acc,
            tab,
            depth,
        ) matches Ok((es2, p, t2)) && es2 == acc + es.subrange(i, es.len() as int) && p == pre.len()
            + b.len()),
    decreases es, es.len() - i,
{
    if i >= es.len() {
        let b = u16_be_bytes(0) + seq![MARKER_OBJECT_END];
        let s = pre + b + suf;
        crate::wire::lemma_u16_be_roundtrip(0);
        assert(s[pre.len() as int] == u16_be_bytes(0)[0] && s[pre.len() as int + 1] == u16_be_bytes(0)[1]);
        assert(be16(s, pre.len() as int) == 0);
        assert(s[pre.len() as int + 2] == MARKER_OBJECT_END);
        assert(acc + es.subrange(i, es.len() as int) =~= acc);
    } else {
        let k = es[i].0;
        let v = es[i].1;
        lemma_round_value(v, pre + u16_be_bytes(k.len() as u16) + k, Seq::empty(), tab, depth);
        let vb = enc_value(v)->Ok_0;
        lemma_round_value(
            v,
            pre + u16_be_bytes(k.len() as u16) + k,
            enc_pairs_from(es, i + 1)->Ok_0 + suf,
            tab,
            depth,
        );
        let tab_mid = dec_value(
            (pre + u16_be_bytes(k.len() as u16) + k) + vb + (enc_pairs_from(es, i + 1)->Ok_0 + suf),
            (pre + u16_be_bytes(k.len() as u16) + k).len() as int,
            tab,
            depth,
        )->Ok_0.2;
        lemma_round_pairs(
            es,
            i + 1,
            pre + u16_be_bytes(k.len() as u16) + k + vb,
            suf,
            acc.push((k, v)),
            tab_mid,
            depth,
        );
        let rest = enc_pairs_from(es, i + 1)->Ok_0;
        let b = u16_be_bytes(k.len() as u16) + k + vb + rest;
        let s = pre + b + suf;
        crate::wire::lemma_u16_be_roundtrip(k.len() as u16);
        assert(s[pre.len() as int] == u16_be_bytes(k.len() as u16)[0] && s[pre.len() as int + 1]
            == u16_be_bytes(k.len() as u16)[1]);
        assert(be16(s, pre.len() as int) == k.len());
        assert(s.subrange(pre.len() as int + 2, pre.len() as int + 2 + k.len() as int) =~= k);
        assert(s =~= (pre + u16_be_bytes(k.len() as u16) + k) + vb + (rest + suf));
        let pos_v = pre.len() as int + 2 + k.len() as int;
        assert(pos_v == (pre + u16_be_bytes(k.len() as u16) + k).len());
        let p_after = pos_v + vb.len() as int;
        assert(vb.len() >= 1) by {
            lemma_enc_nonempty(v);
        }
        assert(bump(p_after, pos_v) == p_after);
        assert(find_key(acc, k) == acc.len()) by {
            lemma_find_key(acc, k);
            if find_key(acc, k) < acc.len() {
                assert(acc[find_key(acc, k)].0 == k);
            }
        }
        assert(insert_pair(acc, k, v) == acc.push((k, v)));
        assert(s =~= (pre + u16_be_bytes(k.len() as u16) + k + vb) + rest + suf);
        assert((acc.push((k, v))) + es.subrange(i + 1, es.len() as int) =~= acc + es.subrange(
            i,
            es.len() as int,
        ));
    }
}

/// An encoded value is never empty: every encoding opens with its marker.
pub proof fn lemma_enc_nonempty(v: ValueView)
    ensures
        enc_value(v) matches Ok(b) ==> b.len() >= 1,
{
}

/// Round trip of the array elements from index `i` on.
#[verifier::rlimit(100)]
pub proof fn lemma_round_elems(
    es: Seq<ValueView>,
    i: int,
    pre: Seq<u8>,
    suf: Seq<u8>,
    acc: Seq<ValueView>,
    tab: Seq<ValueView>,
    depth: int,
)
    requires
        0 <= i <= es.len(),
        forall|k: int|
            i <= k < es.len() ==> wf_value(#[trigger] es[k]) && vdepth(es[k]) <= depth,
    ensures
        enc_elems_from(es, i) matches Ok(b) && (dec_elems(
            pre + b + suf,
            pre.len() as int,
            es.len() - i,
            acc,
            tab,
            depth,
        ) matches Ok((es2, p, t2)) && es2 == acc + es.subrange(i, es.len() as int) && p == pre.len()
            + b.len()),
    decreases es, es.len() - i,
{
    if i >= es.len() {
        let s = pre + Seq::<u8>::empty() + suf;
        assert(acc + es.subrange(i, es.len() as int) =~= acc);
    } else {
        let v = es[i];
        lemma_round_value(v, pre, enc_elems_from(es, i + 1)->Ok_0 + suf, tab, depth);
        let vb = enc_value(v)->Ok_0;
        let tab_mid = dec_value(
            pre + vb + (enc_elems_from(es, i + 1)->Ok_0 + suf),
            pre.len() as int,
            tab,
            depth,
        )->Ok_0.2;
        lemma_round_elems(es, i + 1, pre + vb, suf, acc.push(v), tab_mid, depth);
        let rest = enc_elems_from(es, i + 1)->Ok_0;
        let b = vb + rest;
        let s = pre + b + suf;
        assert(s =~= pre + vb + (rest + suf));
        assert(vb.len() >= 1) by {
            lemma_enc_nonempty(v);
        }
        assert(pre.len() < s.len());
        assert(bump(pre.len() as int + vb.len() as int, pre.len() as int) == pre.len() as int + vb.len());
        assert(s =~= (pre + vb) + rest + suf);
        assert(acc.push(v) + es.subrange(i + 1, es.len() as int) =~= acc + es.subrange(
            i,
            es.len() as int,
        ));
    }
}

/// A reference to a table slot still being decoded — one that holds the
/// placeholder pushed before the value's members — is rejected as
/// circular, whatever stands around it; the open value is never returned.
pub proof fn lemma_reference_to_open_slot_rejected(
    s: Seq<u8>,
    pos: int,
    tab: Seq<ValueView>,
    depth: int,
)
    requires
        depth >= 1,
        0 <= pos,
        pos + 3 <= s.len(),
        s[pos] == MARKER_REFERENCE,
        0 <= be16(s, pos + 1) < tab.len(),
        tab[be16(s, pos + 1)] is Null,
    ensures
        dec_value(s, pos, tab, depth) == Err::<(ValueView, int, Seq<ValueView>), Amf0ReadError>(
            Amf0ReadError::CircularReference,
        ),
{
}

/// A reference to a finished table slot resolves to exactly that value,
/// consumes the three reference bytes, and leaves the table as it was.
pub proof fn lemma_reference_to_closed_slot_resolves(
    s: Seq<u8>,
    pos: int,
    tab: Seq<ValueView>,
    depth: int,
)
    requires
        depth >= 1,
        0 <= pos,
        pos + 3 <= s.len(),
        s[pos] == MARKER_REFERENCE,
        0 <= be16(s, pos + 1) < tab.len(),
        !(tab[be16(s, pos + 1)] is Null),
    ensures
        dec_value(s, pos, tab, depth) == Ok::<(ValueView, int, Seq<ValueView>), Amf0ReadError>(
            (tab[be16(s, pos + 1)], pos + 3, tab),
        ),
{
}

/// The codec round-trip law: encoding any well-formed value and decoding
/// the bytes with a fresh reference table gives the value back,
/// consuming the whole buffer.
pub proof fn lemma_encode_decode_roundtrip(v: ValueView)
    requires
        wf_value(v),
        vdepth(v) <= MAX_DEPTH,
    ensures
        enc_value(v) matches Ok(b) && (dec_value(b, 0, Seq::empty(), MAX_DEPTH as int) matches Ok(
            (w, p, _),
        ) && w == v && p == b.len()),
{
    lemma_round_value(v, Seq::empty(), Seq::empty(), Seq::empty(), MAX_DEPTH as int);
    let b = enc_value(v)->Ok_0;
    assert(Seq::<u8>::empty() + b + Seq::<u8>::empty() =~= b);
}

} // verus!
