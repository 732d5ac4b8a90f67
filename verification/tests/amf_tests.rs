use flv::amf::Decoder;
use flv::amf::Encoder;
use flv::amf::Value;
use flv::error::Amf0ReadError;

fn decode_one(bytes: Vec<u8>) -> Result<Value, Amf0ReadError> {
    let mut d = Decoder::new(bytes);
    d.decode()
}

fn encode_one(v: &Value) -> Vec<u8> {
    let mut e = Encoder::new(Vec::new());
    e.encode(v).unwrap();
    e.into_inner()
}

#[test]
fn number_round_trips() {
    let bits = 4631107791820423168u64;
    let v = Value::Number(bits);
    let bytes = encode_one(&v);
    assert_eq!(bytes[0], 0x00);
    assert_eq!(bytes.len(), 9);
    assert_eq!(decode_one(bytes).unwrap(), v);
}

#[test]
fn boolean_and_null_round_trip() {
    assert_eq!(encode_one(&Value::Boolean(true)), vec![0x01, 0x01]);
    assert_eq!(decode_one(vec![0x01, 0x00]).unwrap(), Value::Boolean(false));
    assert_eq!(decode_one(vec![0x01, 0x07]).unwrap(), Value::Boolean(true));
    assert_eq!(encode_one(&Value::Null), vec![0x05]);
    assert_eq!(decode_one(vec![0x05]).unwrap(), Value::Null);
    assert_eq!(decode_one(vec![0x06]).unwrap(), Value::Undefined);
}

#[test]
fn string_round_trips() {
    let v = Value::String(b"onMetaData".to_vec());
    let bytes = encode_one(&v);
    assert_eq!(&bytes[..3], &[0x02, 0x00, 0x0A]);
    assert_eq!(decode_one(bytes).unwrap(), v);
}

#[test]
fn long_string_marker_decodes_as_string() {
    let bytes = vec![0x0C, 0x00, 0x00, 0x00, 0x02, b'h', b'i'];
    assert_eq!(decode_one(bytes).unwrap(), Value::String(b"hi".to_vec()));
}

#[test]
fn nested_object_round_trips() {
    let inner = Value::Object {
        class_name: None,
        entries: vec![(b"width".to_vec(), Value::Number(100))],
    };
    let v = Value::Object {
        class_name: None,
        entries: vec![
            (b"video".to_vec(), inner),
            (b"ok".to_vec(), Value::Boolean(true)),
            (b"items".to_vec(), Value::Array { entries: vec![Value::Null, Value::Number(7)] }),
        ],
    };
    let bytes = encode_one(&v);
    assert_eq!(decode_one(bytes).unwrap(), v);
}

#[test]
fn ecma_array_round_trips() {
    let v = Value::EcmaArray {
        entries: vec![
            (b"duration".to_vec(), Value::Number(1)),
            (b"server".to_vec(), Value::String(b"live".to_vec())),
        ],
    };
    let bytes = encode_one(&v);
    assert_eq!(bytes[0], 0x08);
    assert_eq!(decode_one(bytes).unwrap(), v);
}

#[test]
fn typed_object_round_trips() {
    let v = Value::Object {
        class_name: Some(b"Info".to_vec()),
        entries: vec![(b"n".to_vec(), Value::Number(2))],
    };
    let bytes = encode_one(&v);
    assert_eq!(bytes[0], 0x10);
    assert_eq!(decode_one(bytes).unwrap(), v);
}

#[test]
fn date_round_trips_and_validates() {
    let v = Value::Date { millis_bits: 4700000000000000000u64, time_zone: -60 };
    let bytes = encode_one(&v);
    assert_eq!(bytes[0], 0x0B);
    assert_eq!(decode_one(bytes).unwrap(), v);
    // A negative millisecond value (sign bit set) is rejected.
    let mut bad = vec![0x0B];
    bad.extend_from_slice(&[0x80, 0, 0, 0, 0, 0, 0, 1]);
    bad.extend_from_slice(&[0, 0]);
    assert_eq!(
        decode_one(bad),
        Err(Amf0ReadError::InvalidDate(0x8000000000000001))
    );
}

#[test]
fn reference_to_closed_sibling_resolves() {
    // Object { a: {}, b: Reference(1) }: slot 0 is the outer object,
    // slot 1 the already-closed empty child, so the reference resolves
    // to that child.
    let bytes = vec![
        0x03, // outer object
        0x00, 0x01, b'a', 0x03, 0x00, 0x00, 0x09, // a: {} (slot 1, closed)
        0x00, 0x01, b'b', 0x07, 0x00, 0x01, // b: reference to slot 1
        0x00, 0x00, 0x09, // end of outer object
    ];
    let v = decode_one(bytes).unwrap();
    let expected = Value::Object {
        class_name: None,
        entries: vec![
            (b"a".to_vec(), Value::Object { class_name: None, entries: vec![] }),
            (b"b".to_vec(), Value::Object { class_name: None, entries: vec![] }),
        ],
    };
    assert_eq!(v, expected);
}

#[test]
fn reference_to_open_ancestor_is_circular() {
    // Object { a: Reference(0) }: slot 0 is the outer object itself,
    // still being decoded, so the reference is circular.
    let bytes = vec![
        0x03, 0x00, 0x01, b'a', 0x07, 0x00, 0x00, 0x00, 0x00, 0x09,
    ];
    assert_eq!(decode_one(bytes), Err(Amf0ReadError::CircularReference));
}

#[test]
fn reference_out_of_range() {
    let bytes = vec![0x07, 0x00, 0x05];
    assert_eq!(decode_one(bytes), Err(Amf0ReadError::OutOfRangeReference(5)));
}

#[test]
fn unknown_marker_rejected() {
    assert_eq!(decode_one(vec![0x11]), Err(Amf0ReadError::UnknownMarker(0x11)));
}

#[test]
fn movieclip_and_recordset_unsupported() {
    assert_eq!(decode_one(vec![0x04]), Err(Amf0ReadError::Unsupported));
    assert_eq!(decode_one(vec![0x0D]), Err(Amf0ReadError::Unsupported));
    assert_eq!(decode_one(vec![0x0E]), Err(Amf0ReadError::Unsupported));
    assert_eq!(decode_one(vec![0x09]), Err(Amf0ReadError::Unsupported));
}

#[test]
fn invalid_utf8_string_rejected() {
    // Were the UTF-8 check a pass-through, these bytes would decode as a
    // two-byte string.
    let bytes = vec![0x02, 0x00, 0x02, 0xFF, 0xFE];
    assert_eq!(decode_one(bytes), Err(Amf0ReadError::StringParseError));
}

#[test]
fn truncated_value_is_io() {
    assert_eq!(decode_one(vec![0x02, 0x00, 0x05, b'a']), Err(Amf0ReadError::Io));
    assert_eq!(decode_one(vec![0x00, 0x01]), Err(Amf0ReadError::Io));
    assert_eq!(decode_one(vec![]), Err(Amf0ReadError::Io));
}

#[test]
fn bare_end_marker_in_pairs_rejected() {
    // A zero-length key must be followed by the end-marker byte.
    let bytes = vec![0x03, 0x00, 0x00, 0x05, 0x00, 0x00, 0x09];
    assert_eq!(decode_one(bytes), Err(Amf0ReadError::UnexpectedObjectEnd));
}

#[test]
fn duplicate_keys_keep_position_take_last_value() {
    let bytes = vec![
        0x03, //
        0x00, 0x01, b'k', 0x00, 0, 0, 0, 0, 0, 0, 0, 1, // k: Number(1)
        0x00, 0x01, b'j', 0x05, // j: Null
        0x00, 0x01, b'k', 0x00, 0, 0, 0, 0, 0, 0, 0, 2, // k again: Number(2)
        0x00, 0x00, 0x09,
    ];
    let v = decode_one(bytes).unwrap();
    let expected = Value::Object {
        class_name: None,
        entries: vec![
            (b"k".to_vec(), Value::Number(2)),
            (b"j".to_vec(), Value::Null),
        ],
    };
    assert_eq!(v, expected);
}

#[test]
fn decoder_reference_table_clears() {
    let mut d = Decoder::new(vec![0x03, 0x00, 0x00, 0x09, 0x07, 0x00, 0x00]);
    d.decode().unwrap();
    d.clear_reference_table();
    // After clearing, the reference can no longer resolve.
    assert_eq!(d.decode(), Err(Amf0ReadError::OutOfRangeReference(0)));
}

#[test]
fn failed_decode_keeps_earlier_table_entries() {
    // First an object enters the table; a later out-of-range reference
    // fails, but the slot it left behind still resolves.
    let mut d = Decoder::new(vec![
        0x03, 0x00, 0x00, 0x09, // {}: table slot 0
        0x07, 0x00, 0x09, // reference to a slot that does not exist
        0x07, 0x00, 0x00, // reference to slot 0
    ]);
    d.decode().unwrap();
    assert_eq!(d.decode(), Err(Amf0ReadError::OutOfRangeReference(9)));
    assert_eq!(
        d.decode().unwrap(),
        Value::Object { class_name: None, entries: vec![] }
    );
}

#[test]
fn decoder_exposes_inner() {
    let mut d = Decoder::new(vec![0x05, 0x06]);
    assert_eq!(d.inner().len(), 2);
    d.inner_mut().push(0x05);
    assert_eq!(d.decode().unwrap(), Value::Null);
    assert_eq!(d.position(), 1);
    d.set_position(2);
    assert_eq!(d.decode().unwrap(), Value::Null);
    assert_eq!(d.into_inner(), vec![0x05, 0x06, 0x05]);
}

#[test]
fn oversize_key_rejected_on_encode() {
    let v = Value::Object {
        class_name: None,
        entries: vec![(vec![b'x'; 0x10000], Value::Null)],
    };
    let mut e = Encoder::new(Vec::new());
    assert_eq!(e.encode(&v), Err(Amf0ReadError::Unsupported));
}

#[test]
fn deep_nesting_rejected() {
    // A chain of strict arrays deeper than the decoder's nesting bound.
    let mut bytes = Vec::new();
    for _ in 0..70 {
        bytes.extend_from_slice(&[0x0A, 0x00, 0x00, 0x00, 0x01]);
    }
    bytes.push(0x05);
    assert_eq!(decode_one(bytes), Err(Amf0ReadError::Unsupported));
}

#[test]
fn value_accessors_and_builders() {
    let s = flv::amf::string(b"hey".to_vec());
    assert_eq!(s.try_as_str(), Some(&b"hey".to_vec()));
    assert_eq!(Value::XmlDocument(b"<a/>".to_vec()).try_as_str(), Some(&b"<a/>".to_vec()));
    assert_eq!(flv::amf::number(9).try_as_str(), None);
    let arr = flv::amf::array(vec![Value::Null, flv::amf::number(1)]);
    assert_eq!(arr.try_into_values(), Ok(vec![Value::Null, Value::Number(1)]));
    assert_eq!(Value::Null.try_into_values(), Err(Value::Null));
    let obj = flv::amf::object(vec![(b"k".to_vec(), Value::Boolean(false))]);
    assert_eq!(
        obj.try_into_pairs(),
        Ok(vec![(b"k".to_vec(), Value::Boolean(false))])
    );
    assert_eq!(Value::Undefined.try_into_pairs(), Err(Value::Undefined));
}
