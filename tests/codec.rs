use dbus::item::{
    TYPE_ARRAY, TYPE_BOOLEAN, TYPE_BYTE, TYPE_DICT_ENTRY, TYPE_INT16, TYPE_INT32, TYPE_INT64,
    TYPE_STRING, TYPE_UINT16, TYPE_UINT32, TYPE_UINT64, TYPE_VARIANT,
};
use dbus::{DecodeError, Element, EncodeError, MessageItem};

fn encode(items: &[MessageItem]) -> Result<Vec<Element>, EncodeError> {
    let mut out = Vec::new();
    MessageItem::copy_to_iter(&mut out, items)?;
    Ok(out)
}

fn encode_one(item: MessageItem) -> Result<Vec<Element>, EncodeError> {
    encode(&[item])
}

fn round_trip(items: &[MessageItem]) -> Vec<MessageItem> {
    let wire = encode(items).unwrap();
    MessageItem::from_iter(&wire).unwrap()
}

fn container(tag: i32, children: Vec<Element>) -> Element {
    Element { tag: tag as u8, signature: Vec::new(), basic: 0, text: String::new(), children }
}

fn byte_element(b: u8) -> Element {
    Element { tag: TYPE_BYTE as u8, signature: Vec::new(), basic: b as i64, text: String::new(), children: Vec::new() }
}

fn dict(k: MessageItem, v: MessageItem) -> MessageItem {
    MessageItem::DictEntry(Box::new(k), Box::new(v))
}

#[test]
fn type_codes_of_every_kind() {
    assert_eq!(MessageItem::Str("a".to_string()).array_type(), TYPE_STRING);
    assert_eq!(MessageItem::Bool(true).array_type(), TYPE_BOOLEAN);
    assert_eq!(MessageItem::Byte(1).array_type(), TYPE_BYTE);
    assert_eq!(MessageItem::Int16(1).array_type(), TYPE_INT16);
    assert_eq!(MessageItem::Int32(1).array_type(), TYPE_INT32);
    assert_eq!(MessageItem::Int64(1).array_type(), TYPE_INT64);
    assert_eq!(MessageItem::UInt16(1).array_type(), TYPE_UINT16);
    assert_eq!(MessageItem::UInt32(1).array_type(), TYPE_UINT32);
    assert_eq!(MessageItem::UInt64(1).array_type(), TYPE_UINT64);
    assert_eq!(MessageItem::Array(vec![], 0).array_type(), TYPE_ARRAY);
    assert_eq!(MessageItem::Variant(Box::new(MessageItem::Byte(0))).array_type(), TYPE_VARIANT);
    assert_eq!(dict(MessageItem::Byte(0), MessageItem::Byte(0)).array_type(), TYPE_DICT_ENTRY);
    assert_eq!(TYPE_STRING, 's' as i32);
    assert_eq!(TYPE_DICT_ENTRY, 'e' as i32);
}

#[test]
fn end_to_end_body() {
    let items = vec![
        MessageItem::UInt16(2000),
        MessageItem::Array(vec![MessageItem::Byte(129)], -1),
        MessageItem::UInt64(987654321),
        MessageItem::Int32(-1),
        MessageItem::Str("hello".to_string()),
        MessageItem::Array(vec![dict(MessageItem::UInt32(7), MessageItem::Bool(true))], -1),
    ];
    let decoded = round_trip(&items);
    let expected = vec![
        MessageItem::UInt16(2000),
        MessageItem::Array(vec![MessageItem::Byte(129)], TYPE_BYTE),
        MessageItem::UInt64(987654321),
        MessageItem::Int32(-1),
        MessageItem::Str("hello".to_string()),
        MessageItem::Array(vec![dict(MessageItem::UInt32(7), MessageItem::Bool(true))], TYPE_DICT_ENTRY),
    ];
    assert_eq!(decoded, expected);
    // decoding is stable: the decoded values survive a second round trip unchanged
    assert_eq!(round_trip(&decoded), decoded);
}

#[test]
fn round_trip_nested_containers() {
    let items = vec![
        MessageItem::Array(
            vec![
                MessageItem::Variant(Box::new(MessageItem::Int64(-5))),
                MessageItem::Variant(Box::new(MessageItem::Str("x".to_string()))),
            ],
            TYPE_VARIANT,
        ),
        MessageItem::Array(
            vec![
                dict(MessageItem::Str("a".to_string()), MessageItem::Int16(-300)),
                dict(MessageItem::Str("b".to_string()), MessageItem::Int16(300)),
            ],
            TYPE_DICT_ENTRY,
        ),
        MessageItem::Variant(Box::new(MessageItem::Array(
            vec![MessageItem::UInt32(1), MessageItem::UInt32(u32::MAX)],
            TYPE_UINT32,
        ))),
        MessageItem::Array(
            vec![MessageItem::Array(vec![MessageItem::Bool(false)], TYPE_BOOLEAN)],
            TYPE_ARRAY,
        ),
    ];
    assert_eq!(round_trip(&items), items);
}

#[test]
fn scalar_extremes_round_trip() {
    let items = vec![
        MessageItem::Byte(255),
        MessageItem::Int16(i16::MIN),
        MessageItem::Int32(i32::MIN),
        MessageItem::Int64(i64::MIN),
        MessageItem::UInt16(u16::MAX),
        MessageItem::UInt32(u32::MAX),
        MessageItem::UInt64(u64::MAX),
        MessageItem::Bool(true),
        MessageItem::Bool(false),
        MessageItem::Str(String::new()),
    ];
    assert_eq!(round_trip(&items), items);
}

#[test]
fn scalar_fixed_representation() {
    let wire = encode(&[MessageItem::UInt64(u64::MAX), MessageItem::Bool(true), MessageItem::Int16(-2)]).unwrap();
    assert_eq!(wire.len(), 3);
    assert_eq!(wire[0].tag, b't');
    assert_eq!(wire[0].basic, -1);
    assert_eq!(wire[1].tag, b'b');
    assert_eq!(wire[1].basic, 1);
    assert_eq!(wire[2].basic, -2);
    let s = encode_one(MessageItem::Str("hi".to_string())).unwrap();
    assert_eq!(s[0].tag, b's');
    assert_eq!(s[0].text, "hi");
}

#[test]
fn container_signatures() {
    let w = encode_one(MessageItem::Array(vec![dict(MessageItem::UInt32(1), MessageItem::Bool(true))], -1)).unwrap();
    assert_eq!(w[0].tag, b'a');
    assert_eq!(w[0].signature, b"{ub}".to_vec());
    assert_eq!(w[0].children.len(), 1);
    assert_eq!(w[0].children[0].tag, b'e');
    assert_eq!(w[0].children[0].signature, Vec::<u8>::new());
    assert_eq!(w[0].children[0].children.len(), 2);

    let w = encode_one(MessageItem::Array(vec![MessageItem::Byte(1)], -1)).unwrap();
    assert_eq!(w[0].signature, b"y".to_vec());
    let w = encode_one(MessageItem::Array(vec![], TYPE_STRING)).unwrap();
    assert_eq!(w[0].signature, b"s".to_vec());
    assert_eq!(w[0].children.len(), 0);

    let w = encode_one(MessageItem::Variant(Box::new(MessageItem::Int32(3)))).unwrap();
    assert_eq!(w[0].tag, b'v');
    assert_eq!(w[0].signature, b"i".to_vec());
    assert_eq!(w[0].children[0].basic, 3);
}

#[test]
fn mixed_array_with_declared_type_fails() {
    let a = MessageItem::Array(vec![MessageItem::Byte(1), MessageItem::Int32(2)], TYPE_BYTE);
    assert_eq!(encode_one(a).err(), Some(EncodeError::ElementTypeMismatch));
    let b = MessageItem::Array(vec![MessageItem::Byte(1)], TYPE_INT32);
    assert_eq!(encode_one(b).err(), Some(EncodeError::ElementTypeMismatch));
}

#[test]
fn mixed_array_without_declared_type_fails() {
    let a = MessageItem::Array(vec![MessageItem::Byte(1), MessageItem::Int32(2)], -1);
    assert_eq!(encode_one(a).err(), Some(EncodeError::ElementTypeMismatch));
    let b = MessageItem::Array(vec![MessageItem::Str("x".to_string()), MessageItem::Str("y".to_string()), MessageItem::Bool(true)], 0);
    assert_eq!(encode_one(b).err(), Some(EncodeError::ElementTypeMismatch));
}

#[test]
fn empty_array_without_type_fails() {
    assert_eq!(encode_one(MessageItem::Array(vec![], -1)).err(), Some(EncodeError::EmptyArray));
    assert_eq!(encode_one(MessageItem::Array(vec![], 0)).err(), Some(EncodeError::EmptyArray));
    let nested = MessageItem::Variant(Box::new(MessageItem::Array(vec![], -1)));
    assert_eq!(encode_one(nested).err(), Some(EncodeError::EmptyArray));
}

#[test]
fn failed_encode_leaves_cursor_unchanged() {
    let mut out = Vec::new();
    MessageItem::Byte(3).iter_append(&mut out).unwrap();
    let bad = MessageItem::Array(vec![MessageItem::Byte(1), MessageItem::Bool(true)], -1);
    assert_eq!(bad.iter_append(&mut out), Err(EncodeError::ElementTypeMismatch));
    assert_eq!(out.len(), 1);
}

#[test]
fn empty_array_decodes_unspecified() {
    let wire = vec![container(TYPE_ARRAY, vec![])];
    assert_eq!(MessageItem::from_iter(&wire), Ok(vec![MessageItem::Array(vec![], 0)]));
    let declared = encode_one(MessageItem::Array(vec![], TYPE_STRING)).unwrap();
    assert_eq!(MessageItem::from_iter(&declared), Ok(vec![MessageItem::Array(vec![], 0)]));
}

#[test]
fn dict_entry_arity() {
    for n in [0usize, 1, 3] {
        let children = (0..n).map(|i| byte_element(i as u8)).collect();
        let wire = vec![container(TYPE_DICT_ENTRY, children)];
        assert_eq!(MessageItem::from_iter(&wire), Err(DecodeError::MalformedDictEntry));
    }
    let wire = vec![container(TYPE_DICT_ENTRY, vec![byte_element(4), byte_element(9)])];
    assert_eq!(
        MessageItem::from_iter(&wire),
        Ok(vec![dict(MessageItem::Byte(4), MessageItem::Byte(9))])
    );
}

#[test]
fn variant_arity() {
    for n in [0usize, 2, 3] {
        let children = (0..n).map(|i| byte_element(i as u8)).collect();
        let wire = vec![container(TYPE_VARIANT, children)];
        assert_eq!(MessageItem::from_iter(&wire), Err(DecodeError::MalformedVariant));
    }
    let wire = vec![container(TYPE_VARIANT, vec![byte_element(7)])];
    assert_eq!(
        MessageItem::from_iter(&wire),
        Ok(vec![MessageItem::Variant(Box::new(MessageItem::Byte(7)))])
    );
}

#[test]
fn unsupported_type_is_rejected() {
    let wire = vec![byte_element(1), container('r' as i32, vec![])];
    assert_eq!(MessageItem::from_iter(&wire), Err(DecodeError::UnsupportedType(b'r')));
    let nested = vec![container(TYPE_ARRAY, vec![container('h' as i32, vec![])])];
    assert_eq!(MessageItem::from_iter(&nested), Err(DecodeError::UnsupportedType(b'h')));
}

#[test]
fn end_code_stops_decoding() {
    let wire = vec![byte_element(1), container(0, vec![]), container('r' as i32, vec![])];
    assert_eq!(MessageItem::from_iter(&wire), Ok(vec![MessageItem::Byte(1)]));
    assert_eq!(MessageItem::from_iter(&Vec::new()), Ok(vec![]));
}

#[test]
fn decoded_scalars_take_their_width() {
    let wire = vec![Element { tag: b'y', signature: Vec::new(), basic: 0x1ff, text: String::new(), children: Vec::new() }];
    assert_eq!(MessageItem::from_iter(&wire), Ok(vec![MessageItem::Byte(0xff)]));
    let wire = vec![Element { tag: b'b', signature: Vec::new(), basic: 5, text: String::new(), children: Vec::new() }];
    assert_eq!(MessageItem::from_iter(&wire), Ok(vec![MessageItem::Bool(true)]));
}
