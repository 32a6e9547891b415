use serde_intermediate::de::{
    DeserializeMode, Deserializer, EnumDeserializer, NewTypeReading, OptionReading, Reading,
    StructContent,
};
use serde_intermediate::ser::Serializer;
use serde_intermediate::Intermediate;
use std::collections::{HashMap, HashSet};

#[derive(Debug, Clone, PartialEq)]
struct UnitStruct;

#[derive(Debug, Clone, PartialEq)]
struct NewTypeStruct(bool);

#[derive(Debug, Clone, PartialEq)]
struct TupleStruct(bool, usize);

#[derive(Debug, Clone, PartialEq)]
enum Enum {
    Unit,
    NewType(UnitStruct),
    Tuple(bool, usize),
    Struct { scalar: f32, text: String },
}

#[derive(Debug, Clone, PartialEq)]
struct Struct {
    bool_value: bool,
    i8_value: i8,
    i16_value: i16,
    i32_value: i32,
    i64_value: i64,
    i128_value: i128,
    u8_value: u8,
    u16_value: u16,
    u32_value: u32,
    u64_value: u64,
    u128_value: u128,
    f32_value: f32,
    f64_value: f64,
    char_value: char,
    string_value: String,
    tuple: (bool, usize),
    bytes: Vec<u8>,
    option: Option<UnitStruct>,
    list: Vec<usize>,
    set: HashSet<usize>,
    string_map: HashMap<String, usize>,
    integer_map: HashMap<usize, usize>,
    enum_value: Enum,
    new_type_struct: NewTypeStruct,
    tuple_struct: TupleStruct,
}

fn encode_usize(v: usize) -> Intermediate {
    Intermediate::U64(v as u64)
}

fn encode_enum(v: &Enum) -> Intermediate {
    let s = Serializer;
    match v {
        Enum::Unit => s.serialize_unit_variant("Unit"),
        Enum::NewType(_) => s.serialize_newtype_variant("NewType", s.serialize_unit_struct()),
        Enum::Tuple(a, b) => {
            let mut t = s.serialize_tuple_variant("Tuple", 2);
            t.serialize_field(Intermediate::Bool(*a));
            t.serialize_field(encode_usize(*b));
            t.end()
        }
        Enum::Struct { scalar, text } => {
            let mut t = s.serialize_struct_variant("Struct", 2);
            t.serialize_field("scalar", Intermediate::F32(scalar.to_bits()));
            t.serialize_field("text", s.serialize_str(text));
            t.end()
        }
    }
}

fn encode(data: &Struct) -> Intermediate {
    let s = Serializer;
    let mut st = s.serialize_struct(25);
    st.serialize_field("bool_value", Intermediate::Bool(data.bool_value));
    st.serialize_field("i8_value", Intermediate::I8(data.i8_value));
    st.serialize_field("i16_value", Intermediate::I16(data.i16_value));
    st.serialize_field("i32_value", Intermediate::I32(data.i32_value));
    st.serialize_field("i64_value", Intermediate::I64(data.i64_value));
    st.serialize_field("i128_value", Intermediate::I128(data.i128_value));
    st.serialize_field("u8_value", Intermediate::U8(data.u8_value));
    st.serialize_field("u16_value", Intermediate::U16(data.u16_value));
    st.serialize_field("u32_value", Intermediate::U32(data.u32_value));
    st.serialize_field("u64_value", Intermediate::U64(data.u64_value));
    st.serialize_field("u128_value", Intermediate::U128(data.u128_value));
    st.serialize_field("f32_value", Intermediate::F32(data.f32_value.to_bits()));
    st.serialize_field("f64_value", Intermediate::F64(data.f64_value.to_bits()));
    st.serialize_field("char_value", Intermediate::Char(data.char_value));
    st.serialize_field("string_value", s.serialize_str(&data.string_value));
    let mut tuple = s.serialize_tuple(2);
    tuple.serialize_element(Intermediate::Bool(data.tuple.0));
    tuple.serialize_element(encode_usize(data.tuple.1));
    st.serialize_field("tuple", tuple.end());
    let mut bytes = s.serialize_seq(Some(data.bytes.len()));
    for byte in &data.bytes {
        bytes.serialize_element(Intermediate::U8(*byte));
    }
    st.serialize_field("bytes", bytes.end());
    st.serialize_field(
        "option",
        match &data.option {
            Some(_) => s.serialize_some(s.serialize_unit_struct()),
            None => s.serialize_none(),
        },
    );
    let mut list = s.serialize_seq(Some(data.list.len()));
    for item in &data.list {
        list.serialize_element(encode_usize(*item));
    }
    st.serialize_field("list", list.end());
    let mut set = s.serialize_seq(Some(data.set.len()));
    for item in &data.set {
        set.serialize_element(encode_usize(*item));
    }
    st.serialize_field("set", set.end());
    let mut string_map = s.serialize_map(Some(data.string_map.len()));
    for (k, v) in &data.string_map {
        string_map.serialize_entry(s.serialize_str(k), encode_usize(*v));
    }
    st.serialize_field("string_map", string_map.end());
    let mut integer_map = s.serialize_map(Some(data.integer_map.len()));
    for (k, v) in &data.integer_map {
        integer_map.serialize_key(encode_usize(*k));
        integer_map.serialize_value(encode_usize(*v)).unwrap();
    }
    st.serialize_field("integer_map", integer_map.end());
    st.serialize_field("enum_value", encode_enum(&data.enum_value));
    st.serialize_field(
        "new_type_struct",
        s.serialize_newtype_struct(Intermediate::Bool(data.new_type_struct.0)),
    );
    let mut tuple_struct = s.serialize_tuple_struct(2);
    tuple_struct.serialize_field(Intermediate::Bool(data.tuple_struct.0));
    tuple_struct.serialize_field(encode_usize(data.tuple_struct.1));
    st.serialize_field("tuple_struct", tuple_struct.end());
    st.end()
}

fn decode_usize(d: &Deserializer) -> usize {
    match d.deserialize_any() {
        Reading::Scalar(v) => v.as_u64().unwrap() as usize,
        other => panic!("expected a number, found {:?}", other),
    }
}

fn decode_bool(d: &Deserializer) -> bool {
    match d.deserialize_any() {
        Reading::Scalar(v) => v.as_bool().unwrap(),
        other => panic!("expected a bool, found {:?}", other),
    }
}

fn decode_list(d: &Deserializer) -> Vec<usize> {
    match d.deserialize_any() {
        Reading::List(mut cursor) => {
            let mut result = vec![];
            while let Some(item) = cursor.next_element() {
                result.push(decode_usize(&item));
            }
            result
        }
        other => panic!("expected a list, found {:?}", other),
    }
}

fn decode_pair(d: &Deserializer) -> (bool, usize) {
    match d.deserialize_any() {
        Reading::List(mut cursor) => {
            let a = decode_bool(&cursor.next_element().unwrap());
            let b = decode_usize(&cursor.next_element().unwrap());
            assert!(cursor.next_element().is_none());
            (a, b)
        }
        other => panic!("expected a pair, found {:?}", other),
    }
}

fn decode_enum(d: &Deserializer) -> Enum {
    let variants = ["Unit", "NewType", "Tuple", "Struct"];
    let access = match d.deserialize_enum(&variants) {
        Some(access) => access,
        None => match d.deserialize_any() {
            Reading::Variant(access) => access,
            other => panic!("expected a variant, found {:?}", other),
        },
    };
    match access.name().as_str() {
        "Unit" => {
            access.unit_variant().unwrap();
            Enum::Unit
        }
        "NewType" => {
            let content = access.newtype_variant().unwrap();
            assert!(matches!(content.deserialize_any(), Reading::Unit));
            Enum::NewType(UnitStruct)
        }
        "Tuple" => {
            let mut cursor = access.tuple_variant().unwrap();
            let a = decode_bool(&cursor.next_element().unwrap());
            let b = decode_usize(&cursor.next_element().unwrap());
            Enum::Tuple(a, b)
        }
        "Struct" => match access.struct_variant().unwrap() {
            (StructContent::Fields(fields), mode) => {
                let mut scalar = 0.0;
                let mut text = String::new();
                for (name, value) in fields {
                    let value = Deserializer::from_intermediate(value, mode);
                    match (name.as_str(), value.deserialize_any()) {
                        ("scalar", Reading::Scalar(v)) => scalar = f32::from_bits(v.as_f32().unwrap()),
                        ("text", Reading::Scalar(v)) => text = v.as_str().unwrap().to_owned(),
                        other => panic!("unexpected field {:?}", other),
                    }
                }
                Enum::Struct { scalar, text }
            }
            other => panic!("expected fields, found {:?}", other),
        },
        other => panic!("unknown variant {}", other),
    }
}

fn decode(tree: &Intermediate, mode: DeserializeMode) -> Struct {
    let root = Deserializer::from_intermediate(tree, mode);
    let mut fields = match root.deserialize_any() {
        Reading::Fields(cursor) => cursor,
        other => panic!("expected a struct, found {:?}", other),
    };
    let mut values = HashMap::new();
    while let Some((name, value)) = fields.next_entry() {
        values.insert(name.as_str(), value);
    }
    let scalar = |name: &str| match values[name].deserialize_any() {
        Reading::Scalar(v) => v,
        other => panic!("expected a scalar, found {:?}", other),
    };
    Struct {
        bool_value: scalar("bool_value").as_bool().unwrap(),
        i8_value: scalar("i8_value").as_i8().unwrap(),
        i16_value: scalar("i16_value").as_i16().unwrap(),
        i32_value: scalar("i32_value").as_i32().unwrap(),
        i64_value: scalar("i64_value").as_i64().unwrap(),
        i128_value: scalar("i128_value").as_i128().unwrap(),
        u8_value: scalar("u8_value").as_u8().unwrap(),
        u16_value: scalar("u16_value").as_u16().unwrap(),
        u32_value: scalar("u32_value").as_u32().unwrap(),
        u64_value: scalar("u64_value").as_u64().unwrap(),
        u128_value: scalar("u128_value").as_u128().unwrap(),
        f32_value: f32::from_bits(scalar("f32_value").as_f32().unwrap()),
        f64_value: f64::from_bits(scalar("f64_value").as_f64().unwrap()),
        char_value: scalar("char_value").as_char().unwrap(),
        string_value: scalar("string_value").as_str().unwrap().to_owned(),
        tuple: decode_pair(&values["tuple"]),
        bytes: match values["bytes"].deserialize_any() {
            Reading::List(mut cursor) => {
                let mut result = vec![];
                while let Some(item) = cursor.next_element() {
                    result.push(item.input.as_u8().unwrap());
                }
                result
            }
            other => panic!("expected a list, found {:?}", other),
        },
        option: match values["option"].deserialize_option() {
            OptionReading::Present(content) => {
                assert!(matches!(content.deserialize_any(), Reading::Unit));
                Some(UnitStruct)
            }
            OptionReading::Absent => None,
            OptionReading::Any => panic!("expected an option"),
        },
        list: decode_list(&values["list"]),
        set: decode_list(&values["set"]).into_iter().collect(),
        string_map: match values["string_map"].deserialize_any() {
            Reading::Entries(mut cursor) => {
                let mut result = HashMap::new();
                while let Some((k, v)) = cursor.next_entry() {
                    let key = match k.deserialize_any() {
                        Reading::Scalar(k) => k.as_str().unwrap().to_owned(),
                        other => panic!("expected a text, found {:?}", other),
                    };
                    result.insert(key, decode_usize(&v));
                }
                result
            }
            other => panic!("expected a map, found {:?}", other),
        },
        integer_map: match values["integer_map"].deserialize_any() {
            Reading::Entries(mut cursor) => {
                let mut result = HashMap::new();
                while let Some(k) = cursor.next_key() {
                    let v = cursor.next_value().unwrap();
                    result.insert(decode_usize(&k), decode_usize(&v));
                }
                result
            }
            other => panic!("expected a map, found {:?}", other),
        },
        enum_value: decode_enum(&values["enum_value"]),
        new_type_struct: match values["new_type_struct"].deserialize_newtype_struct() {
            NewTypeReading::Content(content) => NewTypeStruct(decode_bool(&content)),
            NewTypeReading::Any => match values["new_type_struct"].deserialize_any() {
                Reading::NewType(content) => NewTypeStruct(decode_bool(&content)),
                other => panic!("expected a newtype, found {:?}", other),
            },
        },
        tuple_struct: {
            let (a, b) = decode_pair(&values["tuple_struct"]);
            TupleStruct(a, b)
        },
    }
}

fn sample() -> Struct {
    Struct {
        bool_value: true,
        i8_value: -1,
        i16_value: 2,
        i32_value: -3,
        i64_value: 4,
        i128_value: -5,
        u8_value: 6,
        u16_value: 7,
        u32_value: 8,
        u64_value: 9,
        u128_value: 10,
        f32_value: 1.1,
        f64_value: 1.2,
        char_value: '@',
        string_value: "hello".to_owned(),
        tuple: (false, 13),
        bytes: vec![14, 15, 16, 17, 18, 19],
        option: Some(UnitStruct),
        list: vec![20, 21, 23],
        set: [20, 21, 23].into_iter().collect(),
        string_map: [("a".to_owned(), 24), ("b".to_owned(), 25)]
            .into_iter()
            .collect(),
        integer_map: [(27, 28), (29, 30)].into_iter().collect(),
        enum_value: Enum::Struct {
            scalar: 3.1,
            text: "world".to_owned(),
        },
        new_type_struct: NewTypeStruct(true),
        tuple_struct: TupleStruct(false, 32),
    }
}

#[test]
fn test_simple() {
    let data = sample();
    let serialized = encode(&data);
    let deserialized = decode(&serialized, DeserializeMode::default());
    assert_eq!(data, deserialized);
}

#[test]
fn round_trip_in_exact_mode() {
    let data = sample();
    let serialized = encode(&data);
    let deserialized = decode(&serialized, DeserializeMode::Exact);
    assert_eq!(data, deserialized);
}

#[test]
fn test_debug() {
    let data = sample();
    let serialized = encode(&data);
    println!("Debug: {:?}", serialized);
}

#[test]
fn test_size() {
    let s = Serializer;
    let mut items = s.serialize_tuple(10);
    for _ in 0..10 {
        items.serialize_element(Intermediate::U64(0));
    }
    let serialized = s.serialize_newtype_struct(s.serialize_newtype_struct(items.end()));
    assert_eq!(serialized.total_bytesize(), 832);
}

#[test]
fn interpretive_enum_readings() {
    let variants = ["Unit", "NewType", "Tuple", "Struct"];
    let text = Intermediate::String("Unit".to_owned());
    let d = Deserializer::from_intermediate(&text, DeserializeMode::Interpret);
    assert!(matches!(
        d.deserialize_enum(&variants),
        Some(EnumDeserializer::Unit { .. })
    ));
    let d = Deserializer::from_intermediate(&text, DeserializeMode::Exact);
    assert!(d.deserialize_enum(&variants).is_none());

    let entry = Intermediate::map().property(
        "Tuple".into(),
        Intermediate::seq().item(true.into()).item(42usize.into()),
    );
    let d = Deserializer::from_intermediate(&entry, DeserializeMode::Interpret);
    assert_eq!(decode_enum(&d), Enum::Tuple(true, 42));

    let entry = Intermediate::struct_type().field(
        "Struct",
        Intermediate::struct_type()
            .field("scalar", Intermediate::F32(4.2f32.to_bits()))
            .field("text", "hi".into()),
    );
    let d = Deserializer::from_intermediate(&entry, DeserializeMode::Interpret);
    assert_eq!(
        decode_enum(&d),
        Enum::Struct {
            scalar: 4.2,
            text: "hi".to_owned()
        }
    );

    let entry = Intermediate::struct_type().field("Other", Intermediate::Unit);
    let d = Deserializer::from_intermediate(&entry, DeserializeMode::Interpret);
    assert!(d.deserialize_enum(&variants).is_none());
}

#[test]
fn variant_access_errors() {
    let name = "A".to_owned();
    let unit = || EnumDeserializer::Unit { name: &name };
    assert!(unit().unit_variant().is_ok());
    assert!(matches!(
        unit().newtype_variant(),
        Err(serde_intermediate::Error::ExpectedNewTypeVariant)
    ));
    assert!(matches!(
        unit().tuple_variant(),
        Err(serde_intermediate::Error::ExpectedTupleVariant)
    ));
    assert!(matches!(
        unit().struct_variant(),
        Err(serde_intermediate::Error::ExpectedStructVariant)
    ));
    let content = Intermediate::Unit;
    let newtype = EnumDeserializer::NewType {
        name: &name,
        content: &content,
        mode: DeserializeMode::Exact,
    };
    assert!(matches!(
        newtype.unit_variant(),
        Err(serde_intermediate::Error::ExpectedUnitVariant)
    ));
}

#[test]
fn newtype_and_option_readings() {
    let single = Intermediate::seq().item(7u8.into());
    let d = Deserializer::from_intermediate(&single, DeserializeMode::Interpret);
    match d.deserialize_newtype_struct() {
        NewTypeReading::Content(c) => assert_eq!(*c.input, Intermediate::U8(7)),
        NewTypeReading::Any => panic!("single item should be unwrapped"),
    }
    let d = Deserializer::from_intermediate(&single, DeserializeMode::Exact);
    assert!(matches!(d.deserialize_newtype_struct(), NewTypeReading::Any));
    let two = Intermediate::seq().item(7u8.into()).item(8u8.into());
    let d = Deserializer::from_intermediate(&two, DeserializeMode::Interpret);
    assert!(matches!(d.deserialize_newtype_struct(), NewTypeReading::Any));

    let bare = Intermediate::U8(1);
    let d = Deserializer::from_intermediate(&bare, DeserializeMode::Interpret);
    match d.deserialize_option() {
        OptionReading::Present(content) => assert_eq!(*content.input, Intermediate::U8(1)),
        other => panic!("a bare value should count as present, found {:?}", other),
    }
    let d = Deserializer::from_intermediate(&bare, DeserializeMode::Exact);
    assert!(matches!(d.deserialize_option(), OptionReading::Any));
    let none = Intermediate::Option(None);
    let d = Deserializer::from_intermediate(&none, DeserializeMode::Exact);
    assert!(matches!(d.deserialize_option(), OptionReading::Absent));
}

#[test]
fn cursors_refuse_values_past_the_end() {
    let map = Intermediate::map().property(1u8.into(), 2u8.into());
    let d = Deserializer::from_intermediate(&map, DeserializeMode::Exact);
    let mut cursor = match d.deserialize_any() {
        Reading::Entries(cursor) => cursor,
        other => panic!("expected a map, found {:?}", other),
    };
    assert_eq!(*cursor.next_key().unwrap().input, Intermediate::U8(1));
    assert_eq!(*cursor.next_value().unwrap().input, Intermediate::U8(2));
    assert!(cursor.next_key().is_none());
    assert!(cursor.next_entry().is_none());
    assert!(matches!(
        cursor.next_value(),
        Err(serde_intermediate::Error::ExpectedMapEntry)
    ));

    let fields = Intermediate::struct_type().field("a", 2u8.into());
    let d = Deserializer::from_intermediate(&fields, DeserializeMode::Exact);
    let mut cursor = match d.deserialize_any() {
        Reading::Fields(cursor) => cursor,
        other => panic!("expected a struct, found {:?}", other),
    };
    assert_eq!(cursor.next_key().unwrap(), "a");
    assert_eq!(*cursor.next_value().unwrap().input, Intermediate::U8(2));
    assert!(cursor.next_key().is_none());
    assert!(matches!(
        cursor.next_value(),
        Err(serde_intermediate::Error::ExpectedStructField)
    ));

    let mut gatherer = Serializer.serialize_map(None);
    assert!(matches!(
        gatherer.serialize_value(Intermediate::Unit),
        Err(serde_intermediate::Error::ExpectedMapEntry)
    ));
    gatherer.serialize_key(1u8.into());
    gatherer.serialize_value(2u8.into()).unwrap();
    assert_eq!(gatherer.end(), map);
}
