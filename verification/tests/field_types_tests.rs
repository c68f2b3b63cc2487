use demoparser::decoder::Decoder;
use demoparser::error::DemoParserError;
use demoparser::field_types::{
    create_field, find_category, find_field_type, is_array, is_pointer, is_vector, ConstructorField,
};
use demoparser::sendtables::{to_string, Field, FieldCategory, FieldType, Serializer};

fn parse(name: &str) -> Result<FieldType, DemoParserError> {
    let mut table: Vec<(String, FieldType)> = Vec::new();
    find_field_type(name, &mut table)
}

fn plain_type(base: &str) -> FieldType {
    FieldType { base_type: base.to_string(), generic_type: None, pointer: false, count: None, element_type: None }
}

fn field(var_name: &str, ft: FieldType, serializer_name: Option<&str>, category: FieldCategory) -> ConstructorField {
    ConstructorField {
        var_name: var_name.to_string(),
        var_type: String::new(),
        send_node: String::new(),
        serializer_name: serializer_name.map(|s| s.to_string()),
        encoder: String::new(),
        encode_flags: 0,
        bitcount: 0,
        low_value_bits: 0,
        high_value_bits: 0,
        field_type: ft,
        decoder: Decoder::UnsignedDecoder,
        category,
        field_enum_type: None,
        serializer: None,
        base_decoder: None,
        child_decoder: None,
    }
}

#[test]
fn array_type_has_count_and_element() {
    let ft = parse("uint8[4]").unwrap();
    assert_eq!(ft.base_type, "uint8");
    assert_eq!(ft.count, Some(4));
    assert!(!ft.pointer);
    assert!(ft.generic_type.is_none());
    let el = ft.element_type.unwrap();
    assert_eq!(el.base_type, "uint8");
    assert_eq!(el.count, None);
    assert!(el.element_type.is_none());
}

#[test]
fn nested_generic_type() {
    let ft = parse("CNetworkUtlVectorBase< CHandle< CBaseEntity > >").unwrap();
    assert_eq!(ft.base_type, "CNetworkUtlVectorBase");
    let g = ft.generic_type.unwrap();
    assert_eq!(g.base_type, "CHandle");
    let gg = g.generic_type.unwrap();
    assert_eq!(gg.base_type, "CBaseEntity");
    assert!(gg.generic_type.is_none());
    assert_eq!(ft.count, None);
}

#[test]
fn pointer_by_star_or_by_name() {
    let ft = parse("CEntityIdentity*").unwrap();
    assert_eq!(ft.base_type, "CEntityIdentity");
    assert!(ft.pointer);
    assert!(parse("CBodyComponent").unwrap().pointer);
    assert!(parse("CPlayerLocalData").unwrap().pointer);
    assert!(!parse("CBodyComponentX").unwrap().pointer);
}

#[test]
fn count_that_is_no_number_reads_as_zero() {
    assert_eq!(parse("uint8[abc]").unwrap().count, Some(0));
    assert_eq!(parse("a[2]]").unwrap().count, Some(0));
    assert_eq!(parse("a[99999999999]").unwrap().count, Some(0));
    assert_eq!(parse("a[-3]").unwrap().count, Some(-3));
    assert_eq!(parse("*x[+7]z").unwrap().count, Some(7));
    assert_eq!(parse("*x[+7]z").unwrap().base_type, "x");
}

#[test]
fn names_without_a_base_are_malformed() {
    assert_eq!(parse("***").unwrap_err(), DemoParserError::MalformedMessage);
    assert_eq!(parse("").unwrap_err(), DemoParserError::MalformedMessage);
    assert_eq!(parse("A<  >").unwrap_err(), DemoParserError::MalformedMessage);
}

#[test]
fn element_of_generic_array_loses_generic() {
    // The element type is read back from the text `CUtlVector< uint32< `,
    // which has no closing `>`.
    let ft = parse("CUtlVector< uint32 >[2]").unwrap();
    assert_eq!(ft.generic_type.as_ref().unwrap().base_type, "uint32");
    let el = ft.element_type.unwrap();
    assert_eq!(el.base_type, "CUtlVector");
    assert!(el.generic_type.is_none());
}

#[test]
fn table_collects_element_types() {
    let mut table: Vec<(String, FieldType)> = Vec::new();
    let a = find_field_type("uint8[4]", &mut table).unwrap();
    assert_eq!(table.len(), 1);
    assert_eq!(table[0].0, "uint8");
    let b = find_field_type("uint8[8]", &mut table).unwrap();
    assert_eq!(table.len(), 1);
    assert_eq!(a.element_type.unwrap().base_type, b.element_type.unwrap().base_type);
}

#[test]
fn categories() {
    let mut p = field("a", parse("CBodyComponent").unwrap(), None, FieldCategory::Value);
    assert!(is_pointer(&p));
    assert_eq!(find_category(&mut p), FieldCategory::Pointer);
    let mut v = field("b", plain_type("CUtlVector"), None, FieldCategory::Value);
    assert!(is_vector(&v));
    assert_eq!(find_category(&mut v), FieldCategory::Vector);
    let mut s = field("c", plain_type("X"), Some("CSer"), FieldCategory::Value);
    assert_eq!(find_category(&mut s), FieldCategory::Vector);
    let mut arr = field("d", parse("uint8[4]").unwrap(), None, FieldCategory::Value);
    assert!(is_array(&arr));
    assert_eq!(find_category(&mut arr), FieldCategory::Array);
    let mut text = field("e", parse("char[128]").unwrap(), None, FieldCategory::Value);
    assert!(!is_array(&text));
    assert_eq!(find_category(&mut text), FieldCategory::Value);
}

#[test]
fn decoders_for_angles_and_64_bit_integers() {
    let mut f = field("m_angEyeAngles", plain_type("QAngle"), None, FieldCategory::Value);
    assert_eq!(f.find_qangle_decoder(), Decoder::QanglePitchYawDecoder);
    f.var_name = "m_angRotation".to_string();
    assert_eq!(f.find_qangle_decoder(), Decoder::QangleVarDecoder);
    f.bitcount = 8;
    assert_eq!(f.find_qangle_decoder(), Decoder::Qangle3Decoder);
    f.encoder = "fixed64".to_string();
    assert_eq!(f.find_uint_decoder(), Decoder::Fixed64Decoder);
    f.encoder = "varint".to_string();
    assert_eq!(f.find_uint_decoder(), Decoder::Unsigned64Decoder);
}

#[test]
fn created_fields() {
    let sers = vec![
        Serializer { name: "CCSGameModeRules".to_string(), fields: vec![] },
        Serializer { name: "CEconItem".to_string(), fields: vec![] },
    ];
    let sid = String::new();
    let mut value = field("m_iHealth", plain_type("int32"), None, FieldCategory::Value);
    match create_field(&sid, &mut value, &sers).unwrap() {
        Field::Value(v) => {
            assert_eq!(v.name, "m_iHealth");
            assert_eq!(v.prop_id, 0);
        },
        _ => panic!("value expected"),
    }
    let mut arr = field("m_arr", parse("int32[3]").unwrap(), None, FieldCategory::Array);
    match create_field(&sid, &mut arr, &sers).unwrap() {
        Field::Array(a) => {
            assert_eq!(a.length, 3);
            assert!(matches!(*a.field_enum, Field::Value(_)));
        },
        _ => panic!("array expected"),
    }
    let mut ptr = field("m_rules", plain_type("X"), Some("CCSGameModeRules"), FieldCategory::Pointer);
    match create_field(&sid, &mut ptr, &sers).unwrap() {
        Field::Pointer(p) => assert_eq!(p.decoder, Decoder::GameModeRulesDecoder),
        _ => panic!("pointer expected"),
    }
    let mut vec_field = field("m_items", plain_type("X"), Some("CEconItem"), FieldCategory::Vector);
    match create_field(&sid, &mut vec_field, &sers).unwrap() {
        Field::Vector(v) => match *v.field_enum {
            Field::Serializer(s) => assert_eq!(s.serializer.name, "CEconItem"),
            _ => panic!("serializer expected"),
        },
        _ => panic!("vector expected"),
    }
    let mut missing = field("m_x", plain_type("X"), Some("Nope"), FieldCategory::Value);
    assert_eq!(create_field(&sid, &mut missing, &sers).unwrap_err(), DemoParserError::MalformedMessage);
}

#[test]
fn text_round_trip_without_generic() {
    let ft = parse("CEntityIdentity*[3]").unwrap();
    assert_eq!(ft.count, Some(3));
    let text = to_string(&ft, true);
    assert_eq!(text, "CEntityIdentity*");
    let back = parse(&text).unwrap();
    assert_eq!(back.base_type, ft.base_type);
    assert!(back.pointer);
    assert_eq!(back.count, None);
    let element = ft.element_type.unwrap();
    assert_eq!(element.base_type, "CEntityIdentity");
    assert!(element.pointer);
}
