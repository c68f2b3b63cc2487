use demoparser::decoder::Decoder;
use demoparser::error::DemoParserError;
use demoparser::field_model;
use demoparser::field_model::{Decoder as D, FieldModel as M};
use demoparser::path_ops::FieldPath;
use demoparser::prop_controller::{MY_WEAPONS_OFFSET, WEAPON_SKIN_ID};
use demoparser::sendtables::{
    find_field, get_decoder_from_field, get_propinfo, to_string, ArrayField, Field, FieldType, Serializer,
    SerializerField, ValueField, VectorField,
};

fn value(decoder: Decoder, name: &str, prop_id: u32) -> Field {
    let mut v = ValueField::new(decoder, name);
    v.prop_id = prop_id;
    v.should_parse = true;
    Field::Value(v)
}

fn sample_serializer() -> Serializer {
    let inner = Serializer {
        name: "Inner".to_string(),
        fields: vec![value(Decoder::BooleanDecoder, "flag", 7), value(Decoder::SignedDecoder, "count", 8)],
    };
    Serializer {
        name: "Outer".to_string(),
        fields: vec![
            value(Decoder::UnsignedDecoder, "a", 1),
            Field::Serializer(SerializerField::new(&inner)),
            Field::Array(ArrayField::new(value(Decoder::StringDecoder, "names", 9), 4)),
            Field::Vector(VectorField::new(value(Decoder::Fixed64Decoder, "ids", 10))),
        ],
    }
}

fn path(p: [i32; 7], last: usize) -> FieldPath {
    FieldPath { path: p, last }
}

#[test]
fn find_top_level_field() {
    let ser = sample_serializer();
    let f = find_field(&path([0, 0, 0, 0, 0, 0, 0], 0), &ser).unwrap();
    assert_eq!(get_decoder_from_field(f), Ok(Decoder::UnsignedDecoder));
}

#[test]
fn find_nested_field() {
    let ser = sample_serializer();
    let f = find_field(&path([1, 1, 0, 0, 0, 0, 0], 1), &ser).unwrap();
    assert_eq!(get_decoder_from_field(f), Ok(Decoder::SignedDecoder));
    let g = find_field(&path([2, 3, 0, 0, 0, 0, 0], 1), &ser).unwrap();
    assert_eq!(get_decoder_from_field(g), Ok(Decoder::StringDecoder));
}

#[test]
fn find_field_out_of_range() {
    let ser = sample_serializer();
    assert!(matches!(find_field(&path([9, 0, 0, 0, 0, 0, 0], 0), &ser), Err(DemoParserError::IllegalPathOp)));
    assert!(matches!(find_field(&path([1, 5, 0, 0, 0, 0, 0], 1), &ser), Err(DemoParserError::IllegalPathOp)));
    assert!(matches!(find_field(&path([0, 0, 0, 0, 0, 0, 0], 6), &ser), Err(DemoParserError::IllegalPathOp)));
}

#[test]
fn decoder_of_a_serializer_field() {
    let ser = sample_serializer();
    assert_eq!(get_decoder_from_field(&ser.fields[1]), Err(DemoParserError::FieldNoDecoder));
    assert_eq!(get_decoder_from_field(&ser.fields[3]), Ok(Decoder::UnsignedDecoder));
}

#[test]
fn propinfo_of_values() {
    let f = value(Decoder::BooleanDecoder, "flag", 42);
    let info = get_propinfo(&f, &path([0, 0, 0, 0, 0, 0, 0], 0)).unwrap();
    assert_eq!(info.prop_id, 42);
    assert_eq!(info.decoder, Decoder::BooleanDecoder);
    assert!(info.should_parse);
    assert!(get_propinfo(&Field::NoField, &path([0; 7], 0)).is_none());
}

#[test]
fn propinfo_spreads_weapon_ids() {
    let weapons = value(Decoder::UnsignedDecoder, "m_hMyWeapons", MY_WEAPONS_OFFSET);
    let info = get_propinfo(&weapons, &path([0, 0, 3, 0, 0, 0, 0], 2)).unwrap();
    assert_eq!(info.prop_id, MY_WEAPONS_OFFSET + 4);
    let length = get_propinfo(&weapons, &path([0, 0, 3, 0, 0, 0, 0], 1)).unwrap();
    assert_eq!(length.prop_id, MY_WEAPONS_OFFSET);
    let skin = value(Decoder::UnsignedDecoder, "skin", WEAPON_SKIN_ID);
    let info = get_propinfo(&skin, &path([0, 5, 0, 0, 0, 0, 0], 1)).unwrap();
    assert_eq!(info.prop_id, WEAPON_SKIN_ID + 5);
}

#[test]
fn field_type_text() {
    let ft = FieldType {
        base_type: "CNetworkUtlVectorBase".to_string(),
        generic_type: Some(Box::new(FieldType {
            base_type: "CHandle".to_string(),
            generic_type: None,
            pointer: false,
            count: Some(2),
            element_type: None,
        })),
        pointer: true,
        count: Some(-12),
        element_type: None,
    };
    assert_eq!(to_string(&ft, false), "CNetworkUtlVectorBase< CHandle< *[-12]");
    assert_eq!(to_string(&ft, true), "CNetworkUtlVectorBase< CHandle< *");
}

fn model_field(model: field_model::FieldModel, decoder: field_model::Decoder, prop_id: u32) -> field_model::Field {
    field_model::Field {
        decoder,
        model,
        var_name: "f".to_string(),
        serializer: None,
        base_decoder: None,
        child_decoder: None,
        should_parse: true,
        prop_id,
        controller_prop: None,
        idx: 0,
    }
}

#[test]
fn decoder_from_path_simple_and_tables() {
    let simple = model_field(M::FieldModelSimple, D::BooleanDecoder, 3);
    let info = simple.decoder_from_path(&path([0; 7], 0), 1, false);
    assert_eq!(info.prop_id, 3);
    assert_eq!(info.decoder, D::BooleanDecoder);
    let skin = simple.decoder_from_path(&path([87, 0, 1, 0, 0, 0, 0], 2), 1, false);
    assert_eq!(skin.prop_id, WEAPON_SKIN_ID);

    let mut array = model_field(M::FieldModelVariableArray, D::UnsignedDecoder, 5);
    array.child_decoder = Some(D::SignedDecoder);
    array.base_decoder = Some(D::Unsigned64Decoder);
    assert_eq!(array.decoder_from_path(&path([0; 7], 1), 1, false).decoder, D::SignedDecoder);
    assert_eq!(array.decoder_from_path(&path([0; 7], 0), 1, false).decoder, D::Unsigned64Decoder);

    let inner = field_model::Serializer {
        name: "Inner".to_string(),
        fields: vec![
            model_field(M::FieldModelSimple, D::StringDecoder, 11),
            model_field(M::FieldModelSimple, D::Fixed64Decoder, 12),
        ],
    };
    let mut table = model_field(M::FieldModelVariableTable, D::UnsignedDecoder, 6);
    table.base_decoder = Some(D::UnsignedDecoder);
    table.serializer = Some(inner);
    // Path [0, 4, 1]: the table at 0, element 4, its field 1.
    let nested = table.decoder_from_path(&path([0, 4, 1, 0, 0, 0, 0], 2), 1, false);
    assert_eq!(nested.decoder, D::Fixed64Decoder);
    assert_eq!(nested.prop_id, 12);
    // Path ending at the table: its length.
    let length = table.decoder_from_path(&path([0, 0, 0, 0, 0, 0, 0], 0), 1, false);
    assert_eq!(length.prop_id, 6);

    let outer = field_model::Serializer { name: "Outer".to_string(), fields: vec![table] };
    let found = outer.find_decoder(&path([0, 4, 0, 0, 0, 0, 0], 2), 0, false);
    assert_eq!(found.decoder, D::StringDecoder);
}

#[test]
fn find_decoder_spreads_weapon_ids() {
    let weapons = field_model::Serializer {
        name: "Pawn".to_string(),
        fields: vec![model_field(M::FieldModelSimple, D::UnsignedDecoder, MY_WEAPONS_OFFSET)],
    };
    assert_eq!(weapons.find_decoder(&path([0, 0, 6, 0, 0, 0, 0], 2), 0, false).prop_id, MY_WEAPONS_OFFSET + 7);
    assert_eq!(weapons.find_decoder(&path([0, 0, 6, 0, 0, 0, 0], 1), 0, false).prop_id, MY_WEAPONS_OFFSET);
}

#[test]
fn type_names_with_zero_for_no_count() {
    let ft = field_model::find_field_type("CNetworkUtlVectorBase< CHandle< CBaseEntity > >");
    assert_eq!(ft.base_type, "CNetworkUtlVectorBase");
    assert_eq!(ft.count, 0);
    let g = ft.generic_type.unwrap();
    assert_eq!(g.base_type, "CHandle");
    assert_eq!(g.generic_type.unwrap().base_type, "CBaseEntity");
    let arr = field_model::find_field_type("uint16[3]");
    assert_eq!(arr.base_type, "uint16");
    assert_eq!(arr.count, 3);
    assert!(!arr.pointer);
    assert!(field_model::find_field_type("CRenderComponent").pointer);
}
