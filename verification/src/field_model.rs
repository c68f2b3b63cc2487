use vstd::prelude::*;

use crate::field_types::{
    find_type_name_parts, is_pointer_type, lemma_type_name_parts, parse_i32,
    parse_i32_at, parsed_field_type, text_between, type_name_parts, TypeShape,
};
use crate::path_ops::FieldPath;
use crate::strings::chars_of;
use crate::prop_controller::{MY_WEAPONS_OFFSET, WEAPON_SKIN_ID};

verus! {

/// How the values of a field are decoded.
#[derive(Debug, Clone, Copy, PartialEq, Eq, Structural)]
pub enum Decoder {
    QuantalizedFloatDecoder(u8),
    VectorNormalDecoder,
    VectorNoscaleDecoder,
    VectorFloatCoordDecoder,
    Unsigned64Decoder,
    QangleDecoder,
    ChangleDecoder,
    CstrongHandleDecoder,
    CentityHandleDecoder,
    NoscaleDecoder,
    BooleanDecoder,
    StringDecoder,
    SignedDecoder,
    UnsignedDecoder,
    ComponentDecoder,
    FloatCoordDecoder,
    FloatSimulationTimeDecoder,
    Fixed64Decoder,
    QanglePitchYawDecoder,
    Qangle3Decoder,
    QangleVarDecoder,
    BaseDecoder,
    AmmoDecoder,
    QanglePresDecoder,
    GameModeRulesDecoder,
}

/// The player property that a controller field stands for.
#[derive(Debug, Clone, Copy, PartialEq, Eq, Structural)]
pub enum ControllerProp {
    SteamId,
    Name,
    TeamNum,
    PlayerEntityId,
}

/// How a field is laid out: a single value, a fixed or variable array of
/// values, or a fixed or variable table of nested fields.
#[derive(Debug, Clone, PartialEq, Eq, Structural)]
pub enum FieldModel {
    FieldModelSimple,
    FieldModelFixedArray,
    FieldModelFixedTable,
    FieldModelVariableArray,
    FieldModelVariableTable,
    FieldModelNOTSET,
}

/// What decoding a value at a path needs: the decoder, whether the value is
/// wanted, its property id and the controller property it stands for.
#[derive(Debug, Clone, Copy)]
pub struct FieldInfo {
    pub decoder: Decoder,
    pub should_parse: bool,
    pub prop_id: u32,
    pub controller_prop: Option<ControllerProp>,
}

/// A field of a serializer, with the decoders of its own values and, for a
/// table, the serializer of its elements.
#[derive(Debug)]
pub struct Field {
    pub decoder: Decoder,
    pub model: FieldModel,
    pub var_name: String,
    pub serializer: Option<Serializer>,
    pub base_decoder: Option<Decoder>,
    pub child_decoder: Option<Decoder>,
    pub should_parse: bool,
    pub prop_id: u32,
    pub controller_prop: Option<ControllerProp>,
    pub idx: u32,
}

/// A named list of fields.
#[derive(Debug)]
pub struct Serializer {
    pub name: String,
    pub fields: Vec<Field>,
}

/// The type of a field as named in the send tables.
#[derive(Debug)]
pub struct FieldType {
    pub base_type: String,
    pub generic_type: Option<Box<FieldType>>,
    pub pointer: bool,
    pub count: i32,
}

/// A field with its full dotted name, for inspection.
#[derive(Debug)]
pub struct DebugField {
    pub full_name: String,
    pub field: Option<Field>,
    pub decoder: Decoder,
}

/// An inspected field and the path that leads to it.
#[derive(Debug)]
pub struct DebugFieldAndPath {
    pub field: DebugField,
    pub path: [i32; 7],
}

/// The path of the weapon skin property, which a simple field reports under
/// its own id.
pub open spec fn weapon_skin_path() -> Seq<i32> {
    seq![87i32, 0, 1, 0, 0, 0, 0]
}

pub open spec fn info_of(f: Field, decoder: Decoder) -> FieldInfo {
    FieldInfo {
        decoder: decoder,
        should_parse: f.should_parse,
        prop_id: f.prop_id,
        controller_prop: f.controller_prop,
    }
}

/// The decoder information of the value that `path` names below `f`, whose
/// own index in the path is just before `pos`; `None` where the lookup
/// fails (a field without the serializer or the decoder it needs, an unset
/// model, an index out of range).
pub open spec fn spec_decoder_from_path(f: Field, path: FieldPath, pos: usize) -> Option<FieldInfo>
    decreases (if pos == usize::MAX { 1int } else { 0int }), (if pos <= 8 { 8 - pos } else { 0int }), 1int,
{
    match f.model {
        FieldModel::FieldModelSimple => if path.path@ == weapon_skin_path() {
            Some(FieldInfo {
                decoder: f.decoder,
                should_parse: f.should_parse,
                prop_id: WEAPON_SKIN_ID,
                controller_prop: f.controller_prop,
            })
        } else {
            Some(info_of(f, f.decoder))
        },
        FieldModel::FieldModelFixedArray => Some(info_of(f, f.decoder)),
        FieldModel::FieldModelFixedTable => if path.last == pos.wrapping_sub(1) {
            match f.base_decoder {
                Some(d) => Some(info_of(f, d)),
                None => Some(info_of(f, f.decoder)),
            }
        } else {
            match f.serializer {
                Some(ser) => spec_find_decoder(ser, path, pos),
                None => None,
            }
        },
        FieldModel::FieldModelVariableArray => if path.last == pos {
            match f.child_decoder {
                Some(d) => Some(info_of(f, d)),
                None => None,
            }
        } else {
            match f.base_decoder {
                Some(d) => Some(info_of(f, d)),
                None => None,
            }
        },
        FieldModel::FieldModelVariableTable => if path.last >= pos.wrapping_add(1) {
            match f.serializer {
                Some(ser) => spec_find_decoder(ser, path, pos.wrapping_add(1)),
                None => None,
            }
        } else {
            match f.base_decoder {
                Some(d) => Some(info_of(f, d)),
                None => None,
            }
        },
        FieldModel::FieldModelNOTSET => None,
    }
}

/// The decoder information of the value that `path` names from index `pos`
/// on in `ser`: the field `path[pos]`, then below it. The weapon list reports
/// each element under its own id (its length keeps the list's id).
pub open spec fn spec_find_decoder(ser: Serializer, path: FieldPath, pos: usize) -> Option<FieldInfo>
    decreases 0int, (if pos <= 8 { 8 - pos } else { 0int }), 0int,
{
    if pos >= 7 {
        None
    } else {
        let idx = path.path@[pos as int] as usize;
        if idx >= ser.fields@.len() {
            None
        } else {
            match spec_decoder_from_path(ser.fields@[idx as int], path, (pos + 1) as usize) {
                None => None,
                Some(fi) => Some(
                    if fi.prop_id == MY_WEAPONS_OFFSET && path.last != 1 {
                        FieldInfo {
                            decoder: fi.decoder,
                            should_parse: fi.should_parse,
                            prop_id: MY_WEAPONS_OFFSET.wrapping_add(path.path@[2] as u32).wrapping_add(1),
                            controller_prop: fi.controller_prop,
                        }
                    } else {
                        fi
                    },
                ),
            }
        }
    }
}

fn is_weapon_skin_path(p: &[i32; 7]) -> (res: bool)
    ensures
        res == (p@ == weapon_skin_path()),
{
    let res = p[0] == 87 && p[1] == 0 && p[2] == 1 && p[3] == 0 && p[4] == 0 && p[5] == 0 && p[6] == 0;
    proof {
        if res {
            assert(p@ =~= weapon_skin_path());
        }
    }
    res
}

impl Field {
    fn info(&self, decoder: Decoder) -> (res: FieldInfo)
        ensures
            res == info_of(*self, decoder),
    {
        FieldInfo {
            decoder: decoder,
            should_parse: self.should_parse,
            prop_id: self.prop_id,
            controller_prop: self.controller_prop,
        }
    }

    /// The decoder information of the value that `path` names below this
    /// field, whose own index in the path is just before `pos`.
    pub fn decoder_from_path(&self, path: &FieldPath, pos: usize, parse_inventory: bool) -> (res: FieldInfo)
        requires
            spec_decoder_from_path(*self, *path, pos) is Some,
        ensures
            spec_decoder_from_path(*self, *path, pos) == Some(res),
        decreases (if pos == usize::MAX { 1int } else { 0int }), (if pos <= 8 { 8 - pos } else { 0int }), 1int,
    {
        match &self.model {
            FieldModel::FieldModelSimple => {
                if is_weapon_skin_path(&path.path) {
                    return FieldInfo {
                        decoder: self.decoder,
                        should_parse: self.should_parse,
                        prop_id: WEAPON_SKIN_ID,
                        controller_prop: self.controller_prop,
                    };
                }
                self.info(self.decoder)
            },
            FieldModel::FieldModelFixedArray => self.info(self.decoder),
            FieldModel::FieldModelFixedTable => {
                if path.last == pos.wrapping_sub(1) {
                    match self.base_decoder {
                        Some(d) => self.info(d),
                        None => self.info(self.decoder),
                    }
                } else {
                    match &self.serializer {
                        Some(ser) => ser.find_decoder(path, pos, parse_inventory),
                        None => {
                            proof {
                                assert(false);
                            }
                            self.info(self.decoder)
                        },
                    }
                }
            },
            FieldModel::FieldModelVariableArray => {
                if path.last == pos {
                    self.info(self.child_decoder.unwrap())
                } else {
                    self.info(self.base_decoder.unwrap())
                }
            },
            FieldModel::FieldModelVariableTable => {
                if path.last >= pos.wrapping_add(1) {
                    match &self.serializer {
                        Some(ser) => ser.find_decoder(path, pos.wrapping_add(1), parse_inventory),
                        None => {
                            proof {
                                assert(false);
                            }
                            self.info(self.decoder)
                        },
                    }
                } else {
                    self.info(self.base_decoder.unwrap())
                }
            },
            FieldModel::FieldModelNOTSET => {
                proof {
                    assert(false);
                }
                self.info(self.decoder)
            },
        }
    }
}

impl Serializer {
    /// The decoder information of the value that `path` names from index
    /// `pos` on.
    pub fn find_decoder(&self, path: &FieldPath, pos: usize, parse_inventory: bool) -> (res: FieldInfo)
        requires
            spec_find_decoder(*self, *path, pos) is Some,
        ensures
            spec_find_decoder(*self, *path, pos) == Some(res),
        decreases 0int, (if pos <= 8 { 8 - pos } else { 0int }), 0int,
    {
        let idx = #[verifier::truncate] (path.path[pos] as usize);
        let mut fi = self.fields[idx].decoder_from_path(path, pos + 1, parse_inventory);
        // The first index in the array tells you the length
        if fi.prop_id == MY_WEAPONS_OFFSET {
            if path.last == 1 {
            } else {
                fi.prop_id = MY_WEAPONS_OFFSET.wrapping_add(#[verifier::truncate] (path.path[2] as u32)).wrapping_add(1);
            }
        }
        fi
    }
}

/// The type names that this reader takes: it finds a base type, a count
/// where there is one reads as an `i32`, and the same holds of the generic
/// argument, if any.
pub open spec fn readable_type_name(name: Seq<char>) -> bool
    decreases name.len(),
{
    match type_name_parts(name) {
        None => false,
        Some(p) => {
            &&& (p.count matches Some(c) ==> parse_i32(name.subrange(c.0, c.1)) is Some)
            &&& match p.generic {
                Some(g) => {
                    proof {
                        lemma_type_name_parts(name);
                    }
                    readable_type_name(name.subrange(g.0, g.1))
                },
                None => true,
            }
        },
    }
}

/// `ft` is the type `t`, with a count of 0 standing for none.
pub open spec fn type_matches(ft: FieldType, t: TypeShape) -> bool
    decreases ft,
{
    &&& ft.base_type@ == t.base
    &&& ft.pointer == t.pointer
    &&& ft.count == match t.count {
        Some(c) => c,
        None => 0i32,
    }
    &&& match (ft.generic_type, t.generic) {
        (Some(a), Some(b)) => type_matches(*a, *b),
        (None, None) => true,
        _ => false,
    }
}

/// Reads the type name `name` (see `parsed_field_type`), without element
/// types, the count 0 standing for none.
pub fn find_field_type(name: &str) -> (ft: FieldType)
    requires
        readable_type_name(name@),
    ensures
        parsed_field_type(name@, false) matches Some(t) && type_matches(ft, t),
    decreases name@.len(),
{
    let s = chars_of(name);
    proof {
        lemma_type_name_parts(name@);
    }
    let (a, b, generic, star, count) = find_type_name_parts(&s).unwrap();
    let base_type = text_between(&s, a, b);
    let pointer = star || is_pointer_type(name);
    let generic_type = match generic {
        Some((g0, g1)) => {
            let generic_name = text_between(&s, g0, g1);
            Some(Box::new(find_field_type(generic_name.as_str())))
        },
        None => None,
    };
    let count = match count {
        Some((c0, c1)) => parse_i32_at(&s, c0, c1).unwrap(),
        None => 0,
    };
    FieldType { base_type, generic_type, pointer, count }
}

} // verus!
