use vstd::prelude::*;

use crate::decoder::Decoder;
use crate::error::DemoParserError;
use crate::path_ops::FieldPath;
use crate::strings::{int_decimal, str_eq};
use crate::prop_controller::{
    FLATTENED_VEC_MAX_LEN, GLOVE_PAINT_ID, ITEM_PURCHASE_COST, ITEM_PURCHASE_COUNT, ITEM_PURCHASE_DEF_IDX,
    ITEM_PURCHASE_HANDLE, ITEM_PURCHASE_NEW_DEF_IDX, MY_WEAPONS_OFFSET, WEAPON_SKIN_ID,
};

verus! {

/// A named list of fields: the layout of one entity class.
#[derive(Debug)]
pub struct Serializer {
    pub name: String,
    pub fields: Vec<Field>,
}

/// What is needed to decode and store one value of a field.
#[derive(Debug, Clone, Copy, PartialEq, Eq, Structural)]
pub struct FieldInfo {
    pub decoder: Decoder,
    pub should_parse: bool,
    pub prop_id: u32,
}

#[derive(Debug, Clone, PartialEq, Eq, Structural)]
pub enum FieldCategory {
    Pointer,
    Vector,
    Array,
    Value,
}

/// One node of the field tree of a serializer.
#[derive(Debug)]
pub enum Field {
    Array(ArrayField),
    Vector(VectorField),
    Serializer(SerializerField),
    Pointer(PointerField),
    Value(ValueField),
    NoField,
}

#[derive(Debug)]
pub struct ArrayField {
    pub field_enum: Box<Field>,
    pub length: usize,
}

#[derive(Debug)]
pub struct VectorField {
    pub field_enum: Box<Field>,
    pub decoder: Decoder,
}

#[derive(Debug, Clone)]
pub struct ValueField {
    pub decoder: Decoder,
    pub name: String,
    pub should_parse: bool,
    pub prop_id: u32,
    pub full_name: String,
}

#[derive(Debug)]
pub struct SerializerField {
    pub serializer: Serializer,
}

#[derive(Debug)]
pub struct PointerField {
    pub decoder: Decoder,
    pub serializer: Serializer,
}

/// The type of a field as named in the send tables.
#[derive(Debug)]
pub struct FieldType {
    pub base_type: String,
    pub generic_type: Option<Box<FieldType>>,
    pub pointer: bool,
    pub count: Option<i32>,
    pub element_type: Option<Box<FieldType>>,
}

/// `a` and `b` hold the same fields: same shape, same decoders, ids and
/// flags, and the same text in every name.
pub open spec fn same_field(a: Field, b: Field) -> bool
    decreases a, 1nat,
{
    match (a, b) {
        (Field::Array(x), Field::Array(y)) => x.length == y.length && same_field(*x.field_enum, *y.field_enum),
        (Field::Vector(x), Field::Vector(y)) => x.decoder == y.decoder && same_field(*x.field_enum, *y.field_enum),
        (Field::Serializer(x), Field::Serializer(y)) => x.serializer.name@ == y.serializer.name@
            && same_fields(x.serializer.fields@, y.serializer.fields@),
        (Field::Pointer(x), Field::Pointer(y)) => x.decoder == y.decoder && x.serializer.name@ == y.serializer.name@
            && same_fields(x.serializer.fields@, y.serializer.fields@),
        (Field::Value(x), Field::Value(y)) => same_value(x, y),
        (Field::NoField, Field::NoField) => true,
        _ => false,
    }
}

/// Pairwise the same fields.
pub open spec fn same_fields(a: Seq<Field>, b: Seq<Field>) -> bool
    decreases a, 0nat,
{
    a.len() == b.len() && (a.len() == 0 || (same_field(a[0], b[0]) && same_fields(a.drop_first(), b.drop_first())))
}

/// Sequences that are pairwise the same fields are the same fields.
pub proof fn lemma_same_fields_pairwise(a: Seq<Field>, b: Seq<Field>)
    requires
        a.len() == b.len(),
        forall|i: int| 0 <= i < a.len() ==> #[trigger] same_field(a[i], b[i]),
    ensures
        same_fields(a, b),
    decreases a.len(),
{
    assert(same_fields(a, b) == (a.len() == b.len() && (a.len() == 0 || (same_field(a[0], b[0]) && same_fields(a.drop_first(), b.drop_first())))));
    if a.len() > 0 {
        assert forall|i: int| 0 <= i < a.drop_first().len() implies #[trigger] same_field(
            a.drop_first()[i],
            b.drop_first()[i],
        ) by {
            assert(same_field(a[i + 1], b[i + 1]));
        }
        lemma_same_fields_pairwise(a.drop_first(), b.drop_first());
    }
}

/// The same serializer: same name and pairwise the same fields.
pub open spec fn same_serializer(a: Serializer, b: Serializer) -> bool {
    a.name@ == b.name@ && same_fields(a.fields@, b.fields@)
}

/// The same value field.
pub open spec fn same_value(a: ValueField, b: ValueField) -> bool {
    &&& a.decoder == b.decoder
    &&& a.name@ == b.name@
    &&& a.should_parse == b.should_parse
    &&& a.prop_id == b.prop_id
    &&& a.full_name@ == b.full_name@
}

/// A copy of the field tree `f`.
pub fn clone_field(f: &Field) -> (res: Field)
    ensures
        same_field(*f, res),
    decreases f,
{
    let res = match f {
        Field::Array(a) => {
            let inner = clone_field(&a.field_enum);
            let r = Field::Array(ArrayField { field_enum: Box::new(inner), length: a.length });
            assert(same_field(*f, r));
            r
        },
        Field::Vector(v) => {
            let inner = clone_field(&v.field_enum);
            let r = Field::Vector(VectorField { field_enum: Box::new(inner), decoder: v.decoder });
            assert(same_field(*f, r));
            r
        },
        Field::Serializer(x) => {
            let r = Field::Serializer(SerializerField { serializer: clone_serializer(&x.serializer) });
            assert(same_field(*f, r));
            r
        },
        Field::Pointer(p) => {
            let r = Field::Pointer(PointerField { decoder: p.decoder, serializer: clone_serializer(&p.serializer) });
            assert(same_field(*f, r));
            r
        },
        Field::Value(v) => {
            let r = Field::Value(clone_value_field(v));
            assert(same_field(*f, r));
            r
        },
        Field::NoField => Field::NoField,
    };
    res
}

/// A copy of the value field `v`.
pub fn clone_value_field(v: &ValueField) -> (res: ValueField)
    ensures
        same_value(*v, res),
{
    ValueField {
        decoder: v.decoder,
        name: v.name.clone(),
        should_parse: v.should_parse,
        prop_id: v.prop_id,
        full_name: v.full_name.clone(),
    }
}

/// A copy of the serializer `s` and all the fields below it.
pub fn clone_serializer(s: &Serializer) -> (res: Serializer)
    ensures
        same_serializer(*s, res),
    decreases s,
{
    let mut fields: Vec<Field> = Vec::new();
    let mut i: usize = 0;
    while i < s.fields.len()
        invariant
            i <= s.fields@.len(),
            fields@.len() == i,
            forall|j: int| 0 <= j < i ==> #[trigger] same_field(s.fields@[j], fields@[j]),
        decreases s.fields@.len() - i,
    {
        proof {
            assert(decreases_to!(s => s.fields@[i as int]));
        }
        fields.push(clone_field(&s.fields[i]));
        i += 1;
    }
    let res = Serializer { name: s.name.clone(), fields };
    proof {
        lemma_same_fields_pairwise(s.fields@, res.fields@);
    }
    res
}

impl Clone for Serializer {
    fn clone(&self) -> (res: Self)
        ensures
            same_serializer(*self, res),
    {
        clone_serializer(self)
    }
}

impl Clone for Field {
    fn clone(&self) -> (res: Self)
        ensures
            same_field(*self, res),
    {
        clone_field(self)
    }
}

impl Field {
    /// The child at `idx`: the element of an array or vector (whatever `idx`),
    /// the field at `idx` of a serializer or pointer; values have no children.
    pub open spec fn spec_get_inner(self, idx: int) -> Option<Field> {
        match self {
            Field::Array(inner) => Some(*inner.field_enum),
            Field::Vector(inner) => Some(*inner.field_enum),
            Field::Serializer(inner) => if 0 <= idx < inner.serializer.fields@.len() {
                Some(inner.serializer.fields@[idx])
            } else {
                None
            },
            Field::Pointer(inner) => if 0 <= idx < inner.serializer.fields@.len() {
                Some(inner.serializer.fields@[idx])
            } else {
                None
            },
            Field::Value(_) => None,
            Field::NoField => None,
        }
    }

    /// `new` is `old` with its child at `idx` replaced by `child`.
    pub open spec fn is_with_inner(old: Field, new: Field, idx: int, child: Field) -> bool {
        match (old, new) {
            (Field::Array(a), Field::Array(b)) => b.length == a.length && *b.field_enum == child,
            (Field::Vector(a), Field::Vector(b)) => b.decoder == a.decoder && *b.field_enum == child,
            (Field::Serializer(a), Field::Serializer(b)) => b.serializer.name == a.serializer.name
                && b.serializer.fields@ == a.serializer.fields@.update(idx, child),
            (Field::Pointer(a), Field::Pointer(b)) => b.decoder == a.decoder
                && b.serializer.name == a.serializer.name
                && b.serializer.fields@ == a.serializer.fields@.update(idx, child),
            _ => false,
        }
    }

    /// The decoder of the field itself, where it has one.
    pub open spec fn spec_decoder(self) -> Option<Decoder> {
        match self {
            Field::Value(inner) => Some(inner.decoder),
            Field::Vector(_) => Some(Decoder::UnsignedDecoder),
            Field::Pointer(inner) => Some(inner.decoder),
            _ => None,
        }
    }

    #[inline(always)]
    pub fn get_inner(&self, idx: usize) -> (res: Result<&Field, DemoParserError>)
        ensures
            match self.spec_get_inner(idx as int) {
                Some(f) => res == Ok::<&Field, DemoParserError>(&f),
                None => res == Err::<&Field, DemoParserError>(DemoParserError::IllegalPathOp),
            },
    {
        match self {
            Field::Array(inner) => Ok(&inner.field_enum),
            Field::Vector(inner) => Ok(&inner.field_enum),
            Field::Serializer(inner) => if idx < inner.serializer.fields.len() {
                Ok(&inner.serializer.fields[idx])
            } else {
                Err(DemoParserError::IllegalPathOp)
            },
            Field::Pointer(inner) => if idx < inner.serializer.fields.len() {
                Ok(&inner.serializer.fields[idx])
            } else {
                Err(DemoParserError::IllegalPathOp)
            },
            // Illegal
            Field::Value(_) => Err(DemoParserError::IllegalPathOp),
            Field::NoField => Err(DemoParserError::IllegalPathOp),
        }
    }

    #[inline(always)]
    pub fn get_inner_mut(&mut self, idx: usize) -> (res: Result<&mut Field, DemoParserError>)
        ensures
            match old(self).spec_get_inner(idx as int) {
                Some(f) => res matches Ok(r) && *r == f
                    && Field::is_with_inner(*old(self), *final(self), idx as int, *final(r)),
                None => res == Err::<&mut Field, DemoParserError>(DemoParserError::IllegalPathOp)
                    && *final(self) == *old(self),
            },
    {
        match self {
            Field::Array(inner) => Ok(&mut inner.field_enum),
            Field::Vector(inner) => Ok(&mut inner.field_enum),
            Field::Serializer(inner) => if idx < inner.serializer.fields.len() {
                Ok(&mut inner.serializer.fields[idx])
            } else {
                Err(DemoParserError::IllegalPathOp)
            },
            Field::Pointer(inner) => if idx < inner.serializer.fields.len() {
                Ok(&mut inner.serializer.fields[idx])
            } else {
                Err(DemoParserError::IllegalPathOp)
            },
            // Illegal
            Field::Value(_) => Err(DemoParserError::IllegalPathOp),
            Field::NoField => Err(DemoParserError::IllegalPathOp),
        }
    }

    #[inline(always)]
    pub fn get_decoder(&self) -> (res: Option<Decoder>)
        ensures
            res == self.spec_decoder(),
    {
        match self {
            Field::Value(inner) => Some(inner.decoder),
            Field::Vector(_) => Some(Decoder::UnsignedDecoder),
            Field::Pointer(inner) => Some(inner.decoder),
            // Illegal
            _ => None,
        }
    }
}


impl ArrayField {
    pub fn new(field_enum: Field, length: usize) -> (res: ArrayField)
        ensures
            *res.field_enum == field_enum,
            res.length == length,
    {
        ArrayField { field_enum: Box::new(field_enum), length }
    }
}

impl PointerField {
    /// A pointer to a copy of `serializer`; game-mode rules are decoded by
    /// their own decoder, every other pointer by a presence bit.
    pub fn new(serializer: &Serializer) -> (res: PointerField)
        ensures
            same_serializer(*serializer, res.serializer),
            res.decoder == (if serializer.name@ == "CCSGameModeRules"@ {
                Decoder::GameModeRulesDecoder
            } else {
                Decoder::BooleanDecoder
            }),
    {
        let decoder = if str_eq(serializer.name.as_str(), "CCSGameModeRules") {
            Decoder::GameModeRulesDecoder
        } else {
            Decoder::BooleanDecoder
        };
        PointerField { serializer: clone_serializer(serializer), decoder }
    }
}

impl SerializerField {
    pub fn new(serializer: &Serializer) -> (res: SerializerField)
        ensures
            same_serializer(*serializer, res.serializer),
    {
        SerializerField { serializer: clone_serializer(serializer) }
    }
}

impl ValueField {
    /// A value field that nobody asked for yet: no id, not parsed.
    pub fn new(decoder: Decoder, name: &str) -> (res: ValueField)
        ensures
            res.decoder == decoder,
            res.name@ == name@,
            res.prop_id == 0,
            !res.should_parse,
            res.full_name@ == name@,
    {
        ValueField { decoder, name: name.to_owned(), prop_id: 0, should_parse: false, full_name: name.to_owned() }
    }
}

impl VectorField {
    pub fn new(field_enum: Field) -> (res: VectorField)
        ensures
            *res.field_enum == field_enum,
            res.decoder == Decoder::UnsignedDecoder,
    {
        VectorField { field_enum: Box::new(field_enum), decoder: Decoder::UnsignedDecoder }
    }
}

/// Follows `path[from..=to]` down from `f`, one child per index.
pub open spec fn spec_descend(f: Field, path: Seq<i32>, from: nat, to: nat) -> Option<Field>
    decreases to + 1 - from,
{
    if from > to {
        Some(f)
    } else {
        match f.spec_get_inner(path[from as int] as usize as int) {
            None => None,
            Some(child) => spec_descend(child, path, from + 1, to),
        }
    }
}

/// The field that `fp` names in `ser`: the top-level field `path[0]`, then
/// one child per further index up to `last` (at most five levels below).
pub open spec fn spec_find_field(fp: FieldPath, ser: Serializer) -> Option<Field> {
    let i0 = fp.path@[0] as usize as int;
    if i0 >= ser.fields@.len() || fp.last > 5 {
        None
    } else {
        spec_descend(ser.fields@[i0], fp.path@, 1, fp.last as nat)
    }
}

#[inline(always)]
pub fn find_field<'b>(fp: &FieldPath, ser: &'b Serializer) -> (res: Result<&'b Field, DemoParserError>)
    ensures
        match spec_find_field(*fp, *ser) {
            Some(f) => res == Ok::<&Field, DemoParserError>(&f),
            None => res == Err::<&Field, DemoParserError>(DemoParserError::IllegalPathOp),
        },
{
    let i0 = #[verifier::truncate] (fp.path[0] as usize);
    if i0 >= ser.fields.len() {
        return Err(DemoParserError::IllegalPathOp);
    }
    let f = &ser.fields[i0];
    if fp.last > 5 {
        return Err(DemoParserError::IllegalPathOp);
    }
    let mut cur: &Field = f;
    let mut k: usize = 1;
    while k <= fp.last
        invariant
            1 <= k <= fp.last + 1,
            fp.last <= 5,
            spec_find_field(*fp, *ser) == spec_descend(*cur, fp.path@, k as nat, fp.last as nat),
        decreases fp.last + 1 - k,
    {
        let idx = #[verifier::truncate] (fp.path[k] as usize);
        cur = cur.get_inner(idx)?;
        k += 1;
    }
    Ok(cur)
}

pub fn get_decoder_from_field(field: &Field) -> (res: Result<Decoder, DemoParserError>)
    ensures
        match field.spec_decoder() {
            Some(d) => res == Ok::<Decoder, DemoParserError>(d),
            None => res == Err::<Decoder, DemoParserError>(DemoParserError::FieldNoDecoder),
        },
{
    let decoder = match field {
        Field::Value(inner) => inner.decoder,
        Field::Vector(_) => Decoder::UnsignedDecoder,
        Field::Pointer(inner) => inner.decoder,
        _ => return Err(DemoParserError::FieldNoDecoder),
    };
    Ok(decoder)
}

/// Ids of vector-like properties are spread out by element index: each weapon
/// slot, skin attribute and purchase entry gets an id of its own (all sums wrap
/// around at 2^32).
pub open spec fn flatten_prop_id(id: u32, path: FieldPath) -> u32 {
    let p1 = path.path@[1] as u32;
    let p2 = path.path@[2] as u32;
    let id1 = if id == MY_WEAPONS_OFFSET && path.last != 1 {
        MY_WEAPONS_OFFSET.wrapping_add(p2).wrapping_add(1)
    } else {
        id
    };
    let id2 = if id1 == WEAPON_SKIN_ID { WEAPON_SKIN_ID.wrapping_add(p1) } else { id1 };
    let id3 = if id2 == GLOVE_PAINT_ID { GLOVE_PAINT_ID.wrapping_add(p1) } else { id2 };
    if path.path@[1] != 1 {
        let id4 = if ITEM_PURCHASE_COUNT <= id3 < ITEM_PURCHASE_COUNT + FLATTENED_VEC_MAX_LEN {
            ITEM_PURCHASE_COUNT.wrapping_add(p2)
        } else {
            id3
        };
        let id5 = if ITEM_PURCHASE_DEF_IDX <= id4 < ITEM_PURCHASE_DEF_IDX + FLATTENED_VEC_MAX_LEN {
            ITEM_PURCHASE_DEF_IDX.wrapping_add(p2)
        } else {
            id4
        };
        let id6 = if ITEM_PURCHASE_COST <= id5 < ITEM_PURCHASE_COST + FLATTENED_VEC_MAX_LEN {
            ITEM_PURCHASE_COST.wrapping_add(p2)
        } else {
            id5
        };
        let id7 = if ITEM_PURCHASE_HANDLE <= id6 < ITEM_PURCHASE_HANDLE + FLATTENED_VEC_MAX_LEN {
            ITEM_PURCHASE_HANDLE.wrapping_add(p2)
        } else {
            id6
        };
        if ITEM_PURCHASE_NEW_DEF_IDX <= id7 < ITEM_PURCHASE_NEW_DEF_IDX + FLATTENED_VEC_MAX_LEN {
            ITEM_PURCHASE_NEW_DEF_IDX.wrapping_add(p2)
        } else {
            id7
        }
    } else {
        id3
    }
}

/// The decoding information of a value field, or of a vector of values, with
/// its id spread out by the element index (`flatten_prop_id`).
pub open spec fn spec_get_propinfo(field: Field, path: FieldPath) -> Option<FieldInfo> {
    let base = match field {
        Field::Value(v) => Some(FieldInfo { decoder: v.decoder, should_parse: v.should_parse, prop_id: v.prop_id }),
        Field::Vector(v) => match *v.field_enum {
            Field::Value(inner) => Some(
                FieldInfo { decoder: v.decoder, should_parse: inner.should_parse, prop_id: inner.prop_id },
            ),
            _ => None,
        },
        _ => None,
    };
    match base {
        None => None,
        Some(fi) => Some(FieldInfo { prop_id: flatten_prop_id(fi.prop_id, path), ..fi }),
    }
}

pub fn get_propinfo(field: &Field, path: &FieldPath) -> (res: Option<FieldInfo>)
    ensures
        res == spec_get_propinfo(*field, *path),
{
    let mut fi = match field {
        Field::Value(v) => FieldInfo { decoder: v.decoder, should_parse: v.should_parse, prop_id: v.prop_id },
        Field::Vector(v) => match field.get_inner(0) {
            Ok(Field::Value(inner)) => FieldInfo {
                decoder: v.decoder,
                should_parse: inner.should_parse,
                prop_id: inner.prop_id,
            },
            _ => return None,
        },
        _ => return None,
    };
    let p1 = #[verifier::truncate] (path.path[1] as u32);
    let p2 = #[verifier::truncate] (path.path[2] as u32);

    // Flatten vector props
    if fi.prop_id == MY_WEAPONS_OFFSET {
        if path.last == 1 {
        } else {
            fi.prop_id = MY_WEAPONS_OFFSET.wrapping_add(p2).wrapping_add(1);
        }
    }
    if fi.prop_id == WEAPON_SKIN_ID {
        fi.prop_id = WEAPON_SKIN_ID.wrapping_add(p1);
    }
    if fi.prop_id == GLOVE_PAINT_ID {
        fi.prop_id = GLOVE_PAINT_ID.wrapping_add(p1);
    }

    if path.path[1] != 1 {
        if fi.prop_id >= ITEM_PURCHASE_COUNT && fi.prop_id < ITEM_PURCHASE_COUNT + FLATTENED_VEC_MAX_LEN {
            fi.prop_id = ITEM_PURCHASE_COUNT.wrapping_add(p2);
        }
        if fi.prop_id >= ITEM_PURCHASE_DEF_IDX && fi.prop_id < ITEM_PURCHASE_DEF_IDX + FLATTENED_VEC_MAX_LEN {
            fi.prop_id = ITEM_PURCHASE_DEF_IDX.wrapping_add(p2);
        }
        if fi.prop_id >= ITEM_PURCHASE_COST && fi.prop_id < ITEM_PURCHASE_COST + FLATTENED_VEC_MAX_LEN {
            fi.prop_id = ITEM_PURCHASE_COST.wrapping_add(p2);
        }
        if fi.prop_id >= ITEM_PURCHASE_HANDLE && fi.prop_id < ITEM_PURCHASE_HANDLE + FLATTENED_VEC_MAX_LEN {
            fi.prop_id = ITEM_PURCHASE_HANDLE.wrapping_add(p2);
        }
        if fi.prop_id >= ITEM_PURCHASE_NEW_DEF_IDX && fi.prop_id < ITEM_PURCHASE_NEW_DEF_IDX + FLATTENED_VEC_MAX_LEN {
            fi.prop_id = ITEM_PURCHASE_NEW_DEF_IDX.wrapping_add(p2);
        }
    }
    return Some(fi);
}

/// `ToString::to_string` on `i32`, which goes through its `Display`: the
/// decimal digits, after a minus sign for a negative number.
#[verifier::external_body]
pub(crate) fn i32_text(c: i32) -> (s: String)
    ensures
        s@ == int_decimal(c as int),
{
    c.to_string()
}

/// The text of a field type: the base type, then `< ` with the generic type
/// (itself without its count) and `< ` again, `*` for a pointer, and the
/// count in square brackets unless `omit_count`.
pub open spec fn field_type_text(ft: FieldType, omit_count: bool) -> Seq<char>
    decreases ft,
{
    let base = ft.base_type@;
    let with_generic = match ft.generic_type {
        Some(gt) => base + seq!['<', ' '] + field_type_text(*gt, true) + seq!['<', ' '],
        None => base,
    };
    let with_pointer = if ft.pointer {
        with_generic + seq!['*']
    } else {
        with_generic
    };
    match ft.count {
        Some(c) => if omit_count {
            with_pointer
        } else {
            with_pointer + seq!['['] + int_decimal(c as int) + seq![']']
        },
        None => with_pointer,
    }
}

/// Writes a field type back as text.
pub fn to_string(ft: &FieldType, omit_count: bool) -> (s: String)
    ensures
        s@ == field_type_text(*ft, omit_count),
    decreases ft,
{
    proof {
        reveal_strlit("< ");
        reveal_strlit("*");
        reveal_strlit("[");
        reveal_strlit("]");
    }
    let mut s = String::new();
    s.append(ft.base_type.as_str());
    if let Some(gt) = &ft.generic_type {
        s.append("< ");
        let inner = to_string(gt, true);
        s.append(inner.as_str());
        s.append("< ");
    }
    if ft.pointer {
        s.append("*");
    }
    if !omit_count {
        if let Some(c) = ft.count {
            s.append("[");
            let digits = i32_text(c);
            s.append(digits.as_str());
            s.append("]");
        }
    }
    s
}

} // verus!
