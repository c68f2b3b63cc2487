//! Field type names of the send tables, such as
//! `CNetworkUtlVectorBase< CHandle< CBaseEntity > >` or `uint8[4]`.
//!
//! A name is read as a base type (a run of characters other than `<`, `[`
//! and `*`), then optionally `<`, one white-space character, the generic
//! argument, one white-space character and `>` (the argument being the
//! longest text on the same line for which this closes), then optionally
//! `*`, then optionally `[`, a count and `]` (the count being the longest
//! text on the same line before a `]`). What follows is ignored.
use vstd::prelude::*;

use crate::error::DemoParserError;
use crate::decoder::Decoder;
use crate::sendtables::{
    field_type_text, same_serializer, to_string, ArrayField, Field, FieldCategory, FieldType, PointerField,
    Serializer, SerializerField, ValueField, VectorField,
};
use crate::strings::{chars_of, push_char, str_eq};

verus! {

/// The characters that end a base type name.
pub open spec fn is_type_delim(c: char) -> bool {
    c == '<' || c == '[' || c == '*'
}

/// The Unicode `White_Space` characters.
pub open spec fn is_white_space(c: char) -> bool {
    let u = c as u32;
    (0x09 <= u && u <= 0x0D) || u == 0x20 || u == 0x85 || u == 0xA0 || u == 0x1680 || (0x2000 <= u
        && u <= 0x200A) || u == 0x2028 || u == 0x2029 || u == 0x202F || u == 0x205F || u == 0x3000
}

/// The first index at or after `i` whose character is not a delimiter, or
/// the length.
pub open spec fn skip_delims(s: Seq<char>, i: int) -> int
    decreases s.len() - i,
{
    if i < 0 || i >= s.len() {
        s.len() as int
    } else if !is_type_delim(s[i]) {
        i
    } else {
        skip_delims(s, i + 1)
    }
}

/// The end of the run of characters other than delimiters that starts at
/// `i`.
pub open spec fn base_end(s: Seq<char>, i: int) -> int
    decreases s.len() - i,
{
    if i < 0 || i >= s.len() {
        s.len() as int
    } else if is_type_delim(s[i]) {
        i
    } else {
        base_end(s, i + 1)
    }
}

/// The index of the first line feed at or after `i`, or the length.
pub open spec fn line_end(s: Seq<char>, i: int) -> int
    decreases s.len() - i,
{
    if i < 0 || i >= s.len() {
        s.len() as int
    } else if s[i] == '\n' {
        i
    } else {
        line_end(s, i + 1)
    }
}

/// The greatest `l` with `lo <= l <= hi` at which white space is followed by
/// `>`.
pub open spec fn generic_close(s: Seq<char>, lo: int, hi: int) -> Option<int>
    decreases hi - lo + 1,
{
    if hi < lo {
        None
    } else if 0 <= hi && hi + 1 < s.len() && is_white_space(s[hi]) && s[hi + 1] == '>' {
        Some(hi)
    } else {
        generic_close(s, lo, hi - 1)
    }
}

/// The greatest `l` with `lo <= l <= hi` at which `]` stands.
pub open spec fn count_close(s: Seq<char>, lo: int, hi: int) -> Option<int>
    decreases hi - lo + 1,
{
    if hi < lo {
        None
    } else if 0 <= hi && hi < s.len() && s[hi] == ']' {
        Some(hi)
    } else {
        count_close(s, lo, hi - 1)
    }
}

/// Where the parts of a type name stand: the base type from `base.0` to
/// `base.1`, the generic argument, whether a `*` follows, and the text of
/// the count; `None` when the name holds nothing but delimiters.
pub struct TypeNameParts {
    pub base: (int, int),
    pub generic: Option<(int, int)>,
    pub star: bool,
    pub count: Option<(int, int)>,
}

pub open spec fn type_name_parts(s: Seq<char>) -> Option<TypeNameParts> {
    let a = skip_delims(s, 0);
    if a >= s.len() {
        None
    } else {
        let b = base_end(s, a);
        let gclose = if b + 1 < s.len() && s[b] == '<' && is_white_space(s[b + 1]) {
            generic_close(s, b + 2, line_end(s, b + 2))
        } else {
            None
        };
        let p = match gclose {
            Some(l) => l + 2,
            None => b,
        };
        let star = p < s.len() && s[p] == '*';
        let q = if star {
            p + 1
        } else {
            p
        };
        let cclose = if q < s.len() && s[q] == '[' {
            count_close(s, q + 1, line_end(s, q + 1))
        } else {
            None
        };
        Some(
            TypeNameParts {
                base: (a, b),
                generic: match gclose {
                    Some(l) => Some((b + 2, l)),
                    None => None,
                },
                star,
                count: match cclose {
                    Some(l) => Some((q + 1, l)),
                    None => None,
                },
            },
        )
    }
}

// ---------------------------------------------------------------------------
// Facts about the scanners.

proof fn lemma_skip_delims(s: Seq<char>, i: int)
    requires
        0 <= i <= s.len(),
    ensures
        i <= skip_delims(s, i) <= s.len(),
        skip_delims(s, i) < s.len() ==> !is_type_delim(s[skip_delims(s, i)]),
        forall|k: int| i <= k < skip_delims(s, i) ==> is_type_delim(#[trigger] s[k]),
    decreases s.len() - i,
{
    if i < s.len() && is_type_delim(s[i]) {
        lemma_skip_delims(s, i + 1);
    }
}

proof fn lemma_base_end(s: Seq<char>, i: int)
    requires
        0 <= i <= s.len(),
    ensures
        i <= base_end(s, i) <= s.len(),
        base_end(s, i) < s.len() ==> is_type_delim(s[base_end(s, i)]),
        forall|k: int| i <= k < base_end(s, i) ==> !is_type_delim(#[trigger] s[k]),
    decreases s.len() - i,
{
    if i < s.len() && !is_type_delim(s[i]) {
        lemma_base_end(s, i + 1);
    }
}

proof fn lemma_line_end(s: Seq<char>, i: int)
    requires
        0 <= i <= s.len(),
    ensures
        i <= line_end(s, i) <= s.len(),
        line_end(s, i) < s.len() ==> s[line_end(s, i)] == '\n',
        forall|k: int| i <= k < line_end(s, i) ==> #[trigger] s[k] != '\n',
    decreases s.len() - i,
{
    if i < s.len() && s[i] != '\n' {
        lemma_line_end(s, i + 1);
    }
}

proof fn lemma_generic_close(s: Seq<char>, lo: int, hi: int)
    ensures
        generic_close(s, lo, hi) matches Some(l) ==> lo <= l <= hi && 0 <= l && l + 1 < s.len()
            && is_white_space(s[l]) && s[l + 1] == '>',
    decreases hi - lo + 1,
{
    if hi >= lo && !(0 <= hi && hi + 1 < s.len() && is_white_space(s[hi]) && s[hi + 1] == '>') {
        lemma_generic_close(s, lo, hi - 1);
    }
}

proof fn lemma_count_close(s: Seq<char>, lo: int, hi: int)
    ensures
        count_close(s, lo, hi) matches Some(l) ==> lo <= l <= hi && 0 <= l < s.len() && s[l] == ']',
    decreases hi - lo + 1,
{
    if hi >= lo && !(0 <= hi && hi < s.len() && s[hi] == ']') {
        lemma_count_close(s, lo, hi - 1);
    }
}

/// The parts of a name lie inside it, in order, and the base type holds no
/// delimiter.
pub proof fn lemma_type_name_parts(s: Seq<char>)
    ensures
        type_name_parts(s) matches Some(p) ==> {
            &&& 0 <= p.base.0 < p.base.1 <= s.len()
            &&& forall|k: int| p.base.0 <= k < p.base.1 ==> !is_type_delim(#[trigger] s[k])
            &&& p.generic matches Some(g) ==> p.base.1 + 2 <= g.0 <= g.1 && g.1 + 2 <= s.len()
            &&& p.count matches Some(c) ==> p.base.1 < c.0 <= c.1 < s.len() && s[c.0 - 1] == '['
        },
{
    let a = skip_delims(s, 0);
    lemma_skip_delims(s, 0);
    if a < s.len() {
        let b = base_end(s, a);
        lemma_base_end(s, a);
        if b + 1 < s.len() && s[b] == '<' && is_white_space(s[b + 1]) {
            lemma_line_end(s, b + 2);
            lemma_generic_close(s, b + 2, line_end(s, b + 2));
        }
        let p = match type_name_parts(s).unwrap().generic {
            Some(g) => g.1 + 2,
            None => b,
        };
        let q = if p < s.len() && s[p] == '*' {
            p + 1
        } else {
            p
        };
        if q < s.len() && s[q] == '[' {
            lemma_line_end(s, q + 1);
            lemma_count_close(s, q + 1, line_end(s, q + 1));
        }
    }
}

// ---------------------------------------------------------------------------
// Scanning.

fn is_white_space_char(c: char) -> (r: bool)
    ensures
        r == is_white_space(c),
{
    let u = c as u32;
    (0x09 <= u && u <= 0x0D) || u == 0x20 || u == 0x85 || u == 0xA0 || u == 0x1680 || (0x2000 <= u
        && u <= 0x200A) || u == 0x2028 || u == 0x2029 || u == 0x202F || u == 0x205F || u == 0x3000
}

fn skip_delims_at(s: &Vec<char>, i: usize) -> (j: usize)
    requires
        i <= s@.len(),
    ensures
        j == skip_delims(s@, i as int),
{
    let mut j = i;
    while j < s.len() && (s[j] == '<' || s[j] == '[' || s[j] == '*')
        invariant
            i <= j <= s@.len(),
            skip_delims(s@, i as int) == skip_delims(s@, j as int),
        decreases s@.len() - j,
    {
        j += 1;
    }
    j
}

fn base_end_at(s: &Vec<char>, i: usize) -> (j: usize)
    requires
        i <= s@.len(),
    ensures
        j == base_end(s@, i as int),
{
    let mut j = i;
    while j < s.len() && !(s[j] == '<' || s[j] == '[' || s[j] == '*')
        invariant
            i <= j <= s@.len(),
            base_end(s@, i as int) == base_end(s@, j as int),
        decreases s@.len() - j,
    {
        j += 1;
    }
    j
}

fn line_end_at(s: &Vec<char>, i: usize) -> (j: usize)
    requires
        i <= s@.len(),
    ensures
        j == line_end(s@, i as int),
{
    let mut j = i;
    while j < s.len() && s[j] != '\n'
        invariant
            i <= j <= s@.len(),
            line_end(s@, i as int) == line_end(s@, j as int),
        decreases s@.len() - j,
    {
        j += 1;
    }
    j
}

fn generic_close_at(s: &Vec<char>, lo: usize, hi: usize) -> (r: Option<usize>)
    requires
        lo <= hi <= s@.len(),
    ensures
        r matches Some(l) ==> generic_close(s@, lo as int, hi as int) == Some(l as int),
        r is None ==> generic_close(s@, lo as int, hi as int) is None,
{
    let mut h = hi;
    loop
        invariant
            lo <= h <= hi <= s@.len(),
            generic_close(s@, lo as int, hi as int) == generic_close(s@, lo as int, h as int),
        decreases h - lo,
    {
        if h < s.len() && s.len() - h > 1 && is_white_space_char(s[h]) && s[h + 1] == '>' {
            return Some(h);
        }
        if h == lo {
            assert(generic_close(s@, lo as int, lo - 1) is None);
            return None;
        }
        h -= 1;
    }
}

fn count_close_at(s: &Vec<char>, lo: usize, hi: usize) -> (r: Option<usize>)
    requires
        lo <= hi <= s@.len(),
    ensures
        r matches Some(l) ==> count_close(s@, lo as int, hi as int) == Some(l as int),
        r is None ==> count_close(s@, lo as int, hi as int) is None,
{
    let mut h = hi;
    loop
        invariant
            lo <= h <= hi <= s@.len(),
            count_close(s@, lo as int, hi as int) == count_close(s@, lo as int, h as int),
        decreases h - lo,
    {
        if h < s.len() && s[h] == ']' {
            return Some(h);
        }
        if h == lo {
            assert(count_close(s@, lo as int, lo - 1) is None);
            return None;
        }
        h -= 1;
    }
}

/// Where the parts of the name `s` stand, as in `type_name_parts`:
/// `(base start, base end, generic, star, count)`.
pub(crate) fn find_type_name_parts(s: &Vec<char>) -> (r: Option<
    (usize, usize, Option<(usize, usize)>, bool, Option<(usize, usize)>),
>)
    ensures
        match (r, type_name_parts(s@)) {
            (None, None) => true,
            (Some(e), Some(p)) => {
                &&& p.base == (e.0 as int, e.1 as int)
                &&& p.star == e.3
                &&& match (e.2, p.generic) {
                    (None, None) => true,
                    (Some(x), Some(y)) => y == (x.0 as int, x.1 as int),
                    _ => false,
                }
                &&& match (e.4, p.count) {
                    (None, None) => true,
                    (Some(x), Some(y)) => y == (x.0 as int, x.1 as int),
                    _ => false,
                }
            },
            _ => false,
        },
{
    let n = s.len();
    let a = skip_delims_at(s, 0);
    if a >= n {
        return None;
    }
    proof {
        lemma_skip_delims(s@, 0);
    }
    let b = base_end_at(s, a);
    proof {
        lemma_base_end(s@, a as int);
    }
    let mut generic: Option<(usize, usize)> = None;
    let mut p = b;
    if b < n && n - b > 1 && s[b] == '<' && is_white_space_char(s[b + 1]) {
        let e = line_end_at(s, b + 2);
        proof {
            lemma_line_end(s@, b + 2);
        }
        match generic_close_at(s, b + 2, e) {
            Some(l) => {
                proof {
                    lemma_generic_close(s@, b + 2, e as int);
                }
                generic = Some((b + 2, l));
                p = l + 2;
            },
            None => {},
        }
    }
    let star = p < n && s[p] == '*';
    let q = if star {
        p + 1
    } else {
        p
    };
    let mut count: Option<(usize, usize)> = None;
    if q < n && s[q] == '[' {
        let e = line_end_at(s, q + 1);
        proof {
            lemma_line_end(s@, q + 1);
        }
        match count_close_at(s, q + 1, e) {
            Some(l) => {
                count = Some((q + 1, l));
            },
            None => {},
        }
    }
    Some((a, b, generic, star, count))
}

// ---------------------------------------------------------------------------
// The count.

pub open spec fn is_digit(c: char) -> bool {
    '0' <= c && c <= '9'
}

pub open spec fn all_digits(t: Seq<char>) -> bool {
    forall|k: int| 0 <= k < t.len() ==> is_digit(#[trigger] t[k])
}

/// The value of a run of decimal digits.
pub open spec fn digits_value(t: Seq<char>) -> int
    decreases t.len(),
{
    if t.len() == 0 {
        0
    } else {
        digits_value(t.drop_last()) * 10 + (t.last() as int - '0' as int)
    }
}

/// What `str::parse::<i32>` gives: an optional `+` or `-`, then one or more
/// ASCII digits and nothing else, when the value fits in an `i32`.
pub open spec fn parse_i32(t: Seq<char>) -> Option<i32> {
    let signed = t.len() > 0 && (t[0] == '-' || t[0] == '+');
    let d = if signed {
        t.drop_first()
    } else {
        t
    };
    let v = if signed && t[0] == '-' {
        -digits_value(d)
    } else {
        digits_value(d)
    };
    if d.len() == 0 || !all_digits(d) {
        None
    } else if i32::MIN <= v && v <= i32::MAX {
        Some(v as i32)
    } else {
        None
    }
}

/// `parse_i32` of the characters of `s` from `lo` to `hi`.
pub(crate) fn parse_i32_at(s: &Vec<char>, lo: usize, hi: usize) -> (r: Option<i32>)
    requires
        lo <= hi <= s@.len(),
    ensures
        r == parse_i32(s@.subrange(lo as int, hi as int)),
{
    let ghost t = s@.subrange(lo as int, hi as int);
    let mut start = lo;
    let mut negative = false;
    if lo < hi && (s[lo] == '-' || s[lo] == '+') {
        negative = s[lo] == '-';
        start = lo + 1;
    }
    let ghost d = s@.subrange(start as int, hi as int);
    assert(lo < hi ==> t[0] == s@[lo as int]);
    assert(d =~= (if start > lo {
        t.drop_first()
    } else {
        t
    }));
    if start == hi {
        return None;
    }
    let mut acc: i64 = 0;
    let mut big = false;
    let mut i = start;
    while i < hi
        invariant
            lo <= start < hi <= s@.len(),
            start <= i <= hi,
            d == s@.subrange(start as int, hi as int),
            t == s@.subrange(lo as int, hi as int),
            d == (if start > lo {
                t.drop_first()
            } else {
                t
            }),
            (start > lo) == (t.len() > 0 && (t[0] == '-' || t[0] == '+')),
            negative == (start > lo && t[0] == '-'),
            forall|k: int| start <= k < i ==> is_digit(#[trigger] s@[k]),
            !big ==> 0 <= acc <= 2147483648 && acc == digits_value(s@.subrange(start as int, i as int)),
            big ==> digits_value(s@.subrange(start as int, i as int)) > 2147483648,
        decreases hi - i,
    {
        let c = s[i];
        if !('0' <= c && c <= '9') {
            assert(!is_digit(d[i - start]));
            assert(!all_digits(d));
            return None;
        }
        let ghost prev = s@.subrange(start as int, i as int);
        assert(s@.subrange(start as int, i + 1).drop_last() =~= prev);
        let digit = (c as u32 - '0' as u32) as i64;
        if !big {
            let next = acc * 10 + digit;
            if next > 2147483648 {
                big = true;
            } else {
                acc = next;
            }
        }
        i += 1;
    }
    assert(s@.subrange(start as int, i as int) =~= d);
    assert forall|k: int| 0 <= k < d.len() implies is_digit(#[trigger] d[k]) by {
        assert(d[k] == s@[start + k]);
    }
    if big {
        return None;
    }
    if negative {
        Some((-acc) as i32)
    } else if acc <= 2147483647 {
        Some(acc as i32)
    } else {
        None
    }
}

// ---------------------------------------------------------------------------
// Field types as plain values.

/// A field type: base type, generic argument, whether it is a pointer, the
/// count of an array, and for an array the type of its elements.
pub struct TypeShape {
    pub base: Seq<char>,
    pub generic: Option<Box<TypeShape>>,
    pub pointer: bool,
    pub count: Option<i32>,
    pub element: Option<Box<TypeShape>>,
}

pub open spec fn shape_of(ft: FieldType) -> TypeShape
    decreases ft,
{
    TypeShape {
        base: ft.base_type@,
        generic: match ft.generic_type {
            Some(g) => Some(Box::new(shape_of(*g))),
            None => None,
        },
        pointer: ft.pointer,
        count: ft.count,
        element: match ft.element_type {
            Some(e) => Some(Box::new(shape_of(*e))),
            None => None,
        },
    }
}

/// The text of a type without its count (see `field_type_text`).
pub open spec fn shape_text(t: TypeShape) -> Seq<char>
    decreases t,
{
    let with_generic = match t.generic {
        Some(g) => t.base + seq!['<', ' '] + shape_text(*g) + seq!['<', ' '],
        None => t.base,
    };
    if t.pointer {
        with_generic + seq!['*']
    } else {
        with_generic
    }
}

/// The type names that stand for pointers though they carry no `*`.
pub open spec fn is_pointer_type_name(s: Seq<char>) -> bool {
    s == "CBodyComponent"@ || s == "CLightComponent"@ || s == "CPhysicsComponent"@ || s
        == "CRenderComponent"@ || s == "CPlayerLocalData"@
}

pub open spec fn bracket_free(s: Seq<char>) -> bool {
    forall|k: int| 0 <= k < s.len() ==> s[k] != '['
}

/// The type that the name `name` stands for; `None` where the name, or the
/// name of a generic argument in it, holds nothing but delimiters. A count
/// that does not read as an `i32` counts as 0. With `with_element`, an array
/// type also carries the type of its elements: the type named by its own
/// text without the count.
pub open spec fn parsed_field_type(name: Seq<char>, with_element: bool) -> Option<TypeShape>
    decreases (if with_element {
        1int
    } else {
        0int
    }), name.len(),
{
    match type_name_parts(name) {
        None => None,
        Some(p) => {
            let generic: Option<Option<TypeShape>> = match p.generic {
                None => Some(None),
                Some(g) => {
                    proof {
                        lemma_type_name_parts(name);
                    }
                    match parsed_field_type(name.subrange(g.0, g.1), with_element) {
                        Some(t) => Some(Some(t)),
                        None => None,
                    }
                },
            };
            match generic {
                None => None,
                Some(gen) => {
                    let shape = TypeShape {
                        base: name.subrange(p.base.0, p.base.1),
                        generic: match gen {
                            Some(t) => Some(Box::new(t)),
                            None => None,
                        },
                        pointer: p.star || is_pointer_type_name(name),
                        count: match p.count {
                            Some(c) => Some(
                                match parse_i32(name.subrange(c.0, c.1)) {
                                    Some(v) => v,
                                    None => 0i32,
                                },
                            ),
                            None => None,
                        },
                        element: None,
                    };
                    if with_element && shape.count is Some {
                        match parsed_field_type(shape_text(shape), false) {
                            Some(e) => Some(
                                TypeShape {
                                    base: shape.base,
                                    generic: shape.generic,
                                    pointer: shape.pointer,
                                    count: shape.count,
                                    element: Some(Box::new(e)),
                                },
                            ),
                            None => None,
                        }
                    } else {
                        Some(shape)
                    }
                },
            }
        },
    }
}

// ---------------------------------------------------------------------------
// Facts about parsed types.

/// The text of a field type without its count is that of its shape.
pub proof fn lemma_text_of_shape(ft: FieldType)
    ensures
        field_type_text(ft, true) == shape_text(shape_of(ft)),
    decreases ft,
{
    match ft.generic_type {
        Some(g) => lemma_text_of_shape(*g),
        None => {},
    }
}

proof fn lemma_subrange_bracket_free(s: Seq<char>, lo: int, hi: int)
    requires
        bracket_free(s),
        0 <= lo <= hi <= s.len(),
    ensures
        bracket_free(s.subrange(lo, hi)),
{
    assert forall|k: int| 0 <= k < hi - lo implies s.subrange(lo, hi)[k] != '[' by {
        assert(s.subrange(lo, hi)[k] == s[lo + k]);
    }
}

proof fn lemma_shape_text_bracket_free(t: TypeShape)
    requires
        bracket_free(t.base),
        t.generic matches Some(g) ==> bracket_free(shape_text(*g)),
    ensures
        bracket_free(shape_text(t)),
{
    let with_generic = match t.generic {
        Some(g) => t.base + seq!['<', ' '] + shape_text(*g) + seq!['<', ' '],
        None => t.base,
    };
    assert(bracket_free(with_generic)) by {
        if let Some(g) = t.generic {
            let x = t.base + seq!['<', ' '];
            let y = x + shape_text(*g);
            assert(bracket_free(x)) by {
                assert forall|k: int| 0 <= k < x.len() implies x[k] != '[' by {
                    if k >= t.base.len() {
                        assert(x[k] == seq!['<', ' '][k - t.base.len()]);
                    }
                }
            }
            assert(bracket_free(y)) by {
                assert forall|k: int| 0 <= k < y.len() implies y[k] != '[' by {
                    if k >= x.len() {
                        assert(y[k] == shape_text(*g)[k - x.len()]);
                    }
                }
            }
            assert forall|k: int| 0 <= k < with_generic.len() implies with_generic[k] != '[' by {
                if k >= y.len() {
                    assert(with_generic[k] == seq!['<', ' '][k - y.len()]);
                }
            }
        }
    }
    if t.pointer {
        let z = with_generic + seq!['*'];
        assert forall|k: int| 0 <= k < z.len() implies z[k] != '[' by {
            if k >= with_generic.len() {
                assert(z[k] == '*');
            }
        }
    }
}

/// The base type of a parsed name holds no delimiter.
proof fn lemma_base_bracket_free(name: Seq<char>)
    ensures
        type_name_parts(name) matches Some(p) ==> bracket_free(name.subrange(p.base.0, p.base.1)),
{
    lemma_type_name_parts(name);
    if let Some(p) = type_name_parts(name) {
        let b = name.subrange(p.base.0, p.base.1);
        assert forall|k: int| 0 <= k < b.len() implies b[k] != '[' by {
            assert(b[k] == name[p.base.0 + k]);
            assert(!is_type_delim(name[p.base.0 + k]));
        }
    }
}

/// The text of every parsed type is free of `[`.
pub proof fn lemma_parsed_text_bracket_free(name: Seq<char>, with_element: bool)
    ensures
        parsed_field_type(name, with_element) matches Some(t) ==> bracket_free(shape_text(t)),
    decreases name.len(),
{
    lemma_type_name_parts(name);
    lemma_base_bracket_free(name);
    if let Some(p) = type_name_parts(name) {
        if let Some(g) = p.generic {
            lemma_parsed_text_bracket_free(name.subrange(g.0, g.1), with_element);
        }
        if let Some(t) = parsed_field_type(name, with_element) {
            lemma_shape_text_bracket_free(t);
        }
    }
}

/// For a name without `[`, asking for the element type changes nothing.
pub proof fn lemma_bracket_free_plain(name: Seq<char>)
    requires
        bracket_free(name),
    ensures
        parsed_field_type(name, true) == parsed_field_type(name, false),
    decreases name.len(),
{
    lemma_type_name_parts(name);
    if let Some(p) = type_name_parts(name) {
        if let Some(c) = p.count {
            assert(name[c.0 - 1] == '[');
        }
        if let Some(g) = p.generic {
            lemma_subrange_bracket_free(name, g.0, g.1);
            lemma_bracket_free_plain(name.subrange(g.0, g.1));
        }
    }
}

/// Writing a type that has no generic argument as text and reading the
/// text back gives the same base type, a pointer where it was one (or where
/// the text is the name of a component type), and no count.
pub proof fn lemma_text_round_trip(t: TypeShape, with_element: bool)
    requires
        t.generic is None,
        t.base.len() > 0,
        forall|k: int| 0 <= k < t.base.len() ==> !is_type_delim(#[trigger] t.base[k]),
    ensures
        parsed_field_type(shape_text(t), with_element) == Some(
            TypeShape {
                base: t.base,
                generic: None,
                pointer: t.pointer || is_pointer_type_name(shape_text(t)),
                count: None,
                element: None,
            },
        ),
{
    let s = shape_text(t);
    let n = t.base.len() as int;
    assert(s.len() == n + if t.pointer {
        1int
    } else {
        0int
    });
    assert(forall|k: int| 0 <= k < n ==> s[k] == t.base[k]);
    assert(t.pointer ==> s[n] == '*');
    lemma_skip_delims(s, 0);
    assert(skip_delims(s, 0) == 0);
    lemma_base_end(s, 0);
    let b = base_end(s, 0);
    if b < n {
        assert(is_type_delim(s[b]));
        assert(!is_type_delim(t.base[b]));
    }
    if b > n {
        assert(!is_type_delim(s[n]));
    }
    assert(b == n);
    assert(s.subrange(0, n) =~= t.base);
}

// ---------------------------------------------------------------------------
// Reading type names.

/// The characters of `s` from `lo` to `hi`, as a string.
pub(crate) fn text_between(s: &Vec<char>, lo: usize, hi: usize) -> (t: String)
    requires
        lo <= hi <= s@.len(),
    ensures
        t@ == s@.subrange(lo as int, hi as int),
{
    let mut t = String::new();
    let mut i = lo;
    while i < hi
        invariant
            lo <= i <= hi <= s@.len(),
            t@ == s@.subrange(lo as int, i as int),
        decreases hi - i,
    {
        push_char(&mut t, s[i]);
        assert(s@.subrange(lo as int, i + 1) =~= s@.subrange(lo as int, i as int).push(s@[i as int]));
        i += 1;
    }
    t
}

/// Whether `name` is one of the type names that stand for pointers.
pub(crate) fn is_pointer_type(name: &str) -> (r: bool)
    ensures
        r == is_pointer_type_name(name@),
{
    str_eq(name, "CBodyComponent") || str_eq(name, "CLightComponent") || str_eq(
        name,
        "CPhysicsComponent",
    ) || str_eq(name, "CRenderComponent") || str_eq(name, "CPlayerLocalData")
}

/// A copy of the field type `ft`.
pub fn clone_field_type(ft: &FieldType) -> (res: FieldType)
    ensures
        shape_of(res) == shape_of(*ft),
    decreases ft,
{
    let generic_type = match &ft.generic_type {
        Some(g) => Some(Box::new(clone_field_type(g))),
        None => None,
    };
    let element_type = match &ft.element_type {
        Some(e) => Some(Box::new(clone_field_type(e))),
        None => None,
    };
    FieldType {
        base_type: ft.base_type.clone(),
        generic_type,
        pointer: ft.pointer,
        count: ft.count,
        element_type,
    }
}

impl Clone for FieldType {
    fn clone(&self) -> (res: Self)
        ensures
            shape_of(res) == shape_of(*self),
    {
        clone_field_type(self)
    }
}

/// Every entry of a table of field types holds the type that its name
/// stands for.
pub open spec fn field_type_table_ok(m: Seq<(String, FieldType)>) -> bool {
    forall|i: int|
        0 <= i < m.len() ==> parsed_field_type((#[trigger] m[i]).0@, true) == Some(shape_of(m[i].1))
}

/// Reads the type name `name` (see `parsed_field_type`). The types of array
/// elements are looked up in, or added to, `field_type_map`.
pub fn find_field_type(name: &str, field_type_map: &mut Vec<(String, FieldType)>) -> (res: Result<
    FieldType,
    DemoParserError,
>)
    requires
        field_type_table_ok(old(field_type_map)@),
    ensures
        field_type_table_ok(final(field_type_map)@),
        match res {
            Ok(ft) => parsed_field_type(name@, true) == Some(shape_of(ft)),
            Err(e) => e == DemoParserError::MalformedMessage && parsed_field_type(name@, true) is None,
        },
    decreases (if bracket_free(name@) {
        0int
    } else {
        1int
    }), name@.len(), 0int,
{
    let s = chars_of(name);
    proof {
        lemma_type_name_parts(name@);
        lemma_base_bracket_free(name@);
    }
    let (a, b, generic, star, count) = match find_type_name_parts(&s) {
        Some(parts) => parts,
        None => return Err(DemoParserError::MalformedMessage),
    };
    let base_type = text_between(&s, a, b);
    let pointer = star || is_pointer_type(name);
    let generic_type = match generic {
        Some((g0, g1)) => {
            let generic_name = text_between(&s, g0, g1);
            proof {
                if bracket_free(name@) {
                    lemma_subrange_bracket_free(name@, g0 as int, g1 as int);
                }
            }
            match find_field_type(generic_name.as_str(), field_type_map) {
                Ok(gt) => {
                    proof {
                        lemma_parsed_text_bracket_free(generic_name@, true);
                    }
                    Some(Box::new(gt))
                },
                Err(e) => {
                    return Err(e);
                },
            }
        },
        None => None,
    };
    let count_value = match count {
        Some((c0, c1)) => Some(
            match parse_i32_at(&s, c0, c1) {
                Some(v) => v,
                None => 0,
            },
        ),
        None => None,
    };
    let mut ft = FieldType { base_type, generic_type, pointer, count: count_value, element_type: None };
    if ft.count.is_some() {
        let text = to_string(&ft, true);
        proof {
            lemma_text_of_shape(ft);
            lemma_shape_text_bracket_free(shape_of(ft));
            lemma_bracket_free_plain(text@);
        }
        match for_string(field_type_map, text) {
            Ok(et) => {
                ft.element_type = Some(Box::new(et));
            },
            Err(e) => {
                return Err(e);
            },
        }
    }
    Ok(ft)
}

/// The type named `field_type_string`: the one the table holds under that
/// name, or else the one read from it, which is then added to the table.
fn for_string(field_type_map: &mut Vec<(String, FieldType)>, field_type_string: String) -> (res:
    Result<FieldType, DemoParserError>)
    requires
        field_type_table_ok(old(field_type_map)@),
    ensures
        field_type_table_ok(final(field_type_map)@),
        match res {
            Ok(ft) => parsed_field_type(field_type_string@, true) == Some(shape_of(ft)),
            Err(e) => e == DemoParserError::MalformedMessage && parsed_field_type(
                field_type_string@,
                true,
            ) is None,
        },
    decreases (if bracket_free(field_type_string@) {
        0int
    } else {
        1int
    }), field_type_string@.len(), 1int,
{
    let mut i: usize = 0;
    while i < field_type_map.len()
        invariant
            i <= field_type_map@.len(),
            field_type_table_ok(field_type_map@),
        decreases field_type_map@.len() - i,
    {
        if str_eq(field_type_map[i].0.as_str(), field_type_string.as_str()) {
            let found = clone_field_type(&field_type_map[i].1);
            assert(parsed_field_type(field_type_map@[i as int].0@, true) == Some(
                shape_of(field_type_map@[i as int].1),
            ));
            return Ok(found);
        }
        i += 1;
    }
    match find_field_type(field_type_string.as_str(), field_type_map) {
        Ok(result) => {
            let stored = clone_field_type(&result);
            let ghost before = field_type_map@;
            field_type_map.push((field_type_string, stored));
            assert forall|j: int| 0 <= j < field_type_map@.len() implies parsed_field_type(
                (#[trigger] field_type_map@[j]).0@,
                true,
            ) == Some(shape_of(field_type_map@[j].1)) by {
                if j < before.len() {
                    assert(field_type_map@[j] == before[j]);
                }
            }
            Ok(result)
        },
        Err(e) => Err(e),
    }
}

// ---------------------------------------------------------------------------
// Fields as the send tables describe them.

/// A field as the send tables describe it, before it takes its place in a
/// serializer. The bounds of a quantized float are kept as the bits of
/// their `f32` values.
#[derive(Debug)]
pub struct ConstructorField {
    pub var_name: String,
    pub var_type: String,
    pub send_node: String,
    pub serializer_name: Option<String>,
    pub encoder: String,
    pub encode_flags: i32,
    pub bitcount: i32,
    pub low_value_bits: u32,
    pub high_value_bits: u32,
    pub field_type: FieldType,
    pub decoder: Decoder,
    pub category: FieldCategory,
    pub field_enum_type: Option<Field>,
    pub serializer: Option<Serializer>,
    pub base_decoder: Option<Decoder>,
    pub child_decoder: Option<Decoder>,
}

pub open spec fn spec_is_pointer(field: ConstructorField) -> bool {
    field.field_type.pointer || is_pointer_type_name(field.field_type.base_type@)
}

pub open spec fn spec_is_vector(field: ConstructorField) -> bool {
    field.serializer_name is Some || field.field_type.base_type@ == "CUtlVector"@
        || field.field_type.base_type@ == "CNetworkUtlVectorBase"@
}

pub open spec fn spec_is_array(field: ConstructorField) -> bool {
    field.field_type.count is Some && field.field_type.base_type@ != "char"@
}

/// The category of a field: pointer before vector before array.
pub open spec fn spec_category(field: ConstructorField) -> FieldCategory {
    if spec_is_pointer(field) {
        FieldCategory::Pointer
    } else if spec_is_vector(field) {
        FieldCategory::Vector
    } else if spec_is_array(field) {
        FieldCategory::Array
    } else {
        FieldCategory::Value
    }
}

/// A pointer: a type marked with `*`, or one of the component types.
pub fn is_pointer(field: &ConstructorField) -> (r: bool)
    ensures
        r == spec_is_pointer(*field),
{
    if field.field_type.pointer {
        return true;
    }
    is_pointer_type(field.field_type.base_type.as_str())
}

/// A vector: a field with a serializer, or one of the vector types.
pub fn is_vector(field: &ConstructorField) -> (r: bool)
    ensures
        r == spec_is_vector(*field),
{
    if field.serializer_name.is_some() {
        return true;
    }
    str_eq(field.field_type.base_type.as_str(), "CUtlVector") || str_eq(
        field.field_type.base_type.as_str(),
        "CNetworkUtlVectorBase",
    )
}

/// An array: a type with a count, other than a `char` array (a string).
pub fn is_array(field: &ConstructorField) -> (r: bool)
    ensures
        r == spec_is_array(*field),
{
    if field.field_type.count.is_some() {
        if !str_eq(field.field_type.base_type.as_str(), "char") {
            return true;
        }
    }
    false
}

pub fn find_category(field: &mut ConstructorField) -> (r: FieldCategory)
    ensures
        r == spec_category(*old(field)),
        *final(field) == *old(field),
{
    if is_pointer(&field) {
        return FieldCategory::Pointer;
    }
    if is_vector(&field) {
        return FieldCategory::Vector;
    }
    if is_array(&field) {
        return FieldCategory::Array;
    }
    FieldCategory::Value
}

impl ConstructorField {
    /// Eye angles are read as pitch and yaw; other angles as three
    /// coordinates of a fixed number of bits, or else in the variable form.
    pub fn find_qangle_decoder(&self) -> (r: Decoder)
        ensures
            r == (if self.var_name@ == "m_angEyeAngles"@ {
                Decoder::QanglePitchYawDecoder
            } else if self.bitcount != 0 {
                Decoder::Qangle3Decoder
            } else {
                Decoder::QangleVarDecoder
            }),
    {
        if str_eq(self.var_name.as_str(), "m_angEyeAngles") {
            Decoder::QanglePitchYawDecoder
        } else if self.bitcount != 0 {
            Decoder::Qangle3Decoder
        } else {
            Decoder::QangleVarDecoder
        }
    }

    /// 64-bit integers are fixed-width under the `fixed64` encoder and
    /// varints otherwise.
    pub fn find_uint_decoder(&self) -> (r: Decoder)
        ensures
            r == (if self.encoder@ == "fixed64"@ {
                Decoder::Fixed64Decoder
            } else {
                Decoder::Unsigned64Decoder
            }),
    {
        if str_eq(self.encoder.as_str(), "fixed64") {
            Decoder::Fixed64Decoder
        } else {
            Decoder::Unsigned64Decoder
        }
    }
}

/// The index of the first serializer at or after `i` named `name`.
pub open spec fn serializer_index(sers: Seq<Serializer>, name: Seq<char>, i: int) -> Option<int>
    decreases sers.len() - i,
{
    if i < 0 || i >= sers.len() {
        None
    } else if sers[i].name@ == name {
        Some(i)
    } else {
        serializer_index(sers, name, i + 1)
    }
}

/// `f` is the field that `fd` describes, before any array or vector around
/// it: a pointer to, or a copy of, the serializer it names, or else a value.
pub open spec fn element_field_ok(fd: ConstructorField, sers: Seq<Serializer>, f: Field) -> bool {
    match fd.serializer_name {
        Some(name) => match serializer_index(sers, name@, 0) {
            Some(i) => if fd.category == FieldCategory::Pointer {
                f matches Field::Pointer(p) && same_serializer(sers[i], p.serializer) && p.decoder == (
                if sers[i].name@ == "CCSGameModeRules"@ {
                    Decoder::GameModeRulesDecoder
                } else {
                    Decoder::BooleanDecoder
                })
            } else {
                f matches Field::Serializer(x) && same_serializer(sers[i], x.serializer)
            },
            None => false,
        },
        None => f matches Field::Value(v) && v.decoder == fd.decoder && v.name@ == fd.var_name@
            && v.full_name@ == fd.var_name@ && v.prop_id == 0 && !v.should_parse,
    }
}

/// `f` is the field that `fd` describes: the element field, inside an array
/// of its count (0 without one) or a vector where its category says so.
pub open spec fn created_field_ok(fd: ConstructorField, sers: Seq<Serializer>, f: Field) -> bool {
    match fd.category {
        FieldCategory::Array => f matches Field::Array(a) && a.length == (match fd.field_type.count {
            Some(c) => c,
            None => 0i32,
        }) as usize && element_field_ok(fd, sers, *a.field_enum),
        FieldCategory::Vector => f matches Field::Vector(v) && v.decoder == Decoder::UnsignedDecoder
            && element_field_ok(fd, sers, *v.field_enum),
        _ => element_field_ok(fd, sers, f),
    }
}

fn find_serializer(serializers: &Vec<Serializer>, name: &str) -> (r: Option<usize>)
    ensures
        r matches Some(i) ==> i < serializers@.len() && serializer_index(serializers@, name@, 0) == Some(
            i as int,
        ),
        r is None ==> serializer_index(serializers@, name@, 0) is None,
{
    let mut i: usize = 0;
    while i < serializers.len()
        invariant
            i <= serializers@.len(),
            serializer_index(serializers@, name@, 0) == serializer_index(serializers@, name@, i as int),
        decreases serializers@.len() - i,
    {
        if str_eq(serializers[i].name.as_str(), name) {
            return Some(i);
        }
        i += 1;
    }
    None
}

/// The field that `fd` describes, built from the serializers by name;
/// `MalformedMessage` when the serializer it names is not there.
pub fn create_field(_sid: &String, fd: &mut ConstructorField, serializers: &Vec<Serializer>) -> (res:
    Result<Field, DemoParserError>)
    ensures
        *final(fd) == *old(fd),
        match res {
            Ok(f) => created_field_ok(*old(fd), serializers@, f),
            Err(e) => e == DemoParserError::MalformedMessage && (old(fd).serializer_name matches Some(n)
                && serializer_index(serializers@, n@, 0) is None),
        },
{
    let element_field = match &fd.serializer_name {
        Some(name) => {
            let ser = match find_serializer(serializers, name.as_str()) {
                Some(i) => &serializers[i],
                None => return Err(DemoParserError::MalformedMessage),
            };
            if fd.category == FieldCategory::Pointer {
                Field::Pointer(PointerField::new(ser))
            } else {
                Field::Serializer(SerializerField::new(ser))
            }
        },
        None => Field::Value(ValueField::new(fd.decoder, &fd.var_name)),
    };
    let element_field = match fd.category {
        FieldCategory::Array => {
            let length = match fd.field_type.count {
                Some(c) => c,
                None => 0,
            };
            Field::Array(ArrayField::new(element_field, #[verifier::truncate] (length as usize)))
        },
        FieldCategory::Vector => Field::Vector(VectorField::new(element_field)),
        _ => return Ok(element_field),
    };
    Ok(element_field)
}

} // verus!
