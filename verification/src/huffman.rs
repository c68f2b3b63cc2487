use vstd::prelude::*;

use bit_reverse::LookupReverse;
use vstd::arithmetic::power2::{pow2, lemma_pow2_unfold, lemma2_to64};

verus! {

/// Number of entries in the field-path opcode lookup table: every 17-bit
/// pattern but the all-ones one.
pub const HUF_LOOKUPTABLE_MAXVALUE: u32 = 131071;

/// The entry of a table position that no code reaches.
pub open spec fn no_entry() -> (u32, u8) {
    (999999, 255)
}

/// The Huffman codes of the field-path opcodes: each code that starts with a
/// one bit, as the number whose binary digits are the code, with its opcode and
/// its length in bits.
pub open spec fn code_entry(k: u32) -> Option<(u32, u8)> {
    match k {
        2 => Some((39, 2)),
        24 => Some((8, 5)),
        50 => Some((2, 6)),
        51 => Some((29, 6)),
        100 => Some((2, 6)),
        101 => Some((29, 6)),
        26 => Some((4, 5)),
        432 => Some((30, 9)),
        866 => Some((38, 10)),
        55488 => Some((35, 16)),
        55489 => Some((34, 16)),
        27745 => Some((27, 15)),
        55492 => Some((25, 16)),
        55493 => Some((24, 16)),
        55494 => Some((33, 16)),
        55495 => Some((28, 16)),
        55496 => Some((13, 16)),
        110994 => Some((15, 17)),
        110995 => Some((14, 17)),
        27749 => Some((6, 15)),
        111000 => Some((21, 17)),
        111001 => Some((20, 17)),
        111002 => Some((23, 17)),
        111003 => Some((22, 17)),
        111004 => Some((17, 17)),
        111005 => Some((16, 17)),
        111006 => Some((19, 17)),
        111007 => Some((18, 17)),
        3469 => Some((5, 12)),
        1735 => Some((36, 11)),
        217 => Some((10, 8)),
        218 => Some((7, 8)),
        438 => Some((12, 9)),
        439 => Some((37, 9)),
        220 => Some((9, 8)),
        442 => Some((31, 9)),
        443 => Some((26, 9)),
        222 => Some((32, 8)),
        223 => Some((3, 8)),
        14 => Some((1, 4)),
        15 => Some((11, 4)),
        _ => None,
    }
}

pub open spec fn is_code(k: u32) -> bool {
    code_entry(k) is Some
}

/// The table of codes before propagation: each code's own entry, elsewhere
/// none.
pub open spec fn initial_entry(k: u32) -> (u32, u8) {
    match code_entry(k) {
        Some(e) => e,
        None => no_entry(),
    }
}

/// The number of binary digits of `v` (0 for 0).
pub open spec fn msb_spec(v: u32) -> u32
    decreases v,
{
    if v == 0 {
        0
    } else {
        (1 + msb_spec(v / 2)) as u32
    }
}

/// `x` is a leading part of the binary digits of `i`: `i` with some of its
/// low bits dropped (halved some number of times) is `x`.
pub open spec fn is_prefix(x: u32, i: u32) -> bool
    decreases i,
{
    if i == 0 {
        false
    } else if i == x {
        true
    } else {
        is_prefix(x, i / 2)
    }
}

/// The longest leading part of `i` that is a code below `bound`.
pub open spec fn code_prefix_below(i: u32, bound: int) -> Option<u32>
    decreases i,
{
    if i == 0 {
        None
    } else if is_code(i) && i < bound {
        Some(i)
    } else {
        code_prefix_below(i / 2, bound)
    }
}

/// The longest leading part of `i` that is a code.
pub open spec fn code_prefix(i: u32) -> Option<u32>
    decreases i,
{
    if i == 0 {
        None
    } else if is_code(i) {
        Some(i)
    } else {
        code_prefix(i / 2)
    }
}

/// The entry that code `x` hands on to the positions it leads: the entry of
/// the longest shorter code leading `x` where there is one (that code has
/// already overwritten `x`'s own entry), else `x`'s own.
pub open spec fn handed_on(x: u32) -> (u32, u8)
    decreases x,
{
    if x == 0 {
        initial_entry(0)
    } else {
        match code_prefix(x / 2) {
            Some(y) => if y < x {
                handed_on(y)
            } else {
                initial_entry(x)
            },
            None => initial_entry(x),
        }
    }
}

/// The 17 low bits of `x` in reverse order.
pub open spec fn rev17(x: u64) -> u64 {
    ((x & 1) << 16u64) | (((x >> 1u64) & 1) << 15u64) | (((x >> 2u64) & 1) << 14u64) | (((x
        >> 3u64) & 1) << 13u64) | (((x >> 4u64) & 1) << 12u64) | (((x >> 5u64) & 1) << 11u64) | (((
    x >> 6u64) & 1) << 10u64) | (((x >> 7u64) & 1) << 9u64) | (((x >> 8u64) & 1) << 8u64) | (((x
        >> 9u64) & 1) << 7u64) | (((x >> 10u64) & 1) << 6u64) | (((x >> 11u64) & 1) << 5u64) | (((
    x >> 12u64) & 1) << 4u64) | (((x >> 13u64) & 1) << 3u64) | (((x >> 14u64) & 1) << 2u64) | (((
    x >> 15u64) & 1) << 1u64) | ((x >> 16u64) & 1)
}

/// The lookup-table entry at position `p`: a peek of 17 bits, first bit read
/// lowest. An even `p` starts with a zero bit, the one-bit code of opcode 0;
/// otherwise the bits after the first, read as a number, lead to the code
/// that matches, if any.
pub open spec fn huffman_entry(p: u32) -> (u32, u8) {
    if p % 2 == 0 {
        (0, 1)
    } else {
        match code_prefix(rev17(p as u64) as u32) {
            Some(x) => handed_on(x),
            None => no_entry(),
        }
    }
}

/// Shifting right by one halves; shifts add up; zero stays zero.
pub proof fn lemma_shift_facts(x: u32, a: u32, b: u32)
    by (bit_vector)
    ensures
        x >> 1u32 == x / 2,
        x >> 0u32 == x,
        a + b < 32 ==> (x >> a) >> b == x >> ((a + b) as u32),
        x == 0 ==> x >> a == 0,
        x >> 32u32 == 0,
{
}

/// The lowest bit of a number tells whether it is odd.
pub proof fn lemma_low_bit(x: u64)
    by (bit_vector)
    ensures
        (x & 1 == 0) == (x % 2 == 0),
        (x & 1 == 1) == (x % 2 == 1),
{
}

/// Reversing 17 bits twice gives them back; the result has 17 bits, and its
/// lowest bit is the highest of the input.
pub proof fn lemma_rev17(x: u64)
    requires
        x < 0x20000,
    ensures
        rev17(rev17(x)) == x,
        rev17(x) < 0x20000,
        rev17(x) & 1 == (x >> 16u64) & 1,
        (rev17(x) >> 16u64) & 1 == x & 1,
        rev17(0x1ffff) == 0x1ffff,
        rev17(x) < 0x10000 <==> (rev17(x) >> 16u64) & 1 == 0,
{
    assert(x < 0x20000 ==> rev17(rev17(x)) == x && rev17(x) < 0x20000 && rev17(x) & 1 == (x >> 16u64) & 1
        && (rev17(x) >> 16u64) & 1 == x & 1 && rev17(0x1ffff) == 0x1ffff && (rev17(x) < 0x10000 <==> (rev17(
        x) >> 16u64) & 1 == 0)) by (bit_vector);
}

/// The 17 top bits of a 64-bit reversal are the 17 low bits of the input,
/// reversed.
pub proof fn lemma_top17(r: u64, x: u64)
    by (bit_vector)
    requires
        (r >> 47u64) & 1 == (x >> 16u64) & 1,
        (r >> 48u64) & 1 == (x >> 15u64) & 1,
        (r >> 49u64) & 1 == (x >> 14u64) & 1,
        (r >> 50u64) & 1 == (x >> 13u64) & 1,
        (r >> 51u64) & 1 == (x >> 12u64) & 1,
        (r >> 52u64) & 1 == (x >> 11u64) & 1,
        (r >> 53u64) & 1 == (x >> 10u64) & 1,
        (r >> 54u64) & 1 == (x >> 9u64) & 1,
        (r >> 55u64) & 1 == (x >> 8u64) & 1,
        (r >> 56u64) & 1 == (x >> 7u64) & 1,
        (r >> 57u64) & 1 == (x >> 6u64) & 1,
        (r >> 58u64) & 1 == (x >> 5u64) & 1,
        (r >> 59u64) & 1 == (x >> 4u64) & 1,
        (r >> 60u64) & 1 == (x >> 3u64) & 1,
        (r >> 61u64) & 1 == (x >> 2u64) & 1,
        (r >> 62u64) & 1 == (x >> 1u64) & 1,
        (r >> 63u64) & 1 == (x >> 0u64) & 1,
    ensures
        r >> 47u64 == rev17(x),
{
}

/// `LookupReverse::swap_bits` on `u64`: the 64 bits of `x` in reverse order,
/// bit `i` of the result being bit `63 - i` of `x`.
#[verifier::external_body]
fn swap_bits64(x: u64) -> (r: u64)
    ensures
        forall|i: u64| i < 64 ==> #[trigger] ((r >> i) & 1) == ((x >> ((63 - i) as u64)) & 1),
{
    x.swap_bits()
}

/// The 17 low bits of `x` reversed, as the top bits of a 64-bit reversal.
fn peek_order(x: u64) -> (p: u64)
    ensures
        p == rev17(x),
{
    let r = swap_bits64(x);
    proof {
        assert((r >> 47u64) & 1 == (x >> 16u64) & 1);
        assert((r >> 48u64) & 1 == (x >> 15u64) & 1);
        assert((r >> 49u64) & 1 == (x >> 14u64) & 1);
        assert((r >> 50u64) & 1 == (x >> 13u64) & 1);
        assert((r >> 51u64) & 1 == (x >> 12u64) & 1);
        assert((r >> 52u64) & 1 == (x >> 11u64) & 1);
        assert((r >> 53u64) & 1 == (x >> 10u64) & 1);
        assert((r >> 54u64) & 1 == (x >> 9u64) & 1);
        assert((r >> 55u64) & 1 == (x >> 8u64) & 1);
        assert((r >> 56u64) & 1 == (x >> 7u64) & 1);
        assert((r >> 57u64) & 1 == (x >> 6u64) & 1);
        assert((r >> 58u64) & 1 == (x >> 5u64) & 1);
        assert((r >> 59u64) & 1 == (x >> 4u64) & 1);
        assert((r >> 60u64) & 1 == (x >> 3u64) & 1);
        assert((r >> 61u64) & 1 == (x >> 2u64) & 1);
        assert((r >> 62u64) & 1 == (x >> 1u64) & 1);
        assert((r >> 63u64) & 1 == (x >> 0u64) & 1);
        lemma_top17(r, x);
    }
    r >> 47
}

/// The number of binary digits of `val` (0 for 0).
pub fn msb(mut val: u32) -> (cnt: u32)
    ensures
        cnt == msb_spec(val),
{
    let ghost v0 = val;
    let mut cnt: u32 = 0;
    proof {
        lemma_msb_at_most_32(v0);
    }
    while val > 0
        invariant
            cnt + msb_spec(val) == msb_spec(v0),
            msb_spec(v0) <= 32,
        decreases val,
    {
        proof {
            lemma_shift_facts(val, 0, 0);
            lemma_msb_at_most_32(val / 2);
        }
        cnt = cnt + 1;
        val = val >> 1;
    }
    cnt
}

pub proof fn lemma_msb_at_most_32(v: u32)
    ensures
        msb_spec(v) <= 32,
{
    lemma2_to64();
    lemma_msb_below(v, 32);
}

/// A number below `2^k` has at most `k` digits.
pub proof fn lemma_msb_below(v: u32, k: nat)
    requires
        k <= 32,
        v < pow2(k),
    ensures
        msb_spec(v) <= k,
    decreases v,
{
    if v != 0 {
        if k == 0 {
            lemma2_to64();
        } else {
            lemma_pow2_unfold(k);
            lemma_msb_below(v / 2, (k - 1) as nat);
        }
    }
}

/// Whether `x` leads `i` can be read off their digit counts: dropping the
/// extra low digits of `i` gives `x`.
pub proof fn lemma_prefix_by_shift(x: u32, i: u32)
    requires
        x > 0,
    ensures
        (msb_spec(x) <= msb_spec(i) && i >> ((msb_spec(i) - msb_spec(x)) as u32) == x)
            == is_prefix(x, i),
    decreases i,
{
    lemma_msb_at_most_32(i);
    lemma_msb_at_most_32(x);
    lemma_msb_at_most_32(i / 2);
    lemma_msb_at_most_32(x / 2);
    lemma_shift_facts(i, 0, 0);
    assert(msb_spec(x) >= 1);
    if i != 0 {
        assert(msb_spec(i) == msb_spec(i / 2) + 1);
        lemma_prefix_by_shift(x, i / 2);
        let d = (msb_spec(i) - msb_spec(x)) as u32;
        if msb_spec(x) < msb_spec(i) {
            lemma_shift_facts(i, 1, (d - 1) as u32);
        }
    }
}

/// A leading part of `i` is at most `i`.
pub proof fn lemma_prefix_le(x: u32, i: u32)
    requires
        is_prefix(x, i),
    ensures
        x <= i,
    decreases i,
{
    if i != 0 && i != x {
        lemma_prefix_le(x, i / 2);
    }
}

/// The code found for `i` leads `i`.
pub proof fn lemma_code_prefix_leads(i: u32)
    ensures
        code_prefix(i) matches Some(y) ==> is_code(y) && is_prefix(y, i) && y <= i,
    decreases i,
{
    if i != 0 && !is_code(i) {
        lemma_code_prefix_leads(i / 2);
    }
}

/// Below a bound above `i`, every code leading `i` counts.
pub proof fn lemma_below_all(i: u32, bound: int)
    requires
        i < bound,
    ensures
        code_prefix_below(i, bound) == code_prefix(i),
    decreases i,
{
    if i != 0 {
        lemma_below_all(i / 2, bound);
    }
}

/// Raising the bound past one more code `x`: positions that `x` leads now find
/// `x`, the others what they found before.
pub proof fn lemma_below_step(i: u32, x: u32)
    requires
        is_code(x),
    ensures
        code_prefix_below(i, x + 1) == if is_prefix(x, i) {
            Some(x)
        } else {
            code_prefix_below(i, x as int)
        },
    decreases i,
{
    if i != 0 {
        if i < x {
            lemma_below_all(i, x + 1);
            lemma_below_all(i, x as int);
            if is_prefix(x, i) {
                lemma_prefix_le(x, i);
            }
        } else if i > x {
            lemma_below_step(i / 2, x);
        }
    }
}

/// Raising the bound over a range without codes changes nothing.
pub proof fn lemma_below_gap(i: u32, b1: int, b2: int)
    requires
        b1 <= b2,
        forall|k: u32| b1 <= k < b2 ==> !is_code(k),
    ensures
        code_prefix_below(i, b1) == code_prefix_below(i, b2),
    decreases i,
{
    if i != 0 {
        lemma_below_gap(i / 2, b1, b2);
    }
}

pub proof fn lemma_below_zero(i: u32)
    ensures
        code_prefix_below(i, 0) is None,
    decreases i,
{
    if i != 0 {
        lemma_below_zero(i / 2);
    }
}

/// What a code holds when its turn comes: what the shorter codes leading it
/// handed on, else its own entry.
pub proof fn lemma_handed_on_at_turn(x: u32)
    requires
        x > 0,
    ensures
        handed_on(x) == match code_prefix_below(x, x as int) {
            Some(y) => handed_on(y),
            None => initial_entry(x),
        },
{
    lemma_below_all(x / 2, x as int);
    lemma_code_prefix_leads(x / 2);
}

/// What table position `i` holds once the codes below `bound` have been
/// propagated.
pub open spec fn table_after(i: u32, bound: int) -> (u32, u8) {
    match code_prefix_below(i, bound) {
        Some(y) => handed_on(y),
        None => initial_entry(i),
    }
}

/// What the lookup table holds for the peek whose bits in read order are `i`
/// once the codes below `bound` have been propagated.
pub open spec fn lookup_after(i: u32, bound: int) -> (u32, u8) {
    match code_prefix_below(i, bound) {
        Some(y) => handed_on(y),
        None => no_entry(),
    }
}

/// How far the propagation has come after `j` codes of the ascending list `v`.
pub open spec fn bound_at(v: Seq<u32>, j: int) -> int {
    if j < v.len() {
        v[j] as int
    } else {
        131071
    }
}

pub proof fn lemma_codes_small(k: u32)
    requires
        is_code(k),
    ensures
        0 < k < 131071,
{
}

/// No code lies from `b1` up to below the next entry of the complete ascending
/// list of codes.
pub proof fn lemma_no_code_between(v: Seq<u32>, j: int, b1: int)
    requires
        0 <= j <= v.len(),
        forall|a: int, b: int| 0 <= a < b < v.len() ==> v[a] < v[b],
        forall|k: u32| is_code(k) ==> v.contains(k),
        j > 0 ==> b1 == v[j - 1] + 1,
        j == 0 ==> b1 == 0,
    ensures
        forall|k: u32| b1 <= k < bound_at(v, j) ==> !is_code(k),
{
    assert forall|k: u32| b1 <= k < bound_at(v, j) implies !is_code(k) by {
        if is_code(k) {
            lemma_codes_small(k);
            let a = choose|a: int| 0 <= a < v.len() && v[a] == k;
            if a < j {
                if a < j - 1 {
                    assert(v[a] < v[j - 1]);
                }
            } else if a > j {
                assert(v[j] < v[a]);
            }
        }
    }
}

/// A table of 131071 positions that no code reaches yet.
fn table_of_no_entries() -> (table: Vec<(u32, u8)>)
    ensures
        table@.len() == 131071,
        forall|i: int| 0 <= i < 131071 ==> table@[i] == no_entry(),
{
    let mut table: Vec<(u32, u8)> = Vec::with_capacity(131071);
    let mut i: usize = 0;
    while i < 131071
        invariant
            i <= 131071,
            table@.len() == i,
            forall|a: int| 0 <= a < i ==> table@[a] == no_entry(),
        decreases 131071 - i,
    {
        table.push((999999, 255));
        i += 1;
    }
    table
}

/// The lookup table for decoding field-path opcodes from a peek of 17 bits
/// (first bit lowest): each entry is the opcode whose code starts the peek and
/// the code's length; (0, 1) for a peek that starts with a zero bit.
#[verifier::rlimit(40)]
pub fn create_huffman_lookup_table() -> (table: Vec<(u32, u8)>)
    ensures
        table@.len() == 131071,
        forall|p: int| 0 <= p < 131071 ==> table@[p] == huffman_entry(p as u32),
{
    let mut huffman_table = table_of_no_entries();
    let mut huffman_rev_table = table_of_no_entries();

    huffman_table.set(0, (0, 1));
    huffman_table.set(2, (39, 2));
    huffman_table.set(24, (8, 5));
    huffman_table.set(50, (2, 6));
    huffman_table.set(51, (29, 6));
    huffman_table.set(100, (2, 6));
    huffman_table.set(101, (29, 6));
    huffman_table.set(26, (4, 5));
    huffman_table.set(432, (30, 9));
    huffman_table.set(866, (38, 10));
    huffman_table.set(55488, (35, 16));
    huffman_table.set(55489, (34, 16));
    huffman_table.set(27745, (27, 15));
    huffman_table.set(55492, (25, 16));
    huffman_table.set(55493, (24, 16));
    huffman_table.set(55494, (33, 16));
    huffman_table.set(55495, (28, 16));
    huffman_table.set(55496, (13, 16));
    huffman_table.set(110994, (15, 17));
    huffman_table.set(110995, (14, 17));
    huffman_table.set(27749, (6, 15));
    huffman_table.set(111000, (21, 17));
    huffman_table.set(111001, (20, 17));
    huffman_table.set(111002, (23, 17));
    huffman_table.set(111003, (22, 17));
    huffman_table.set(111004, (17, 17));
    huffman_table.set(111005, (16, 17));
    huffman_table.set(111006, (19, 17));
    huffman_table.set(111007, (18, 17));
    huffman_table.set(3469, (5, 12));
    huffman_table.set(1735, (36, 11));
    huffman_table.set(217, (10, 8));
    huffman_table.set(218, (7, 8));
    huffman_table.set(438, (12, 9));
    huffman_table.set(439, (37, 9));
    huffman_table.set(220, (9, 8));
    huffman_table.set(442, (31, 9));
    huffman_table.set(443, (26, 9));
    huffman_table.set(222, (32, 8));
    huffman_table.set(223, (3, 8));
    huffman_table.set(14, (1, 4));
    huffman_table.set(15, (11, 4));
    huffman_table.set(0, (999999, 255));

    assert forall|i: int| 0 <= i < 131071 implies huffman_table@[i] == initial_entry(i as u32) by {
    }

    // The codes, in ascending order.
    let mut v: Vec<u32> = Vec::new();
    let mut idx: usize = 0;
    while idx < huffman_table.len()
        invariant
            huffman_table@.len() == 131071,
            forall|i: int| 0 <= i < 131071 ==> huffman_table@[i] == initial_entry(i as u32),
            idx <= 131071,
            forall|a: int| 0 <= a < v@.len() ==> is_code(v@[a]) && v@[a] < idx,
            forall|a: int, b: int| 0 <= a < b < v@.len() ==> v@[a] < v@[b],
            forall|k: u32| k < idx && is_code(k) ==> v@.contains(k),
        decreases 131071 - idx,
    {
        let ghost before = v@;
        if huffman_table[idx].0 != 999999 {
            proof {
                assert(is_code(idx as u32));
            }
            v.push(idx as u32);
            proof {
                assert(v@[v@.len() - 1] == idx as u32);
            }
        }
        proof {
            assert forall|k: u32| k < idx + 1 && is_code(k) implies v@.contains(k) by {
                if k == idx {
                    assert(v@[v@.len() - 1] == k);
                } else {
                    let a = choose|a: int| 0 <= a < before.len() && before[a] == k;
                    assert(v@[a] == k);
                }
            }
        }
        idx += 1;
    }
    proof {
        assert forall|k: u32| is_code(k) implies v@.contains(k) by {
            lemma_codes_small(k);
        }
    }

    let mut idx_msb_map: Vec<u32> = Vec::with_capacity(131071);
    let mut i: u32 = 0;
    while i < HUF_LOOKUPTABLE_MAXVALUE
        invariant
            i <= 131071,
            idx_msb_map@.len() == i,
            forall|a: int| 0 <= a < i ==> idx_msb_map@[a] == msb_spec(a as u32),
        decreases 131071 - i,
    {
        idx_msb_map.push(msb(i));
        i += 1;
    }

    proof {
        lemma_no_code_between(v@, 0, 0);
        assert forall|i: int| 0 <= i < 131071 implies huffman_table@[i] == table_after(i as u32, bound_at(v@, 0)) by {
            lemma_below_zero(i as u32);
            lemma_below_gap(i as u32, 0, bound_at(v@, 0));
        }
        assert forall|p: int| 0 <= p < 131071 implies huffman_rev_table@[p] == lookup_after(rev17(p as u64) as u32, bound_at(v@, 0)) by {
            lemma_below_zero(rev17(p as u64) as u32);
            lemma_below_gap(rev17(p as u64) as u32, 0, bound_at(v@, 0));
        }
    }

    let mut j: usize = 0;
    while j < v.len()
        invariant
            huffman_table@.len() == 131071,
            huffman_rev_table@.len() == 131071,
            idx_msb_map@.len() == 131071,
            forall|a: int| 0 <= a < 131071 ==> idx_msb_map@[a] == msb_spec(a as u32),
            forall|a: int| 0 <= a < v@.len() ==> is_code(v@[a]),
            forall|a: int, b: int| 0 <= a < b < v@.len() ==> v@[a] < v@[b],
            forall|k: u32| is_code(k) ==> v@.contains(k),
            j <= v@.len(),
            forall|i: int| 0 <= i < 131071 ==> huffman_table@[i] == table_after(i as u32, bound_at(v@, j as int)),
            forall|p: int| 0 <= p < 131071 ==> huffman_rev_table@[p] == lookup_after(rev17(p as u64) as u32, bound_at(v@, j as int)),
        decreases v@.len() - j,
    {
        let x = v[j];
        proof {
            lemma_codes_small(x);
        }
        let shifta = msb(x);
        proof {
            lemma_msb_at_most_32(x);
            lemma_msb_at_most_32(x / 2);
        }
        let mut idx: usize = 0;
        while idx < idx_msb_map.len()
            invariant
                is_code(x),
                0 < x < 131071,
                shifta == msb_spec(x),
                1 <= shifta <= 32,
                bound_at(v@, j as int) == x,
                huffman_table@.len() == 131071,
                huffman_rev_table@.len() == 131071,
                idx_msb_map@.len() == 131071,
                forall|a: int| 0 <= a < 131071 ==> idx_msb_map@[a] == msb_spec(a as u32),
                idx <= 131071,
                forall|i: int| 0 <= i < 131071 ==> huffman_table@[i] == if i < idx {
                    table_after(i as u32, x + 1)
                } else {
                    table_after(i as u32, x as int)
                },
                forall|p: int| 0 <= p < 131071 ==> huffman_rev_table@[p] == if rev17(p as u64) < idx {
                    lookup_after(rev17(p as u64) as u32, x + 1)
                } else {
                    lookup_after(rev17(p as u64) as u32, x as int)
                },
            decreases 131071 - idx,
        {
            let pair = idx_msb_map[idx];
            proof {
                lemma_msb_at_most_32(idx as u32);
                lemma_prefix_by_shift(x, idx as u32);
                lemma_below_step(idx as u32, x);
                lemma_rev17(idx as u64);
            }
            if pair >= shifta && x == (idx as u32) >> (pair - shifta) {
                let peekbits = peek_order(idx as u64);
                let val = huffman_table[x as usize];
                proof {
                    if (x as int) < idx {
                        lemma_below_step(x, x);
                    } else {
                        lemma_handed_on_at_turn(x);
                    }
                    assert(val == handed_on(x));
                }
                huffman_table.set(idx, val);
                huffman_rev_table.set(peekbits as usize, val);
                proof {
                    assert forall|p: int| 0 <= p < 131071 implies huffman_rev_table@[p] == if rev17(p as u64) < idx + 1 {
                        lookup_after(rev17(p as u64) as u32, x + 1)
                    } else {
                        lookup_after(rev17(p as u64) as u32, x as int)
                    } by {
                        lemma_rev17(p as u64);
                        lemma_below_step(rev17(p as u64) as u32, x);
                    }
                }
            } else {
                proof {
                    assert forall|p: int| 0 <= p < 131071 implies huffman_rev_table@[p] == if rev17(p as u64) < idx + 1 {
                        lookup_after(rev17(p as u64) as u32, x + 1)
                    } else {
                        lookup_after(rev17(p as u64) as u32, x as int)
                    } by {
                        lemma_rev17(p as u64);
                        lemma_below_step(rev17(p as u64) as u32, x);
                    }
                }
            }
            idx += 1;
        }
        proof {
            lemma_no_code_between(v@, j as int + 1, x + 1);
            assert forall|i: int| 0 <= i < 131071 implies huffman_table@[i] == table_after(i as u32, bound_at(v@, j + 1)) by {
                lemma_below_gap(i as u32, x + 1, bound_at(v@, j + 1));
            }
            assert forall|p: int| 0 <= p < 131071 implies huffman_rev_table@[p] == lookup_after(rev17(p as u64) as u32, bound_at(v@, j + 1)) by {
                lemma_rev17(p as u64);
                lemma_rev17(0x1ffff);
                lemma_below_gap(rev17(p as u64) as u32, x + 1, bound_at(v@, j + 1));
            }
        }
        j += 1;
    }

    let mut w: u32 = 0;
    while w < HUF_LOOKUPTABLE_MAXVALUE
        invariant
            w <= 131071,
            huffman_rev_table@.len() == 131071,
            forall|p: int| 0 <= p < 131071 ==> huffman_rev_table@[p] == if p % 2 == 0 && rev17(p as u64) < w {
                (0u32, 1u8)
            } else {
                lookup_after(rev17(p as u64) as u32, 131071)
            },
        decreases 131071 - w,
    {
        let p = peek_order(w as u64);
        proof {
            lemma_rev17(w as u64);
            lemma_low_bit(p);
        }
        if p & 1 == 0 {
            huffman_rev_table.set(p as usize, (0, 1));
        }
        proof {
            assert forall|q: int| 0 <= q < 131071 implies huffman_rev_table@[q] == if q % 2 == 0 && rev17(q as u64) < w + 1 {
                (0u32, 1u8)
            } else {
                lookup_after(rev17(q as u64) as u32, 131071)
            } by {
                lemma_rev17(q as u64);
            }
        }
        w += 1;
    }
    proof {
        assert forall|p: int| 0 <= p < 131071 implies huffman_rev_table@[p] == huffman_entry(p as u32) by {
            lemma_rev17(p as u64);
            lemma_rev17(0x1ffff);
            lemma_below_all(rev17(p as u64) as u32, 131071);
            if p % 2 == 0 {
                lemma_low_bit(p as u64);
            }
        }
    }
    huffman_rev_table
}

/// Apart from 100 and 101, which extend code 50, no code extends a shorter
/// code: looking for a code among the leading parts of a code's halving finds
/// none.
proof fn lemma_code_unextended(c: u32)
    requires
        is_code(c),
        c != 100,
        c != 101,
    ensures
        code_prefix(c / 2) is None,
{
    reveal_with_fuel(code_prefix, 18);
}

/// A code that leads `i` is found when looking for one.
proof fn lemma_code_found(i: u32, k: u32)
    requires
        is_code(k),
        is_prefix(k, i),
    ensures
        code_prefix(i) is Some,
    decreases i,
{
    if i != k && !is_code(i) {
        lemma_code_found(i / 2, k);
    }
}

/// The only codes that extend another code are 100 and 101, extending 50.
proof fn lemma_no_code_extends(c: u32, k: u32)
    requires
        is_code(c),
        is_code(k),
        is_prefix(k, c / 2),
    ensures
        k == 50 && (c == 100 || c == 101),
{
    if c == 100 || c == 101 {
        reveal_with_fuel(is_prefix, 8);
    } else {
        lemma_code_unextended(c);
        lemma_code_found(c / 2, k);
    }
}

/// Looking for a code in an extension of code `k` finds `k`, or for `k` = 50
/// one of its two extensions.
proof fn lemma_code_prefix_extension(r: u32, k: u32)
    requires
        is_code(k),
        is_prefix(k, r),
    ensures
        code_prefix(r) == Some(k) || (k == 50 && (code_prefix(r) == Some(100u32) || code_prefix(r) == Some(
            101u32,
        ))),
    decreases r,
{
    if r != k {
        if is_code(r) {
            lemma_no_code_extends(r, k);
        } else {
            lemma_code_prefix_extension(r / 2, k);
        }
    }
}

/// What each code hands on: its own entry, except for 100 and 101, which take
/// the entry of code 50.
pub proof fn lemma_handed_on_codes(k: u32)
    requires
        is_code(k),
    ensures
        handed_on(k) == if k == 100 || k == 101 {
            initial_entry(50)
        } else {
            initial_entry(k)
        },
{
    if k == 100 || k == 101 {
        lemma_code_unextended(50);
        assert(code_prefix(k / 2) == Some(50u32));
        assert(handed_on(50) == initial_entry(50));
    } else {
        lemma_code_unextended(k);
    }
}

/// The table decodes every Huffman code: a 17-bit peek whose first bits, in
/// read order, are the digits of a code (the peek read as a 17-digit number
/// starts with the code) yields that code's opcode and length. (The table's
/// entries 100 and 101 extend code 50 and decode as it does.)
pub proof fn lemma_huffman_decodes_code(k: u32, p: u32)
    requires
        is_code(k),
        k != 100,
        k != 101,
        p < 131071,
        rev17(p as u64) >= 0x10000,
        is_prefix(k, rev17(p as u64) as u32),
    ensures
        huffman_entry(p) == initial_entry(k),
{
    lemma_rev17(p as u64);
    lemma_low_bit(p as u64);
    lemma_code_prefix_extension(rev17(p as u64) as u32, k);
    match code_prefix(rev17(p as u64) as u32) {
        Some(x) => {
            lemma_code_prefix_leads(rev17(p as u64) as u32);
            lemma_handed_on_codes(x);
        },
        None => {},
    }
}

/// A peek whose first bit is zero decodes as opcode 0, with one bit used.
pub proof fn lemma_huffman_zero_bit(p: u32)
    requires
        p < 131071,
        p % 2 == 0,
    ensures
        huffman_entry(p) == (0u32, 1u8),
{
}

/// Every way of continuing `x` (which has `depth` digits) to 17 digits meets a
/// code: `x` is a code, or both of its continuations by one digit have this
/// property.
pub open spec fn covers_all(x: u32, depth: nat) -> bool
    decreases 17 - depth,
{
    if is_code(x) {
        true
    } else if depth >= 17 {
        false
    } else {
        covers_all((2 * x) as u32, depth + 1) && covers_all((2 * x + 1) as u32, depth + 1)
    }
}

/// `i` with some low digits dropped, where that leaves a digit, leads `i`.
proof fn lemma_prefix_of_shift(r: u32, k: u32)
    requires
        k < 32,
        r >> k != 0,
    ensures
        is_prefix(r >> k, r),
    decreases k,
{
    lemma_shift_facts(r, 0, 0);
    if k > 0 && r != r >> k {
        lemma_shift_facts(r, 1, (k - 1) as u32);
        lemma_prefix_of_shift(r >> 1u32, (k - 1) as u32);
    }
}

proof fn lemma_covered_finds_code(r: u32, d: nat)
    requires
        1 <= d <= 17,
        covers_all(r >> ((17 - d) as u32), d),
    ensures
        code_prefix(r) is Some,
    decreases 17 - d,
{
    let x = r >> ((17 - d) as u32);
    if is_code(x) {
        lemma_codes_small(x);
        lemma_prefix_of_shift(r, (17 - d) as u32);
        lemma_code_found(r, x);
    } else {
        let c = r >> ((16 - d) as u32);
        lemma_shift_facts(r, (16 - d) as u32, 1);
        lemma_shift_facts(c, 0, 0);
        assert(c == 2 * x || c == 2 * x + 1);
        lemma_covered_finds_code(r, d + 1);
    }
}

/// The codes form a complete prefix code: every continuation of the leading
/// one to 17 digits meets a code.
proof fn lemma_codes_complete()
    ensures
        covers_all(1, 1),
{
    reveal_with_fuel(covers_all, 18);
}

/// The table has an entry for every peek: each 17-bit peek decodes to some
/// opcode.
pub proof fn lemma_huffman_table_complete(p: u32)
    requires
        p < 131071,
    ensures
        huffman_entry(p) != no_entry(),
{
    if p % 2 == 1 {
        lemma_rev17(p as u64);
        lemma_low_bit(p as u64);
        let r = rev17(p as u64) as u32;
        lemma_top_bit(r);
        lemma_codes_complete();
        lemma_covered_finds_code(r, 1);
        let x = code_prefix(r)->0;
        lemma_code_prefix_leads(r);
        lemma_handed_on_codes(x);
    }
}

proof fn lemma_top_bit(r: u32)
    by (bit_vector)
    requires
        r < 0x20000,
        (r >> 16u32) & 1 == 1,
    ensures
        r >> 16u32 == 1,
{
}

} // verus!
