use vstd::prelude::*;

use crate::error::DemoParserError;
use crate::read_bits::{
    sp_bool, sp_nbits, sp_u_bit_var, sp_ubit_var_fp, sp_varint32, BitRead, Bitreader,
};

verus! {

/// A path of up to seven indices into nested fields; `last` is the index of
/// the innermost level in use.
#[derive(Clone, Copy, Debug)]
pub struct FieldPath {
    pub path: [i32; 7],
    pub last: usize,
}

/// The path that a sequence of path operations starts from.
#[inline(always)]
pub fn generate_fp() -> (fp: FieldPath)
    ensures
        fp.path@ == seq![-1i32, 0, 0, 0, 0, 0, 0],
        fp.last == 0,
{
    FieldPath { path: [-1, 0, 0, 0, 0, 0, 0], last: 0 }
}

/// The index one level up from `last`; going up from level 0 wraps around to
/// an index that names no level (the arithmetic of an optimized build).
pub open spec fn level_up(last: usize) -> usize {
    if last == 0 { usize::MAX } else { (last - 1) as usize }
}

/// The path and level after up to `n` levels have been dropped from the end,
/// each dropped entry being reset to zero; stops with `false` as soon as the
/// current level names no entry.
pub open spec fn spec_pop_special(path: Seq<i32>, last: usize, n: nat) -> (Seq<i32>, usize, bool)
    decreases n,
{
    if n == 0 {
        (path, last, true)
    } else if last >= 7 {
        (path, last, false)
    } else {
        spec_pop_special(path.update(last as int, 0), level_up(last), (n - 1) as nat)
    }
}

/// Dropping `n` levels that are in use (at most the current level) always
/// succeeds: the level goes down by `n` and the dropped entries are zero.
pub proof fn lemma_pop_within_path(path: Seq<i32>, last: usize, n: nat)
    requires
        path.len() == 7,
        last < 7,
        n <= last,
    ensures
        spec_pop_special(path, last, n) == (
            Seq::new(7, |j: int| if last - n < j <= last { 0i32 } else { path[j] }),
            (last - n) as usize,
            true,
        ),
    decreases n,
{
    if n > 0 {
        let p1 = path.update(last as int, 0);
        lemma_pop_within_path(p1, (last - 1) as usize, (n - 1) as nat);
        assert(Seq::new(7, |j: int| if (last - 1) - (n - 1) < j <= last - 1 { 0i32 } else { p1[j] }) =~= Seq::new(
            7,
            |j: int| if last - n < j <= last { 0i32 } else { path[j] },
        ));
    } else {
        assert(Seq::new(7, |j: int| if last - n < j <= last { 0i32 } else { path[j] }) =~= path);
    }
}

impl FieldPath {
    /// Drops `n` levels from the end of the path, zeroing the dropped entries.
    pub fn pop_special(&mut self, n: usize) -> (res: Result<(), DemoParserError>)
        ensures
            ({
                let (p, l, ok) = spec_pop_special(old(self).path@, old(self).last, n as nat);
                &&& final(self).path@ == p
                &&& final(self).last == l
                &&& res == if ok { Ok::<(), DemoParserError>(()) } else { Err(DemoParserError::IllegalPathOp) }
            }),
    {
        let mut i: usize = 0;
        while i < n
            invariant
                i <= n,
                spec_pop_special(old(self).path@, old(self).last, n as nat)
                    == spec_pop_special(self.path@, self.last, (n - i) as nat),
            decreases n - i,
        {
            let last = self.last;
            *self.get_entry_mut(last)? = 0;
            self.last = self.last.wrapping_sub(1);
            i += 1;
        }
        Ok(())
    }

    /// The entry at `idx`, to be changed in place.
    pub fn get_entry_mut(&mut self, idx: usize) -> (res: Result<&mut i32, DemoParserError>)
        ensures
            idx < 7 ==> (res matches Ok(r) && *r == old(self).path@[idx as int]
                && final(self).path@ == old(self).path@.update(idx as int, *final(r))
                && final(self).last == old(self).last),
            idx >= 7 ==> res == Err::<&mut i32, DemoParserError>(DemoParserError::IllegalPathOp)
                && *final(self) == *old(self),
    {
        if idx < 7 {
            Ok(&mut self.path[idx])
        } else {
            Err(DemoParserError::IllegalPathOp)
        }
    }
}

/// Which entry of the path an operation changes: the innermost level in use,
/// the outermost one, or the one just above the innermost.
#[derive(Clone, Copy, Debug)]
pub enum Slot {
    Last,
    First,
    Penultimate,
}

/// A number that an operation reads from the bit stream (or takes as it is),
/// together with the constant added to it.
#[derive(Clone, Copy, Debug)]
pub enum Amount {
    Fixed(i32),
    Fp(i32),
    Bits(u32, i32),
    UBitVar(i32),
    Varint32(i32),
}

/// How many levels a pop drops: one, all but the outermost, or a count read
/// from the stream.
#[derive(Clone, Copy, Debug)]
pub enum PopCount {
    One,
    AllButOne,
    Read,
}

/// One step of a path operation.
#[derive(Clone, Copy, Debug)]
pub enum PathStep {
    /// Adds the amount to an entry (the amount is read before the entry is looked up).
    Add(Slot, Amount),
    /// Overwrites an entry with the amount.
    Assign(Slot, Amount),
    /// Goes one level deeper.
    Push,
    Pop(PopCount),
    /// Reads a count and a delta for the current level, then that many times
    /// goes one level deeper and adds a read index there.
    PushN,
    /// Reads a count, then that many times goes one level deeper and sets a
    /// read index there.
    PushCounted,
    /// For every level in use, a flag says whether the amount is added there.
    NonTopo(Amount),
}

/// The state that path operations act on: the unread bits, the path entries
/// and the current level.
pub struct PathState {
    pub bits: Seq<bool>,
    pub path: Seq<i32>,
    pub last: usize,
}

pub type PathOutcome = (Result<(), DemoParserError>, PathState);

pub open spec fn path_state<'a>(bitreader: Bitreader<'a>, field_path: FieldPath) -> PathState {
    PathState { bits: bitreader.bits(), path: field_path.path@, last: field_path.last }
}

pub open spec fn with_bits(s: PathState, bits: Seq<bool>) -> PathState {
    PathState { bits: bits, path: s.path, last: s.last }
}

pub open spec fn amount_ok(a: Amount) -> bool {
    match a {
        Amount::Bits(n, _) => 1 <= n <= 32,
        _ => true,
    }
}

pub open spec fn step_ok(st: PathStep) -> bool {
    match st {
        PathStep::Add(_, a) => amount_ok(a),
        PathStep::Assign(_, a) => amount_ok(a),
        PathStep::NonTopo(a) => amount_ok(a),
        _ => true,
    }
}

pub open spec fn slot_index(last: usize, slot: Slot) -> usize {
    match slot {
        Slot::Last => last,
        Slot::First => 0,
        Slot::Penultimate => level_up(last),
    }
}

/// Reading an amount: the number read, as a signed 32-bit value, plus the
/// constant (wrapping around on overflow).
pub open spec fn sp_amount(bits: Seq<bool>, a: Amount) -> BitRead<i32> {
    match a {
        Amount::Fixed(c) => (Ok(c), bits),
        Amount::Fp(off) => {
            let (r, b) = sp_ubit_var_fp(bits);
            (match r { Ok(v) => Ok((v as i32).wrapping_add(off)), Err(e) => Err(e) }, b)
        },
        Amount::Bits(n, off) => {
            let (r, b) = sp_nbits(bits, n as nat);
            (match r { Ok(v) => Ok((v as i32).wrapping_add(off)), Err(e) => Err(e) }, b)
        },
        Amount::UBitVar(off) => {
            let (r, b) = sp_u_bit_var(bits);
            (match r { Ok(v) => Ok((v as i32).wrapping_add(off)), Err(e) => Err(e) }, b)
        },
        Amount::Varint32(off) => {
            let (r, b) = sp_varint32(bits);
            (match r { Ok(v) => Ok(v.wrapping_add(off)), Err(e) => Err(e) }, b)
        },
    }
}

/// Reads an amount, then adds it to (or writes it into) entry `idx`; an index
/// past the seventh entry fails after the read.
pub open spec fn sp_write(s: PathState, idx: usize, a: Amount, add: bool) -> PathOutcome {
    let (r, b) = sp_amount(s.bits, a);
    match r {
        Err(e) => (Err(e), with_bits(s, b)),
        Ok(v) => if idx < 7 {
            let new_val = if add { s.path[idx as int].wrapping_add(v) } else { v };
            (Ok(()), PathState { bits: b, path: s.path.update(idx as int, new_val), last: s.last })
        } else {
            (Err(DemoParserError::IllegalPathOp), with_bits(s, b))
        },
    }
}

pub open spec fn sp_pop(s: PathState, n: nat) -> PathOutcome {
    let (p, l, ok) = spec_pop_special(s.path, s.last, n);
    (
        if ok { Ok(()) } else { Err(DemoParserError::IllegalPathOp) },
        PathState { bits: s.bits, path: p, last: l },
    )
}

/// `k` times: one level deeper, then a read index added to (or written into)
/// the new level; stops at the first failure.
pub open spec fn sp_pushes(s: PathState, k: nat, add: bool) -> PathOutcome
    decreases k,
{
    if k == 0 {
        (Ok(()), s)
    } else {
        let pushed = PathState { bits: s.bits, path: s.path, last: s.last.wrapping_add(1) };
        let (r, s2) = sp_write(pushed, pushed.last, Amount::Fp(0), add);
        if r is Ok {
            sp_pushes(s2, (k - 1) as nat, add)
        } else {
            (r, s2)
        }
    }
}

/// Levels `i` up to `end`: a flag each, and where it is set the amount is
/// added to that level's entry; stops at the first failure.
pub open spec fn sp_non_topo(s: PathState, i: nat, end: nat, a: Amount) -> PathOutcome
    decreases end - i,
{
    if i >= end {
        (Ok(()), s)
    } else {
        let (r, b) = sp_bool(s.bits);
        match r {
            Err(e) => (Err(e), with_bits(s, b)),
            Ok(flag) => if flag {
                let (r2, s2) = sp_write(with_bits(s, b), i as usize, a, true);
                if r2 is Ok {
                    sp_non_topo(s2, i + 1, end, a)
                } else {
                    (r2, s2)
                }
            } else {
                sp_non_topo(with_bits(s, b), i + 1, end, a)
            },
        }
    }
}

pub open spec fn sp_step(s: PathState, st: PathStep) -> PathOutcome {
    match st {
        PathStep::Add(slot, a) => sp_write(s, slot_index(s.last, slot), a, true),
        PathStep::Assign(slot, a) => sp_write(s, slot_index(s.last, slot), a, false),
        PathStep::Push => (Ok(()), PathState { bits: s.bits, path: s.path, last: s.last.wrapping_add(1) }),
        PathStep::Pop(PopCount::One) => sp_pop(s, 1),
        PathStep::Pop(PopCount::AllButOne) => sp_pop(s, s.last as nat),
        PathStep::Pop(PopCount::Read) => {
            let (r, b) = sp_ubit_var_fp(s.bits);
            match r {
                Err(e) => (Err(e), with_bits(s, b)),
                Ok(n) => sp_pop(with_bits(s, b), n as nat),
            }
        },
        PathStep::PushN => {
            let (r, b) = sp_u_bit_var(s.bits);
            match r {
                Err(e) => (Err(e), with_bits(s, b)),
                Ok(c) => {
                    let n = c as i32;
                    let (r2, s2) = sp_write(with_bits(s, b), s.last, Amount::UBitVar(0), true);
                    if r2 is Ok {
                        sp_pushes(s2, if n > 0 { n as nat } else { 0 }, true)
                    } else {
                        (r2, s2)
                    }
                },
            }
        },
        PathStep::PushCounted => {
            let (r, b) = sp_u_bit_var(s.bits);
            match r {
                Err(e) => (Err(e), with_bits(s, b)),
                Ok(c) => sp_pushes(with_bits(s, b), c as nat, false),
            }
        },
        PathStep::NonTopo(a) => sp_non_topo(s, 0, s.last.wrapping_add(1) as nat, a),
    }
}

/// The steps `p[i..]` one after the other, stopping at the first failure.
pub open spec fn sp_run(s: PathState, p: Seq<PathStep>, i: nat) -> PathOutcome
    decreases p.len() - i,
{
    if i >= p.len() {
        (Ok(()), s)
    } else {
        let (r, s2) = sp_step(s, p[i as int]);
        if r is Ok && i + 1 < p.len() {
            sp_run(s2, p, i + 1)
        } else {
            (r, s2)
        }
    }
}

/// Reads an amount from the stream.
fn read_amount(bitreader: &mut Bitreader, a: Amount) -> (res: Result<i32, DemoParserError>)
    requires
        amount_ok(a),
    ensures
        (res, final(bitreader).bits()) == sp_amount(old(bitreader).bits(), a),
{
    match a {
        Amount::Fixed(c) => Ok(c),
        Amount::Fp(off) => {
            let v = bitreader.read_ubit_var_fp()?;
            Ok((#[verifier::truncate] (v as i32)).wrapping_add(off))
        },
        Amount::Bits(n, off) => {
            let v = bitreader.read_nbits(n)?;
            Ok((#[verifier::truncate] (v as i32)).wrapping_add(off))
        },
        Amount::UBitVar(off) => {
            let v = bitreader.read_u_bit_var()?;
            Ok((#[verifier::truncate] (v as i32)).wrapping_add(off))
        },
        Amount::Varint32(off) => {
            let v = bitreader.read_varint32()?;
            Ok(v.wrapping_add(off))
        },
    }
}

/// Reads an amount, then adds it to (or writes it into) entry `idx`.
fn write_at(
    bitreader: &mut Bitreader,
    field_path: &mut FieldPath,
    idx: usize,
    a: Amount,
    add: bool,
) -> (res: Result<(), DemoParserError>)
    requires
        amount_ok(a),
    ensures
        (res, path_state(*final(bitreader), *final(field_path)))
            == sp_write(path_state(*old(bitreader), *old(field_path)), idx, a, add),
{
    let v = read_amount(bitreader, a)?;
    let entry = field_path.get_entry_mut(idx)?;
    if add {
        *entry = entry.wrapping_add(v);
    } else {
        *entry = v;
    }
    Ok(())
}

/// `k` times: one level deeper, then a read index added or written there.
fn pushes(bitreader: &mut Bitreader, field_path: &mut FieldPath, k: u64, add: bool) -> (res: Result<(), DemoParserError>)
    ensures
        (res, path_state(*final(bitreader), *final(field_path)))
            == sp_pushes(path_state(*old(bitreader), *old(field_path)), k as nat, add),
{
    let mut i: u64 = 0;
    while i < k
        invariant
            i <= k,
            sp_pushes(path_state(*old(bitreader), *old(field_path)), k as nat, add)
                == sp_pushes(path_state(*bitreader, *field_path), (k - i) as nat, add),
        decreases k - i,
    {
        field_path.last = field_path.last.wrapping_add(1);
        let last = field_path.last;
        write_at(bitreader, field_path, last, Amount::Fp(0), add)?;
        i += 1;
    }
    Ok(())
}

/// For every level in use: a flag, and where it is set the amount is added.
fn non_topo(bitreader: &mut Bitreader, field_path: &mut FieldPath, a: Amount) -> (res: Result<(), DemoParserError>)
    requires
        amount_ok(a),
    ensures
        (res, path_state(*final(bitreader), *final(field_path))) == sp_non_topo(
            path_state(*old(bitreader), *old(field_path)),
            0,
            old(field_path).last.wrapping_add(1) as nat,
            a,
        ),
{
    let end = field_path.last.wrapping_add(1);
    let mut i: usize = 0;
    while i < end
        invariant
            i <= end,
            end == old(field_path).last.wrapping_add(1),
            amount_ok(a),
            sp_non_topo(path_state(*old(bitreader), *old(field_path)), 0, end as nat, a)
                == sp_non_topo(path_state(*bitreader, *field_path), i as nat, end as nat, a),
        decreases end - i,
    {
        if bitreader.read_boolean()? {
            write_at(bitreader, field_path, i, a, true)?;
        }
        i += 1;
    }
    Ok(())
}

/// The steps of each of the 39 path operations, by opcode.
pub open spec fn op_program(opcode: u8) -> Seq<PathStep> {
    match opcode {
        0 => seq![PathStep::Add(Slot::Last, Amount::Fixed(1))],
        1 => seq![PathStep::Add(Slot::Last, Amount::Fixed(2))],
        2 => seq![PathStep::Add(Slot::Last, Amount::Fixed(3))],
        3 => seq![PathStep::Add(Slot::Last, Amount::Fixed(4))],
        4 => seq![PathStep::Add(Slot::Last, Amount::Fp(5))],
        5 => seq![PathStep::Push, PathStep::Assign(Slot::Last, Amount::Fixed(0))],
        6 => seq![PathStep::Push, PathStep::Add(Slot::Last, Amount::Fp(0))],
        7 => seq![PathStep::Add(Slot::Last, Amount::Fixed(1)), PathStep::Push, PathStep::Assign(Slot::Last, Amount::Fixed(0))],
        8 => seq![PathStep::Add(Slot::Last, Amount::Fixed(1)), PathStep::Push, PathStep::Assign(Slot::Last, Amount::Fp(0))],
        9 => seq![PathStep::Add(Slot::Last, Amount::Fp(0)), PathStep::Push, PathStep::Assign(Slot::Last, Amount::Fixed(0))],
        10 => seq![PathStep::Add(Slot::Last, Amount::Fp(2)), PathStep::Push, PathStep::Assign(Slot::Last, Amount::Fp(1))],
        11 => seq![PathStep::Add(Slot::Last, Amount::Bits(3, 2)), PathStep::Push, PathStep::Assign(Slot::Last, Amount::Bits(3, 1))],
        12 => seq![PathStep::Add(Slot::Last, Amount::Bits(4, 2)), PathStep::Push, PathStep::Assign(Slot::Last, Amount::Bits(4, 1))],
        13 => seq![PathStep::Push, PathStep::Add(Slot::Last, Amount::Fp(0)), PathStep::Push, PathStep::Add(Slot::Last, Amount::Fp(0))],
        14 => seq![PathStep::Push, PathStep::Assign(Slot::Last, Amount::Bits(5, 0)), PathStep::Push, PathStep::Assign(Slot::Last, Amount::Bits(5, 0))],
        15 => seq![PathStep::Push, PathStep::Add(Slot::Last, Amount::Fp(0)), PathStep::Push, PathStep::Add(Slot::Last, Amount::Fp(0)), PathStep::Push, PathStep::Add(Slot::Last, Amount::Fp(0))],
        16 => seq![PathStep::Push, PathStep::Assign(Slot::Last, Amount::Bits(5, 0)), PathStep::Push, PathStep::Assign(Slot::Last, Amount::Bits(5, 0)), PathStep::Push, PathStep::Assign(Slot::Last, Amount::Bits(5, 0))],
        17 => seq![PathStep::Add(Slot::Last, Amount::Fixed(1)), PathStep::Push, PathStep::Add(Slot::Last, Amount::Fp(0)), PathStep::Push, PathStep::Add(Slot::Last, Amount::Fp(0))],
        18 => seq![PathStep::Add(Slot::Last, Amount::Fixed(1)), PathStep::Push, PathStep::Add(Slot::Last, Amount::Bits(5, 0)), PathStep::Push, PathStep::Add(Slot::Last, Amount::Bits(5, 0))],
        19 => seq![PathStep::Add(Slot::Last, Amount::Fixed(1)), PathStep::Push, PathStep::Add(Slot::Last, Amount::Fp(0)), PathStep::Push, PathStep::Add(Slot::Last, Amount::Fp(0)), PathStep::Push, PathStep::Add(Slot::Last, Amount::Fp(0))],
        20 => seq![PathStep::Add(Slot::Last, Amount::Fixed(1)), PathStep::Push, PathStep::Add(Slot::Last, Amount::Bits(5, 0)), PathStep::Push, PathStep::Add(Slot::Last, Amount::Bits(5, 0)), PathStep::Push, PathStep::Add(Slot::Last, Amount::Bits(5, 0))],
        21 => seq![PathStep::Add(Slot::Last, Amount::UBitVar(2)), PathStep::Push, PathStep::Add(Slot::Last, Amount::Fp(0)), PathStep::Push, PathStep::Add(Slot::Last, Amount::Fp(0))],
        22 => seq![PathStep::Add(Slot::Last, Amount::UBitVar(2)), PathStep::Push, PathStep::Add(Slot::Last, Amount::Bits(5, 0)), PathStep::Push, PathStep::Add(Slot::Last, Amount::Bits(5, 0))],
        23 => seq![PathStep::Add(Slot::Last, Amount::UBitVar(2)), PathStep::Push, PathStep::Add(Slot::Last, Amount::Fp(0)), PathStep::Push, PathStep::Add(Slot::Last, Amount::Fp(0)), PathStep::Push, PathStep::Add(Slot::Last, Amount::Fp(0))],
        24 => seq![PathStep::Add(Slot::Last, Amount::UBitVar(2)), PathStep::Push, PathStep::Add(Slot::Last, Amount::Bits(5, 0)), PathStep::Push, PathStep::Add(Slot::Last, Amount::Bits(5, 0)), PathStep::Push, PathStep::Add(Slot::Last, Amount::Bits(5, 0))],
        25 => seq![PathStep::PushN],
        26 => seq![PathStep::NonTopo(Amount::Varint32(1)), PathStep::PushCounted],
        27 => seq![PathStep::Pop(PopCount::One), PathStep::Add(Slot::Last, Amount::Fixed(1))],
        28 => seq![PathStep::Pop(PopCount::One), PathStep::Add(Slot::Last, Amount::Fp(1))],
        29 => seq![PathStep::Pop(PopCount::AllButOne), PathStep::Add(Slot::First, Amount::Fixed(1))],
        30 => seq![PathStep::Pop(PopCount::AllButOne), PathStep::Add(Slot::First, Amount::Fp(1))],
        31 => seq![PathStep::Pop(PopCount::AllButOne), PathStep::Add(Slot::First, Amount::Bits(3, 1))],
        32 => seq![PathStep::Pop(PopCount::AllButOne), PathStep::Add(Slot::First, Amount::Bits(6, 1))],
        33 => seq![PathStep::Pop(PopCount::Read), PathStep::Add(Slot::Last, Amount::Fixed(1))],
        34 => seq![PathStep::Pop(PopCount::Read), PathStep::Add(Slot::Last, Amount::Varint32(0))],
        35 => seq![PathStep::Pop(PopCount::Read), PathStep::NonTopo(Amount::Varint32(0))],
        36 => seq![PathStep::NonTopo(Amount::Varint32(0))],
        37 => seq![PathStep::Add(Slot::Penultimate, Amount::Fixed(1))],
        38 => seq![PathStep::NonTopo(Amount::Bits(4, -7i32))],
        _ => Seq::empty(),
    }
}

/// What operation `opcode` does to the state: its steps in order, or for an
/// opcode above 38 an error with nothing changed.
pub open spec fn op_result(opcode: u8, s: PathState) -> PathOutcome {
    if opcode <= 38 {
        sp_run(s, op_program(opcode), 0)
    } else {
        (Err(DemoParserError::UnknownPathOP), s)
    }
}

/// Operations 27 and 28 go up exactly one level and then move along it: on
/// a path whose current level is 1 to 6, the level drops by one, the entry
/// of the level left becomes zero, the entry of the new level grows by one
/// (27) or by the field-path index read plus one (28), and every other entry
/// stays as it was.
pub proof fn law_pop_one_then_advance(opcode: u8, s: PathState)
    requires
        opcode == 27 || opcode == 28,
        s.path.len() == 7,
        1 <= s.last < 7,
    ensures
        ({
            let (r, s2) = op_result(opcode, s);
            let (idx, rest) = sp_ubit_var_fp(s.bits);
            let step: Result<i32, DemoParserError> = if opcode == 27 {
                Ok(1i32)
            } else {
                match idx {
                    Ok(v) => Ok((v as i32).wrapping_add(1)),
                    Err(e) => Err(e),
                }
            };
            &&& s2.last == s.last - 1
            &&& match step {
                Ok(d) => {
                    &&& r is Ok
                    &&& s2.bits == (if opcode == 27 { s.bits } else { rest })
                    &&& s2.path.len() == 7
                    &&& s2.path[s.last as int] == 0
                    &&& s2.path[s.last - 1] == s.path[s.last - 1].wrapping_add(d)
                    &&& forall|j: int| 0 <= j < 7 && j != s.last && j != s.last - 1 ==> s2.path[j] == s.path[j]
                },
                Err(e) => r == Err::<(), DemoParserError>(e),
            }
        }),
{
    lemma_pop_within_path(s.path, s.last, 1);
    reveal_with_fuel(sp_run, 3);
}

/// Operations 29 to 32 go back to the outermost level and move along it:
/// on a path whose current level is 0 to 6, the level becomes 0, the entries
/// of the levels left become zero, the first entry grows by one (29), by the
/// field-path index read plus one (30), or by a 3-bit (31) or 6-bit (32)
/// number read plus one, and the entries past the current level stay as
/// they were.
#[verifier::rlimit(40)]
pub proof fn law_pop_all_but_one_then_advance(opcode: u8, s: PathState)
    requires
        29 <= opcode <= 32,
        s.path.len() == 7,
        s.last < 7,
    ensures
        ({
            let (r, s2) = op_result(opcode, s);
            let (read, rest) = if opcode == 30 {
                sp_ubit_var_fp(s.bits)
            } else if opcode == 31 {
                sp_nbits(s.bits, 3)
            } else {
                sp_nbits(s.bits, 6)
            };
            let step: Result<i32, DemoParserError> = if opcode == 29 {
                Ok(1i32)
            } else {
                match read {
                    Ok(v) => Ok((v as i32).wrapping_add(1)),
                    Err(e) => Err(e),
                }
            };
            &&& s2.last == 0
            &&& match step {
                Ok(d) => {
                    &&& r is Ok
                    &&& s2.bits == (if opcode == 29 { s.bits } else { rest })
                    &&& s2.path.len() == 7
                    &&& s2.path[0] == s.path[0].wrapping_add(d)
                    &&& forall|j: int| 0 < j <= s.last ==> s2.path[j] == 0
                    &&& forall|j: int| s.last < j < 7 ==> s2.path[j] == s.path[j]
                },
                Err(e) => r == Err::<(), DemoParserError>(e),
            }
        }),
{
    lemma_pop_within_path(s.path, s.last, s.last as nat);
    reveal_with_fuel(sp_run, 3);
}

/// Operations 0 to 4 stay at the current level and move along it: the
/// entry of the current level grows by 1, 2, 3 or 4 (operations 0 to 3) or
/// by the field-path index read plus 5 (operation 4); the level and every
/// other entry stay as they were.
pub proof fn law_advance_at_level(opcode: u8, s: PathState)
    requires
        opcode <= 4,
        s.path.len() == 7,
        s.last < 7,
    ensures
        ({
            let (r, s2) = op_result(opcode, s);
            let (idx, rest) = sp_ubit_var_fp(s.bits);
            let step: Result<i32, DemoParserError> = if opcode < 4 {
                Ok((opcode + 1) as i32)
            } else {
                match idx {
                    Ok(v) => Ok((v as i32).wrapping_add(5)),
                    Err(e) => Err(e),
                }
            };
            &&& s2.last == s.last
            &&& match step {
                Ok(d) => {
                    &&& r is Ok
                    &&& s2.bits == (if opcode < 4 { s.bits } else { rest })
                    &&& s2.path == s.path.update(s.last as int, s.path[s.last as int].wrapping_add(d))
                },
                Err(e) => r == Err::<(), DemoParserError>(e) && s2.path == s.path,
            }
        }),
{
    reveal_with_fuel(sp_run, 2);
}

/// Operation 37 moves along the level above the current one: on a path
/// whose current level is 1 to 6, that entry grows by one and nothing else
/// changes.
pub proof fn law_advance_penultimate(s: PathState)
    requires
        s.path.len() == 7,
        1 <= s.last < 7,
    ensures
        op_result(37, s) == (
            Ok::<(), DemoParserError>(()),
            PathState {
                bits: s.bits,
                path: s.path.update(s.last - 1, s.path[s.last - 1].wrapping_add(1)),
                last: s.last,
            },
        ),
{
    reveal_with_fuel(sp_run, 2);
}

/// Operations 5 to 8 go one level deeper: the level grows by one, and the
/// entry of the new level becomes 0 (5 and 7), grows by the field-path index
/// read (6), or becomes that index (8); operations 7 and 8 first move along
/// the current level by one. Every other entry stays as it was.
#[verifier::rlimit(40)]
pub proof fn law_push_one(opcode: u8, s: PathState)
    requires
        5 <= opcode <= 8,
        s.path.len() == 7,
        s.last < 6,
    ensures
        ({
            let (r, s2) = op_result(opcode, s);
            let (idx, rest) = sp_ubit_var_fp(s.bits);
            let l = s.last as int;
            let moved = if opcode >= 7 { s.path.update(l, s.path[l].wrapping_add(1)) } else { s.path };
            &&& s2.last == s.last + 1
            &&& if opcode == 5 || opcode == 7 {
                &&& r is Ok
                &&& s2.bits == s.bits
                &&& s2.path == moved.update(l + 1, 0)
            } else {
                match idx {
                    Ok(v) => {
                        &&& r is Ok
                        &&& s2.bits == rest
                        &&& s2.path == moved.update(
                            l + 1,
                            if opcode == 6 { s.path[l + 1].wrapping_add(v as i32) } else { v as i32 },
                        )
                    },
                    Err(e) => r == Err::<(), DemoParserError>(e),
                }
            }
        }),
{
    reveal_with_fuel(sp_run, 4);
}

/// Operations 9 to 12 move along the current level by a number read (the
/// field-path index for 9 and 10, 3 bits for 11, 4 bits for 12) plus 0 (9)
/// or 2 (10 to 12), then go one level deeper, where the entry becomes 0 (9)
/// or a second number read, of the same kind, plus one (10 to 12). Every
/// other entry stays as it was.
#[verifier::rlimit(40)]
pub proof fn law_advance_then_push(opcode: u8, s: PathState)
    requires
        9 <= opcode <= 12,
        s.path.len() == 7,
        s.last < 6,
    ensures
        ({
            let (r, s2) = op_result(opcode, s);
            let (r1, b1) = if opcode <= 10 {
                sp_ubit_var_fp(s.bits)
            } else if opcode == 11 {
                sp_nbits(s.bits, 3)
            } else {
                sp_nbits(s.bits, 4)
            };
            let (r2, b2) = if opcode == 10 {
                sp_ubit_var_fp(b1)
            } else if opcode == 11 {
                sp_nbits(b1, 3)
            } else {
                sp_nbits(b1, 4)
            };
            let l = s.last as int;
            match r1 {
                Err(e) => r == Err::<(), DemoParserError>(e),
                Ok(v1) => {
                    let moved = s.path.update(l, s.path[l].wrapping_add((v1 as i32).wrapping_add(if opcode == 9 { 0i32 } else { 2i32 })));
                    &&& s2.last == s.last + 1
                    &&& if opcode == 9 {
                        &&& r is Ok
                        &&& s2.bits == b1
                        &&& s2.path == moved.update(l + 1, 0)
                    } else {
                        match r2 {
                            Err(e) => r == Err::<(), DemoParserError>(e),
                            Ok(v2) => {
                                &&& r is Ok
                                &&& s2.bits == b2
                                &&& s2.path == moved.update(l + 1, (v2 as i32).wrapping_add(1))
                            },
                        }
                    }
                },
            }
        }),
{
    reveal_with_fuel(sp_run, 4);
    if opcode == 9 {
        assert(op_result(opcode, s) == sp_run(s, op_program(9), 0));
    } else if opcode == 10 {
        assert(op_result(opcode, s) == sp_run(s, op_program(10), 0));
    } else if opcode == 11 {
        assert(op_result(opcode, s) == sp_run(s, op_program(11), 0));
    } else {
        assert(op_result(opcode, s) == sp_run(s, op_program(12), 0));
    }
}

/// Operations 33 and 34 go up by a number of levels read from the stream
/// and then move along the level reached, by one (33) or by a signed varint
/// read next (34): where that number is at most the current level, the level
/// drops by it, the entries of the levels left become zero, the entry of the
/// level reached grows by the step, and the others stay as they were.
#[verifier::rlimit(40)]
pub proof fn law_pop_n_then_advance(opcode: u8, s: PathState)
    requires
        opcode == 33 || opcode == 34,
        s.path.len() == 7,
        s.last < 7,
    ensures
        ({
            let (r, s2) = op_result(opcode, s);
            let (count, rest) = sp_ubit_var_fp(s.bits);
            match count {
                Ok(n) => n <= s.last ==> {
                    let l = s.last - n;
                    let (read, rest2) = sp_varint32(rest);
                    let step: Result<i32, DemoParserError> = if opcode == 33 {
                        Ok(1i32)
                    } else {
                        read
                    };
                    &&& s2.last == l
                    &&& match step {
                        Ok(d) => {
                            &&& r is Ok
                            &&& s2.bits == (if opcode == 33 { rest } else { rest2 })
                            &&& s2.path.len() == 7
                            &&& s2.path[l] == s.path[l].wrapping_add(d)
                            &&& forall|j: int| l < j <= s.last ==> s2.path[j] == 0
                            &&& forall|j: int| 0 <= j < 7 && (j < l || j > s.last) ==> s2.path[j] == s.path[j]
                        },
                        Err(e) => r == Err::<(), DemoParserError>(e),
                    }
                },
                Err(e) => r == Err::<(), DemoParserError>(e),
            }
        }),
{
    reveal_with_fuel(sp_run, 3);
    let (count, rest) = sp_ubit_var_fp(s.bits);
    if let Ok(n) = count {
        if n <= s.last {
            lemma_pop_within_path(s.path, s.last, n as nat);
        }
    }
}

/// Reads and applies one field-path operation.
#[inline(always)]
pub fn do_op(opcode: u8, bitreader: &mut Bitreader, field_path: &mut FieldPath) -> (res: Result<(), DemoParserError>)
    ensures
        (res, path_state(*final(bitreader), *final(field_path)))
            == op_result(opcode, path_state(*old(bitreader), *old(field_path))),
{
    match opcode {
        0 => plus_one(bitreader, field_path),
        1 => plus_two(bitreader, field_path),
        2 => plus_three(bitreader, field_path),
        3 => plus_four(bitreader, field_path),
        4 => plus_n(bitreader, field_path),
        5 => push_one_left_delta_zero_right_zero(bitreader, field_path),
        6 => push_one_left_delta_zero_right_non_zero(bitreader, field_path),
        7 => push_one_left_delta_one_right_zero(bitreader, field_path),
        8 => push_one_left_delta_one_right_non_zero(bitreader, field_path),
        9 => push_one_left_delta_n_right_zero(bitreader, field_path),
        10 => push_one_left_delta_n_right_non_zero(bitreader, field_path),
        11 => push_one_left_delta_n_right_non_zero_pack6_bits(bitreader, field_path),
        12 => push_one_left_delta_n_right_non_zero_pack8_bits(bitreader, field_path),
        13 => push_two_left_delta_zero(bitreader, field_path),
        14 => push_two_pack5_left_delta_zero(bitreader, field_path),
        15 => push_three_left_delta_zero(bitreader, field_path),
        16 => push_three_pack5_left_delta_zero(bitreader, field_path),
        17 => push_two_left_delta_one(bitreader, field_path),
        18 => push_two_pack5_left_delta_one(bitreader, field_path),
        19 => push_three_left_delta_one(bitreader, field_path),
        20 => push_three_pack5_left_delta_one(bitreader, field_path),
        21 => push_two_left_delta_n(bitreader, field_path),
        22 => push_two_pack5_left_delta_n(bitreader, field_path),
        23 => push_three_left_delta_n(bitreader, field_path),
        24 => push_three_pack5_left_delta_n(bitreader, field_path),
        25 => push_n(bitreader, field_path),
        26 => push_n_and_non_topological(bitreader, field_path),
        27 => pop_one_plus_one(bitreader, field_path),
        28 => pop_one_plus_n(bitreader, field_path),
        29 => pop_all_but_one_plus_one(bitreader, field_path),
        30 => pop_all_but_one_plus_n(bitreader, field_path),
        31 => pop_all_but_one_plus_n_pack3_bits(bitreader, field_path),
        32 => pop_all_but_one_plus_n_pack6_bits(bitreader, field_path),
        33 => pop_n_plus_one(bitreader, field_path),
        34 => pop_n_plus_n(bitreader, field_path),
        35 => pop_n_and_non_topographical(bitreader, field_path),
        36 => non_topo_complex(bitreader, field_path),
        37 => non_topo_penultimate_plus_one(bitreader, field_path),
        38 => non_topo_complex_pack4_bits(bitreader, field_path),
        _ => Err(DemoParserError::UnknownPathOP),
    }
}

fn plus_one(bitreader: &mut Bitreader, field_path: &mut FieldPath) -> (res: Result<(), DemoParserError>)
    ensures
        (res, path_state(*final(bitreader), *final(field_path)))
            == op_result(0, path_state(*old(bitreader), *old(field_path))),
{
    proof {
        reveal_with_fuel(sp_run, 2);
    }
    exec_step(bitreader, field_path, PathStep::Add(Slot::Last, Amount::Fixed(1)))
}

fn plus_two(bitreader: &mut Bitreader, field_path: &mut FieldPath) -> (res: Result<(), DemoParserError>)
    ensures
        (res, path_state(*final(bitreader), *final(field_path)))
            == op_result(1, path_state(*old(bitreader), *old(field_path))),
{
    proof {
        reveal_with_fuel(sp_run, 2);
    }
    exec_step(bitreader, field_path, PathStep::Add(Slot::Last, Amount::Fixed(2)))
}

fn plus_three(bitreader: &mut Bitreader, field_path: &mut FieldPath) -> (res: Result<(), DemoParserError>)
    ensures
        (res, path_state(*final(bitreader), *final(field_path)))
            == op_result(2, path_state(*old(bitreader), *old(field_path))),
{
    proof {
        reveal_with_fuel(sp_run, 2);
    }
    exec_step(bitreader, field_path, PathStep::Add(Slot::Last, Amount::Fixed(3)))
}

fn plus_four(bitreader: &mut Bitreader, field_path: &mut FieldPath) -> (res: Result<(), DemoParserError>)
    ensures
        (res, path_state(*final(bitreader), *final(field_path)))
            == op_result(3, path_state(*old(bitreader), *old(field_path))),
{
    proof {
        reveal_with_fuel(sp_run, 2);
    }
    exec_step(bitreader, field_path, PathStep::Add(Slot::Last, Amount::Fixed(4)))
}

fn plus_n(bitreader: &mut Bitreader, field_path: &mut FieldPath) -> (res: Result<(), DemoParserError>)
    ensures
        (res, path_state(*final(bitreader), *final(field_path)))
            == op_result(4, path_state(*old(bitreader), *old(field_path))),
{
    proof {
        reveal_with_fuel(sp_run, 2);
    }
    exec_step(bitreader, field_path, PathStep::Add(Slot::Last, Amount::Fp(5)))
}

fn push_one_left_delta_zero_right_zero(bitreader: &mut Bitreader, field_path: &mut FieldPath) -> (res: Result<(), DemoParserError>)
    ensures
        (res, path_state(*final(bitreader), *final(field_path)))
            == op_result(5, path_state(*old(bitreader), *old(field_path))),
{
    proof {
        reveal_with_fuel(sp_run, 3);
    }
    exec_step(bitreader, field_path, PathStep::Push)?;
    exec_step(bitreader, field_path, PathStep::Assign(Slot::Last, Amount::Fixed(0)))
}

fn push_one_left_delta_zero_right_non_zero(bitreader: &mut Bitreader, field_path: &mut FieldPath) -> (res: Result<(), DemoParserError>)
    ensures
        (res, path_state(*final(bitreader), *final(field_path)))
            == op_result(6, path_state(*old(bitreader), *old(field_path))),
{
    proof {
        reveal_with_fuel(sp_run, 3);
    }
    exec_step(bitreader, field_path, PathStep::Push)?;
    exec_step(bitreader, field_path, PathStep::Add(Slot::Last, Amount::Fp(0)))
}

fn push_one_left_delta_one_right_zero(bitreader: &mut Bitreader, field_path: &mut FieldPath) -> (res: Result<(), DemoParserError>)
    ensures
        (res, path_state(*final(bitreader), *final(field_path)))
            == op_result(7, path_state(*old(bitreader), *old(field_path))),
{
    proof {
        reveal_with_fuel(sp_run, 4);
    }
    exec_step(bitreader, field_path, PathStep::Add(Slot::Last, Amount::Fixed(1)))?;
    exec_step(bitreader, field_path, PathStep::Push)?;
    exec_step(bitreader, field_path, PathStep::Assign(Slot::Last, Amount::Fixed(0)))
}

fn push_one_left_delta_one_right_non_zero(bitreader: &mut Bitreader, field_path: &mut FieldPath) -> (res: Result<(), DemoParserError>)
    ensures
        (res, path_state(*final(bitreader), *final(field_path)))
            == op_result(8, path_state(*old(bitreader), *old(field_path))),
{
    proof {
        reveal_with_fuel(sp_run, 4);
    }
    exec_step(bitreader, field_path, PathStep::Add(Slot::Last, Amount::Fixed(1)))?;
    exec_step(bitreader, field_path, PathStep::Push)?;
    exec_step(bitreader, field_path, PathStep::Assign(Slot::Last, Amount::Fp(0)))
}

fn push_one_left_delta_n_right_zero(bitreader: &mut Bitreader, field_path: &mut FieldPath) -> (res: Result<(), DemoParserError>)
    ensures
        (res, path_state(*final(bitreader), *final(field_path)))
            == op_result(9, path_state(*old(bitreader), *old(field_path))),
{
    proof {
        reveal_with_fuel(sp_run, 4);
    }
    exec_step(bitreader, field_path, PathStep::Add(Slot::Last, Amount::Fp(0)))?;
    exec_step(bitreader, field_path, PathStep::Push)?;
    exec_step(bitreader, field_path, PathStep::Assign(Slot::Last, Amount::Fixed(0)))
}

fn push_one_left_delta_n_right_non_zero(bitreader: &mut Bitreader, field_path: &mut FieldPath) -> (res: Result<(), DemoParserError>)
    ensures
        (res, path_state(*final(bitreader), *final(field_path)))
            == op_result(10, path_state(*old(bitreader), *old(field_path))),
{
    proof {
        reveal_with_fuel(sp_run, 4);
    }
    exec_step(bitreader, field_path, PathStep::Add(Slot::Last, Amount::Fp(2)))?;
    exec_step(bitreader, field_path, PathStep::Push)?;
    exec_step(bitreader, field_path, PathStep::Assign(Slot::Last, Amount::Fp(1)))
}

fn push_one_left_delta_n_right_non_zero_pack6_bits(bitreader: &mut Bitreader, field_path: &mut FieldPath) -> (res: Result<(), DemoParserError>)
    ensures
        (res, path_state(*final(bitreader), *final(field_path)))
            == op_result(11, path_state(*old(bitreader), *old(field_path))),
{
    proof {
        reveal_with_fuel(sp_run, 4);
    }
    exec_step(bitreader, field_path, PathStep::Add(Slot::Last, Amount::Bits(3, 2)))?;
    exec_step(bitreader, field_path, PathStep::Push)?;
    exec_step(bitreader, field_path, PathStep::Assign(Slot::Last, Amount::Bits(3, 1)))
}

fn push_one_left_delta_n_right_non_zero_pack8_bits(bitreader: &mut Bitreader, field_path: &mut FieldPath) -> (res: Result<(), DemoParserError>)
    ensures
        (res, path_state(*final(bitreader), *final(field_path)))
            == op_result(12, path_state(*old(bitreader), *old(field_path))),
{
    proof {
        reveal_with_fuel(sp_run, 4);
    }
    exec_step(bitreader, field_path, PathStep::Add(Slot::Last, Amount::Bits(4, 2)))?;
    exec_step(bitreader, field_path, PathStep::Push)?;
    exec_step(bitreader, field_path, PathStep::Assign(Slot::Last, Amount::Bits(4, 1)))
}

fn push_two_left_delta_zero(bitreader: &mut Bitreader, field_path: &mut FieldPath) -> (res: Result<(), DemoParserError>)
    ensures
        (res, path_state(*final(bitreader), *final(field_path)))
            == op_result(13, path_state(*old(bitreader), *old(field_path))),
{
    proof {
        reveal_with_fuel(sp_run, 5);
    }
    exec_step(bitreader, field_path, PathStep::Push)?;
    exec_step(bitreader, field_path, PathStep::Add(Slot::Last, Amount::Fp(0)))?;
    exec_step(bitreader, field_path, PathStep::Push)?;
    exec_step(bitreader, field_path, PathStep::Add(Slot::Last, Amount::Fp(0)))
}

fn push_two_pack5_left_delta_zero(bitreader: &mut Bitreader, field_path: &mut FieldPath) -> (res: Result<(), DemoParserError>)
    ensures
        (res, path_state(*final(bitreader), *final(field_path)))
            == op_result(14, path_state(*old(bitreader), *old(field_path))),
{
    proof {
        reveal_with_fuel(sp_run, 5);
    }
    exec_step(bitreader, field_path, PathStep::Push)?;
    exec_step(bitreader, field_path, PathStep::Assign(Slot::Last, Amount::Bits(5, 0)))?;
    exec_step(bitreader, field_path, PathStep::Push)?;
    exec_step(bitreader, field_path, PathStep::Assign(Slot::Last, Amount::Bits(5, 0)))
}

#[verifier::rlimit(40)]
fn push_three_left_delta_zero(bitreader: &mut Bitreader, field_path: &mut FieldPath) -> (res: Result<(), DemoParserError>)
    ensures
        (res, path_state(*final(bitreader), *final(field_path)))
            == op_result(15, path_state(*old(bitreader), *old(field_path))),
{
    proof {
        reveal_with_fuel(sp_run, 7);
    }
    exec_step(bitreader, field_path, PathStep::Push)?;
    exec_step(bitreader, field_path, PathStep::Add(Slot::Last, Amount::Fp(0)))?;
    exec_step(bitreader, field_path, PathStep::Push)?;
    exec_step(bitreader, field_path, PathStep::Add(Slot::Last, Amount::Fp(0)))?;
    exec_step(bitreader, field_path, PathStep::Push)?;
    exec_step(bitreader, field_path, PathStep::Add(Slot::Last, Amount::Fp(0)))
}

#[verifier::rlimit(40)]
fn push_three_pack5_left_delta_zero(bitreader: &mut Bitreader, field_path: &mut FieldPath) -> (res: Result<(), DemoParserError>)
    ensures
        (res, path_state(*final(bitreader), *final(field_path)))
            == op_result(16, path_state(*old(bitreader), *old(field_path))),
{
    proof {
        reveal_with_fuel(sp_run, 7);
    }
    exec_step(bitreader, field_path, PathStep::Push)?;
    exec_step(bitreader, field_path, PathStep::Assign(Slot::Last, Amount::Bits(5, 0)))?;
    exec_step(bitreader, field_path, PathStep::Push)?;
    exec_step(bitreader, field_path, PathStep::Assign(Slot::Last, Amount::Bits(5, 0)))?;
    exec_step(bitreader, field_path, PathStep::Push)?;
    exec_step(bitreader, field_path, PathStep::Assign(Slot::Last, Amount::Bits(5, 0)))
}

#[verifier::rlimit(40)]
fn push_two_left_delta_one(bitreader: &mut Bitreader, field_path: &mut FieldPath) -> (res: Result<(), DemoParserError>)
    ensures
        (res, path_state(*final(bitreader), *final(field_path)))
            == op_result(17, path_state(*old(bitreader), *old(field_path))),
{
    proof {
        reveal_with_fuel(sp_run, 6);
    }
    exec_step(bitreader, field_path, PathStep::Add(Slot::Last, Amount::Fixed(1)))?;
    exec_step(bitreader, field_path, PathStep::Push)?;
    exec_step(bitreader, field_path, PathStep::Add(Slot::Last, Amount::Fp(0)))?;
    exec_step(bitreader, field_path, PathStep::Push)?;
    exec_step(bitreader, field_path, PathStep::Add(Slot::Last, Amount::Fp(0)))
}

#[verifier::rlimit(40)]
fn push_two_pack5_left_delta_one(bitreader: &mut Bitreader, field_path: &mut FieldPath) -> (res: Result<(), DemoParserError>)
    ensures
        (res, path_state(*final(bitreader), *final(field_path)))
            == op_result(18, path_state(*old(bitreader), *old(field_path))),
{
    proof {
        reveal_with_fuel(sp_run, 6);
    }
    exec_step(bitreader, field_path, PathStep::Add(Slot::Last, Amount::Fixed(1)))?;
    exec_step(bitreader, field_path, PathStep::Push)?;
    exec_step(bitreader, field_path, PathStep::Add(Slot::Last, Amount::Bits(5, 0)))?;
    exec_step(bitreader, field_path, PathStep::Push)?;
    exec_step(bitreader, field_path, PathStep::Add(Slot::Last, Amount::Bits(5, 0)))
}

#[verifier::rlimit(40)]
fn push_three_left_delta_one(bitreader: &mut Bitreader, field_path: &mut FieldPath) -> (res: Result<(), DemoParserError>)
    ensures
        (res, path_state(*final(bitreader), *final(field_path)))
            == op_result(19, path_state(*old(bitreader), *old(field_path))),
{
    proof {
        reveal_with_fuel(sp_run, 8);
    }
    exec_step(bitreader, field_path, PathStep::Add(Slot::Last, Amount::Fixed(1)))?;
    exec_step(bitreader, field_path, PathStep::Push)?;
    exec_step(bitreader, field_path, PathStep::Add(Slot::Last, Amount::Fp(0)))?;
    exec_step(bitreader, field_path, PathStep::Push)?;
    exec_step(bitreader, field_path, PathStep::Add(Slot::Last, Amount::Fp(0)))?;
    exec_step(bitreader, field_path, PathStep::Push)?;
    exec_step(bitreader, field_path, PathStep::Add(Slot::Last, Amount::Fp(0)))
}

#[verifier::rlimit(40)]
fn push_three_pack5_left_delta_one(bitreader: &mut Bitreader, field_path: &mut FieldPath) -> (res: Result<(), DemoParserError>)
    ensures
        (res, path_state(*final(bitreader), *final(field_path)))
            == op_result(20, path_state(*old(bitreader), *old(field_path))),
{
    proof {
        reveal_with_fuel(sp_run, 8);
    }
    exec_step(bitreader, field_path, PathStep::Add(Slot::Last, Amount::Fixed(1)))?;
    exec_step(bitreader, field_path, PathStep::Push)?;
    exec_step(bitreader, field_path, PathStep::Add(Slot::Last, Amount::Bits(5, 0)))?;
    exec_step(bitreader, field_path, PathStep::Push)?;
    exec_step(bitreader, field_path, PathStep::Add(Slot::Last, Amount::Bits(5, 0)))?;
    exec_step(bitreader, field_path, PathStep::Push)?;
    exec_step(bitreader, field_path, PathStep::Add(Slot::Last, Amount::Bits(5, 0)))
}

#[verifier::rlimit(40)]
fn push_two_left_delta_n(bitreader: &mut Bitreader, field_path: &mut FieldPath) -> (res: Result<(), DemoParserError>)
    ensures
        (res, path_state(*final(bitreader), *final(field_path)))
            == op_result(21, path_state(*old(bitreader), *old(field_path))),
{
    proof {
        reveal_with_fuel(sp_run, 6);
    }
    exec_step(bitreader, field_path, PathStep::Add(Slot::Last, Amount::UBitVar(2)))?;
    exec_step(bitreader, field_path, PathStep::Push)?;
    exec_step(bitreader, field_path, PathStep::Add(Slot::Last, Amount::Fp(0)))?;
    exec_step(bitreader, field_path, PathStep::Push)?;
    exec_step(bitreader, field_path, PathStep::Add(Slot::Last, Amount::Fp(0)))
}

#[verifier::rlimit(40)]
fn push_two_pack5_left_delta_n(bitreader: &mut Bitreader, field_path: &mut FieldPath) -> (res: Result<(), DemoParserError>)
    ensures
        (res, path_state(*final(bitreader), *final(field_path)))
            == op_result(22, path_state(*old(bitreader), *old(field_path))),
{
    proof {
        reveal_with_fuel(sp_run, 6);
    }
    exec_step(bitreader, field_path, PathStep::Add(Slot::Last, Amount::UBitVar(2)))?;
    exec_step(bitreader, field_path, PathStep::Push)?;
    exec_step(bitreader, field_path, PathStep::Add(Slot::Last, Amount::Bits(5, 0)))?;
    exec_step(bitreader, field_path, PathStep::Push)?;
    exec_step(bitreader, field_path, PathStep::Add(Slot::Last, Amount::Bits(5, 0)))
}

#[verifier::rlimit(40)]
fn push_three_left_delta_n(bitreader: &mut Bitreader, field_path: &mut FieldPath) -> (res: Result<(), DemoParserError>)
    ensures
        (res, path_state(*final(bitreader), *final(field_path)))
            == op_result(23, path_state(*old(bitreader), *old(field_path))),
{
    proof {
        reveal_with_fuel(sp_run, 8);
    }
    exec_step(bitreader, field_path, PathStep::Add(Slot::Last, Amount::UBitVar(2)))?;
    exec_step(bitreader, field_path, PathStep::Push)?;
    exec_step(bitreader, field_path, PathStep::Add(Slot::Last, Amount::Fp(0)))?;
    exec_step(bitreader, field_path, PathStep::Push)?;
    exec_step(bitreader, field_path, PathStep::Add(Slot::Last, Amount::Fp(0)))?;
    exec_step(bitreader, field_path, PathStep::Push)?;
    exec_step(bitreader, field_path, PathStep::Add(Slot::Last, Amount::Fp(0)))
}

#[verifier::rlimit(40)]
fn push_three_pack5_left_delta_n(bitreader: &mut Bitreader, field_path: &mut FieldPath) -> (res: Result<(), DemoParserError>)
    ensures
        (res, path_state(*final(bitreader), *final(field_path)))
            == op_result(24, path_state(*old(bitreader), *old(field_path))),
{
    proof {
        reveal_with_fuel(sp_run, 8);
    }
    exec_step(bitreader, field_path, PathStep::Add(Slot::Last, Amount::UBitVar(2)))?;
    exec_step(bitreader, field_path, PathStep::Push)?;
    exec_step(bitreader, field_path, PathStep::Add(Slot::Last, Amount::Bits(5, 0)))?;
    exec_step(bitreader, field_path, PathStep::Push)?;
    exec_step(bitreader, field_path, PathStep::Add(Slot::Last, Amount::Bits(5, 0)))?;
    exec_step(bitreader, field_path, PathStep::Push)?;
    exec_step(bitreader, field_path, PathStep::Add(Slot::Last, Amount::Bits(5, 0)))
}

fn push_n(bitreader: &mut Bitreader, field_path: &mut FieldPath) -> (res: Result<(), DemoParserError>)
    ensures
        (res, path_state(*final(bitreader), *final(field_path)))
            == op_result(25, path_state(*old(bitreader), *old(field_path))),
{
    proof {
        reveal_with_fuel(sp_run, 2);
    }
    exec_step(bitreader, field_path, PathStep::PushN)
}

fn push_n_and_non_topological(bitreader: &mut Bitreader, field_path: &mut FieldPath) -> (res: Result<(), DemoParserError>)
    ensures
        (res, path_state(*final(bitreader), *final(field_path)))
            == op_result(26, path_state(*old(bitreader), *old(field_path))),
{
    proof {
        reveal_with_fuel(sp_run, 3);
    }
    exec_step(bitreader, field_path, PathStep::NonTopo(Amount::Varint32(1)))?;
    exec_step(bitreader, field_path, PathStep::PushCounted)
}

fn pop_one_plus_one(bitreader: &mut Bitreader, field_path: &mut FieldPath) -> (res: Result<(), DemoParserError>)
    ensures
        (res, path_state(*final(bitreader), *final(field_path)))
            == op_result(27, path_state(*old(bitreader), *old(field_path))),
{
    proof {
        reveal_with_fuel(sp_run, 3);
    }
    exec_step(bitreader, field_path, PathStep::Pop(PopCount::One))?;
    exec_step(bitreader, field_path, PathStep::Add(Slot::Last, Amount::Fixed(1)))
}

fn pop_one_plus_n(bitreader: &mut Bitreader, field_path: &mut FieldPath) -> (res: Result<(), DemoParserError>)
    ensures
        (res, path_state(*final(bitreader), *final(field_path)))
            == op_result(28, path_state(*old(bitreader), *old(field_path))),
{
    proof {
        reveal_with_fuel(sp_run, 3);
    }
    exec_step(bitreader, field_path, PathStep::Pop(PopCount::One))?;
    exec_step(bitreader, field_path, PathStep::Add(Slot::Last, Amount::Fp(1)))
}

fn pop_all_but_one_plus_one(bitreader: &mut Bitreader, field_path: &mut FieldPath) -> (res: Result<(), DemoParserError>)
    ensures
        (res, path_state(*final(bitreader), *final(field_path)))
            == op_result(29, path_state(*old(bitreader), *old(field_path))),
{
    proof {
        reveal_with_fuel(sp_run, 3);
    }
    exec_step(bitreader, field_path, PathStep::Pop(PopCount::AllButOne))?;
    exec_step(bitreader, field_path, PathStep::Add(Slot::First, Amount::Fixed(1)))
}

fn pop_all_but_one_plus_n(bitreader: &mut Bitreader, field_path: &mut FieldPath) -> (res: Result<(), DemoParserError>)
    ensures
        (res, path_state(*final(bitreader), *final(field_path)))
            == op_result(30, path_state(*old(bitreader), *old(field_path))),
{
    proof {
        reveal_with_fuel(sp_run, 3);
    }
    exec_step(bitreader, field_path, PathStep::Pop(PopCount::AllButOne))?;
    exec_step(bitreader, field_path, PathStep::Add(Slot::First, Amount::Fp(1)))
}

fn pop_all_but_one_plus_n_pack3_bits(bitreader: &mut Bitreader, field_path: &mut FieldPath) -> (res: Result<(), DemoParserError>)
    ensures
        (res, path_state(*final(bitreader), *final(field_path)))
            == op_result(31, path_state(*old(bitreader), *old(field_path))),
{
    proof {
        reveal_with_fuel(sp_run, 3);
    }
    exec_step(bitreader, field_path, PathStep::Pop(PopCount::AllButOne))?;
    exec_step(bitreader, field_path, PathStep::Add(Slot::First, Amount::Bits(3, 1)))
}

fn pop_all_but_one_plus_n_pack6_bits(bitreader: &mut Bitreader, field_path: &mut FieldPath) -> (res: Result<(), DemoParserError>)
    ensures
        (res, path_state(*final(bitreader), *final(field_path)))
            == op_result(32, path_state(*old(bitreader), *old(field_path))),
{
    proof {
        reveal_with_fuel(sp_run, 3);
    }
    exec_step(bitreader, field_path, PathStep::Pop(PopCount::AllButOne))?;
    exec_step(bitreader, field_path, PathStep::Add(Slot::First, Amount::Bits(6, 1)))
}

fn pop_n_plus_one(bitreader: &mut Bitreader, field_path: &mut FieldPath) -> (res: Result<(), DemoParserError>)
    ensures
        (res, path_state(*final(bitreader), *final(field_path)))
            == op_result(33, path_state(*old(bitreader), *old(field_path))),
{
    proof {
        reveal_with_fuel(sp_run, 3);
    }
    exec_step(bitreader, field_path, PathStep::Pop(PopCount::Read))?;
    exec_step(bitreader, field_path, PathStep::Add(Slot::Last, Amount::Fixed(1)))
}

fn pop_n_plus_n(bitreader: &mut Bitreader, field_path: &mut FieldPath) -> (res: Result<(), DemoParserError>)
    ensures
        (res, path_state(*final(bitreader), *final(field_path)))
            == op_result(34, path_state(*old(bitreader), *old(field_path))),
{
    proof {
        reveal_with_fuel(sp_run, 3);
    }
    exec_step(bitreader, field_path, PathStep::Pop(PopCount::Read))?;
    exec_step(bitreader, field_path, PathStep::Add(Slot::Last, Amount::Varint32(0)))
}

fn pop_n_and_non_topographical(bitreader: &mut Bitreader, field_path: &mut FieldPath) -> (res: Result<(), DemoParserError>)
    ensures
        (res, path_state(*final(bitreader), *final(field_path)))
            == op_result(35, path_state(*old(bitreader), *old(field_path))),
{
    proof {
        reveal_with_fuel(sp_run, 3);
    }
    exec_step(bitreader, field_path, PathStep::Pop(PopCount::Read))?;
    exec_step(bitreader, field_path, PathStep::NonTopo(Amount::Varint32(0)))
}

fn non_topo_complex(bitreader: &mut Bitreader, field_path: &mut FieldPath) -> (res: Result<(), DemoParserError>)
    ensures
        (res, path_state(*final(bitreader), *final(field_path)))
            == op_result(36, path_state(*old(bitreader), *old(field_path))),
{
    proof {
        reveal_with_fuel(sp_run, 2);
    }
    exec_step(bitreader, field_path, PathStep::NonTopo(Amount::Varint32(0)))
}

fn non_topo_penultimate_plus_one(bitreader: &mut Bitreader, field_path: &mut FieldPath) -> (res: Result<(), DemoParserError>)
    ensures
        (res, path_state(*final(bitreader), *final(field_path)))
            == op_result(37, path_state(*old(bitreader), *old(field_path))),
{
    proof {
        reveal_with_fuel(sp_run, 2);
    }
    exec_step(bitreader, field_path, PathStep::Add(Slot::Penultimate, Amount::Fixed(1)))
}

fn non_topo_complex_pack4_bits(bitreader: &mut Bitreader, field_path: &mut FieldPath) -> (res: Result<(), DemoParserError>)
    ensures
        (res, path_state(*final(bitreader), *final(field_path)))
            == op_result(38, path_state(*old(bitreader), *old(field_path))),
{
    proof {
        reveal_with_fuel(sp_run, 2);
    }
    exec_step(bitreader, field_path, PathStep::NonTopo(Amount::Bits(4, -7)))
}

/// Carries out one step.
fn exec_step(bitreader: &mut Bitreader, field_path: &mut FieldPath, st: PathStep) -> (res: Result<(), DemoParserError>)
    requires
        step_ok(st),
    ensures
        (res, path_state(*final(bitreader), *final(field_path)))
            == sp_step(path_state(*old(bitreader), *old(field_path)), st),
{
    match st {
        PathStep::Add(slot, a) => {
            let idx = slot_idx(field_path.last, slot);
            write_at(bitreader, field_path, idx, a, true)
        },
        PathStep::Assign(slot, a) => {
            let idx = slot_idx(field_path.last, slot);
            write_at(bitreader, field_path, idx, a, false)
        },
        PathStep::Push => {
            field_path.last = field_path.last.wrapping_add(1);
            Ok(())
        },
        PathStep::Pop(PopCount::One) => field_path.pop_special(1),
        PathStep::Pop(PopCount::AllButOne) => {
            let n = field_path.last;
            field_path.pop_special(n)
        },
        PathStep::Pop(PopCount::Read) => {
            let n = bitreader.read_ubit_var_fp()?;
            field_path.pop_special(n as usize)
        },
        PathStep::PushN => {
            let n = #[verifier::truncate] (bitreader.read_u_bit_var()? as i32);
            let last = field_path.last;
            write_at(bitreader, field_path, last, Amount::UBitVar(0), true)?;
            pushes(bitreader, field_path, if n > 0 { n as u64 } else { 0 }, true)
        },
        PathStep::PushCounted => {
            let count = bitreader.read_u_bit_var()?;
            pushes(bitreader, field_path, count as u64, false)
        },
        PathStep::NonTopo(a) => non_topo(bitreader, field_path, a),
    }
}

fn slot_idx(last: usize, slot: Slot) -> (idx: usize)
    ensures
        idx == slot_index(last, slot),
{
    match slot {
        Slot::Last => last,
        Slot::First => 0,
        Slot::Penultimate => last.wrapping_sub(1),
    }
}

} // verus!
