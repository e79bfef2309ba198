//! The virtual machine: operand deduction, opcode checks, register updates and
//! the step loop body.
use crate::builtin_runner::BuiltinRunner;
use crate::errors::{unwrapped, MemoryError, RunnerError, VirtualMachineError};
use crate::felt::Felt;
use crate::instruction::{decode_instruction, decoded_fields, ApUpdate, FpUpdate, Instruction, Opcode, PcUpdate, Res};
use crate::memory::{opt_view, Memory};
use crate::relocatable::{addr_plus, val_add, val_sub, MaybeRelocatable, Relocatable, Val};
use crate::run_context::{offset_addr, RunContext, EXECUTION_SEGMENT};
use crate::segments::MemorySegmentManager;
use std::collections::HashMap;
use vstd::prelude::*;

verus! {

/// The operands of an instruction once read or deduced.
#[derive(Debug, PartialEq)]
pub struct Operands {
    pub dst: MaybeRelocatable,
    pub res: Option<MaybeRelocatable>,
    pub op0: MaybeRelocatable,
    pub op1: MaybeRelocatable,
}

/// The addresses of dst, op0 and op1.
#[derive(Debug, PartialEq, Eq, Structural)]
pub struct OperandsAddresses(pub Relocatable, pub Relocatable, pub Relocatable);

/// Registers before an executed instruction.
#[derive(Clone, Copy, Debug, PartialEq, Eq, Structural)]
pub struct TraceEntry {
    pub pc: Relocatable,
    pub ap: Relocatable,
    pub fp: Relocatable,
}

/// Which ap-tracking group and offset a hint was compiled under.
#[derive(Clone, Copy, Debug, PartialEq, Eq, Structural)]
pub struct ApTracking {
    pub group: usize,
    pub offset: usize,
}

#[derive(Clone, Debug)]
pub struct HintData {
    pub hint_code: String,
    pub ids: HashMap<String, usize>,
    pub ap_tracking_data: ApTracking,
}

impl HintData {
    pub fn new(hint_code: &str, ids: HashMap<String, usize>, ap_tracking_data: ApTracking) -> (r: HintData)
        ensures
            r.hint_code@ == hint_code@,
            r.ids == ids,
            r.ap_tracking_data == ap_tracking_data,
    {
        HintData { hint_code: hint_code.to_string(), ids, ap_tracking_data }
    }
}

/// A message that wraps errors raised at a pc in `[start_pc, end_pc]`.
#[derive(Clone, Debug, PartialEq, Eq)]
pub struct Attribute {
    pub name: String,
    pub start_pc: usize,
    pub end_pc: usize,
    pub value: String,
}

pub open spec fn opt_val(v: Option<&MaybeRelocatable>) -> Option<Val> {
    match v {
        Some(x) => Some(x@),
        None => None,
    }
}

/// `pc` moved past an instruction of `size` words.
pub open spec fn pc_plus(pc: Relocatable, size: usize) -> Option<Relocatable> {
    offset_addr(pc.segment_index, pc.offset as int, size as int)
}

/// `q` is the field quotient `d / o`: `q * o == d (mod p)`, `q < p`.
pub open spec fn is_quotient(q: nat, d: nat, o: nat, p: nat) -> bool {
    q < p && (q * o) % p == d % p
}

pub open spec fn has_inverse(o: nat, p: nat) -> bool {
    exists|x: nat| #[trigger] (o * x) % p == 1nat % p
}

/// The field quotient `d / o` modulo `p`; unique where `o` has an inverse.
pub open spec fn quotient(d: nat, o: nat, p: nat) -> nat {
    choose|q: nat| is_quotient(q, d, o, p)
}

/// What is deduced for op0 (and for res along with it) from dst and op1: the
/// return address for a call, `dst - op1` or `dst / op1` for an assertion.
pub open spec fn op0_table(i: &Instruction, pc: Relocatable, dst: Option<Val>, op1: Option<Val>, p: nat) -> (
    Option<Val>,
    Option<Val>,
) {
    match i.opcode {
        Opcode::Call => (Some(pc_plus(pc, i.spec_size()).unwrap()@), None),
        Opcode::AssertEq => match (i.res, dst, op1) {
            (Res::Add, Some(d), Some(o)) => (val_sub(d, o, p), Some(d)),
            (Res::Mul, Some(Val::Int(d)), Some(Val::Int(o))) => if o != 0 && has_inverse(o, p) {
                (Some(Val::Int(quotient(d, o, p))), Some(Val::Int(d)))
            } else {
                (None, None)
            },
            _ => (None, None),
        },
        _ => (None, None),
    }
}

pub open spec fn op0_deduction(
    i: &Instruction,
    pc: Relocatable,
    dst: Option<Val>,
    op1: Option<Val>,
    p: nat,
    out: (Option<Val>, Option<Val>),
) -> bool {
    out == op0_table(i, pc, dst, op1, p)
}

pub open spec fn op0_deduction_fails(i: &Instruction, pc: Relocatable, dst: Option<Val>, op1: Option<Val>, p: nat) -> bool {
    match i.opcode {
        Opcode::Call => pc_plus(pc, i.spec_size()) is None,
        Opcode::AssertEq => i.res == Res::Add && dst is Some && op1 is Some && val_sub(dst.unwrap(), op1.unwrap(), p) is None,
        _ => false,
    }
}

/// What is deduced for op1 (and for res along with it) from dst and op0:
/// `dst` itself, `dst - op0` or `dst / op0` for an assertion.
pub open spec fn op1_table(i: &Instruction, dst: Option<Val>, op0: Val, p: nat) -> (Option<Val>, Option<Val>) {
    match i.opcode {
        Opcode::AssertEq => match (i.res, dst, op0) {
            (Res::Op1, Some(d), _) => (Some(d), Some(d)),
            (Res::Add, Some(d), o) => (val_sub(d, o, p), Some(d)),
            (Res::Mul, Some(Val::Int(d)), Val::Int(o)) => if o != 0 && has_inverse(o, p) {
                (Some(Val::Int(quotient(d, o, p))), Some(Val::Int(d)))
            } else {
                (None, None)
            },
            _ => (None, None),
        },
        _ => (None, None),
    }
}

pub open spec fn op1_deduction(i: &Instruction, dst: Option<Val>, op0: Val, p: nat, out: (Option<Val>, Option<Val>)) -> bool {
    out == op1_table(i, dst, op0, p)
}

pub open spec fn op1_deduction_fails(i: &Instruction, dst: Option<Val>, op0: Val, p: nat) -> bool {
    i.opcode == Opcode::AssertEq && i.res == Res::Add && dst is Some && val_sub(dst.unwrap(), op0, p) is None
}

/// The result of an instruction from its operands: `Some(None)` when
/// unconstrained, `None` when it cannot be computed.
pub open spec fn res_of(i: &Instruction, op0: Val, op1: Val, p: nat) -> Option<Option<Val>> {
    match i.res {
        Res::Op1 => Some(Some(op1)),
        Res::Add => match val_add(op0, op1, p) {
            Some(v) => Some(Some(v)),
            None => None,
        },
        Res::Mul => match (op0, op1) {
            (Val::Int(a), Val::Int(b)) => Some(Some(Val::Int((a * b) % p))),
            _ => None,
        },
        Res::Unconstrained => Some(None),
    }
}

/// The dst that an instruction writes where memory has none.
pub open spec fn dst_of(i: &Instruction, fp: usize, res: Option<Val>) -> Option<Val> {
    match i.opcode {
        Opcode::AssertEq => res,
        Opcode::Call => Some(Val::Addr(EXECUTION_SEGMENT as int, fp as nat)),
        _ => None,
    }
}

/// The new fp, or `None` where the update fails: an integer dst must be below
/// `2^63` and fit a `usize`.
pub open spec fn fp_after(ctx: RunContext, i: &Instruction, dst: Val) -> Option<usize> {
    match i.fp_update {
        FpUpdate::Regular => Some(ctx.fp),
        FpUpdate::APPlus2 => if ctx.ap + 2 <= usize::MAX {
            Some((ctx.ap + 2) as usize)
        } else {
            None
        },
        FpUpdate::Dst => match dst {
            Val::Addr(_, o) => Some(o as usize),
            Val::Int(n) => if n < 0x8000_0000_0000_0000 && n <= usize::MAX {
                Some(n as usize)
            } else {
                None
            },
        },
    }
}

/// The new ap, or `None` where the update fails.
pub open spec fn ap_after(ctx: RunContext, i: &Instruction, res: Option<Val>, p: nat) -> Option<usize> {
    match i.ap_update {
        ApUpdate::Regular => Some(ctx.ap),
        ApUpdate::Add1 => if ctx.ap + 1 <= usize::MAX {
            Some((ctx.ap + 1) as usize)
        } else {
            None
        },
        ApUpdate::Add2 => if ctx.ap + 2 <= usize::MAX {
            Some((ctx.ap + 2) as usize)
        } else {
            None
        },
        ApUpdate::Add => match res {
            Some(Val::Int(n)) => match addr_plus(EXECUTION_SEGMENT as int, ctx.ap as nat, n, p) {
                Some(Val::Addr(_, o)) => Some(o as usize),
                _ => None,
            },
            _ => None,
        },
    }
}

/// The new pc, or `None` where the update fails. A conditional jump moves past
/// the instruction when dst is zero and by op1 otherwise.
pub open spec fn pc_after(ctx: RunContext, i: &Instruction, dst: Val, op1: Val, res: Option<Val>, p: nat) -> Option<Val> {
    match i.pc_update {
        PcUpdate::Regular => match pc_plus(ctx.pc, i.spec_size()) {
            Some(a) => Some(a@),
            None => None,
        },
        PcUpdate::Jump => match res {
            Some(Val::Addr(s, o)) => Some(Val::Addr(s, o)),
            _ => None,
        },
        PcUpdate::JumpRel => match res {
            Some(Val::Int(n)) => addr_plus(ctx.pc.segment_index as int, ctx.pc.offset as nat, n, p),
            _ => None,
        },
        PcUpdate::Jnz => match dst {
            Val::Int(z) if z == 0 => match pc_plus(ctx.pc, i.spec_size()) {
                Some(a) => Some(a@),
                None => None,
            },
            Val::Int(_) => match op1 {
                Val::Int(n) => addr_plus(ctx.pc.segment_index as int, ctx.pc.offset as nat, n, p),
                _ => None,
            },
            Val::Addr(_, _) => None,
        },
    }
}

/// The addresses of dst, op0 and op1 of `i`, where all are defined; op1's may
/// depend on the value read at op0's.
pub open spec fn op_addrs(m: &Memory, ctx: RunContext, i: &Instruction) -> Option<(Relocatable, Relocatable, Relocatable)> {
    match (ctx.spec_dst_addr(i), ctx.spec_op0_addr(i)) {
        (Some(da), Some(oa)) => match ctx.spec_op1_addr(i, m.value_at(oa)) {
            Some(ia) => Some((da, oa, ia)),
            None => None,
        },
        _ => None,
    }
}

/// op0 with the res deduced along with it: read, or deduced from dst and op1.
pub open spec fn op0_step(m: &Memory, bs: Seq<(String, BuiltinRunner)>, ctx: RunContext, i: &Instruction, p: nat, a: (Relocatable, Relocatable, Relocatable)) -> Option<
    (Val, Option<Val>),
> {
    let d0 = m.value_at(a.0);
    let o1 = m.value_at(a.2);
    match m.value_at(a.1) {
        Some(v) => Some((v, None)),
        None => if builtins_deduce(bs, a.1, m) is None {
            None
        } else if builtins_deduce(bs, a.1, m).unwrap() is Some {
            Some((builtins_deduce(bs, a.1, m).unwrap().unwrap(), None))
        } else if op0_deduction_fails(i, ctx.pc, d0, o1, p) {
            None
        } else {
            match op0_table(i, ctx.pc, d0, o1, p).0 {
                Some(v) => Some((v, op0_table(i, ctx.pc, d0, o1, p).1)),
                None => None,
            }
        },
    }
}

/// op1 with res so far: read, or deduced from dst and op0.
pub open spec fn op1_step(m: &Memory, bs: Seq<(String, BuiltinRunner)>, i: &Instruction, p: nat, a: (Relocatable, Relocatable, Relocatable), op0: Val, res0: Option<
    Val,
>) -> Option<(Val, Option<Val>)> {
    let d0 = m.value_at(a.0);
    match m.value_at(a.2) {
        Some(v) => Some((v, res0)),
        None => if builtins_deduce(bs, a.2, m) is None {
            None
        } else if builtins_deduce(bs, a.2, m).unwrap() is Some {
            Some((builtins_deduce(bs, a.2, m).unwrap().unwrap(), res0))
        } else if op1_deduction_fails(i, d0, op0, p) {
            None
        } else {
            match op1_table(i, d0, op0, p).0 {
                Some(v) => Some((v, if res0 is None { op1_table(i, d0, op0, p).1 } else { res0 })),
                None => None,
            }
        },
    }
}

/// The operands `(dst, res, op0, op1)` that operand resolution gives: each
/// missing operand deduced by the builtin that owns its segment, else by the
/// tables; res computed where no deduction gave it; dst deduced last. A
/// builtin's deduction of op1 is read on the memory before the step.
pub open spec fn deduced_operands(m: &Memory, bs: Seq<(String, BuiltinRunner)>, ctx: RunContext, i: &Instruction, p: nat) -> Option<(Val, Option<Val>, Val, Val)> {
    match op_addrs(m, ctx, i) {
        None => None,
        Some(a) => match op0_step(m, bs, ctx, i, p, a) {
            None => None,
            Some((op0, res0)) => match op1_step(m, bs, i, p, a, op0, res0) {
                None => None,
                Some((op1, res1)) => {
                    let res = if res1 is None {
                        res_of(i, op0, op1, p)
                    } else {
                        Some(res1)
                    };
                    match res {
                        None => None,
                        Some(rv) => match (m.value_at(a.0), dst_of(i, ctx.fp, rv)) {
                            (Some(d), _) => Some((d, rv, op0, op1)),
                            (None, Some(d)) => Some((d, rv, op0, op1)),
                            (None, None) => None,
                        },
                    }
                },
            },
        },
    }
}

/// A builtin that deduces a missing op1 reads the memory as it was before the
/// step: op0 is in memory, or op1's segment belongs to no builtin.
pub open spec fn no_builtin_for_missing(m: &Memory, bs: Seq<(String, BuiltinRunner)>, a: (Relocatable, Relocatable, Relocatable)) -> bool {
    m.value_at(a.1) is None && m.value_at(a.2) is None ==> no_builtin_at(bs, a.2.segment_index as int)
}

/// The missing operands can be written: their segments exist and no two of
/// them share a cell.
pub open spec fn writes_fit(m: &Memory, a: (Relocatable, Relocatable, Relocatable)) -> bool {
    let (d0, o0, o1) = (m.value_at(a.0), m.value_at(a.1), m.value_at(a.2));
    &&& d0 is None ==> m.allocated(m.resolve(a.0).segment_index as int)
    &&& o0 is None ==> m.allocated(m.resolve(a.1).segment_index as int)
    &&& o1 is None ==> m.allocated(m.resolve(a.2).segment_index as int)
    &&& o0 is None && o1 is None ==> m.resolve(a.1) != m.resolve(a.2)
    &&& o0 is None && d0 is None ==> m.resolve(a.1) != m.resolve(a.0)
    &&& o1 is None && d0 is None ==> m.resolve(a.2) != m.resolve(a.0)
}

/// Cell `(s, o)` is where an operand of `i` lies.
pub open spec fn is_operand_cell(m: &Memory, ctx: RunContext, i: &Instruction, s: int, o: int) -> bool {
    let at = |x: Relocatable| m.resolve(x).segment_index as int == s && m.resolve(x).offset as int == o;
    ||| ctx.spec_dst_addr(i) is Some && at(ctx.spec_dst_addr(i).unwrap())
    ||| ctx.spec_op0_addr(i) is Some && at(ctx.spec_op0_addr(i).unwrap())
    ||| ctx.spec_op0_addr(i) is Some && ctx.spec_op1_addr(i, m.value_at(ctx.spec_op0_addr(i).unwrap())) is Some && at(
        ctx.spec_op1_addr(i, m.value_at(ctx.spec_op0_addr(i).unwrap())).unwrap(),
    )
}

/// dst, op0 and op1 of `i` as memory holds them, where their addresses are
/// defined and all three cells are written.
pub open spec fn operands_in_memory(m: &Memory, ctx: RunContext, i: &Instruction) -> Option<(Val, Val, Val)> {
    match (ctx.spec_dst_addr(i), ctx.spec_op0_addr(i)) {
        (Some(da), Some(oa)) => match (m.value_at(da), m.value_at(oa)) {
            (Some(d), Some(o0)) => match ctx.spec_op1_addr(i, Some(o0)) {
                Some(ia) => match m.value_at(ia) {
                    Some(o1) => Some((d, o0, o1)),
                    None => None,
                },
                None => None,
            },
            _ => None,
        },
        _ => None,
    }
}

/// `i` runs without deduction: its operands are in memory, its result is
/// defined, its opcode's checks hold and its register updates are defined.
pub open spec fn runs_from_memory(m: &Memory, ctx: RunContext, i: &Instruction, p: nat) -> bool {
    let ops = operands_in_memory(m, ctx, i);
    &&& ops is Some
    &&& res_of(i, ops.unwrap().1, ops.unwrap().2, p) is Some
    &&& assertions_hold(i, ctx, ops.unwrap().0, ops.unwrap().1, res_of(i, ops.unwrap().1, ops.unwrap().2, p).unwrap())
    &&& registers_after(ctx, i, ops.unwrap().0, ops.unwrap().2, res_of(i, ops.unwrap().1, ops.unwrap().2, p).unwrap(), p) is Some
}

/// The accessed addresses after running `i`: where recorded, the addresses of
/// dst, op0 and op1 and then pc are appended.
pub open spec fn accessed_after(
    before: Option<Vec<Relocatable>>,
    after: Option<Vec<Relocatable>>,
    m: &Memory,
    ctx: RunContext,
    i: &Instruction,
) -> bool {
    &&& before is None ==> after is None
    &&& before is Some ==> after is Some && ({
        let acc = after->Some_0@;
        let prev = before->Some_0@;
        &&& acc.len() == prev.len() + 4
        &&& acc.take(prev.len() as int) == prev
        &&& Some(acc[prev.len() as int]) == ctx.spec_dst_addr(i)
        &&& Some(acc[prev.len() as int + 1]) == ctx.spec_op0_addr(i)
        &&& Some(acc[prev.len() as int + 2]) == ctx.spec_op1_addr(i, m.value_at(acc[prev.len() as int + 1]))
        &&& acc[prev.len() as int + 3] == ctx.pc
    })
}

/// `i` runs: the operands can be deduced and written, the opcode's checks hold
/// on them and the register updates are defined.
pub open spec fn runs(m: &Memory, bs: Seq<(String, BuiltinRunner)>, ctx: RunContext, i: &Instruction, p: nat) -> bool {
    let a = op_addrs(m, ctx, i);
    let ops = deduced_operands(m, bs, ctx, i, p);
    &&& a is Some
    &&& no_builtin_for_missing(m, bs, a.unwrap())
    &&& writes_fit(m, a.unwrap())
    &&& ops is Some
    &&& assertions_hold(i, ctx, ops.unwrap().0, ops.unwrap().2, ops.unwrap().1)
    &&& registers_after(ctx, i, ops.unwrap().0, ops.unwrap().3, ops.unwrap().1, p) is Some
}

/// The registers `(fp, ap, pc)` after `i`, on the operands deduced from `m`.
pub open spec fn run_registers(m: &Memory, bs: Seq<(String, BuiltinRunner)>, ctx: RunContext, i: &Instruction, p: nat) -> Option<(usize, usize, Val)> {
    match deduced_operands(m, bs, ctx, i, p) {
        Some((d, res, _, o1)) => registers_after(ctx, i, d, o1, res, p),
        None => None,
    }
}

/// `later` holds, at each operand of `i` that `m` lacks, the operand deduced.
pub open spec fn written_as_deduced(m: &Memory, bs: Seq<(String, BuiltinRunner)>, later: &Memory, ctx: RunContext, i: &Instruction, p: nat) -> bool {
    let a = op_addrs(m, ctx, i).unwrap();
    let ops = deduced_operands(m, bs, ctx, i, p);
    &&& ops is Some
    &&& m.value_at(a.0) is None ==> later.cell_at(a.0) == Some(ops.unwrap().0)
    &&& m.value_at(a.1) is None ==> later.cell_at(a.1) == Some(ops.unwrap().2)
    &&& m.value_at(a.2) is None ==> later.cell_at(a.2) == Some(ops.unwrap().3)
}

/// What a successful run of `i` from `m` does (unless op0 and op1 are both
/// missing and a builtin owns op1's segment): the registers become `regs` as
/// the deduced operands give them, and each missing operand is written as
/// deduced.
pub open spec fn step_effect(
    m: &Memory,
    later: &Memory,
    bs: Seq<(String, BuiltinRunner)>,
    ctx: RunContext,
    i: &Instruction,
    p: nat,
    regs: (usize, usize, Val),
) -> bool {
    op_addrs(m, ctx, i) is Some && no_builtin_for_missing(m, bs, op_addrs(m, ctx, i).unwrap()) ==> run_registers(m, bs, ctx, i, p)
        == Some(regs) && written_as_deduced(m, bs, later, ctx, i, p)
}

/// The word at pc is an integer below `2^63`.
pub open spec fn word_fits(vm: &VirtualMachine) -> bool {
    vm.memory.value_at(vm.run_context.pc) matches Some(Val::Int(n)) && n < 0x8000_0000_0000_0000
}

/// The instruction word at pc, as a 64-bit word where it is one.
pub open spec fn word_at_pc(vm: &VirtualMachine) -> u64 {
    match vm.memory.value_at(vm.run_context.pc) {
        Some(Val::Int(n)) => if n <= u64::MAX {
            n as u64
        } else {
            0
        },
        _ => 0,
    }
}

/// `regs` are the registers `(fp, ap, pc)` after running `i` from `ctx` on
/// memory `m`, for operands that agree with what `m` holds and pass the
/// opcode's checks.
pub open spec fn step_outcome(m: &Memory, ctx: RunContext, i: &Instruction, p: nat, regs: (usize, usize, Val)) -> bool {
    let da = ctx.spec_dst_addr(i).unwrap();
    let oa = ctx.spec_op0_addr(i).unwrap();
    let ia = ctx.spec_op1_addr(i, m.value_at(oa)).unwrap();
    exists|d: Val, o0: Val, o1: Val, res: Option<Val>|
        {
            &&& (m.value_at(da) is Some ==> d == m.value_at(da).unwrap())
            &&& (m.value_at(oa) is Some ==> o0 == m.value_at(oa).unwrap())
            &&& (m.value_at(ia) is Some ==> o1 == m.value_at(ia).unwrap())
            &&& (m.value_at(oa) is Some && m.value_at(ia) is Some ==> res == res_of(i, o0, o1, p).unwrap())
            &&& assertions_hold(i, ctx, d, o0, res)
            &&& registers_after(ctx, i, d, o1, res, p) == Some(regs)
        }
}

/// Determinism of a step: two successful runs of `i` from the same memory and
/// registers (as `run_instruction` and `step_instruction` describe them) reach
/// the same registers and leave every cell the same, unless op0 and op1 are
/// both missing and a builtin owns op1's segment.
pub proof fn lemma_step_deterministic(
    m: &Memory,
    bs: Seq<(String, BuiltinRunner)>,
    ctx: RunContext,
    i: &Instruction,
    p: nat,
    m1: &Memory,
    regs1: (usize, usize, Val),
    m2: &Memory,
    regs2: (usize, usize, Val),
)
    requires
        m.extends(m1),
        m.extends(m2),
        forall|s: int| #[trigger] m1.rule(s) == m.rule(s),
        forall|s: int| #[trigger] m2.rule(s) == m.rule(s),
        forall|s: int, o: int| #[trigger] m1.cell(s, o) != m.cell(s, o) ==> is_operand_cell(m, ctx, i, s, o),
        forall|s: int, o: int| #[trigger] m2.cell(s, o) != m.cell(s, o) ==> is_operand_cell(m, ctx, i, s, o),
        op_addrs(m, ctx, i) is Some,
        no_builtin_for_missing(m, bs, op_addrs(m, ctx, i).unwrap()),
        step_effect(m, m1, bs, ctx, i, p, regs1),
        step_effect(m, m2, bs, ctx, i, p, regs2),
    ensures
        regs1 == regs2,
        forall|s: int, o: int| #[trigger] m1.cell(s, o) == m2.cell(s, o),
{
    let a = op_addrs(m, ctx, i).unwrap();
    assert forall|x: Relocatable| #[trigger] m1.resolve(x) == m.resolve(x) && m2.resolve(x) == m.resolve(x) by {
        assert(m1.rule(x.segment_index as int) == m.rule(x.segment_index as int));
        assert(m2.rule(x.segment_index as int) == m.rule(x.segment_index as int));
    }
    assert forall|s: int, o: int| #[trigger] m1.cell(s, o) == m2.cell(s, o) by {
        if m1.cell(s, o) != m.cell(s, o) || m2.cell(s, o) != m.cell(s, o) {
            assert(is_operand_cell(m, ctx, i, s, o));
            let xs = seq![a.0, a.1, a.2];
            assert(exists|k: int| 0 <= k < 3 && m.resolve(xs[k]).segment_index as int == s && m.resolve(xs[k]).offset as int == o);
            let k = choose|k: int| 0 <= k < 3 && m.resolve(xs[k]).segment_index as int == s && m.resolve(xs[k]).offset as int == o;
            let x = xs[k];
            assert(m1.cell_at(x) == m1.cell(s, o));
            assert(m2.cell_at(x) == m2.cell(s, o));
            assert(m.cell_at(x) == m.cell(s, o));
            if m.cell(s, o) is Some {
                assert(m1.cell(s, o) == m.cell(s, o));
                assert(m2.cell(s, o) == m.cell(s, o));
            }
        }
    }
}

/// The registers `(fp, ap, pc)` after an instruction, or `None` where an
/// update fails.
pub open spec fn registers_after(ctx: RunContext, i: &Instruction, dst: Val, op1: Val, res: Option<Val>, p: nat) -> Option<
    (usize, usize, Val),
> {
    match (fp_after(ctx, i, dst), ap_after(ctx, i, res, p), pc_after(ctx, i, dst, op1, res, p)) {
        (Some(f), Some(a), Some(c)) => Some((f, a, c)),
        _ => None,
    }
}

/// The message of the first attribute whose range holds `pc`.
pub open spec fn first_attribute(attrs: Seq<Attribute>, pc: usize) -> Option<Seq<char>>
    decreases attrs.len(),
{
    if attrs.len() == 0 {
        None
    } else if attrs[0].start_pc <= pc && attrs[0].end_pc >= pc {
        Some(attrs[0].value@)
    } else {
        first_attribute(attrs.drop_first(), pc)
    }
}

/// The message of the first attribute whose range holds `pc`.
fn attribute_message(attrs: &Vec<Attribute>, pc: usize) -> (r: Option<String>)
    ensures
        match r {
            Some(s) => first_attribute(attrs@, pc) == Some(s@),
            None => first_attribute(attrs@, pc) is None,
        },
{
    let mut k: usize = 0;
    assert(attrs@.skip(0) =~= attrs@);
    while k < attrs.len()
        invariant
            k <= attrs@.len(),
            first_attribute(attrs@, pc) == first_attribute(attrs@.skip(k as int), pc),
        decreases attrs@.len() - k,
    {
        assert(attrs@.skip(k as int)[0] == attrs@[k as int]);
        if attrs[k].start_pc <= pc && attrs[k].end_pc >= pc {
            return Some(attrs[k].value.clone());
        }
        assert(attrs@.skip(k as int).drop_first() =~= attrs@.skip(k as int + 1));
        k = k + 1;
    }
    assert(attrs@.skip(k as int).len() == 0);
    None
}

/// The written cell at `off` of `b`'s segment agrees with what `b` deduces
/// there, and the deduction does not fail.
pub open spec fn cell_consistent(b: BuiltinRunner, m: &Memory, off: int) -> bool {
    let a = Relocatable { segment_index: b.spec_base(), offset: off as usize };
    m.cell_at(a) is Some ==> (b.spec_deduce(a, m) is Some && (b.spec_deduce(a, m).unwrap() is Some ==> b.spec_deduce(
        a,
        m,
    ).unwrap().unwrap() == m.cell_at(a).unwrap()))
}

/// Cell `off` of builtin `k` is the first that fails the check: all earlier
/// builtins, and the earlier cells of builtin `k`, agree.
pub open spec fn first_inconsistent(bs: Seq<(String, BuiltinRunner)>, m: &Memory, k: int, off: int) -> bool {
    &&& forall|j: int| 0 <= j < k ==> #[trigger] builtin_consistent(bs[j].1, m)
    &&& bs[k].1.spec_base() >= 0
    &&& forall|o: int| 0 <= o < off ==> #[trigger] cell_consistent(bs[k].1, m, o)
    &&& !cell_consistent(bs[k].1, m, off)
}

/// `b` owns a segment of its own (not a temporary one) and all its cells agree.
pub open spec fn builtin_consistent(b: BuiltinRunner, m: &Memory) -> bool {
    &&& b.spec_base() >= 0
    &&& forall|off: int| 0 <= off <= usize::MAX ==> #[trigger] cell_consistent(b, m, off)
}

/// Every builtin's written cells agree with its deductions.
pub open spec fn auto_deductions_hold(bs: Seq<(String, BuiltinRunner)>, m: &Memory) -> bool {
    forall|k: int| 0 <= k < bs.len() ==> #[trigger] builtin_consistent(bs[k].1, m)
}

/// The checks of an opcode: an assertion has a result equal to dst where both
/// are integers; a call saved the return pc in op0 and fp in dst.
pub open spec fn assertions_hold(i: &Instruction, ctx: RunContext, dst: Val, op0: Val, res: Option<Val>) -> bool {
    match i.opcode {
        Opcode::AssertEq => match res {
            Some(Val::Int(r)) => match dst {
                Val::Int(d) => r == d,
                _ => true,
            },
            Some(_) => true,
            None => false,
        },
        Opcode::Call => pc_plus(ctx.pc, i.spec_size()) is Some && op0 == pc_plus(ctx.pc, i.spec_size()).unwrap()@ && dst
            == Val::Addr(EXECUTION_SEGMENT as int, ctx.fp as nat),
        _ => true,
    }
}

/// `q * o == d (mod p)` pins `q` below `p` when `o` has an inverse.
pub proof fn lemma_quotient_unique(q: nat, d: nat, o: nat, p: nat)
    requires
        p > 0,
        has_inverse(o, p),
        is_quotient(q, d, o, p),
    ensures
        q == quotient(d, o, p),
{
    let q2 = quotient(d, o, p);
    assert(is_quotient(q2, d, o, p));
    let x = choose|x: nat| #[trigger] (o * x) % p == 1nat % p;
    lemma_cancel(q, o, x, p);
    lemma_cancel(q2, o, x, p);
}

/// Multiplying by `o` and then by an inverse `x` of `o` gives back `q < p`.
proof fn lemma_cancel(q: nat, o: nat, x: nat, p: nat)
    requires
        p > 0,
        q < p,
        (o * x) % p == 1nat % p,
    ensures
        (((q * o) % p) * x) % p == q,
{
    let m = p as int;
    vstd::arithmetic::div_mod::lemma_mul_mod_noop_left((q * o) as int, x as int, m);
    assert((q * o) * x == q * (o * x)) by (nonlinear_arith);
    vstd::arithmetic::div_mod::lemma_mul_mod_noop_right(q as int, (o * x) as int, m);
    vstd::arithmetic::div_mod::lemma_mul_mod_noop_right(q as int, 1, m);
    vstd::arithmetic::div_mod::lemma_small_mod(q, p);
}

/// Exactly one of three reads found nothing.
pub open spec fn exactly_one_none(a: Option<Val>, b: Option<Val>, c: Option<Val>) -> bool {
    ||| a is None && b is Some && c is Some
    ||| a is Some && b is None && c is Some
    ||| a is Some && b is Some && c is None
}

/// A value with its integer or offset reduced modulo `p`.
pub open spec fn canon(v: Val, p: nat) -> Val {
    match v {
        Val::Int(n) => Val::Int(n % p),
        Val::Addr(s, o) => Val::Addr(s, o % p),
    }
}

/// Subtracting `o` from `d` and adding `o` back, on either side, gives `d`
/// reduced modulo `p`: what an assertion `dst = op0 + op1` deduces for a
/// missing operand makes the sum hold.
pub proof fn lemma_sub_then_add(d: Val, o: Val, p: nat)
    requires
        p > 0,
        val_sub(d, o, p) is Some,
        d is Addr ==> d->Addr_1 <= usize::MAX,
    ensures
        val_add(val_sub(d, o, p).unwrap(), o, p) == Some(canon(d, p)),
        val_add(o, val_sub(d, o, p).unwrap(), p) == Some(canon(d, p)),
{
    let m = p as int;
    match (d, o) {
        (Val::Int(x), Val::Int(y)) => {
            let t = (x - y) % m;
            vstd::arithmetic::div_mod::lemma_mod_bound(x - y, m);
            vstd::arithmetic::div_mod::lemma_add_mod_noop_right(y as int, x - y, m);
            assert((y + t) % m == (x as int) % m);
            assert((t + y) % m == (x as int) % m);
        },
        (Val::Addr(s, x), Val::Int(y)) => {
            let t = (x - y) % m;
            vstd::arithmetic::div_mod::lemma_mod_bound(x - y, m);
            vstd::arithmetic::div_mod::lemma_add_mod_noop_right(y as int, x - y, m);
            vstd::arithmetic::div_mod::lemma_mod_bound(x as int, m);
            assert((t + y) % m == (x as int) % m);
            assert((x as int) % m <= x) by {
                vstd::arithmetic::div_mod::lemma_mod_decreases(x, p);
            }
        },
        (Val::Addr(s1, x), Val::Addr(s2, y)) => {
            let t = (x - y) % m;
            vstd::arithmetic::div_mod::lemma_mod_bound(x - y, m);
            vstd::arithmetic::div_mod::lemma_add_mod_noop_right(y as int, x - y, m);
            vstd::arithmetic::div_mod::lemma_mod_bound(x as int, m);
            assert((t + y) % m == (x as int) % m);
            assert((y + t) % m == (x as int) % m);
            assert((x as int) % m <= x) by {
                vstd::arithmetic::div_mod::lemma_mod_decreases(x, p);
            }
        },
        _ => {},
    }
}

/// A sum is already reduced modulo `p`.
pub proof fn lemma_add_canon(a: Val, b: Val, p: nat)
    requires
        p > 0,
        val_add(a, b, p) is Some,
    ensures
        canon(val_add(a, b, p).unwrap(), p) == val_add(a, b, p).unwrap(),
{
    match (a, b) {
        (Val::Int(x), Val::Int(y)) => {
            vstd::arithmetic::div_mod::lemma_mod_twice((x + y) as int, p as int);
        },
        (Val::Addr(s, x), Val::Int(y)) => {
            vstd::arithmetic::div_mod::lemma_mod_twice((x + y) as int, p as int);
        },
        (Val::Int(x), Val::Addr(s, y)) => {
            vstd::arithmetic::div_mod::lemma_mod_twice((x + y) as int, p as int);
        },
        _ => {},
    }
}

/// Where no builtin owns the segment, none deduces anything there.
pub proof fn lemma_no_builtin(bs: Seq<(String, BuiltinRunner)>, a: Relocatable, m: &Memory)
    ensures
        no_builtin_at(bs, a.segment_index as int) ==> builtins_deduce(bs, a, m) == Some(None::<Val>),
    decreases bs.len(),
{
    if bs.len() > 0 && no_builtin_at(bs, a.segment_index as int) {
        assert(bs[0].1.spec_base() != a.segment_index);
        assert forall|k: int| 0 <= k < bs.drop_first().len() implies (#[trigger] bs.drop_first()[k]).1.spec_base()
            != a.segment_index as int by {
            assert(bs.drop_first()[k] == bs[k + 1]);
        }
        lemma_no_builtin(bs.drop_first(), a, m);
    }
}

/// A conditional jump: with dst zero, pc moves past the instruction; with
/// another integer dst, pc moves by op1 (an integer, added modulo `p`); an
/// address in dst or op1 fails.
pub proof fn lemma_jnz(ctx: RunContext, i: &Instruction, dst: Val, op1: Val, res: Option<Val>, p: nat)
    requires
        i.pc_update == PcUpdate::Jnz,
    ensures
        dst == Val::Int(0) ==> pc_after(ctx, i, dst, op1, res, p) == match pc_plus(ctx.pc, i.spec_size()) {
            Some(a) => Some(a@),
            None => None,
        },
        dst is Int && dst != Val::Int(0) && op1 is Int ==> pc_after(ctx, i, dst, op1, res, p) == addr_plus(
            ctx.pc.segment_index as int,
            ctx.pc.offset as nat,
            op1->Int_0,
            p,
        ),
        dst is Addr || (dst != Val::Int(0) && op1 is Addr) ==> pc_after(ctx, i, dst, op1, res, p) is None,
{
}

/// `e` is the error that builtin `b` reports for a failing deduction at `a`.
pub open spec fn owner_error(b: BuiltinRunner, a: Relocatable, m: &Memory, e: RunnerError) -> bool {
    &&& e is IntegerBiggerThanPowerOfTwo
    &&& e->IntegerBiggerThanPowerOfTwo_0@ == b.spec_error(a, m).0@
    &&& e->IntegerBiggerThanPowerOfTwo_1 == b.spec_error(a, m).1
    &&& e->IntegerBiggerThanPowerOfTwo_2.val() == b.spec_error(a, m).2
}

/// The segment of `a` belongs to none of `builtins`.
pub open spec fn no_builtin_at(builtins: Seq<(String, BuiltinRunner)>, seg: int) -> bool {
    forall|k: int| 0 <= k < builtins.len() ==> (#[trigger] builtins[k]).1.spec_base() != seg
}

/// What the builtins deduce at `a`: the first one whose segment holds `a`
/// decides. `None` where it fails.
pub open spec fn builtins_deduce(builtins: Seq<(String, BuiltinRunner)>, a: Relocatable, m: &Memory) -> Option<Option<Val>>
    decreases builtins.len(),
{
    if builtins.len() == 0 {
        Some(None)
    } else if builtins[0].1.spec_base() == a.segment_index {
        builtins[0].1.spec_deduce(a, m)
    } else {
        builtins_deduce(builtins.drop_first(), a, m)
    }
}

pub struct VirtualMachine {
    pub run_context: RunContext,
    pub prime: Felt,
    pub builtin_runners: Vec<(String, BuiltinRunner)>,
    pub segments: MemorySegmentManager,
    pub memory: Memory,
    pub accessed_addresses: Option<Vec<Relocatable>>,
    pub trace: Option<Vec<TraceEntry>>,
    pub current_step: usize,
    pub error_message_attributes: Vec<Attribute>,
    pub skip_instruction_execution: bool,
}

impl VirtualMachine {
    pub open spec fn prime_val(&self) -> nat {
        self.prime.val()
    }

    pub open spec fn wf(&self) -> bool {
        &&& self.memory.wf()
        &&& self.prime_val() > 1
    }

    pub fn new(prime: Felt, trace_enabled: bool, error_message_attributes: Vec<Attribute>) -> (r: VirtualMachine)
        requires
            prime.val() > 1,
        ensures
            r.wf(),
            r.prime_val() == prime.val(),
            r.run_context == (RunContext { pc: Relocatable { segment_index: 0, offset: 0 }, ap: 0, fp: 0 }),
            r.builtin_runners@.len() == 0,
            r.memory.num_segments() == 0,
            r.memory.num_temp_segments() == 0,
            forall|seg: int| !(#[trigger] r.memory.allocated(seg)),
            forall|seg: int| #[trigger] r.memory.rule(seg) is None,
            r.segments.segment_used_sizes is None,
            r.accessed_addresses is Some && r.accessed_addresses->Some_0@.len() == 0,
            trace_enabled ==> (r.trace is Some && r.trace->Some_0@.len() == 0),
            !trace_enabled ==> r.trace is None,
            r.current_step == 0,
            r.error_message_attributes@ == error_message_attributes@,
    {
        let trace = if trace_enabled {
            Some(Vec::new())
        } else {
            None
        };
        VirtualMachine {
            run_context: RunContext { pc: Relocatable { segment_index: 0, offset: 0 }, ap: 0, fp: 0 },
            prime,
            builtin_runners: Vec::new(),
            segments: MemorySegmentManager::new(),
            memory: Memory::new(),
            accessed_addresses: Some(Vec::new()),
            trace,
            current_step: 0,
            error_message_attributes,
            skip_instruction_execution: false,
        }
    }

    pub fn get_prime(&self) -> (r: &Felt)
        ensures
            r.val() == self.prime_val(),
    {
        &self.prime
    }

    /// Deduces op0 from dst and op1: the return address for a call, `dst - op1`
    /// or `dst / op1` for an assertion. Returns the deduced op0 and res.
    pub fn deduce_op0(&self, i: &Instruction, dst: Option<&MaybeRelocatable>, op1: Option<&MaybeRelocatable>) -> (r: Result<
        (Option<MaybeRelocatable>, Option<MaybeRelocatable>),
        VirtualMachineError,
    >)
        requires
            self.wf(),
        ensures
            unwrapped(r),
            r is Err <==> op0_deduction_fails(i, self.run_context.pc, opt_val(dst), opt_val(op1), self.prime_val()),
            r is Ok ==> op0_deduction(
                i,
                self.run_context.pc,
                opt_val(dst),
                opt_val(op1),
                self.prime_val(),
                (opt_view(r->Ok_0.0), opt_view(r->Ok_0.1)),
            ),
    {
        match i.opcode {
            Opcode::Call => {
                let size = i.size();
                match self.run_context.pc.add_usize(size) {
                    Some(a) => Ok((Some(MaybeRelocatable::RelocatableValue(a)), None)),
                    None => Err(VirtualMachineError::OffsetOverflow(self.run_context.pc.offset, size)),
                }
            },
            Opcode::AssertEq => {
                match (i.res, dst, op1) {
                    (Res::Add, Some(d), Some(o)) => match d.sub(o, &self.prime) {
                        Ok(x) => Ok((Some(x), Some(d.copy()))),
                        Err(e) => Err(e),
                    },
                    (Res::Mul, Some(MaybeRelocatable::Int(d)), Some(MaybeRelocatable::Int(o))) => {
                        if !o.is_zero() {
                            match d.div_mod(o, &self.prime) {
                                Some(q) => {
                                    proof {
                                        lemma_quotient_unique(q.val(), d.val(), o.val(), self.prime_val());
                                    }
                                    Ok((Some(MaybeRelocatable::Int(q)), Some(MaybeRelocatable::Int(d.clone()))))
                                },
                                None => Ok((None, None)),
                            }
                        } else {
                            Ok((None, None))
                        }
                    },
                    _ => Ok((None, None)),
                }
            },
            _ => Ok((None, None)),
        }
    }

    /// Deduces op1 from dst and op0: `dst` itself, `dst - op0` or `dst / op0`
    /// for an assertion. Returns the deduced op1 and res.
    pub fn deduce_op1(&self, i: &Instruction, dst: Option<&MaybeRelocatable>, op0: &MaybeRelocatable) -> (r: Result<
        (Option<MaybeRelocatable>, Option<MaybeRelocatable>),
        VirtualMachineError,
    >)
        requires
            self.wf(),
        ensures
            unwrapped(r),
            r is Err <==> op1_deduction_fails(i, opt_val(dst), op0@, self.prime_val()),
            r is Ok ==> op1_deduction(i, opt_val(dst), op0@, self.prime_val(), (opt_view(r->Ok_0.0), opt_view(r->Ok_0.1))),
    {
        if i.opcode != Opcode::AssertEq {
            return Ok((None, None));
        }
        match (i.res, dst, op0) {
            (Res::Op1, Some(d), _) => Ok((Some(d.copy()), Some(d.copy()))),
            (Res::Add, Some(d), o) => match d.sub(o, &self.prime) {
                Ok(x) => Ok((Some(x), Some(d.copy()))),
                Err(e) => Err(e),
            },
            (Res::Mul, Some(MaybeRelocatable::Int(d)), MaybeRelocatable::Int(o)) => {
                if !o.is_zero() {
                    match d.div_mod(o, &self.prime) {
                        Some(q) => {
                            proof {
                                lemma_quotient_unique(q.val(), d.val(), o.val(), self.prime_val());
                            }
                            Ok((Some(MaybeRelocatable::Int(q)), Some(MaybeRelocatable::Int(d.clone()))))
                        },
                        None => Ok((None, None)),
                    }
                } else {
                    Ok((None, None))
                }
            },
            _ => Ok((None, None)),
        }
    }

    /// The result from op0 and op1, per the instruction's result mode.
    pub fn compute_res(&self, i: &Instruction, op0: &MaybeRelocatable, op1: &MaybeRelocatable) -> (r: Result<
        Option<MaybeRelocatable>,
        VirtualMachineError,
    >)
        requires
            self.wf(),
        ensures
            unwrapped(r),
            r is Ok <==> res_of(i, op0@, op1@, self.prime_val()) is Some,
            r is Ok ==> opt_view(r->Ok_0) == res_of(i, op0@, op1@, self.prime_val()).unwrap(),
            i.res == Res::Mul && !(op0 is Int && op1 is Int) ==> r == Err::<Option<MaybeRelocatable>, VirtualMachineError>(
                VirtualMachineError::PureValue,
            ),
    {
        match i.res {
            Res::Op1 => Ok(Some(op1.copy())),
            Res::Add => match op0.add_mod(op1, &self.prime) {
                Ok(v) => Ok(Some(v)),
                Err(e) => Err(e),
            },
            Res::Mul => match (op0, op1) {
                (MaybeRelocatable::Int(a), MaybeRelocatable::Int(b)) => Ok(Some(MaybeRelocatable::Int(a.mul_mod(b, &self.prime)))),
                _ => Err(VirtualMachineError::PureValue),
            },
            Res::Unconstrained => Ok(None),
        }
    }

    /// The dst where memory holds none: res for an assertion, fp for a call.
    pub fn deduce_dst(&self, i: &Instruction, res: Option<&MaybeRelocatable>) -> (r: Option<MaybeRelocatable>)
        ensures
            opt_view(r) == dst_of(i, self.run_context.fp, opt_val(res)),
    {
        match i.opcode {
            Opcode::AssertEq => match res {
                Some(v) => Some(v.copy()),
                None => None,
            },
            Opcode::Call => Some(MaybeRelocatable::RelocatableValue(self.run_context.get_fp())),
            _ => None,
        }
    }

    /// Whether `v` is the integer zero; an address is no number.
    pub fn is_zero(v: &MaybeRelocatable) -> (r: Result<bool, VirtualMachineError>)
        ensures
            v matches MaybeRelocatable::Int(n) ==> r == Ok::<bool, VirtualMachineError>(n.val() == 0),
            v is RelocatableValue ==> r == Err::<bool, VirtualMachineError>(VirtualMachineError::PureValue),
    {
        match v {
            MaybeRelocatable::Int(n) => Ok(n.is_zero()),
            MaybeRelocatable::RelocatableValue(_) => Err(VirtualMachineError::PureValue),
        }
    }

    pub fn update_fp(&mut self, i: &Instruction, ops: &Operands) -> (r: Result<(), VirtualMachineError>)
        ensures
            unwrapped(r),
            r is Ok <==> fp_after(old(self).run_context, i, ops.dst@) is Some,
            r is Ok ==> final(self).run_context == (RunContext {
                fp: fp_after(old(self).run_context, i, ops.dst@).unwrap(),
                ..old(self).run_context
            }),
            r is Err ==> final(self).run_context == old(self).run_context,
            final(self).memory == old(self).memory,
            final(self).prime == old(self).prime,
            final(self).builtin_runners == old(self).builtin_runners,
            final(self).trace == old(self).trace,
            final(self).accessed_addresses == old(self).accessed_addresses,
            final(self).current_step == old(self).current_step,
            final(self).segments == old(self).segments,
            final(self).error_message_attributes == old(self).error_message_attributes,
    {
        let new_fp: usize = match i.fp_update {
            FpUpdate::APPlus2 => match self.run_context.ap.checked_add(2) {
                Some(x) => x,
                None => {
                    return Err(VirtualMachineError::OffsetOverflow(self.run_context.ap, 2));
                },
            },
            FpUpdate::Dst => match &ops.dst {
                MaybeRelocatable::RelocatableValue(a) => a.offset,
                MaybeRelocatable::Int(n) => match n.to_i64() {
                    Some(x) => {
                        if x as u64 > usize::MAX as u64 {
                            return Err(VirtualMachineError::BigintToUsizeFail);
                        }
                        x as usize
                    },
                    None => {
                        return Err(VirtualMachineError::BigintToUsizeFail);
                    },
                },
            },
            FpUpdate::Regular => {
                return Ok(());
            },
        };
        self.run_context.fp = new_fp;
        Ok(())
    }

    pub fn update_ap(&mut self, i: &Instruction, ops: &Operands) -> (r: Result<(), VirtualMachineError>)
        requires
            old(self).wf(),
        ensures
            unwrapped(r),
            r is Ok <==> ap_after(old(self).run_context, i, opt_view(ops.res), old(self).prime_val()) is Some,
            r is Ok ==> final(self).run_context == (RunContext {
                ap: ap_after(old(self).run_context, i, opt_view(ops.res), old(self).prime_val()).unwrap(),
                ..old(self).run_context
            }),
            i.ap_update == ApUpdate::Add && ops.res is None ==> r == Err::<(), VirtualMachineError>(
                VirtualMachineError::UnconstrainedResAdd,
            ),
            r is Err ==> final(self).run_context == old(self).run_context,
            final(self).memory == old(self).memory,
            final(self).prime == old(self).prime,
            final(self).builtin_runners == old(self).builtin_runners,
            final(self).trace == old(self).trace,
            final(self).accessed_addresses == old(self).accessed_addresses,
            final(self).current_step == old(self).current_step,
            final(self).segments == old(self).segments,
            final(self).error_message_attributes == old(self).error_message_attributes,
    {
        let new_ap: usize = match i.ap_update {
            ApUpdate::Add => match &ops.res {
                Some(res) => match self.run_context.get_ap().add_maybe_mod(res, &self.prime) {
                    Ok(a) => a.offset,
                    Err(e) => {
                        return Err(e);
                    },
                },
                None => {
                    return Err(VirtualMachineError::UnconstrainedResAdd);
                },
            },
            ApUpdate::Add1 => match self.run_context.ap.checked_add(1) {
                Some(x) => x,
                None => {
                    return Err(VirtualMachineError::OffsetOverflow(self.run_context.ap, 1));
                },
            },
            ApUpdate::Add2 => match self.run_context.ap.checked_add(2) {
                Some(x) => x,
                None => {
                    return Err(VirtualMachineError::OffsetOverflow(self.run_context.ap, 2));
                },
            },
            ApUpdate::Regular => {
                return Ok(());
            },
        };
        self.run_context.ap = new_ap;
        Ok(())
    }

    pub fn update_pc(&mut self, i: &Instruction, ops: &Operands) -> (r: Result<(), VirtualMachineError>)
        requires
            old(self).wf(),
        ensures
            unwrapped(r),
            r is Ok <==> pc_after(old(self).run_context, i, ops.dst@, ops.op1@, opt_view(ops.res), old(self).prime_val()) is Some,
            r is Ok ==> final(self).run_context.pc@ == pc_after(
                old(self).run_context,
                i,
                ops.dst@,
                ops.op1@,
                opt_view(ops.res),
                old(self).prime_val(),
            ).unwrap() && final(self).run_context.ap == old(self).run_context.ap && final(self).run_context.fp == old(
                self,
            ).run_context.fp,
            i.pc_update == PcUpdate::Jump && ops.res is None ==> r == Err::<(), VirtualMachineError>(
                VirtualMachineError::UnconstrainedResJump,
            ),
            i.pc_update == PcUpdate::JumpRel && ops.res is Some && ops.res->Some_0 is RelocatableValue ==> r == Err::<
                (),
                VirtualMachineError,
            >(VirtualMachineError::PureValue),
            i.pc_update == PcUpdate::JumpRel && ops.res is None ==> r == Err::<(), VirtualMachineError>(
                VirtualMachineError::UnconstrainedResJumpRel,
            ),
            i.pc_update == PcUpdate::Jnz && ops.dst is RelocatableValue ==> r == Err::<(), VirtualMachineError>(
                VirtualMachineError::PureValue,
            ),
            r is Err ==> final(self).run_context == old(self).run_context,
            final(self).memory == old(self).memory,
            final(self).prime == old(self).prime,
            final(self).builtin_runners == old(self).builtin_runners,
            final(self).trace == old(self).trace,
            final(self).accessed_addresses == old(self).accessed_addresses,
            final(self).current_step == old(self).current_step,
            final(self).segments == old(self).segments,
            final(self).error_message_attributes == old(self).error_message_attributes,
    {
        let new_pc: Relocatable = match i.pc_update {
            PcUpdate::Regular => {
                let size = i.size();
                match self.run_context.pc.add_usize(size) {
                    Some(a) => a,
                    None => {
                        return Err(VirtualMachineError::OffsetOverflow(self.run_context.pc.offset, size));
                    },
                }
            },
            PcUpdate::Jump => match &ops.res {
                Some(res) => match res.get_relocatable() {
                    Ok(a) => a,
                    Err(e) => {
                        return Err(e);
                    },
                },
                None => {
                    return Err(VirtualMachineError::UnconstrainedResJump);
                },
            },
            PcUpdate::JumpRel => match &ops.res {
                Some(MaybeRelocatable::Int(n)) => match self.run_context.pc.add_int_mod(n, &self.prime) {
                    Ok(a) => a,
                    Err(e) => {
                        return Err(e);
                    },
                },
                Some(_) => {
                    return Err(VirtualMachineError::PureValue);
                },
                None => {
                    return Err(VirtualMachineError::UnconstrainedResJumpRel);
                },
            },
            PcUpdate::Jnz => {
                let zero = match VirtualMachine::is_zero(&ops.dst) {
                    Ok(z) => z,
                    Err(e) => {
                        return Err(e);
                    },
                };
                if zero {
                    let size = i.size();
                    match self.run_context.pc.add_usize(size) {
                        Some(a) => a,
                        None => {
                            return Err(VirtualMachineError::OffsetOverflow(self.run_context.pc.offset, size));
                        },
                    }
                } else {
                    match self.run_context.pc.add_maybe_mod(&ops.op1, &self.prime) {
                        Ok(a) => a,
                        Err(e) => {
                            return Err(e);
                        },
                    }
                }
            },
        };
        self.run_context.pc = new_pc;
        Ok(())
    }

    /// What the builtin that owns `address`'s segment deduces there; `None`
    /// where no builtin owns it.
    pub fn deduce_memory_cell(&self, address: &Relocatable) -> (r: Result<Option<MaybeRelocatable>, VirtualMachineError>)
        requires
            self.wf(),
        ensures
            unwrapped(r),
            r is Ok <==> builtins_deduce(self.builtin_runners@, *address, &self.memory) is Some,
            r is Ok ==> opt_view(r->Ok_0) == builtins_deduce(self.builtin_runners@, *address, &self.memory).unwrap(),
            r is Err ==> r->Err_0 is RunnerError,
            r is Err ==> exists|k: int|
                0 <= k < self.builtin_runners@.len() && (#[trigger] self.builtin_runners@[k]).1.spec_base() == address.segment_index
                    && (forall|j: int| 0 <= j < k ==> (#[trigger] self.builtin_runners@[j]).1.spec_base() != address.segment_index)
                    && owner_error(self.builtin_runners@[k].1, *address, &self.memory, r->Err_0->RunnerError_0),
            no_builtin_at(self.builtin_runners@, address.segment_index as int) ==> r == Ok::<
                Option<MaybeRelocatable>,
                VirtualMachineError,
            >(None),
    {
        let mut k: usize = 0;
        assert(self.builtin_runners@.skip(0) =~= self.builtin_runners@);
        while k < self.builtin_runners.len()
            invariant
                self.wf(),
                k <= self.builtin_runners@.len(),
                builtins_deduce(self.builtin_runners@, *address, &self.memory) == builtins_deduce(
                    self.builtin_runners@.skip(k as int),
                    *address,
                    &self.memory,
                ),
                forall|j: int| 0 <= j < k ==> (#[trigger] self.builtin_runners@[j]).1.spec_base() != address.segment_index,
            decreases self.builtin_runners@.len() - k,
        {
            let b = &self.builtin_runners[k].1;
            proof {
                assert(self.builtin_runners@.skip(k as int)[0] == self.builtin_runners@[k as int]);
            }
            if b.base() == address.segment_index {
                return match b.deduce_memory_cell(address, &self.memory) {
                    Ok(v) => Ok(v),
                    Err(e) => Err(VirtualMachineError::RunnerError(e)),
                };
            }
            proof {
                assert(self.builtin_runners@.skip(k as int).drop_first() =~= self.builtin_runners@.skip(k as int + 1));
            }
            k = k + 1;
        }
        proof {
            assert(self.builtin_runners@.skip(k as int).len() == 0);
        }
        Ok(None)
    }

    /// Checks an assertion's result against dst, and a call's saved pc and fp.
    pub fn opcode_assertions(&self, i: &Instruction, ops: &Operands) -> (r: Result<(), VirtualMachineError>)
        ensures
            unwrapped(r),
            r is Ok <==> assertions_hold(i, self.run_context, ops.dst@, ops.op0@, opt_view(ops.res)),
            i.opcode == Opcode::AssertEq && ops.res is None ==> r == Err::<(), VirtualMachineError>(
                VirtualMachineError::UnconstrainedResAssertEq,
            ),
            i.opcode == Opcode::AssertEq && opt_view(ops.res) is Some && opt_view(ops.res).unwrap() is Int && ops.dst@ is Int
                && opt_view(ops.res).unwrap() != ops.dst@ ==> r is Err && r->Err_0 is DiffAssertValues
                && r->Err_0->DiffAssertValues_0.val() == ops.dst@->Int_0 && r->Err_0->DiffAssertValues_1.val() == opt_view(
                ops.res,
            ).unwrap()->Int_0,
            i.opcode == Opcode::Call && pc_plus(self.run_context.pc, i.spec_size()) is Some && ops.op0@ != pc_plus(
                self.run_context.pc,
                i.spec_size(),
            ).unwrap()@ ==> r is Err && r->Err_0 is CantWriteReturnPc && r->Err_0->CantWriteReturnPc_0@ == ops.op0@
                && r->Err_0->CantWriteReturnPc_1@ == pc_plus(self.run_context.pc, i.spec_size()).unwrap()@,
            i.opcode == Opcode::Call && pc_plus(self.run_context.pc, i.spec_size()) is Some && ops.op0@ == pc_plus(
                self.run_context.pc,
                i.spec_size(),
            ).unwrap()@ && ops.dst@ != Val::Addr(EXECUTION_SEGMENT as int, self.run_context.fp as nat) ==> r is Err && r->Err_0 is CantWriteReturnFp
                && r->Err_0->CantWriteReturnFp_0@ == ops.dst@ && r->Err_0->CantWriteReturnFp_1@ == Val::Addr(
                EXECUTION_SEGMENT as int,
                self.run_context.fp as nat,
            ),
    {
        match i.opcode {
            Opcode::AssertEq => match &ops.res {
                None => Err(VirtualMachineError::UnconstrainedResAssertEq),
                Some(res) => {
                    if let (MaybeRelocatable::Int(res_num), MaybeRelocatable::Int(dst_num)) = (res, &ops.dst) {
                        if !res_num.eq_val(dst_num) {
                            return Err(VirtualMachineError::DiffAssertValues(dst_num.clone(), res_num.clone()));
                        }
                    }
                    Ok(())
                },
            },
            Opcode::Call => {
                let size = i.size();
                let return_pc = match self.run_context.pc.add_usize(size) {
                    Some(a) => MaybeRelocatable::RelocatableValue(a),
                    None => {
                        return Err(VirtualMachineError::OffsetOverflow(self.run_context.pc.offset, size));
                    },
                };
                if !ops.op0.eq(&return_pc) {
                    return Err(VirtualMachineError::CantWriteReturnPc(ops.op0.copy(), return_pc));
                }
                let fp = MaybeRelocatable::RelocatableValue(self.run_context.get_fp());
                if !fp.eq(&ops.dst) {
                    return Err(VirtualMachineError::CantWriteReturnFp(ops.dst.copy(), fp));
                }
                Ok(())
            },
            _ => Ok(()),
        }
    }

    /// Everything but memory stays.
    pub open spec fn same_but_memory(&self, later: &VirtualMachine) -> bool {
        &&& later.run_context == self.run_context
        &&& later.prime == self.prime
        &&& later.builtin_runners == self.builtin_runners
        &&& later.segments == self.segments
        &&& later.accessed_addresses == self.accessed_addresses
        &&& later.trace == self.trace
        &&& later.current_step == self.current_step
        &&& later.error_message_attributes == self.error_message_attributes
        &&& later.skip_instruction_execution == self.skip_instruction_execution
    }

    /// Fills the missing op0: from a builtin, else from dst and op1. `res` takes
    /// what the deduction gives for it.
    pub fn compute_op0_deductions(
        &mut self,
        op0_addr: &Relocatable,
        res: &mut Option<MaybeRelocatable>,
        i: &Instruction,
        dst_op: &Option<MaybeRelocatable>,
        op1_op: &Option<MaybeRelocatable>,
    ) -> (r: Result<MaybeRelocatable, VirtualMachineError>)
        requires
            old(self).wf(),
        ensures
            unwrapped(r),
            final(self).wf(),
            old(self).same_but_memory(&*final(self)),
            old(self).memory.extends(&final(self).memory),
            ({
                let bd = builtins_deduce(old(self).builtin_runners@, *op0_addr, &old(self).memory);
                let p = old(self).prime_val();
                let pc = old(self).run_context.pc;
                &&& r is Ok ==> final(self).memory.cell_at(*op0_addr) == Some(r->Ok_0@)
                &&& r is Ok && old(self).memory.cell_at(*op0_addr) is None ==> old(self).memory.same_but(
                    &final(self).memory,
                    old(self).memory.resolve(*op0_addr).segment_index as int,
                    old(self).memory.resolve(*op0_addr).offset as int,
                )
                &&& r is Ok && old(self).memory.cell_at(*op0_addr) is Some ==> final(self).memory == old(self).memory
                &&& r is Ok && bd is Some && bd.unwrap() is Some ==> r->Ok_0@ == bd.unwrap().unwrap() && *final(res) == *old(res)
                &&& r is Ok && bd == Some(None::<Val>) ==> op0_deduction(
                    i,
                    pc,
                    opt_view(*dst_op),
                    opt_view(*op1_op),
                    p,
                    (Some(r->Ok_0@), opt_view(*final(res))),
                )
                &&& bd is None ==> r is Err && r->Err_0 is RunnerError
                &&& bd == Some(None::<Val>) && op0_deduction_fails(i, pc, opt_view(*dst_op), opt_view(*op1_op), p) ==> r is Err
                &&& old(self).memory.cell_at(*op0_addr) is None && old(self).memory.allocated(
                    old(self).memory.resolve(*op0_addr).segment_index as int,
                ) && ((bd is Some
                    && bd.unwrap() is Some) || (bd == Some(None::<Val>) && !op0_deduction_fails(
                    i,
                    pc,
                    opt_view(*dst_op),
                    opt_view(*op1_op),
                    p,
                ) && op0_table(i, pc, opt_view(*dst_op), opt_view(*op1_op), p).0 is Some)) ==> r is Ok
            }),
            r is Err ==> final(self).memory == old(self).memory,
    {
        let deduced = match self.deduce_memory_cell(op0_addr) {
            Ok(v) => v,
            Err(e) => {
                return Err(e);
            },
        };
        let op0 = match deduced {
            Some(v) => v,
            None => {
                let (op0, deduced_res) = match self.deduce_op0(i, dst_op.as_ref(), op1_op.as_ref()) {
                    Ok(x) => x,
                    Err(e) => {
                        return Err(e);
                    },
                };
                *res = deduced_res;
                match op0 {
                    Some(v) => v,
                    None => {
                        return Err(VirtualMachineError::FailedToComputeOperands);
                    },
                }
            },
        };
        match self.memory.insert(op0_addr, &op0) {
            Ok(()) => Ok(op0),
            Err(e) => Err(VirtualMachineError::MemoryError(e)),
        }
    }

    /// Fills the missing op1: from a builtin, else from dst and op0. `res` takes
    /// what the deduction gives for it, unless it is already known.
    pub fn compute_op1_deductions(
        &mut self,
        op1_addr: &Relocatable,
        res: &mut Option<MaybeRelocatable>,
        i: &Instruction,
        dst_op: &Option<MaybeRelocatable>,
        op0: &MaybeRelocatable,
    ) -> (r: Result<MaybeRelocatable, VirtualMachineError>)
        requires
            old(self).wf(),
        ensures
            unwrapped(r),
            final(self).wf(),
            old(self).same_but_memory(&*final(self)),
            old(self).memory.extends(&final(self).memory),
            r is Ok ==> final(self).memory.cell_at(*op1_addr) == Some(r->Ok_0@),
            r is Ok && old(self).memory.cell_at(*op1_addr) is None ==> old(self).memory.same_but(
                &final(self).memory,
                old(self).memory.resolve(*op1_addr).segment_index as int,
                old(self).memory.resolve(*op1_addr).offset as int,
            ),
            r is Ok && old(self).memory.cell_at(*op1_addr) is Some ==> final(self).memory == old(self).memory,
            r is Ok && builtins_deduce(old(self).builtin_runners@, *op1_addr, &old(self).memory) is Some && builtins_deduce(
                old(self).builtin_runners@,
                *op1_addr,
                &old(self).memory,
            ).unwrap() is Some ==> r->Ok_0@ == builtins_deduce(old(self).builtin_runners@, *op1_addr, &old(self).memory).unwrap().unwrap()
                && *final(res) == *old(res),
            r is Ok && builtins_deduce(old(self).builtin_runners@, *op1_addr, &old(self).memory) == Some(None::<Val>) ==> op1_deduction(
                i,
                opt_view(*dst_op),
                op0@,
                old(self).prime_val(),
                (Some(r->Ok_0@), opt_view(*dst_op)),
            ) && opt_view(*final(res)) == if (*old(res)) is None {
                opt_view(*dst_op)
            } else {
                opt_view(*old(res))
            },
            builtins_deduce(old(self).builtin_runners@, *op1_addr, &old(self).memory) is None ==> r is Err && r->Err_0 is RunnerError,
            builtins_deduce(old(self).builtin_runners@, *op1_addr, &old(self).memory) == Some(None::<Val>) && op1_deduction_fails(
                i,
                opt_view(*dst_op),
                op0@,
                old(self).prime_val(),
            ) ==> r is Err,
            old(self).memory.cell_at(*op1_addr) is None && old(self).memory.allocated(
                old(self).memory.resolve(*op1_addr).segment_index as int,
            ) && builtins_deduce(old(self).builtin_runners@, *op1_addr, &old(self).memory) is Some && builtins_deduce(
                old(self).builtin_runners@,
                *op1_addr,
                &old(self).memory,
            ).unwrap() is Some ==> r is Ok,
            old(self).memory.cell_at(*op1_addr) is None && old(self).memory.allocated(
                old(self).memory.resolve(*op1_addr).segment_index as int,
            ) && builtins_deduce(old(self).builtin_runners@, *op1_addr, &old(self).memory) == Some(None::<Val>)
                && !op1_deduction_fails(i, opt_view(*dst_op), op0@, old(self).prime_val()) && op1_table(
                i,
                opt_view(*dst_op),
                op0@,
                old(self).prime_val(),
            ).0 is Some ==> r is Ok,
            r is Err ==> final(self).memory == old(self).memory,
    {
        let deduced = match self.deduce_memory_cell(op1_addr) {
            Ok(v) => v,
            Err(e) => {
                return Err(e);
            },
        };
        let op1 = match deduced {
            Some(v) => v,
            None => {
                let (op1, deduced_res) = match self.deduce_op1(i, dst_op.as_ref(), op0) {
                    Ok(x) => x,
                    Err(e) => {
                        return Err(e);
                    },
                };
                let ghost dres = opt_view(deduced_res);
                let ghost res_before = opt_view(*res);
                let ghost was_none = (*res) is None;
                if res.is_none() {
                    *res = deduced_res;
                }
                match op1 {
                    Some(v) => {
                        assert(dres == opt_view(*dst_op));
                        v
                    },
                    None => {
                        return Err(VirtualMachineError::FailedToComputeOperands);
                    },
                }
            },
        };
        match self.memory.insert(op1_addr, &op1) {
            Ok(()) => Ok(op1),
            Err(e) => Err(VirtualMachineError::MemoryError(e)),
        }
    }

    /// Fills the missing dst: res for an assertion, fp for a call.
    pub fn compute_dst_deductions(&mut self, dst_addr: &Relocatable, i: &Instruction, res: &Option<MaybeRelocatable>) -> (r: Result<
        MaybeRelocatable,
        VirtualMachineError,
    >)
        requires
            old(self).wf(),
        ensures
            unwrapped(r),
            final(self).wf(),
            old(self).same_but_memory(&*final(self)),
            old(self).memory.extends(&final(self).memory),
            dst_of(i, old(self).run_context.fp, opt_view(*res)) is None ==> r == Err::<MaybeRelocatable, VirtualMachineError>(
                VirtualMachineError::NoDst,
            ),
            r is Ok ==> Some(r->Ok_0@) == dst_of(i, old(self).run_context.fp, opt_view(*res)) && final(self).memory.cell_at(
                *dst_addr,
            ) == Some(r->Ok_0@),
            r is Ok && old(self).memory.cell_at(*dst_addr) is None ==> old(self).memory.same_but(
                &final(self).memory,
                old(self).memory.resolve(*dst_addr).segment_index as int,
                old(self).memory.resolve(*dst_addr).offset as int,
            ),
            r is Ok && old(self).memory.cell_at(*dst_addr) is Some ==> final(self).memory == old(self).memory,
            dst_of(i, old(self).run_context.fp, opt_view(*res)) is Some && old(self).memory.cell_at(*dst_addr) is None && old(
                self,
            ).memory.allocated(old(self).memory.resolve(*dst_addr).segment_index as int) ==> r is Ok,
            r is Err ==> final(self).memory == old(self).memory,
    {
        let dst = match self.deduce_dst(i, res.as_ref()) {
            Some(d) => d,
            None => {
                return Err(VirtualMachineError::NoDst);
            },
        };
        match self.memory.insert(dst_addr, &dst) {
            Ok(()) => Ok(dst),
            Err(e) => Err(VirtualMachineError::MemoryError(e)),
        }
    }

    /// Reads dst, op0 and op1, deduces those that memory lacks and writes them,
    /// and computes res. Returns the operands and their addresses.
    pub fn compute_operands(&mut self, i: &Instruction) -> (r: Result<(Operands, OperandsAddresses), VirtualMachineError>)
        requires
            old(self).wf(),
        ensures
            unwrapped(r),
            final(self).wf(),
            old(self).same_but_memory(&*final(self)),
            old(self).memory.extends(&final(self).memory),
            r is Ok ==> ({
                let ctx = old(self).run_context;
                let m = old(self).memory;
                let p = old(self).prime_val();
                let ops = r->Ok_0.0;
                let addrs = r->Ok_0.1;
                let d0 = m.value_at(addrs.0);
                let o0 = m.value_at(addrs.1);
                let o1 = m.value_at(addrs.2);
                &&& ctx.spec_dst_addr(i) == Some(addrs.0)
                &&& ctx.spec_op0_addr(i) == Some(addrs.1)
                &&& ctx.spec_op1_addr(i, o0) == Some(addrs.2)
                &&& d0 is Some ==> ops.dst@ == d0.unwrap()
                &&& o0 is Some ==> ops.op0@ == o0.unwrap()
                &&& o1 is Some ==> ops.op1@ == o1.unwrap()
                &&& final(self).memory.cell_at(addrs.0) is Some
                &&& final(self).memory.cell_at(addrs.1) is Some
                &&& final(self).memory.cell_at(addrs.2) is Some
                &&& o0 is Some && o1 is Some ==> opt_view(ops.res) == res_of(i, ops.op0@, ops.op1@, p).unwrap()
                &&& i.opcode == Opcode::AssertEq && i.res == Res::Add && no_builtin_at(
                    old(self).builtin_runners@,
                    addrs.1.segment_index as int,
                ) && no_builtin_at(old(self).builtin_runners@, addrs.2.segment_index as int) && exactly_one_none(d0, o0, o1)
                    ==> val_add(ops.op0@, ops.op1@, p) == Some(canon(ops.dst@, p))
            }),
            old(self).run_context.spec_dst_addr(i) is None || old(self).run_context.spec_op0_addr(i) is None ==> r is Err,
            forall|s: int| #[trigger] final(self).memory.rule(s) == old(self).memory.rule(s),
            forall|s: int| #[trigger] final(self).memory.allocated(s) == old(self).memory.allocated(s),
            forall|s: int, o: int|
                #[trigger] final(self).memory.cell(s, o) != old(self).memory.cell(s, o) ==> is_operand_cell(
                    &old(self).memory,
                    old(self).run_context,
                    i,
                    s,
                    o,
                ),
            r is Ok ==> op_addrs(&old(self).memory, old(self).run_context, i) == Some(
                (r->Ok_0.1.0, r->Ok_0.1.1, r->Ok_0.1.2),
            ),
            r is Ok && old(self).memory.value_at(r->Ok_0.1.0) is None ==> Some(r->Ok_0.0.dst@) == dst_of(
                i,
                old(self).run_context.fp,
                opt_view(r->Ok_0.0.res),
            ) && final(self).memory.cell_at(r->Ok_0.1.0) == Some(r->Ok_0.0.dst@),
            r is Ok && old(self).memory.value_at(r->Ok_0.1.1) is None ==> final(self).memory.cell_at(r->Ok_0.1.1) == Some(
                r->Ok_0.0.op0@,
            ),
            r is Ok && old(self).memory.value_at(r->Ok_0.1.2) is None ==> final(self).memory.cell_at(r->Ok_0.1.2) == Some(
                r->Ok_0.0.op1@,
            ),
            r is Ok && no_builtin_for_missing(&old(self).memory, old(self).builtin_runners@, (r->Ok_0.1.0, r->Ok_0.1.1, r->Ok_0.1.2))
                ==> deduced_operands(&old(self).memory, old(self).builtin_runners@, old(self).run_context, i, old(self).prime_val()) == Some(
                (r->Ok_0.0.dst@, opt_view(r->Ok_0.0.res), r->Ok_0.0.op0@, r->Ok_0.0.op1@),
            ),
            op_addrs(&old(self).memory, old(self).run_context, i) is Some && no_builtin_for_missing(
                &old(self).memory,
                old(self).builtin_runners@,
                op_addrs(&old(self).memory, old(self).run_context, i).unwrap(),
            ) && writes_fit(&old(self).memory, op_addrs(&old(self).memory, old(self).run_context, i).unwrap()) && deduced_operands(
                &old(self).memory,
                old(self).builtin_runners@,
                old(self).run_context,
                i,
                old(self).prime_val(),
            ) is Some ==> r is Ok,
            ({
                let m = old(self).memory;
                let a = op_addrs(&m, old(self).run_context, i);
                a is Some && m.value_at(a.unwrap().0) is None && m.value_at(a.unwrap().1) is Some && m.value_at(a.unwrap().2) is Some
                    && res_of(i, m.value_at(a.unwrap().1).unwrap(), m.value_at(a.unwrap().2).unwrap(), old(self).prime_val())
                    is Some && dst_of(
                    i,
                    old(self).run_context.fp,
                    res_of(i, m.value_at(a.unwrap().1).unwrap(), m.value_at(a.unwrap().2).unwrap(), old(self).prime_val()).unwrap(),
                ) is None ==> r == Err::<(Operands, OperandsAddresses), VirtualMachineError>(VirtualMachineError::NoDst)
            }),
            operands_in_memory(&old(self).memory, old(self).run_context, i) is Some && res_of(
                i,
                operands_in_memory(&old(self).memory, old(self).run_context, i).unwrap().1,
                operands_in_memory(&old(self).memory, old(self).run_context, i).unwrap().2,
                old(self).prime_val(),
            ) is Some ==> r is Ok,
    {
        let dst_addr = match self.run_context.compute_dst_addr(i) {
            Ok(a) => a,
            Err(e) => {
                return Err(e);
            },
        };
        let dst_op = self.memory.get(&dst_addr);
        let op0_addr = match self.run_context.compute_op0_addr(i) {
            Ok(a) => a,
            Err(e) => {
                return Err(e);
            },
        };
        let op0_op = self.memory.get(&op0_addr);
        let op1_addr = match self.run_context.compute_op1_addr(i, op0_op.as_ref()) {
            Ok(a) => a,
            Err(e) => {
                return Err(e);
            },
        };
        let op1_op = self.memory.get(&op1_addr);
        let ghost m0 = self.memory;
        let ghost vm0 = *self;
        let mut res: Option<MaybeRelocatable> = None;
        let op0 = match &op0_op {
            Some(v) => v.copy(),
            None => {
                proof {
                    lemma_no_builtin(self.builtin_runners@, op0_addr, &self.memory);
                }
                match self.compute_op0_deductions(&op0_addr, &mut res, i, &dst_op, &op1_op) {
                    Ok(v) => v,
                    Err(e) => {
                        return Err(e);
                    },
                }
            },
        };
        let ghost m1 = self.memory;
        let ghost res1 = opt_view(res);
        let op1 = match &op1_op {
            Some(v) => v.copy(),
            None => {
                proof {
                    lemma_no_builtin(self.builtin_runners@, op1_addr, &self.memory);
                    lemma_no_builtin(self.builtin_runners@, op1_addr, &m0);
                }
                match self.compute_op1_deductions(&op1_addr, &mut res, i, &dst_op, &op0) {
                    Ok(v) => v,
                    Err(e) => {
                        return Err(e);
                    },
                }
            },
        };
        let ghost m2 = self.memory;
        if res.is_none() {
            res = match self.compute_res(i, &op0, &op1) {
                Ok(v) => v,
                Err(e) => {
                    return Err(e);
                },
            };
        }
        let dst = match &dst_op {
            Some(v) => v.copy(),
            None => match self.compute_dst_deductions(&dst_addr, i, &res) {
                Ok(v) => v,
                Err(e) => {
                    return Err(e);
                },
            },
        };
        proof {
            let p = self.prime_val();
            assert(m0.cell_at(op0_addr) is Some ==> m1.cell_at(op0_addr) is Some);
            assert(m1.cell_at(op0_addr) is Some);
            assert(m2.cell_at(op0_addr) is Some);
            assert(m2.cell_at(op1_addr) is Some);
            if i.opcode == Opcode::AssertEq && i.res == Res::Add && no_builtin_at(vm0.builtin_runners@, op0_addr.segment_index as int)
                && no_builtin_at(vm0.builtin_runners@, op1_addr.segment_index as int) && exactly_one_none(
                opt_view(dst_op),
                opt_view(op0_op),
                opt_view(op1_op),
            ) {
                if op0_op is None {
                    lemma_sub_then_add(dst@, op1@, p);
                } else if op1_op is None {
                    lemma_sub_then_add(dst@, op0@, p);
                } else {
                    lemma_add_canon(op0@, op1@, p);
                }
            }
        }
        Ok((Operands { dst, res, op0, op1 }, OperandsAddresses(dst_addr, op0_addr, op1_addr)))
    }

    /// Updates fp, then ap, then pc, each from the registers before the step.
    pub fn update_registers(&mut self, i: &Instruction, ops: &Operands) -> (r: Result<(), VirtualMachineError>)
        requires
            old(self).wf(),
        ensures
            unwrapped(r),
            final(self).wf(),
            final(self).memory == old(self).memory,
            final(self).prime == old(self).prime,
            final(self).builtin_runners == old(self).builtin_runners,
            final(self).trace == old(self).trace,
            final(self).accessed_addresses == old(self).accessed_addresses,
            final(self).current_step == old(self).current_step,
            final(self).segments == old(self).segments,
            final(self).error_message_attributes == old(self).error_message_attributes,
            r is Ok <==> registers_after(old(self).run_context, i, ops.dst@, ops.op1@, opt_view(ops.res), old(self).prime_val()) is Some,
            r is Err ==> final(self).run_context.pc == old(self).run_context.pc,
            r is Ok ==> registers_after(old(self).run_context, i, ops.dst@, ops.op1@, opt_view(ops.res), old(self).prime_val())
                == Some((final(self).run_context.fp, final(self).run_context.ap, final(self).run_context.pc@)),
    {
        match self.update_fp(i, ops) {
            Ok(()) => {},
            Err(e) => {
                return Err(e);
            },
        }
        match self.update_ap(i, ops) {
            Ok(()) => {},
            Err(e) => {
                return Err(e);
            },
        }
        self.update_pc(i, ops)
    }

    /// Runs a decoded instruction: operands, opcode checks, trace and accessed
    /// addresses, register updates, and one more step.
    pub fn run_instruction(&mut self, i: Instruction) -> (r: Result<(), VirtualMachineError>)
        requires
            old(self).wf(),
            old(self).current_step < usize::MAX,
        ensures
            unwrapped(r),
            final(self).wf(),
            old(self).memory.extends(&final(self).memory),
            final(self).prime == old(self).prime,
            final(self).builtin_runners == old(self).builtin_runners,
            final(self).segments == old(self).segments,
            final(self).error_message_attributes == old(self).error_message_attributes,
            r is Ok ==> final(self).current_step == old(self).current_step + 1,
            r is Err ==> final(self).current_step == old(self).current_step,
            r is Ok ==> (old(self).trace is None ==> final(self).trace is None) && (old(self).trace is Some ==> final(self).trace
                is Some && final(self).trace->Some_0@ == old(self).trace->Some_0@.push(
                TraceEntry {
                    pc: old(self).run_context.pc,
                    ap: Relocatable { segment_index: EXECUTION_SEGMENT, offset: old(self).run_context.ap },
                    fp: Relocatable { segment_index: EXECUTION_SEGMENT, offset: old(self).run_context.fp },
                },
            )),
            r is Ok ==> accessed_after(
                old(self).accessed_addresses,
                final(self).accessed_addresses,
                &old(self).memory,
                old(self).run_context,
                &i,
            ),
            r is Ok ==> step_outcome(
                &old(self).memory,
                old(self).run_context,
                &i,
                old(self).prime_val(),
                (final(self).run_context.fp, final(self).run_context.ap, final(self).run_context.pc@),
            ),
            runs_from_memory(&old(self).memory, old(self).run_context, &i, old(self).prime_val()) ==> r is Ok,
            runs(&old(self).memory, old(self).builtin_runners@, old(self).run_context, &i, old(self).prime_val()) ==> r is Ok,
            r is Ok && op_addrs(&old(self).memory, old(self).run_context, &i) is Some && no_builtin_for_missing(
                &old(self).memory,
                old(self).builtin_runners@,
                op_addrs(&old(self).memory, old(self).run_context, &i).unwrap(),
            ) ==> run_registers(&old(self).memory, old(self).builtin_runners@, old(self).run_context, &i, old(self).prime_val()) == Some(
                (final(self).run_context.fp, final(self).run_context.ap, final(self).run_context.pc@),
            ),
            r is Err ==> final(self).run_context.pc == old(self).run_context.pc,
            forall|s: int| #[trigger] final(self).memory.rule(s) == old(self).memory.rule(s),
            forall|s: int| #[trigger] final(self).memory.allocated(s) == old(self).memory.allocated(s),
            forall|s: int, o: int|
                #[trigger] final(self).memory.cell(s, o) != old(self).memory.cell(s, o) ==> is_operand_cell(
                    &old(self).memory,
                    old(self).run_context,
                    &i,
                    s,
                    o,
                ),
            r is Ok && op_addrs(&old(self).memory, old(self).run_context, &i) is Some && no_builtin_for_missing(
                &old(self).memory,
                old(self).builtin_runners@,
                op_addrs(&old(self).memory, old(self).run_context, &i).unwrap(),
            ) ==> written_as_deduced(&old(self).memory, old(self).builtin_runners@, &final(self).memory, old(self).run_context, &i, old(self).prime_val()),
    {
        let (ops, addrs) = match self.compute_operands(&i) {
            Ok(x) => x,
            Err(e) => {
                return Err(e);
            },
        };
        match self.opcode_assertions(&i, &ops) {
            Ok(()) => {},
            Err(e) => {
                return Err(e);
            },
        }
        let ghost ctx = self.run_context;
        let entry = TraceEntry { pc: self.run_context.pc, ap: self.run_context.get_ap(), fp: self.run_context.get_fp() };
        match &mut self.trace {
            Some(t) => t.push(entry),
            None => {},
        }
        let pc = self.run_context.pc;
        match &mut self.accessed_addresses {
            Some(acc) => {
                let ghost before = acc@;
                acc.push(addrs.0);
                acc.push(addrs.1);
                acc.push(addrs.2);
                acc.push(pc);
                assert(acc@.take(before.len() as int) =~= before);
            },
            None => {},
        }
        match self.update_registers(&i, &ops) {
            Ok(()) => {},
            Err(e) => {
                return Err(e);
            },
        }
        proof {
            assert(self.run_context.fp == registers_after(ctx, &i, ops.dst@, ops.op1@, opt_view(ops.res), self.prime_val()).unwrap().0);
        }
        self.current_step = self.current_step + 1;
        Ok(())
    }

    /// The word at pc, which must be an integer, and the value after it, if any.
    pub fn get_instruction_encoding(&self) -> (r: Result<(Felt, Option<MaybeRelocatable>), VirtualMachineError>)
        requires
            self.wf(),
        ensures
            unwrapped(r),
            r is Ok <==> self.memory.value_at(self.run_context.pc) matches Some(Val::Int(_)),
            r is Ok ==> Some(Val::Int(r->Ok_0.0.val())) == self.memory.value_at(self.run_context.pc),
            r is Ok ==> opt_view(r->Ok_0.1) == match pc_plus(self.run_context.pc, 1) {
                Some(a) => self.memory.value_at(a),
                None => None::<Val>,
            },
            r is Err ==> r == Err::<(Felt, Option<MaybeRelocatable>), VirtualMachineError>(
                VirtualMachineError::InvalidInstructionEncoding,
            ),
    {
        let enc = match self.memory.get(&self.run_context.pc) {
            Some(MaybeRelocatable::Int(n)) => n,
            _ => {
                return Err(VirtualMachineError::InvalidInstructionEncoding);
            },
        };
        let imm = match self.run_context.pc.add_usize(1) {
            Some(a) => self.memory.get(&a),
            None => None,
        };
        Ok((enc, imm))
    }

    /// Decodes the instruction at pc; its word must fit in 63 bits.
    pub fn decode_current_instruction(&self) -> (r: Result<Instruction, VirtualMachineError>)
        requires
            self.wf(),
        ensures
            unwrapped(r),
            !(self.memory.value_at(self.run_context.pc) matches Some(Val::Int(n)) && n < 0x8000_0000_0000_0000) ==> r
                == Err::<Instruction, VirtualMachineError>(VirtualMachineError::InvalidInstructionEncoding),
            r is Ok ==> decoded_fields(word_at_pc(self), &r->Ok_0),
            word_fits(self) && crate::instruction::valid_flags(word_at_pc(self)) ==> r is Ok,
    {
        let (enc, imm) = match self.get_instruction_encoding() {
            Ok(x) => x,
            Err(e) => {
                return Err(e);
            },
        };
        let word: u64 = match enc.to_i64() {
            Some(w) => w as u64,
            None => {
                return Err(VirtualMachineError::InvalidInstructionEncoding);
            },
        };
        let imm_num = match imm {
            Some(MaybeRelocatable::Int(n)) => Some(n),
            _ => None,
        };
        decode_instruction(word, imm_num)
    }

    /// Decodes and runs the instruction at pc. An error raised at a pc that an
    /// error-message attribute covers comes wrapped in that attribute's text.
    #[verifier::rlimit(60)]
    pub fn step_instruction(&mut self) -> (r: Result<(), VirtualMachineError>)
        requires
            old(self).wf(),
        ensures
            final(self).wf(),
            old(self).memory.extends(&final(self).memory),
            final(self).prime == old(self).prime,
            final(self).builtin_runners == old(self).builtin_runners,
            final(self).segments == old(self).segments,
            r is Ok ==> final(self).current_step == old(self).current_step + 1,
            old(self).current_step == usize::MAX ==> r == Err::<(), VirtualMachineError>(VirtualMachineError::StepCounterOverflow)
                && *final(self) == *old(self),
            r is Err ==> final(self).current_step == old(self).current_step,
            r is Ok ==> (old(self).trace is Some ==> final(self).trace is Some && final(self).trace->Some_0@ == old(
                self,
            ).trace->Some_0@.push(
                TraceEntry {
                    pc: old(self).run_context.pc,
                    ap: Relocatable { segment_index: EXECUTION_SEGMENT, offset: old(self).run_context.ap },
                    fp: Relocatable { segment_index: EXECUTION_SEGMENT, offset: old(self).run_context.fp },
                },
            )),
            !(old(self).memory.value_at(old(self).run_context.pc) matches Some(Val::Int(n)) && n < 0x8000_0000_0000_0000)
                ==> r is Err && *final(self) == *old(self),
            old(self).current_step < usize::MAX && word_fits(old(self)) && crate::instruction::valid_flags(word_at_pc(old(self)))
                && (forall|i: Instruction|
                decoded_fields(word_at_pc(old(self)), &i) ==> #[trigger] runs_from_memory(
                    &old(self).memory,
                    old(self).run_context,
                    &i,
                    old(self).prime_val(),
                )) ==> r is Ok,
            old(self).current_step < usize::MAX && word_fits(old(self)) && crate::instruction::valid_flags(word_at_pc(old(self)))
                && (forall|i: Instruction|
                decoded_fields(word_at_pc(old(self)), &i) ==> #[trigger] runs(
                    &old(self).memory,
                    old(self).builtin_runners@,
                    old(self).run_context,
                    &i,
                    old(self).prime_val(),
                )) ==> r is Ok,
            r is Ok ==> exists|i: Instruction|
                decoded_fields(word_at_pc(old(self)), &i) && accessed_after(
                    old(self).accessed_addresses,
                    final(self).accessed_addresses,
                    &old(self).memory,
                    old(self).run_context,
                    &i,
                ) && #[trigger] step_effect(
                    &old(self).memory,
                    &final(self).memory,
                    old(self).builtin_runners@,
                    old(self).run_context,
                    &i,
                    old(self).prime_val(),
                    (final(self).run_context.fp, final(self).run_context.ap, final(self).run_context.pc@),
                ),
            forall|s: int| #[trigger] final(self).memory.rule(s) == old(self).memory.rule(s),
            forall|s: int| #[trigger] final(self).memory.allocated(s) == old(self).memory.allocated(s),
            forall|s: int, o: int|
                #[trigger] final(self).memory.cell(s, o) != old(self).memory.cell(s, o) ==> exists|i: Instruction|
                    decoded_fields(word_at_pc(old(self)), &i) && #[trigger] is_operand_cell(
                        &old(self).memory,
                        old(self).run_context,
                        &i,
                        s,
                        o,
                    ),
            r is Err && old(self).current_step < usize::MAX && word_fits(old(self)) && crate::instruction::valid_flags(
                word_at_pc(old(self)),
            ) && first_attribute(old(self).error_message_attributes@, old(self).run_context.pc.offset) is Some ==> r->Err_0 is ErrorMessageAttribute
                && r->Err_0->ErrorMessageAttribute_0@ == first_attribute(
                old(self).error_message_attributes@,
                old(self).run_context.pc.offset,
            ).unwrap() && !(*r->Err_0->ErrorMessageAttribute_1 is ErrorMessageAttribute),
            r is Err && first_attribute(old(self).error_message_attributes@, old(self).run_context.pc.offset) is None ==> !(r->Err_0 is ErrorMessageAttribute),
    {
        if self.current_step == usize::MAX {
            return Err(VirtualMachineError::StepCounterOverflow);
        }
        let instruction = match self.decode_current_instruction() {
            Ok(i) => i,
            Err(e) => {
                return Err(e);
            },
        };
        let ghost decoded = instruction;
        let ghost acc0 = self.accessed_addresses;
        let run = self.run_instruction(instruction);
        proof {
            assert(decoded_fields(word_at_pc(old(self)), &decoded));
            assert forall|s: int, o: int| #[trigger] self.memory.cell(s, o) != old(self).memory.cell(s, o) implies exists|
                i: Instruction,
            | decoded_fields(word_at_pc(old(self)), &i) && #[trigger] is_operand_cell(&old(self).memory, old(self).run_context, &i, s, o) by {
                assert(is_operand_cell(&old(self).memory, old(self).run_context, &decoded, s, o));
            }
        }
        match run {
            Ok(()) => {},
            Err(e) => {
                match attribute_message(&self.error_message_attributes, self.run_context.pc.offset) {
                    Some(msg) => {
                        return Err(VirtualMachineError::ErrorMessageAttribute(msg, Box::new(e)));
                    },
                    None => {},
                }
                return Err(e);
            },
        }
        self.skip_instruction_execution = false;
        assert(step_outcome(
            &old(self).memory,
            old(self).run_context,
            &decoded,
            old(self).prime_val(),
            (self.run_context.fp, self.run_context.ap, self.run_context.pc@),
        ));
        assert(accessed_after(acc0, self.accessed_addresses, &old(self).memory, old(self).run_context, &decoded));
        assert(step_effect(
            &old(self).memory,
            &self.memory,
            old(self).builtin_runners@,
            old(self).run_context,
            &decoded,
            old(self).prime_val(),
            (self.run_context.fp, self.run_context.ap, self.run_context.pc@),
        ));
        Ok(())
    }

    /// Checks every written cell of every builtin's segment against what the
    /// builtin deduces there.
    pub fn verify_auto_deductions(&self) -> (r: Result<(), VirtualMachineError>)
        requires
            self.wf(),
        ensures
            r is Ok <==> auto_deductions_hold(self.builtin_runners@, &self.memory),
            r is Err && r->Err_0 is InconsistentAutoDeduction ==> exists|k: int, off: int|
                0 <= k < self.builtin_runners@.len() && 0 <= off <= usize::MAX && #[trigger] first_inconsistent(
                    self.builtin_runners@,
                    &self.memory,
                    k,
                    off,
                ) && r->Err_0->InconsistentAutoDeduction_0@ == self.builtin_runners@[k].0@ && r->Err_0->InconsistentAutoDeduction_2
                    is Some && ({
                    let a = Relocatable { segment_index: self.builtin_runners@[k].1.spec_base(), offset: off as usize };
                    &&& self.memory.cell_at(a) == Some(r->Err_0->InconsistentAutoDeduction_2->Some_0@)
                    &&& self.builtin_runners@[k].1.spec_deduce(a, &self.memory) == Some(
                        Some(r->Err_0->InconsistentAutoDeduction_1@),
                    )
                    &&& r->Err_0->InconsistentAutoDeduction_1@ != r->Err_0->InconsistentAutoDeduction_2->Some_0@
                }),
    {
        let mut k: usize = 0;
        while k < self.builtin_runners.len()
            invariant
                self.wf(),
                k <= self.builtin_runners@.len(),
                forall|j: int| 0 <= j < k ==> #[trigger] builtin_consistent(self.builtin_runners@[j].1, &self.memory),
            decreases self.builtin_runners@.len() - k,
        {
            let name = &self.builtin_runners[k].0;
            let b = &self.builtin_runners[k].1;
            let base = b.base();
            if base < 0 {
                assert(!builtin_consistent(self.builtin_runners@[k as int].1, &self.memory));
                return Err(VirtualMachineError::MemoryError(MemoryError::AddressInTemporarySegment(base)));
            }
            let len = match self.memory.segment_len(base) {
                Some(l) => l,
                None => 0,
            };
            let mut off: usize = 0;
            while off < len
                invariant
                    self.wf(),
                    k < self.builtin_runners@.len(),
                    *b == self.builtin_runners@[k as int].1,
                    forall|j: int| 0 <= j < k ==> #[trigger] builtin_consistent(self.builtin_runners@[j].1, &self.memory),
                    *name == self.builtin_runners@[k as int].0,
                    off <= len,
                    base == b.spec_base(),
                    base >= 0,
                    self.memory.segment(base as int) is Some ==> len == self.memory.segment(base as int).unwrap().len(),
                    self.memory.segment(base as int) is None ==> len == 0,
                    forall|o: int| 0 <= o < off ==> #[trigger] cell_consistent(*b, &self.memory, o),
                decreases len - off,
            {
                let a = Relocatable { segment_index: base, offset: off };
                match self.memory.get_raw(&a) {
                    Some(v) => {
                        match b.deduce_memory_cell(&a, &self.memory) {
                            Ok(Some(d)) => {
                                if !d.eq(v) {
                                    assert(!cell_consistent(*b, &self.memory, off as int));
                                    assert(!builtin_consistent(self.builtin_runners@[k as int].1, &self.memory));
                                    assert(first_inconsistent(self.builtin_runners@, &self.memory, k as int, off as int));
                                    let n = name.clone();
                                    assert(n@ == name@);
                                    return Err(VirtualMachineError::InconsistentAutoDeduction(n, d, Some(v.copy())));
                                }
                            },
                            Ok(None) => {},
                            Err(e) => {
                                assert(!cell_consistent(*b, &self.memory, off as int));
                                assert(!builtin_consistent(self.builtin_runners@[k as int].1, &self.memory));
                                return Err(VirtualMachineError::RunnerError(e));
                            },
                        }
                    },
                    None => {},
                }
                off = off + 1;
            }
            proof {
                assert forall|o: int| 0 <= o <= usize::MAX implies #[trigger] cell_consistent(*b, &self.memory, o) by {
                    if o >= len {
                        assert(self.memory.cell_at(Relocatable { segment_index: base, offset: o as usize }) is None);
                    }
                }
            }
            k = k + 1;
        }
        Ok(())
    }

    /// Ends a run: checks the builtins' cells, and that exactly one scope is open.
    pub fn end_run(&self, exec_scopes_len: usize) -> (r: Result<(), VirtualMachineError>)
        requires
            self.wf(),
        ensures
            r is Ok <==> auto_deductions_hold(self.builtin_runners@, &self.memory) && exec_scopes_len == 1,
            auto_deductions_hold(self.builtin_runners@, &self.memory) && exec_scopes_len != 1 ==> r == Err::<
                (),
                VirtualMachineError,
            >(VirtualMachineError::NoScopeError),
    {
        match self.verify_auto_deductions() {
            Ok(()) => {},
            Err(e) => {
                return Err(e);
            },
        }
        if exec_scopes_len == 1 {
            Ok(())
        } else {
            Err(VirtualMachineError::NoScopeError)
        }
    }

    /// Adds a segment and returns its first address.
    pub fn add_memory_segment(&mut self) -> (r: Relocatable)
        requires
            old(self).wf(),
            old(self).memory.num_segments() < isize::MAX,
        ensures
            final(self).wf(),
            r == (Relocatable { segment_index: old(self).memory.num_segments() as isize, offset: 0 }),
            final(self).memory.num_segments() == old(self).memory.num_segments() + 1,
            final(self).memory.segment(r.segment_index as int) == Some(Seq::<Option<MaybeRelocatable>>::empty()),
            old(self).memory.extends(&final(self).memory),
            old(self).same_but_memory(&*final(self)),
    {
        self.segments.add(&mut self.memory)
    }

    /// Adds a temporary segment and returns its first address.
    pub fn add_temporary_segment(&mut self) -> (r: Relocatable)
        requires
            old(self).wf(),
            old(self).memory.num_temp_segments() < isize::MAX,
        ensures
            final(self).wf(),
            r.segment_index == -(old(self).memory.num_temp_segments() as int) - 1,
            r.offset == 0,
            final(self).memory.num_temp_segments() == old(self).memory.num_temp_segments() + 1,
            final(self).memory.segment(r.segment_index as int) == Some(Seq::<Option<MaybeRelocatable>>::empty()),
            old(self).memory.extends(&final(self).memory),
            old(self).same_but_memory(&*final(self)),
    {
        self.segments.add_temporary_segment(&mut self.memory)
    }

    pub fn get_ap(&self) -> (r: Relocatable)
        ensures
            r == (Relocatable { segment_index: EXECUTION_SEGMENT, offset: self.run_context.ap }),
    {
        self.run_context.get_ap()
    }

    pub fn get_fp(&self) -> (r: Relocatable)
        ensures
            r == (Relocatable { segment_index: EXECUTION_SEGMENT, offset: self.run_context.fp }),
    {
        self.run_context.get_fp()
    }

    pub fn get_pc(&self) -> (r: Relocatable)
        ensures
            r == self.run_context.pc,
    {
        self.run_context.pc
    }

    pub fn set_ap(&mut self, ap: usize)
        ensures
            *final(self) == (VirtualMachine { run_context: RunContext { ap, ..old(self).run_context }, ..*old(self) }),
    {
        self.run_context.ap = ap;
    }

    pub fn set_fp(&mut self, fp: usize)
        ensures
            *final(self) == (VirtualMachine { run_context: RunContext { fp, ..old(self).run_context }, ..*old(self) }),
    {
        self.run_context.fp = fp;
    }

    pub fn set_pc(&mut self, pc: Relocatable)
        ensures
            *final(self) == (VirtualMachine { run_context: RunContext { pc, ..old(self).run_context }, ..*old(self) }),
    {
        self.run_context.pc = pc;
    }

    pub fn get_trace(&self) -> (r: Option<&Vec<TraceEntry>>)
        ensures
            r == match &self.trace {
                Some(t) => Some(t),
                None => None::<&Vec<TraceEntry>>,
            },
    {
        self.trace.as_ref()
    }

    pub fn disable_trace(&mut self)
        ensures
            *final(self) == (VirtualMachine { trace: None, ..*old(self) }),
    {
        self.trace = None;
    }

    pub fn get_builtin_runners_as_mut(&mut self) -> (r: &mut Vec<(String, BuiltinRunner)>)
        ensures
            *r == old(self).builtin_runners,
            *final(self) == (VirtualMachine { builtin_runners: *final(r), ..*old(self) }),
    {
        &mut self.builtin_runners
    }

    pub fn get_builtin_runners(&self) -> (r: &Vec<(String, BuiltinRunner)>)
        ensures
            r == &self.builtin_runners,
    {
        &self.builtin_runners
    }

    /// The integer at `key`, or `ExpectedInteger`.
    pub fn get_integer(&self, key: &Relocatable) -> (r: Result<Felt, VirtualMachineError>)
        requires
            self.wf(),
        ensures
            self.memory.value_at(*key) matches Some(Val::Int(n)) ==> r is Ok && r->Ok_0.val() == n,
            !(self.memory.value_at(*key) matches Some(Val::Int(_))) ==> r == Err::<Felt, VirtualMachineError>(
                VirtualMachineError::ExpectedInteger(*key),
            ),
    {
        self.memory.get_integer(key)
    }

    /// The address at `key`, or `ExpectedRelocatable`.
    pub fn get_relocatable(&self, key: &Relocatable) -> (r: Result<Relocatable, VirtualMachineError>)
        requires
            self.wf(),
        ensures
            self.memory.value_at(*key) matches Some(Val::Addr(s, o)) ==> r is Ok && r->Ok_0@ == Val::Addr(s, o),
            !(self.memory.value_at(*key) matches Some(Val::Addr(_, _))) ==> r == Err::<Relocatable, VirtualMachineError>(
                VirtualMachineError::ExpectedRelocatable(*key),
            ),
    {
        self.memory.get_relocatable(key)
    }

    /// The value at `key`, if any.
    pub fn get_maybe(&self, key: &Relocatable) -> (r: Result<Option<MaybeRelocatable>, MemoryError>)
        requires
            self.wf(),
        ensures
            r is Ok && opt_view(r->Ok_0) == self.memory.value_at(*key),
    {
        Ok(self.memory.get(key))
    }

    /// Writes `val` at `key`; write-once.
    pub fn insert_value(&mut self, key: &Relocatable, val: &MaybeRelocatable) -> (r: Result<(), VirtualMachineError>)
        requires
            old(self).wf(),
        ensures
            final(self).wf(),
            old(self).same_but_memory(&*final(self)),
            old(self).memory.extends(&final(self).memory),
            !old(self).memory.allocated(old(self).memory.resolve(*key).segment_index as int) ==> r is Err && final(self).memory
                == old(self).memory,
            old(self).memory.allocated(old(self).memory.resolve(*key).segment_index as int) && old(self).memory.cell_at(*key) is None
                ==> r is Ok && final(self).memory.cell_at(*key) == Some(val@) && old(self).memory.same_but(
                &final(self).memory,
                old(self).memory.resolve(*key).segment_index as int,
                old(self).memory.resolve(*key).offset as int,
            ),
            old(self).memory.cell_at(*key) == Some(val@) ==> r is Ok && final(self).memory == old(self).memory,
            old(self).memory.cell_at(*key) is Some && old(self).memory.cell_at(*key).unwrap() != val@ ==> r is Err
                && final(self).memory == old(self).memory && r->Err_0 is MemoryError && r->Err_0->MemoryError_0 is InconsistentMemory
                && r->Err_0->MemoryError_0->InconsistentMemory_0@ == key@ && r->Err_0->MemoryError_0->InconsistentMemory_1@ == old(
                self,
            ).memory.cell_at(*key).unwrap() && r->Err_0->MemoryError_0->InconsistentMemory_2@ == val@,
    {
        match self.memory.insert(key, val) {
            Ok(()) => Ok(()),
            Err(e) => Err(VirtualMachineError::MemoryError(e)),
        }
    }

    /// Writes `data` from `ptr` on and returns the address after it.
    pub fn load_data(&mut self, ptr: &MaybeRelocatable, data: &Vec<MaybeRelocatable>) -> (r: Result<MaybeRelocatable, MemoryError>)
        requires
            old(self).wf(),
        ensures
            final(self).wf(),
            old(self).same_but_memory(&*final(self)),
            old(self).memory.extends(&final(self).memory),
            ptr is Int ==> r == Err::<MaybeRelocatable, MemoryError>(MemoryError::AddressNotRelocatable),
            ptr is RelocatableValue && ptr->RelocatableValue_0.offset + data@.len() > usize::MAX ==> r == Err::<
                MaybeRelocatable,
                MemoryError,
            >(MemoryError::NumOutOfBounds),
            ptr is RelocatableValue && ptr->RelocatableValue_0.offset + data@.len() <= usize::MAX
                && crate::segments::no_rule_at(&old(self).memory, ptr->RelocatableValue_0.segment_index as int) ==> (r is Ok <==> (
            data@.len() == 0 || old(self).memory.allocated(ptr->RelocatableValue_0.segment_index as int)) && forall|i: int|
                0 <= i < data@.len() ==> #[trigger] old(self).memory.cell_at(crate::relocatable::nth(ptr->RelocatableValue_0, i))
                    is None || old(self).memory.cell_at(crate::relocatable::nth(ptr->RelocatableValue_0, i)) == Some(data@[i]@)),
            r is Ok ==> ptr is RelocatableValue && r->Ok_0@ == Val::Addr(
                ptr->RelocatableValue_0.segment_index as int,
                (ptr->RelocatableValue_0.offset + data@.len()) as nat,
            ) && forall|i: int| 0 <= i < data@.len() ==> #[trigger] final(self).memory.cell_at(
                crate::relocatable::nth(ptr->RelocatableValue_0, i),
            ) == Some(data@[i]@),
    {
        self.segments.load_data(&mut self.memory, ptr, data)
    }

    /// The `n_ret` values just below ap.
    pub fn get_return_values(&self, n_ret: usize) -> (r: Result<Vec<MaybeRelocatable>, MemoryError>)
        requires
            self.wf(),
        ensures
            n_ret > self.run_context.ap ==> r == Err::<Vec<MaybeRelocatable>, MemoryError>(MemoryError::NumOutOfBounds),
            n_ret <= self.run_context.ap && (forall|i: int| 0 <= i < n_ret ==> #[trigger] self.memory.value_at(
                Relocatable { segment_index: EXECUTION_SEGMENT, offset: (self.run_context.ap - n_ret + i) as usize },
            ) is Some) ==> r is Ok && r->Ok_0@.len() == n_ret && forall|i: int|
                0 <= i < n_ret ==> Some(#[trigger] r->Ok_0@[i]@) == self.memory.value_at(
                    Relocatable { segment_index: EXECUTION_SEGMENT, offset: (self.run_context.ap - n_ret + i) as usize },
                ),
    {
        let addr = match self.run_context.get_ap().sub_usize(n_ret) {
            Some(a) => a,
            None => {
                return Err(MemoryError::NumOutOfBounds);
            },
        };
        let r = self.memory.get_continuous_range(&MaybeRelocatable::RelocatableValue(addr), n_ret);
        proof {
            assert forall|i: int| 0 <= i < n_ret implies crate::relocatable::nth(addr, i) == (Relocatable {
                segment_index: EXECUTION_SEGMENT,
                offset: (self.run_context.ap - n_ret + i) as usize,
            }) by {}
        }
        r
    }

    /// The `size` values from `addr` on, `None` at holes.
    pub fn get_range(&self, addr: &MaybeRelocatable, size: usize) -> (r: Result<Vec<Option<MaybeRelocatable>>, MemoryError>)
        requires
            self.wf(),
        ensures
            addr is Int ==> r == Err::<Vec<Option<MaybeRelocatable>>, MemoryError>(MemoryError::AddressNotRelocatable),
            addr is RelocatableValue && addr->RelocatableValue_0.offset + size > usize::MAX ==> r == Err::<
                Vec<Option<MaybeRelocatable>>,
                MemoryError,
            >(MemoryError::NumOutOfBounds),
            addr is RelocatableValue && addr->RelocatableValue_0.offset + size <= usize::MAX ==> (r is Ok && r->Ok_0@.len()
                == size && forall|i: int| 0 <= i < size ==> opt_view(#[trigger] r->Ok_0@[i]) == self.memory.value_at(
                crate::relocatable::nth(addr->RelocatableValue_0, i),
            )),
    {
        self.memory.get_range(addr, size)
    }

    /// The `size` values from `addr` on; `GetRangeMemoryGap` at a hole.
    pub fn get_continuous_range(&self, addr: &MaybeRelocatable, size: usize) -> (r: Result<Vec<MaybeRelocatable>, MemoryError>)
        requires
            self.wf(),
        ensures
            addr is Int ==> r == Err::<Vec<MaybeRelocatable>, MemoryError>(MemoryError::AddressNotRelocatable),
            addr is RelocatableValue && addr->RelocatableValue_0.offset + size <= usize::MAX && (forall|i: int|
                0 <= i < size ==> #[trigger] self.memory.value_at(crate::relocatable::nth(addr->RelocatableValue_0, i)) is Some)
                ==> r is Ok && r->Ok_0@.len() == size && forall|i: int| 0 <= i < size ==> Some(#[trigger] r->Ok_0@[i]@)
                == self.memory.value_at(crate::relocatable::nth(addr->RelocatableValue_0, i)),
            addr is RelocatableValue && addr->RelocatableValue_0.offset + size <= usize::MAX && (exists|i: int|
                0 <= i < size && #[trigger] self.memory.value_at(crate::relocatable::nth(addr->RelocatableValue_0, i)) is None)
                ==> r == Err::<Vec<MaybeRelocatable>, MemoryError>(MemoryError::GetRangeMemoryGap),
    {
        self.memory.get_continuous_range(addr, size)
    }

    /// The `size` integers from `addr` on; `ExpectedInteger` at the first cell
    /// that holds none.
    pub fn get_integer_range(&self, addr: &Relocatable, size: usize) -> (r: Result<Vec<Felt>, VirtualMachineError>)
        requires
            self.wf(),
            addr.offset + size <= usize::MAX,
        ensures
            r is Ok <==> forall|i: int| 0 <= i < size ==> #[trigger] self.memory.value_at(crate::relocatable::nth(*addr, i)) matches Some(
                Val::Int(_),
            ),
            r is Ok ==> r->Ok_0@.len() == size && forall|i: int| 0 <= i < size ==> Some(Val::Int(#[trigger] r->Ok_0@[i].val()))
                == self.memory.value_at(crate::relocatable::nth(*addr, i)),
    {
        let mut out: Vec<Felt> = Vec::new();
        let mut i: usize = 0;
        while i < size
            invariant
                self.wf(),
                addr.offset + size <= usize::MAX,
                i <= size,
                out@.len() == i,
                forall|k: int| 0 <= k < i ==> Some(Val::Int(#[trigger] out@[k].val())) == self.memory.value_at(
                    crate::relocatable::nth(*addr, k),
                ),
            decreases size - i,
        {
            let a = Relocatable { segment_index: addr.segment_index, offset: addr.offset + i };
            assert(a == crate::relocatable::nth(*addr, i as int));
            match self.memory.get_integer(&a) {
                Ok(n) => out.push(n),
                Err(e) => {
                    assert(!(self.memory.value_at(crate::relocatable::nth(*addr, i as int)) matches Some(Val::Int(_))));
                    return Err(e);
                },
            }
            i = i + 1;
        }
        assert forall|k: int| 0 <= k < size implies #[trigger] self.memory.value_at(crate::relocatable::nth(*addr, k)) matches Some(
            Val::Int(_),
        ) by {
            assert(Some(Val::Int(out@[k].val())) == self.memory.value_at(crate::relocatable::nth(*addr, k)));
        }
        Ok(out)
    }

    /// The used size of segment `index`, once sizes were computed.
    pub fn get_segment_used_size(&self, index: usize) -> (r: Option<usize>)
        ensures
            r == match self.segments.segment_used_sizes {
                Some(v) => if index < v@.len() {
                    Some(v@[index as int])
                } else {
                    None
                },
                None => None,
            },
    {
        self.segments.get_segment_used_size(index)
    }

    /// Adds the rule that temporary segment `src_ptr.segment_index` reads as
    /// starting at `dst_ptr`.
    pub fn add_relocation_rule(&mut self, src_ptr: Relocatable, dst_ptr: Relocatable) -> (r: Result<(), MemoryError>)
        requires
            old(self).wf(),
        ensures
            final(self).wf(),
            old(self).same_but_memory(&*final(self)),
            old(self).memory.extends(&final(self).memory),
            src_ptr.segment_index >= 0 ==> r == Err::<(), MemoryError>(MemoryError::AddressNotInTemporarySegment(src_ptr.segment_index)),
            src_ptr.segment_index < 0 && src_ptr.offset != 0 ==> r == Err::<(), MemoryError>(MemoryError::NonZeroOffset(src_ptr.offset)),
            src_ptr.segment_index < 0 && src_ptr.offset == 0 && old(self).memory.rule(src_ptr.segment_index as int) is Some ==> r
                == Err::<(), MemoryError>(MemoryError::DuplicatedRelocation(src_ptr.segment_index)),
            src_ptr.segment_index < 0 && src_ptr.offset == 0 && old(self).memory.rule(src_ptr.segment_index as int) is None ==> r
                is Ok && final(self).memory.rule(src_ptr.segment_index as int) == Some(dst_ptr),
    {
        self.memory.add_relocation_rule(src_ptr, dst_ptr)
    }
}

} // verus!
