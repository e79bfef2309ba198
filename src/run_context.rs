//! The registers `pc`, `ap` and `fp`, and the operand addresses they give.
use crate::errors::{unwrapped, VirtualMachineError};
use crate::instruction::{Instruction, Op1Addr, Register};
use crate::relocatable::{MaybeRelocatable, Relocatable, Val};
use vstd::prelude::*;

verus! {

/// The segment that `ap` and `fp` point into.
pub const EXECUTION_SEGMENT: isize = 1;

#[derive(Clone, Copy, Debug, PartialEq, Eq, Structural)]
pub struct RunContext {
    pub pc: Relocatable,
    pub ap: usize,
    pub fp: usize,
}

/// `(seg, base + off)`, where that offset is a `usize`.
pub open spec fn offset_addr(seg: isize, base: int, off: int) -> Option<Relocatable> {
    if 0 <= base + off <= usize::MAX {
        Some(Relocatable { segment_index: seg, offset: (base + off) as usize })
    } else {
        None
    }
}

impl RunContext {
    pub open spec fn reg(&self, r: Register) -> int {
        match r {
            Register::AP => self.ap as int,
            Register::FP => self.fp as int,
        }
    }

    pub open spec fn spec_dst_addr(&self, i: &Instruction) -> Option<Relocatable> {
        offset_addr(EXECUTION_SEGMENT, self.reg(i.dst_register), i.off0 as int)
    }

    pub open spec fn spec_op0_addr(&self, i: &Instruction) -> Option<Relocatable> {
        offset_addr(EXECUTION_SEGMENT, self.reg(i.op0_register), i.off1 as int)
    }

    /// The address of op1, given the value read at op0's address.
    pub open spec fn spec_op1_addr(&self, i: &Instruction, op0: Option<Val>) -> Option<Relocatable> {
        match i.op1_addr {
            Op1Addr::FP => offset_addr(EXECUTION_SEGMENT, self.fp as int, i.off2 as int),
            Op1Addr::AP => offset_addr(EXECUTION_SEGMENT, self.ap as int, i.off2 as int),
            Op1Addr::Imm => if i.off2 == 1 {
                offset_addr(self.pc.segment_index, self.pc.offset as int, 1)
            } else {
                None
            },
            Op1Addr::Op0 => match op0 {
                Some(Val::Addr(s, o)) => if isize::MIN <= s <= isize::MAX {
                    offset_addr(s as isize, o as int, i.off2 as int)
                } else {
                    None
                },
                _ => None,
            },
        }
    }

    pub fn get_ap(&self) -> (r: Relocatable)
        ensures
            r == (Relocatable { segment_index: EXECUTION_SEGMENT, offset: self.ap }),
    {
        Relocatable { segment_index: EXECUTION_SEGMENT, offset: self.ap }
    }

    pub fn get_fp(&self) -> (r: Relocatable)
        ensures
            r == (Relocatable { segment_index: EXECUTION_SEGMENT, offset: self.fp }),
    {
        Relocatable { segment_index: EXECUTION_SEGMENT, offset: self.fp }
    }

    pub fn get_pc(&self) -> (r: Relocatable)
        ensures
            r == self.pc,
    {
        self.pc
    }

    pub fn set_ap(&mut self, ap: usize)
        ensures
            *final(self) == (RunContext { ap, ..*old(self) }),
    {
        self.ap = ap;
    }

    pub fn set_fp(&mut self, fp: usize)
        ensures
            *final(self) == (RunContext { fp, ..*old(self) }),
    {
        self.fp = fp;
    }

    pub fn set_pc(&mut self, pc: Relocatable)
        ensures
            *final(self) == (RunContext { pc, ..*old(self) }),
    {
        self.pc = pc;
    }

    pub fn compute_dst_addr(&self, i: &Instruction) -> (r: Result<Relocatable, VirtualMachineError>)
        ensures
            unwrapped(r),
            self.spec_dst_addr(i) matches Some(a) ==> r == Ok::<Relocatable, VirtualMachineError>(a),
            self.spec_dst_addr(i) is None ==> r is Err,
    {
        let base = match i.dst_register {
            Register::AP => self.ap,
            Register::FP => self.fp,
        };
        offset_from(EXECUTION_SEGMENT, base, i.off0)
    }

    pub fn compute_op0_addr(&self, i: &Instruction) -> (r: Result<Relocatable, VirtualMachineError>)
        ensures
            unwrapped(r),
            self.spec_op0_addr(i) matches Some(a) ==> r == Ok::<Relocatable, VirtualMachineError>(a),
            self.spec_op0_addr(i) is None ==> r is Err,
    {
        let base = match i.op0_register {
            Register::AP => self.ap,
            Register::FP => self.fp,
        };
        offset_from(EXECUTION_SEGMENT, base, i.off1)
    }

    /// The address of op1: `pc + 1` for an immediate, a register plus `off2`, or
    /// the address held in op0 plus `off2`.
    pub fn compute_op1_addr(&self, i: &Instruction, op0: Option<&MaybeRelocatable>) -> (r: Result<Relocatable, VirtualMachineError>)
        ensures
            unwrapped(r),
            ({
                let v = match op0 {
                    Some(x) => Some(x@),
                    None => None,
                };
                &&& self.spec_op1_addr(i, v) matches Some(a) ==> r == Ok::<Relocatable, VirtualMachineError>(a)
                &&& self.spec_op1_addr(i, v) is None ==> r is Err
                &&& i.op1_addr == Op1Addr::Imm && i.off2 != 1 ==> r == Err::<Relocatable, VirtualMachineError>(
                    VirtualMachineError::ImmShouldBe1,
                )
                &&& i.op1_addr == Op1Addr::Op0 && op0 is None ==> r == Err::<Relocatable, VirtualMachineError>(
                    VirtualMachineError::UnknownOp0,
                )
                &&& i.op1_addr == Op1Addr::Op0 && op0 is Some && op0.unwrap() is Int ==> r == Err::<
                    Relocatable,
                    VirtualMachineError,
                >(VirtualMachineError::PureValue)
            }),
    {
        match i.op1_addr {
            Op1Addr::FP => offset_from(EXECUTION_SEGMENT, self.fp, i.off2),
            Op1Addr::AP => offset_from(EXECUTION_SEGMENT, self.ap, i.off2),
            Op1Addr::Imm => {
                if i.off2 == 1 {
                    offset_from(self.pc.segment_index, self.pc.offset, 1)
                } else {
                    Err(VirtualMachineError::ImmShouldBe1)
                }
            },
            Op1Addr::Op0 => match op0 {
                Some(MaybeRelocatable::RelocatableValue(a)) => offset_from(a.segment_index, a.offset, i.off2),
                Some(MaybeRelocatable::Int(_)) => Err(VirtualMachineError::PureValue),
                None => Err(VirtualMachineError::UnknownOp0),
            },
        }
    }
}

/// `(seg, base + off)`; `CantSubOffset` below zero, `OffsetOverflow` above `usize::MAX`.
fn offset_from(seg: isize, base: usize, off: isize) -> (r: Result<Relocatable, VirtualMachineError>)
    ensures
        unwrapped(r),
        offset_addr(seg, base as int, off as int) matches Some(a) ==> r == Ok::<Relocatable, VirtualMachineError>(a),
        offset_addr(seg, base as int, off as int) is None ==> r is Err,
{
    if off < 0 {
        let m: usize = if off == isize::MIN {
            (isize::MAX as usize) + 1
        } else {
            (-off) as usize
        };
        if m <= base {
            Ok(Relocatable { segment_index: seg, offset: base - m })
        } else {
            Err(VirtualMachineError::CantSubOffset(base, m))
        }
    } else {
        match base.checked_add(off as usize) {
            Some(o) => Ok(Relocatable { segment_index: seg, offset: o }),
            None => Err(VirtualMachineError::OffsetOverflow(base, off as usize)),
        }
    }
}

} // verus!
