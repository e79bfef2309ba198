//! Decoded instructions and the decoder of instruction words.
use crate::errors::{unwrapped, VirtualMachineError};
use crate::felt::Felt;
use vstd::prelude::*;

verus! {

#[derive(Clone, Copy, Debug, PartialEq, Eq, Structural)]
pub enum Register {
    AP,
    FP,
}

#[derive(Clone, Copy, Debug, PartialEq, Eq, Structural)]
pub enum Op1Addr {
    Imm,
    AP,
    FP,
    Op0,
}

#[derive(Clone, Copy, Debug, PartialEq, Eq, Structural)]
pub enum Res {
    Op1,
    Add,
    Mul,
    Unconstrained,
}

#[derive(Clone, Copy, Debug, PartialEq, Eq, Structural)]
pub enum PcUpdate {
    Regular,
    Jump,
    JumpRel,
    Jnz,
}

#[derive(Clone, Copy, Debug, PartialEq, Eq, Structural)]
pub enum ApUpdate {
    Regular,
    Add,
    Add1,
    Add2,
}

#[derive(Clone, Copy, Debug, PartialEq, Eq, Structural)]
pub enum FpUpdate {
    Regular,
    APPlus2,
    Dst,
}

#[derive(Clone, Copy, Debug, PartialEq, Eq, Structural)]
pub enum Opcode {
    NOp,
    AssertEq,
    Call,
    Ret,
}

#[derive(Debug)]
pub struct Instruction {
    pub off0: isize,
    pub off1: isize,
    pub off2: isize,
    pub imm: Option<Felt>,
    pub dst_register: Register,
    pub op0_register: Register,
    pub op1_addr: Op1Addr,
    pub res: Res,
    pub pc_update: PcUpdate,
    pub ap_update: ApUpdate,
    pub fp_update: FpUpdate,
    pub opcode: Opcode,
}

impl Instruction {
    pub open spec fn spec_size(&self) -> usize {
        if self.op1_addr == Op1Addr::Imm {
            2
        } else {
            1
        }
    }

    /// Words the instruction takes: two with an immediate, else one.
    pub fn size(&self) -> (r: usize)
        ensures
            r == self.spec_size(),
    {
        match self.op1_addr {
            Op1Addr::Imm => 2,
            _ => 1,
        }
    }
}

/// The flag bits of an instruction word (bits 48 to 63).
pub open spec fn flags_of(enc: u64) -> u64 {
    enc / 0x1_0000_0000_0000
}

/// A biased 16-bit offset: the field at bit `16 * k`, less `2^15`.
pub open spec fn offset_of(enc: u64, k: nat) -> int {
    (enc as int / pow_16(k)) % 0x1_0000 - 0x8000
}

pub open spec fn pow_16(k: nat) -> int {
    if k == 0 {
        1
    } else if k == 1 {
        0x1_0000
    } else {
        0x1_0000_0000
    }
}

pub open spec fn op1_addr_of(n: u64) -> Option<Op1Addr> {
    if n == 0 {
        Some(Op1Addr::Op0)
    } else if n == 1 {
        Some(Op1Addr::Imm)
    } else if n == 2 {
        Some(Op1Addr::FP)
    } else if n == 4 {
        Some(Op1Addr::AP)
    } else {
        None
    }
}

pub open spec fn pc_update_of(n: u64) -> Option<PcUpdate> {
    if n == 0 {
        Some(PcUpdate::Regular)
    } else if n == 1 {
        Some(PcUpdate::Jump)
    } else if n == 2 {
        Some(PcUpdate::JumpRel)
    } else if n == 4 {
        Some(PcUpdate::Jnz)
    } else {
        None
    }
}

/// The result mode: `0` leaves the result unconstrained under a conditional jump.
pub open spec fn res_of(n: u64, pc: PcUpdate) -> Option<Res> {
    if n == 0 && pc == PcUpdate::Jnz {
        Some(Res::Unconstrained)
    } else if n == 0 {
        Some(Res::Op1)
    } else if n == 1 {
        Some(Res::Add)
    } else if n == 2 {
        Some(Res::Mul)
    } else {
        None
    }
}

pub open spec fn opcode_of(n: u64) -> Option<Opcode> {
    if n == 0 {
        Some(Opcode::NOp)
    } else if n == 1 {
        Some(Opcode::Call)
    } else if n == 2 {
        Some(Opcode::Ret)
    } else if n == 4 {
        Some(Opcode::AssertEq)
    } else {
        None
    }
}

/// The ap update: `0` means `ap += 2` for a call.
pub open spec fn ap_update_of(n: u64, op: Opcode) -> Option<ApUpdate> {
    if n == 0 && op == Opcode::Call {
        Some(ApUpdate::Add2)
    } else if n == 0 {
        Some(ApUpdate::Regular)
    } else if n == 1 {
        Some(ApUpdate::Add)
    } else if n == 2 {
        Some(ApUpdate::Add1)
    } else {
        None
    }
}

pub open spec fn fp_update_of(op: Opcode) -> FpUpdate {
    match op {
        Opcode::Call => FpUpdate::APPlus2,
        Opcode::Ret => FpUpdate::Dst,
        _ => FpUpdate::Regular,
    }
}

pub open spec fn register_of(bit: u64) -> Register {
    if bit == 1 {
        Register::FP
    } else {
        Register::AP
    }
}

/// The flag groups of `enc` are all valid.
pub open spec fn valid_flags(enc: u64) -> bool {
    let f = flags_of(enc);
    let pc = pc_update_of((f / 128) % 8);
    let opc = opcode_of((f / 4096) % 8);
    &&& f < 0x8000
    &&& op1_addr_of((f / 4) % 8) is Some
    &&& pc is Some
    &&& res_of((f / 32) % 4, pc.unwrap()) is Some
    &&& opc is Some
    &&& ap_update_of((f / 1024) % 4, opc.unwrap()) is Some
}

/// `i` is what `enc` encodes, its immediate aside.
pub open spec fn decoded_fields(enc: u64, i: &Instruction) -> bool {
    let f = flags_of(enc);
    let op1 = op1_addr_of((f / 4) % 8);
    let pc = pc_update_of((f / 128) % 8);
    let opc = opcode_of((f / 4096) % 8);
    &&& valid_flags(enc)
    &&& i.off0 == offset_of(enc, 0)
    &&& i.off1 == offset_of(enc, 1)
    &&& i.off2 == offset_of(enc, 2)
    &&& i.dst_register == register_of(f % 2)
    &&& i.op0_register == register_of((f / 2) % 2)
    &&& i.op1_addr == op1.unwrap()
    &&& i.res == res_of((f / 32) % 4, pc.unwrap()).unwrap()
    &&& i.pc_update == pc.unwrap()
    &&& i.opcode == opc.unwrap()
    &&& i.ap_update == ap_update_of((f / 1024) % 4, opc.unwrap()).unwrap()
    &&& i.fp_update == fp_update_of(opc.unwrap())
}

/// Decodes an instruction word. The immediate is kept only where op1 is one.
pub fn decode_instruction(enc: u64, imm: Option<Felt>) -> (r: Result<Instruction, VirtualMachineError>)
    ensures
        unwrapped(r),
        r is Ok <==> valid_flags(enc),
        r is Ok ==> decoded_fields(enc, &r->Ok_0) && r->Ok_0.imm == if r->Ok_0.op1_addr == Op1Addr::Imm {
            imm
        } else {
            None
        },
        ({
            let f = flags_of(enc);
            let op1 = op1_addr_of((f / 4) % 8);
            let pc = pc_update_of((f / 128) % 8);
            let opc = opcode_of((f / 4096) % 8);
            &&& f >= 0x8000 ==> r == Err::<Instruction, VirtualMachineError>(VirtualMachineError::NonZeroHighBit)
            &&& f < 0x8000 && op1 is None ==> r == Err::<Instruction, VirtualMachineError>(
                VirtualMachineError::InvalidOp1Reg((f / 4) % 8),
            )
            &&& f < 0x8000 && op1 is Some && pc is None ==> r == Err::<Instruction, VirtualMachineError>(
                VirtualMachineError::InvalidPcUpdate((f / 128) % 8),
            )
            &&& f < 0x8000 && op1 is Some && pc is Some && res_of((f / 32) % 4, pc.unwrap()) is None ==> r == Err::<
                Instruction,
                VirtualMachineError,
            >(VirtualMachineError::InvalidRes((f / 32) % 4))
            &&& f < 0x8000 && op1 is Some && pc is Some && res_of((f / 32) % 4, pc.unwrap()) is Some && opc is None ==> r
                == Err::<Instruction, VirtualMachineError>(VirtualMachineError::InvalidOpcode((f / 4096) % 8))
            &&& f < 0x8000 && op1 is Some && pc is Some && res_of((f / 32) % 4, pc.unwrap()) is Some && opc is Some
                && ap_update_of((f / 1024) % 4, opc.unwrap()) is None ==> r == Err::<Instruction, VirtualMachineError>(
                VirtualMachineError::InvalidApUpdate((f / 1024) % 4),
            )
        }),
{
    let flags: u64 = enc / 0x1_0000_0000_0000;
    if flags >= 0x8000 {
        return Err(VirtualMachineError::NonZeroHighBit);
    }
    let off0: isize = (enc % 0x1_0000) as isize - 0x8000;
    let off1: isize = ((enc / 0x1_0000) % 0x1_0000) as isize - 0x8000;
    let off2: isize = ((enc / 0x1_0000_0000) % 0x1_0000) as isize - 0x8000;
    let dst_register = if flags % 2 == 1 {
        Register::FP
    } else {
        Register::AP
    };
    let op0_register = if (flags / 2) % 2 == 1 {
        Register::FP
    } else {
        Register::AP
    };
    let op1_num = (flags / 4) % 8;
    let op1_addr = match op1_num {
        0 => Op1Addr::Op0,
        1 => Op1Addr::Imm,
        2 => Op1Addr::FP,
        4 => Op1Addr::AP,
        _ => {
            return Err(VirtualMachineError::InvalidOp1Reg(op1_num));
        },
    };
    let pc_num = (flags / 128) % 8;
    let pc_update = match pc_num {
        0 => PcUpdate::Regular,
        1 => PcUpdate::Jump,
        2 => PcUpdate::JumpRel,
        4 => PcUpdate::Jnz,
        _ => {
            return Err(VirtualMachineError::InvalidPcUpdate(pc_num));
        },
    };
    let res_num = (flags / 32) % 4;
    let res = if res_num == 0 {
        if pc_update == PcUpdate::Jnz {
            Res::Unconstrained
        } else {
            Res::Op1
        }
    } else if res_num == 1 {
        Res::Add
    } else if res_num == 2 {
        Res::Mul
    } else {
        return Err(VirtualMachineError::InvalidRes(res_num));
    };
    let opcode_num = (flags / 4096) % 8;
    let opcode = match opcode_num {
        0 => Opcode::NOp,
        1 => Opcode::Call,
        2 => Opcode::Ret,
        4 => Opcode::AssertEq,
        _ => {
            return Err(VirtualMachineError::InvalidOpcode(opcode_num));
        },
    };
    let ap_num = (flags / 1024) % 4;
    let ap_update = if ap_num == 0 {
        if opcode == Opcode::Call {
            ApUpdate::Add2
        } else {
            ApUpdate::Regular
        }
    } else if ap_num == 1 {
        ApUpdate::Add
    } else if ap_num == 2 {
        ApUpdate::Add1
    } else {
        return Err(VirtualMachineError::InvalidApUpdate(ap_num));
    };
    let fp_update = match opcode {
        Opcode::Call => FpUpdate::APPlus2,
        Opcode::Ret => FpUpdate::Dst,
        _ => FpUpdate::Regular,
    };
    let imm = if op1_addr == Op1Addr::Imm {
        imm
    } else {
        None
    };
    Ok(
        Instruction {
            off0,
            off1,
            off2,
            imm,
            dst_register,
            op0_register,
            op1_addr,
            res,
            pc_update,
            ap_update,
            fp_update,
            opcode,
        },
    )
}

} // verus!
