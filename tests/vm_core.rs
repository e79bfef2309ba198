use cairo_vm_core::bitwise::{BitwiseBuiltinRunner, BitwiseInstanceDef};
use cairo_vm_core::builtin_runner::BuiltinRunner;
use cairo_vm_core::errors::{MemoryError, VirtualMachineError};
use cairo_vm_core::felt::Felt;
use cairo_vm_core::instruction::{ApUpdate, FpUpdate, Instruction, Op1Addr, Opcode, PcUpdate, Register, Res};
use cairo_vm_core::relocatable::{MaybeRelocatable, Relocatable};
use cairo_vm_core::run_context::RunContext;
use cairo_vm_core::vm_core::{Attribute, Operands, OperandsAddresses, TraceEntry, VirtualMachine};
use num_bigint::BigUint;
use std::collections::HashSet;

const PRIME: &[u8] = b"3618502788666131213697322783095070105623107215331596699973092056135872020481";

fn big(s: &[u8]) -> Felt {
    Felt::from_digits(BigUint::parse_bytes(s, 10).unwrap().to_u32_digits())
}

fn num(n: u64) -> MaybeRelocatable {
    MaybeRelocatable::from_u64(n)
}

fn addr(s: isize, o: usize) -> MaybeRelocatable {
    MaybeRelocatable::from_addr(s, o)
}

fn rel(s: isize, o: usize) -> Relocatable {
    Relocatable::new(s, o)
}

fn vm_with(trace: bool, n_segments: usize) -> VirtualMachine {
    let mut vm = VirtualMachine::new(big(PRIME), trace, Vec::new());
    for _ in 0..n_segments {
        vm.add_memory_segment();
    }
    vm
}

fn vm() -> VirtualMachine {
    vm_with(false, 0)
}

fn write(vm: &mut VirtualMachine, cells: &[((isize, usize), MaybeRelocatable)]) {
    for ((s, o), v) in cells {
        vm.insert_value(&rel(*s, *o), v).unwrap();
    }
}

fn set_registers(vm: &mut VirtualMachine, pc: usize, ap: usize, fp: usize) {
    vm.run_context = RunContext { pc: rel(0, pc), ap, fp };
}

#[allow(clippy::too_many_arguments)]
fn inst(
    offs: (isize, isize, isize),
    dst_register: Register,
    op0_register: Register,
    op1_addr: Op1Addr,
    res: Res,
    pc_update: PcUpdate,
    ap_update: ApUpdate,
    fp_update: FpUpdate,
    opcode: Opcode,
) -> Instruction {
    Instruction {
        off0: offs.0,
        off1: offs.1,
        off2: offs.2,
        imm: None,
        dst_register,
        op0_register,
        op1_addr,
        res,
        pc_update,
        ap_update,
        fp_update,
        opcode,
    }
}

/// The instruction most register tests use, with the updates given.
fn simple(res: Res, pc: PcUpdate, ap: ApUpdate, fp: FpUpdate, opcode: Opcode) -> Instruction {
    inst((1, 2, 3), Register::FP, Register::AP, Op1Addr::AP, res, pc, ap, fp, opcode)
}

fn ops(dst: MaybeRelocatable, res: Option<MaybeRelocatable>, op0: MaybeRelocatable, op1: MaybeRelocatable) -> Operands {
    Operands { dst, res, op0, op1 }
}

fn int_ops() -> Operands {
    ops(num(11), Some(num(8)), num(9), num(10))
}

#[test]
fn get_instruction_encoding_successful_without_imm() {
    let mut vm = vm_with(false, 1);
    write(&mut vm, &[((0, 0), num(5))]);
    let (enc, imm) = vm.get_instruction_encoding().unwrap();
    assert_eq!(enc, Felt::from_u64(5));
    assert_eq!(imm, None);
}

#[test]
fn get_instruction_encoding_successful_with_imm() {
    let mut vm = vm_with(false, 1);
    write(&mut vm, &[((0, 0), num(5)), ((0, 1), num(6))]);
    let (word, imm) = vm.get_instruction_encoding().expect("Unexpected error on get_instruction_encoding");
    assert_eq!(word, Felt::from_u64(5));
    assert_eq!(imm, Some(num(6)));
}

#[test]
fn get_instruction_encoding_unsuccesful() {
    let vm = vm();
    assert_eq!(vm.get_instruction_encoding(), Err(VirtualMachineError::InvalidInstructionEncoding));
}

#[test]
fn update_fp_ap_plus2() {
    let i = simple(Res::Add, PcUpdate::Regular, ApUpdate::Regular, FpUpdate::APPlus2, Opcode::NOp);
    let mut vm = vm();
    set_registers(&mut vm, 4, 5, 6);
    assert_eq!(Ok(()), vm.update_fp(&i, &int_ops()));
    assert_eq!(vm.run_context.fp, 7)
}

#[test]
fn update_fp_dst() {
    let i = simple(Res::Add, PcUpdate::Regular, ApUpdate::Regular, FpUpdate::Dst, Opcode::NOp);
    let o = ops(addr(1, 6), Some(num(8)), num(9), num(10));
    let mut vm = vm();
    assert_eq!(Ok(()), vm.update_fp(&i, &o));
    assert_eq!(vm.run_context.fp, 6)
}

#[test]
fn update_fp_regular() {
    let i = simple(Res::Add, PcUpdate::Regular, ApUpdate::Regular, FpUpdate::Regular, Opcode::NOp);
    let mut vm = vm();
    assert_eq!(Ok(()), vm.update_fp(&i, &int_ops()));
    assert_eq!(vm.run_context.fp, 0)
}

#[test]
fn update_fp_dst_num() {
    let i = simple(Res::Add, PcUpdate::Regular, ApUpdate::Regular, FpUpdate::Dst, Opcode::NOp);
    let mut vm = vm();
    set_registers(&mut vm, 4, 5, 6);
    assert_eq!(Ok(()), vm.update_fp(&i, &int_ops()));
    assert_eq!(vm.run_context.fp, 11)
}

#[test]
fn update_fp_dst_too_large() {
    let i = simple(Res::Add, PcUpdate::Regular, ApUpdate::Regular, FpUpdate::Dst, Opcode::NOp);
    let o = ops(MaybeRelocatable::Int(Felt::pow2(70)), None, num(9), num(10));
    let mut vm = vm();
    assert_eq!(Err(VirtualMachineError::BigintToUsizeFail), vm.update_fp(&i, &o));
    let o = ops(MaybeRelocatable::Int(Felt::pow2(63)), None, num(9), num(10));
    assert_eq!(Err(VirtualMachineError::BigintToUsizeFail), vm.update_fp(&i, &o));
    assert_eq!(vm.run_context.fp, 0);
}

#[test]
fn update_ap_add_with_res() {
    let i = simple(Res::Add, PcUpdate::Regular, ApUpdate::Add, FpUpdate::Regular, Opcode::NOp);
    let mut vm = VirtualMachine::new(Felt::from_u64(39), false, Vec::new());
    set_registers(&mut vm, 4, 5, 6);
    assert_eq!(Ok(()), vm.update_ap(&i, &int_ops()));
    assert_eq!(vm.run_context.ap, 13);
}

#[test]
fn update_ap_add_with_res_wraps_modulo_prime() {
    let i = simple(Res::Add, PcUpdate::Regular, ApUpdate::Add, FpUpdate::Regular, Opcode::NOp);
    let mut vm = VirtualMachine::new(Felt::from_u64(39), false, Vec::new());
    set_registers(&mut vm, 4, 5, 6);
    // 5 + 38 == 4 (mod 39): adding p - 1 moves ap back by one
    assert_eq!(Ok(()), vm.update_ap(&i, &ops(num(11), Some(num(38)), num(9), num(10))));
    assert_eq!(vm.run_context.ap, 4);
}

#[test]
fn update_ap_add_without_res() {
    let i = simple(Res::Add, PcUpdate::Regular, ApUpdate::Add, FpUpdate::Regular, Opcode::NOp);
    let mut vm = vm();
    set_registers(&mut vm, 4, 5, 6);
    assert_eq!(
        vm.update_ap(&i, &ops(num(11), None, num(9), num(10))),
        Err(VirtualMachineError::UnconstrainedResAdd)
    );
}

#[test]
fn update_ap_add1() {
    let i = simple(Res::Add, PcUpdate::Regular, ApUpdate::Add1, FpUpdate::Regular, Opcode::NOp);
    let mut vm = vm();
    set_registers(&mut vm, 4, 5, 6);
    assert_eq!(Ok(()), vm.update_ap(&i, &int_ops()));
    assert_eq!(vm.run_context.ap, 6);
}

#[test]
fn update_ap_add2() {
    let i = simple(Res::Add, PcUpdate::Regular, ApUpdate::Add2, FpUpdate::Regular, Opcode::NOp);
    let mut vm = vm();
    set_registers(&mut vm, 4, 5, 6);
    assert_eq!(Ok(()), vm.update_ap(&i, &int_ops()));
    assert_eq!(vm.run_context.ap, 7);
}

#[test]
fn update_ap_regular() {
    let i = simple(Res::Add, PcUpdate::Regular, ApUpdate::Regular, FpUpdate::Regular, Opcode::NOp);
    let mut vm = vm();
    set_registers(&mut vm, 4, 5, 6);
    assert_eq!(Ok(()), vm.update_ap(&i, &int_ops()));
    assert_eq!(vm.run_context.ap, 5);
}

#[test]
fn update_pc_regular_instruction_no_imm() {
    let i = simple(Res::Add, PcUpdate::Regular, ApUpdate::Regular, FpUpdate::Regular, Opcode::NOp);
    let mut vm = vm();
    assert_eq!(Ok(()), vm.update_pc(&i, &int_ops()));
    assert_eq!(vm.run_context.pc, rel(0, 1));
}

#[test]
fn update_pc_regular_instruction_has_imm() {
    let mut i = simple(Res::Add, PcUpdate::Regular, ApUpdate::Regular, FpUpdate::Regular, Opcode::NOp);
    i.imm = Some(Felt::from_u64(5));
    i.op1_addr = Op1Addr::Imm;
    let mut vm = vm();
    assert_eq!(Ok(()), vm.update_pc(&i, &int_ops()));
    assert_eq!(vm.run_context.pc, rel(0, 2));
}

#[test]
fn update_pc_jump_with_res() {
    let i = simple(Res::Add, PcUpdate::Jump, ApUpdate::Regular, FpUpdate::Regular, Opcode::NOp);
    let mut vm = vm();
    assert_eq!(Ok(()), vm.update_pc(&i, &ops(num(11), Some(addr(1, 11)), num(9), num(10))));
    assert_eq!(vm.run_context.pc, rel(1, 11));
}

#[test]
fn update_pc_jump_without_res() {
    let i = simple(Res::Add, PcUpdate::Jump, ApUpdate::Regular, FpUpdate::Regular, Opcode::NOp);
    let mut vm = vm();
    set_registers(&mut vm, 4, 5, 6);
    assert_eq!(
        vm.update_pc(&i, &ops(num(11), None, num(9), num(10))),
        Err(VirtualMachineError::UnconstrainedResJump)
    );
}

#[test]
fn update_pc_jump_rel_with_int_res() {
    let i = simple(Res::Add, PcUpdate::JumpRel, ApUpdate::Regular, FpUpdate::Regular, Opcode::NOp);
    let mut vm = vm();
    set_registers(&mut vm, 1, 1, 1);
    assert_eq!(Ok(()), vm.update_pc(&i, &int_ops()));
    assert_eq!(vm.run_context.pc, rel(0, 9));
}

#[test]
fn update_pc_jump_rel_without_res() {
    let i = simple(Res::Add, PcUpdate::JumpRel, ApUpdate::Regular, FpUpdate::Regular, Opcode::NOp);
    let mut vm = vm();
    assert_eq!(
        vm.update_pc(&i, &ops(num(11), None, num(9), num(10))),
        Err(VirtualMachineError::UnconstrainedResJumpRel)
    );
}

#[test]
fn update_pc_jump_rel_with_non_int_res() {
    let i = simple(Res::Add, PcUpdate::JumpRel, ApUpdate::Regular, FpUpdate::Regular, Opcode::NOp);
    let mut vm = vm();
    set_registers(&mut vm, 1, 1, 1);
    assert_eq!(
        Err(VirtualMachineError::PureValue),
        vm.update_pc(&i, &ops(num(11), Some(addr(1, 4)), num(9), num(10)))
    );
}

#[test]
fn update_pc_jnz_dst_is_zero() {
    let i = simple(Res::Add, PcUpdate::Jnz, ApUpdate::Regular, FpUpdate::Regular, Opcode::NOp);
    let mut vm = vm();
    assert_eq!(Ok(()), vm.update_pc(&i, &ops(num(0), Some(num(0)), num(9), num(10))));
    assert_eq!(vm.run_context.pc, rel(0, 1));
}

#[test]
fn update_pc_jnz_dst_is_not_zero() {
    let i = simple(Res::Add, PcUpdate::Jnz, ApUpdate::Regular, FpUpdate::Regular, Opcode::NOp);
    let mut vm = vm();
    assert_eq!(Ok(()), vm.update_pc(&i, &ops(num(11), Some(num(8)), num(9), num(10))));
    assert_eq!(vm.run_context.pc, rel(0, 10));
}

#[test]
fn jnz_taken_moves_by_op1() {
    let i = simple(Res::Unconstrained, PcUpdate::Jnz, ApUpdate::Regular, FpUpdate::Regular, Opcode::NOp);
    let mut vm = vm();
    set_registers(&mut vm, 3, 0, 0);
    assert_eq!(Ok(()), vm.update_pc(&i, &ops(num(4), None, num(0), num(4))));
    assert_eq!(vm.run_context.pc, rel(0, 7));
}

#[test]
fn jnz_not_taken_moves_past_instruction() {
    let i = simple(Res::Unconstrained, PcUpdate::Jnz, ApUpdate::Regular, FpUpdate::Regular, Opcode::NOp);
    let mut vm = vm();
    set_registers(&mut vm, 3, 0, 0);
    assert_eq!(Ok(()), vm.update_pc(&i, &ops(num(0), None, num(0), num(4))));
    assert_eq!(vm.run_context.pc, rel(0, 4));
}

#[test]
fn jnz_on_address_fails() {
    let i = simple(Res::Unconstrained, PcUpdate::Jnz, ApUpdate::Regular, FpUpdate::Regular, Opcode::NOp);
    let mut vm = vm();
    assert_eq!(
        vm.update_pc(&i, &ops(addr(1, 0), None, num(0), num(4))),
        Err(VirtualMachineError::PureValue)
    );
}

#[test]
fn update_registers_all_regular() {
    let i = simple(Res::Add, PcUpdate::Regular, ApUpdate::Regular, FpUpdate::Regular, Opcode::NOp);
    let mut vm = vm();
    set_registers(&mut vm, 4, 5, 6);
    assert_eq!(Ok(()), vm.update_registers(&i, &int_ops()));
    assert_eq!(vm.run_context.pc, rel(0, 5));
    assert_eq!(vm.run_context.ap, 5);
    assert_eq!(vm.run_context.fp, 6);
}

#[test]
fn update_registers_mixed_types() {
    let i = simple(Res::Add, PcUpdate::JumpRel, ApUpdate::Add2, FpUpdate::Dst, Opcode::NOp);
    let mut vm = vm();
    vm.run_context = RunContext { pc: rel(0, 4), ap: 5, fp: 6 };
    assert_eq!(Ok(()), vm.update_registers(&i, &ops(addr(1, 11), Some(num(8)), num(9), num(10))));
    assert_eq!(vm.run_context.pc, rel(0, 12));
    assert_eq!(vm.run_context.ap, 7);
    assert_eq!(vm.run_context.fp, 11);
}

#[test]
fn is_zero_int_value() {
    assert_eq!(Ok(false), VirtualMachine::is_zero(&num(1)));
}

#[test]
fn is_zero_relocatable_value() {
    assert_eq!(Err(VirtualMachineError::PureValue), VirtualMachine::is_zero(&addr(1, 2)));
}

#[test]
fn is_zero_relocatable_value_negative() {
    assert_eq!(Err(VirtualMachineError::PureValue), VirtualMachine::is_zero(&addr(1, 1)));
}

#[test]
fn deduce_op0_opcode_call() {
    let i = simple(Res::Add, PcUpdate::Jump, ApUpdate::Regular, FpUpdate::Regular, Opcode::Call);
    let vm = vm();
    assert_eq!(Ok((Some(addr(0, 1)), None)), vm.deduce_op0(&i, None, None));
}

#[test]
fn deduce_op0_opcode_assert_eq_res_add_with_optionals() {
    let i = simple(Res::Add, PcUpdate::Jump, ApUpdate::Regular, FpUpdate::Regular, Opcode::AssertEq);
    let vm = vm();
    assert_eq!(Ok((Some(num(1)), Some(num(3)))), vm.deduce_op0(&i, Some(&num(3)), Some(&num(2))));
}

#[test]
fn deduce_op0_opcode_assert_eq_res_add_without_optionals() {
    let i = simple(Res::Add, PcUpdate::Jump, ApUpdate::Regular, FpUpdate::Regular, Opcode::AssertEq);
    let vm = vm();
    assert_eq!(Ok((None, None)), vm.deduce_op0(&i, None, None));
}

#[test]
fn deduce_op0_opcode_assert_eq_res_mul_non_zero_op1() {
    let i = simple(Res::Mul, PcUpdate::Jump, ApUpdate::Regular, FpUpdate::Regular, Opcode::AssertEq);
    let vm = vm();
    assert_eq!(Ok((Some(num(2)), Some(num(4)))), vm.deduce_op0(&i, Some(&num(4)), Some(&num(2))));
}

#[test]
fn deduce_op0_field_division_is_by_inverse() {
    let i = simple(Res::Mul, PcUpdate::Jump, ApUpdate::Regular, FpUpdate::Regular, Opcode::AssertEq);
    let vm = VirtualMachine::new(Felt::from_u64(7), false, Vec::new());
    // 3 * 5 == 15 == 1 (mod 7)
    assert_eq!(Ok((Some(num(5)), Some(num(1)))), vm.deduce_op0(&i, Some(&num(1)), Some(&num(3))));
}

#[test]
fn deduce_op0_opcode_assert_eq_res_mul_zero_op1() {
    let i = simple(Res::Mul, PcUpdate::Jump, ApUpdate::Regular, FpUpdate::Regular, Opcode::AssertEq);
    let vm = vm();
    assert_eq!(Ok((None, None)), vm.deduce_op0(&i, Some(&num(4)), Some(&num(0))));
}

#[test]
fn deduce_op0_opcode_assert_eq_res_op1() {
    let i = simple(Res::Op1, PcUpdate::Jump, ApUpdate::Regular, FpUpdate::Regular, Opcode::AssertEq);
    let vm = vm();
    assert_eq!(Ok((None, None)), vm.deduce_op0(&i, Some(&num(4)), Some(&num(0))));
}

#[test]
fn deduce_op0_opcode_ret() {
    let i = simple(Res::Mul, PcUpdate::Jump, ApUpdate::Regular, FpUpdate::Regular, Opcode::Ret);
    let vm = vm();
    assert_eq!(Ok((None, None)), vm.deduce_op0(&i, Some(&num(4)), Some(&num(0))));
}

#[test]
fn deduce_op1_opcode_call() {
    let i = simple(Res::Add, PcUpdate::Jump, ApUpdate::Regular, FpUpdate::Regular, Opcode::Call);
    let vm = vm();
    assert_eq!(Ok((None, None)), vm.deduce_op1(&i, None, &num(0)));
}

#[test]
fn deduce_op1_opcode_assert_eq_res_add_with_optionals() {
    let i = simple(Res::Add, PcUpdate::Jump, ApUpdate::Regular, FpUpdate::Regular, Opcode::AssertEq);
    let vm = vm();
    assert_eq!(Ok((Some(num(1)), Some(num(3)))), vm.deduce_op1(&i, Some(&num(3)), &num(2)));
}

#[test]
fn deduce_op1_opcode_assert_eq_res_add_without_optionals() {
    let i = simple(Res::Add, PcUpdate::Jump, ApUpdate::Regular, FpUpdate::Regular, Opcode::AssertEq);
    let vm = vm();
    assert_eq!(Ok((None, None)), vm.deduce_op1(&i, None, &num(0)));
}

#[test]
fn deduce_op1_opcode_assert_eq_res_mul_non_zero_op0() {
    let i = simple(Res::Mul, PcUpdate::Jump, ApUpdate::Regular, FpUpdate::Regular, Opcode::AssertEq);
    let vm = vm();
    assert_eq!(Ok((Some(num(2)), Some(num(4)))), vm.deduce_op1(&i, Some(&num(4)), &num(2)));
}

#[test]
fn deduce_op1_opcode_assert_eq_res_mul_zero_op0() {
    let i = simple(Res::Mul, PcUpdate::Jump, ApUpdate::Regular, FpUpdate::Regular, Opcode::AssertEq);
    let vm = vm();
    assert_eq!(Ok((None, None)), vm.deduce_op1(&i, Some(&num(4)), &num(0)));
}

#[test]
fn deduce_op1_opcode_assert_eq_res_op1_without_dst() {
    let i = simple(Res::Op1, PcUpdate::Jump, ApUpdate::Regular, FpUpdate::Regular, Opcode::AssertEq);
    let vm = vm();
    assert_eq!(Ok((None, None)), vm.deduce_op1(&i, None, &num(0)));
}

#[test]
fn deduce_op1_opcode_assert_eq_res_op1_with_dst() {
    let i = simple(Res::Op1, PcUpdate::Jump, ApUpdate::Regular, FpUpdate::Regular, Opcode::AssertEq);
    let vm = vm();
    assert_eq!(Ok((Some(num(7)), Some(num(7)))), vm.deduce_op1(&i, Some(&num(7)), &num(0)));
}

#[test]
fn compute_res_op1() {
    let i = simple(Res::Op1, PcUpdate::Jump, ApUpdate::Regular, FpUpdate::Regular, Opcode::AssertEq);
    let vm = vm();
    assert_eq!(Ok(Some(num(7))), vm.compute_res(&i, &num(9), &num(7)));
}

#[test]
fn compute_res_add() {
    let i = simple(Res::Add, PcUpdate::Jump, ApUpdate::Regular, FpUpdate::Regular, Opcode::AssertEq);
    let vm = vm();
    assert_eq!(Ok(Some(num(16))), vm.compute_res(&i, &num(9), &num(7)));
}

#[test]
fn compute_res_add_reduces_modulo_prime() {
    let i = simple(Res::Add, PcUpdate::Jump, ApUpdate::Regular, FpUpdate::Regular, Opcode::AssertEq);
    let vm = VirtualMachine::new(Felt::from_u64(11), false, Vec::new());
    assert_eq!(Ok(Some(num(5))), vm.compute_res(&i, &num(9), &num(7)));
}

#[test]
fn compute_res_add_address_and_int() {
    let i = simple(Res::Add, PcUpdate::Jump, ApUpdate::Regular, FpUpdate::Regular, Opcode::AssertEq);
    let vm = vm();
    assert_eq!(Ok(Some(addr(1, 10))), vm.compute_res(&i, &addr(1, 3), &num(7)));
    assert_eq!(Err(VirtualMachineError::PureValue), vm.compute_res(&i, &addr(1, 3), &addr(1, 7)));
}

#[test]
fn compute_res_mul_int_operands() {
    let i = simple(Res::Mul, PcUpdate::Jump, ApUpdate::Regular, FpUpdate::Regular, Opcode::AssertEq);
    let vm = vm();
    assert_eq!(Ok(Some(num(63))), vm.compute_res(&i, &num(9), &num(7)));
}

#[test]
fn compute_res_mul_relocatable_values() {
    let i = simple(Res::Mul, PcUpdate::Jump, ApUpdate::Regular, FpUpdate::Regular, Opcode::AssertEq);
    let vm = vm();
    assert_eq!(Err(VirtualMachineError::PureValue), vm.compute_res(&i, &addr(2, 6), &addr(2, 3)));
}

#[test]
fn compute_res_unconstrained() {
    let i = simple(Res::Unconstrained, PcUpdate::Jump, ApUpdate::Regular, FpUpdate::Regular, Opcode::AssertEq);
    let vm = vm();
    assert_eq!(Ok(None), vm.compute_res(&i, &num(9), &num(7)));
}

#[test]
fn deduce_dst_opcode_assert_eq_with_res() {
    let i = simple(Res::Unconstrained, PcUpdate::Jump, ApUpdate::Regular, FpUpdate::Regular, Opcode::AssertEq);
    let vm = vm();
    assert_eq!(Some(num(7)), vm.deduce_dst(&i, Some(&num(7))));
}

#[test]
fn deduce_dst_opcode_assert_eq_without_res() {
    let i = simple(Res::Unconstrained, PcUpdate::Jump, ApUpdate::Regular, FpUpdate::Regular, Opcode::AssertEq);
    let vm = vm();
    assert_eq!(None, vm.deduce_dst(&i, None));
}

#[test]
fn deduce_dst_opcode_call() {
    let i = simple(Res::Unconstrained, PcUpdate::Jump, ApUpdate::Regular, FpUpdate::Regular, Opcode::Call);
    let vm = vm();
    assert_eq!(Some(addr(1, 0)), vm.deduce_dst(&i, None));
}

#[test]
fn deduce_dst_opcode_ret() {
    let i = simple(Res::Unconstrained, PcUpdate::Jump, ApUpdate::Regular, FpUpdate::Regular, Opcode::Ret);
    let vm = vm();
    assert_eq!(None, vm.deduce_dst(&i, None));
}

#[test]
fn compute_operands_add_ap() {
    let i = inst(
        (0, 1, 2),
        Register::AP,
        Register::AP,
        Op1Addr::AP,
        Res::Add,
        PcUpdate::Regular,
        ApUpdate::Regular,
        FpUpdate::Regular,
        Opcode::NOp,
    );
    let mut vm = vm_with(false, 2);
    write(&mut vm, &[((0, 0), num(5)), ((1, 0), num(5)), ((1, 1), num(2)), ((1, 2), num(3))]);
    let expected = ops(num(5), Some(num(5)), num(2), num(3));
    let (o, a) = vm.compute_operands(&i).unwrap();
    assert_eq!(o, expected);
    assert_eq!(a, OperandsAddresses(rel(1, 0), rel(1, 1), rel(1, 2)));
}

#[test]
fn compute_operands_mul_fp() {
    let i = inst(
        (0, 1, 2),
        Register::FP,
        Register::FP,
        Op1Addr::FP,
        Res::Mul,
        PcUpdate::Regular,
        ApUpdate::Regular,
        FpUpdate::Regular,
        Opcode::NOp,
    );
    let mut vm = vm_with(false, 2);
    write(&mut vm, &[((0, 0), num(5)), ((1, 0), num(6)), ((1, 1), num(2)), ((1, 2), num(3))]);
    let expected = ops(num(6), Some(num(6)), num(2), num(3));
    let (o, a) = vm.compute_operands(&i).unwrap();
    assert_eq!(o, expected);
    assert_eq!(a, OperandsAddresses(rel(1, 0), rel(1, 1), rel(1, 2)));
}

#[test]
fn compute_jnz() {
    let mut i = inst(
        (1, 1, 1),
        Register::AP,
        Register::AP,
        Op1Addr::Imm,
        Res::Unconstrained,
        PcUpdate::Jnz,
        ApUpdate::Regular,
        FpUpdate::Regular,
        Opcode::NOp,
    );
    i.imm = Some(Felt::from_u64(4));
    let mut vm = vm_with(false, 2);
    write(&mut vm, &[((0, 0), num(0x206800180018001)), ((1, 1), num(4)), ((0, 1), num(4))]);
    let expected = ops(num(4), None, num(4), num(4));
    let (o, a) = vm.compute_operands(&i).unwrap();
    assert_eq!(o, expected);
    assert_eq!(a, OperandsAddresses(rel(1, 1), rel(1, 1), rel(0, 1)));
    assert_eq!(vm.step_instruction(), Ok(()));
    assert_eq!(vm.get_pc(), rel(0, 4));
}

#[test]
fn compute_operands_deduce_dst_none() {
    let i = inst(
        (2, 0, 0),
        Register::FP,
        Register::AP,
        Op1Addr::AP,
        Res::Unconstrained,
        PcUpdate::Regular,
        ApUpdate::Regular,
        FpUpdate::Regular,
        Opcode::NOp,
    );
    let mut vm = vm_with(false, 2);
    write(&mut vm, &[((1, 0), num(145944781867024385))]);
    assert_eq!(vm.compute_operands(&i).unwrap_err(), VirtualMachineError::NoDst);
}

#[test]
fn compute_operands_deduces_missing_op0_of_a_sum() {
    // [ap] = [ap + 1] + [ap + 2] with [ap + 1] missing: op0 = dst - op1
    let i = inst(
        (0, 1, 2),
        Register::AP,
        Register::AP,
        Op1Addr::AP,
        Res::Add,
        PcUpdate::Regular,
        ApUpdate::Regular,
        FpUpdate::Regular,
        Opcode::AssertEq,
    );
    let mut vm = vm_with(false, 2);
    write(&mut vm, &[((1, 0), num(10)), ((1, 2), num(3))]);
    let (o, _) = vm.compute_operands(&i).unwrap();
    assert_eq!(o, ops(num(10), Some(num(10)), num(7), num(3)));
    assert_eq!(vm.get_integer(&rel(1, 1)), Ok(Felt::from_u64(7)));
}

#[test]
fn compute_operands_deduces_missing_op1_of_a_sum() {
    let i = inst(
        (0, 1, 2),
        Register::AP,
        Register::AP,
        Op1Addr::AP,
        Res::Add,
        PcUpdate::Regular,
        ApUpdate::Regular,
        FpUpdate::Regular,
        Opcode::AssertEq,
    );
    let mut vm = vm_with(false, 2);
    write(&mut vm, &[((1, 0), addr(2, 10)), ((1, 1), addr(2, 4))]);
    let (o, _) = vm.compute_operands(&i).unwrap();
    assert_eq!(o, ops(addr(2, 10), Some(addr(2, 10)), addr(2, 4), num(6)));
}

#[test]
fn compute_operands_deduces_missing_dst_of_a_sum() {
    let i = inst(
        (0, 1, 2),
        Register::AP,
        Register::AP,
        Op1Addr::AP,
        Res::Add,
        PcUpdate::Regular,
        ApUpdate::Regular,
        FpUpdate::Regular,
        Opcode::AssertEq,
    );
    let mut vm = vm_with(false, 2);
    write(&mut vm, &[((1, 1), num(4)), ((1, 2), num(5))]);
    let (o, _) = vm.compute_operands(&i).unwrap();
    assert_eq!(o, ops(num(9), Some(num(9)), num(4), num(5)));
    assert_eq!(vm.get_integer(&rel(1, 0)), Ok(Felt::from_u64(9)));
}

#[test]
fn compute_operands_fails_when_nothing_deduces_op0() {
    let i = inst(
        (0, 1, 2),
        Register::AP,
        Register::AP,
        Op1Addr::AP,
        Res::Add,
        PcUpdate::Regular,
        ApUpdate::Regular,
        FpUpdate::Regular,
        Opcode::NOp,
    );
    let mut vm = vm_with(false, 2);
    write(&mut vm, &[((1, 0), num(1)), ((1, 2), num(3))]);
    assert_eq!(vm.compute_operands(&i).unwrap_err(), VirtualMachineError::FailedToComputeOperands);
}

#[test]
fn opcode_assertions_res_unconstrained() {
    let i = simple(Res::Add, PcUpdate::Regular, ApUpdate::Regular, FpUpdate::APPlus2, Opcode::AssertEq);
    let mut vm = vm();
    set_registers(&mut vm, 4, 5, 6);
    assert_eq!(
        vm.opcode_assertions(&i, &ops(num(8), None, num(9), num(10))),
        Err(VirtualMachineError::UnconstrainedResAssertEq)
    );
}

#[test]
fn opcode_assertions_instruction_failed() {
    let i = simple(Res::Add, PcUpdate::Regular, ApUpdate::Regular, FpUpdate::APPlus2, Opcode::AssertEq);
    let vm = vm();
    assert_eq!(
        vm.opcode_assertions(&i, &ops(num(9), Some(num(8)), num(9), num(10))),
        Err(VirtualMachineError::DiffAssertValues(Felt::from_u64(9), Felt::from_u64(8)))
    );
}

#[test]
fn opcode_assertions_inconsistent_op0() {
    let i = simple(Res::Add, PcUpdate::Regular, ApUpdate::Regular, FpUpdate::APPlus2, Opcode::Call);
    let mut vm = vm();
    set_registers(&mut vm, 4, 5, 6);
    assert_eq!(
        vm.opcode_assertions(&i, &ops(addr(0, 8), Some(num(8)), num(9), num(10))),
        Err(VirtualMachineError::CantWriteReturnPc(num(9), addr(0, 5)))
    );
}

#[test]
fn opcode_assertions_inconsistent_dst() {
    let i = simple(Res::Add, PcUpdate::Regular, ApUpdate::Regular, FpUpdate::APPlus2, Opcode::Call);
    let mut vm = vm();
    vm.run_context.fp = 6;
    assert_eq!(
        vm.opcode_assertions(&i, &ops(num(8), Some(num(8)), addr(0, 1), num(10))),
        Err(VirtualMachineError::CantWriteReturnFp(num(8), addr(1, 6)))
    );
}

#[test]
fn test_step_for_preset_memory() {
    let mut vm = vm_with(true, 4);
    set_registers(&mut vm, 0, 2, 2);
    write(&mut vm, &[((0, 0), num(2345108766317314046)), ((1, 0), addr(2, 0)), ((1, 1), addr(3, 0))]);
    assert_eq!(vm.step_instruction(), Ok(()));
    let trace = vm.get_trace().unwrap();
    assert_eq!(trace, &vec![TraceEntry { pc: rel(0, 0), ap: rel(1, 2), fp: rel(1, 2) }]);
    assert_eq!(vm.run_context.pc, rel(3, 0));
    assert_eq!(vm.run_context.ap, 2);
    assert_eq!(vm.run_context.fp, 0);
    let accessed = vm.accessed_addresses.as_ref().unwrap();
    assert!(accessed.contains(&rel(1, 0)));
    assert!(accessed.contains(&rel(1, 1)));
    assert!(accessed.contains(&rel(0, 0)));
    assert_eq!(vm.current_step, 1);
}

#[test]
fn test_step_for_preset_memory_function_call() {
    let mut vm = vm_with(true, 4);
    set_registers(&mut vm, 3, 2, 2);
    write(
        &mut vm,
        &[
            ((0, 0), num(5207990763031199744)),
            ((0, 1), num(2)),
            ((0, 2), num(2345108766317314046)),
            ((0, 3), num(5189976364521848832)),
            ((0, 4), num(1)),
            ((0, 5), num(1226245742482522112)),
            (
                (0, 6),
                MaybeRelocatable::Int(big(
                    b"3618502788666131213697322783095070105623107215331596699973092056135872020476",
                )),
            ),
            ((0, 7), num(2345108766317314046)),
            ((1, 0), addr(2, 0)),
            ((1, 1), addr(3, 0)),
        ],
    );
    let final_pc = rel(3, 0);
    while vm.run_context.pc != final_pc {
        assert_eq!(vm.step_instruction(), Ok(()));
    }
    assert_eq!(vm.run_context.pc, rel(3, 0));
    assert_eq!(vm.run_context.ap, 6);
    assert_eq!(vm.run_context.fp, 0);
    let trace = vm.get_trace().unwrap();
    assert_eq!(trace.len(), 5);
    let expected = [
        ((0, 3), (1, 2), (1, 2)),
        ((0, 5), (1, 3), (1, 2)),
        ((0, 0), (1, 5), (1, 5)),
        ((0, 2), (1, 6), (1, 5)),
        ((0, 7), (1, 6), (1, 2)),
    ];
    for (k, (pc, ap, fp)) in expected.iter().enumerate() {
        assert_eq!(trace[k], TraceEntry { pc: rel(pc.0, pc.1), ap: rel(ap.0, ap.1), fp: rel(fp.0, fp.1) });
    }
    let accessed: HashSet<Relocatable> = vm.accessed_addresses.clone().unwrap().into_iter().collect();
    assert_eq!(accessed.len(), 14);
    for (s, o) in [
        (0, 1),
        (0, 7),
        (1, 2),
        (0, 4),
        (0, 0),
        (1, 5),
        (1, 1),
        (0, 3),
        (1, 4),
        (0, 6),
        (0, 2),
        (0, 5),
        (1, 0),
        (1, 3),
    ] {
        assert!(accessed.contains(&rel(s, o)));
    }
}

#[test]
fn multiplication_and_different_ap_increase() {
    let mut vm = vm_with(false, 4);
    write(
        &mut vm,
        &[
            ((0, 0), num(0x400680017fff8000)),
            ((0, 1), num(0x4)),
            ((0, 2), num(0x40780017fff7fff)),
            ((0, 3), num(0x1)),
            ((0, 4), num(0x480680017fff8000)),
            ((0, 5), num(0x5)),
            ((0, 6), num(0x40507ffe7fff8000)),
            ((0, 7), num(0x208b7fff7fff7ffe)),
            ((1, 0), addr(2, 0)),
            ((1, 1), addr(3, 0)),
            ((1, 2), num(0x4)),
            ((1, 3), num(0x5)),
            ((1, 4), num(0x14)),
        ],
    );
    set_registers(&mut vm, 0, 2, 2);
    assert_eq!(vm.run_context.pc, rel(0, 0));
    assert_eq!(vm.run_context.ap, 2);
    assert_eq!(vm.step_instruction(), Ok(()));
    assert_eq!(vm.run_context.pc, rel(0, 2));
    assert_eq!(vm.run_context.ap, 2);
    assert_eq!(vm.get_maybe(&vm.get_ap()), Ok(Some(num(0x4))));
    assert_eq!(vm.step_instruction(), Ok(()));
    assert_eq!(vm.run_context.pc, rel(0, 4));
    assert_eq!(vm.run_context.ap, 3);
    assert_eq!(vm.get_maybe(&vm.get_ap()), Ok(Some(num(0x5))));
    assert_eq!(vm.step_instruction(), Ok(()));
    assert_eq!(vm.run_context.pc, rel(0, 6));
    assert_eq!(vm.run_context.ap, 4);
    assert_eq!(vm.get_maybe(&vm.get_ap()), Ok(Some(num(0x14))));
    assert_eq!(vm.current_step, 3);
}

#[test]
fn step_failure_is_wrapped_by_an_error_attribute() {
    let attr = Attribute { name: "error_message".to_string(), start_pc: 0, end_pc: 5, value: "bad step".to_string() };
    let mut vm = VirtualMachine::new(big(PRIME), false, vec![attr]);
    for _ in 0..2 {
        vm.add_memory_segment();
    }
    // [ap] = [ap + 1] * [ap + 2] with nothing to multiply
    write(&mut vm, &[((0, 0), num(0x40507ffe7fff8000))]);
    set_registers(&mut vm, 0, 2, 2);
    let err = vm.step_instruction().unwrap_err();
    assert!(matches!(err, VirtualMachineError::ErrorMessageAttribute(ref m, _) if m == "bad step"));
    assert_eq!(vm.current_step, 0);
}

#[test]
fn step_without_instruction_fails() {
    let mut vm = vm_with(false, 2);
    assert_eq!(vm.step_instruction(), Err(VirtualMachineError::InvalidInstructionEncoding));
    assert_eq!(vm.current_step, 0);
}

#[test]
fn deduce_memory_cell_no_pedersen_builtin() {
    let vm = vm();
    assert_eq!(vm.deduce_memory_cell(&rel(0, 0)), Ok(None));
}

#[test]
fn deduce_memory_cell_bitwise_builtin_valid_and() {
    let mut vm = vm_with(false, 1);
    let builtin = BitwiseBuiltinRunner::new(&BitwiseInstanceDef::default(), true);
    vm.builtin_runners.push((String::from("bitwise"), BuiltinRunner::Bitwise(builtin)));
    write(&mut vm, &[((0, 5), num(10)), ((0, 6), num(12)), ((0, 7), num(0))]);
    assert_eq!(vm.deduce_memory_cell(&rel(0, 7)), Ok(Some(num(8))));
}

#[test]
fn compute_operands_bitwise() {
    let i = inst(
        (0, -5, 2),
        Register::AP,
        Register::FP,
        Op1Addr::Op0,
        Res::Op1,
        PcUpdate::Regular,
        ApUpdate::Add1,
        FpUpdate::Regular,
        Opcode::AssertEq,
    );
    let mut builtin = BitwiseBuiltinRunner::new(&BitwiseInstanceDef::default(), true);
    builtin.base = 2;
    let mut vm = vm_with(false, 4);
    vm.builtin_runners.push((String::from("bitwise"), BuiltinRunner::Bitwise(builtin)));
    set_registers(&mut vm, 0, 9, 8);
    write(
        &mut vm,
        &[
            ((2, 0), num(12)),
            ((2, 1), num(10)),
            ((1, 0), addr(2, 0)),
            ((1, 1), addr(3, 0)),
            ((1, 2), addr(4, 0)),
            ((1, 3), addr(2, 0)),
            ((1, 4), num(12)),
            ((1, 5), num(10)),
            ((1, 6), addr(1, 3)),
            ((1, 7), addr(0, 13)),
        ],
    );
    let expected = ops(num(8), Some(num(8)), addr(2, 0), num(8));
    let (o, a) = vm.compute_operands(&i).unwrap();
    assert_eq!(o, expected);
    assert_eq!(a, OperandsAddresses(rel(1, 9), rel(1, 3), rel(2, 2)));
}

#[test]
fn verify_auto_deductions_bitwise() {
    let mut builtin = BitwiseBuiltinRunner::new(&BitwiseInstanceDef::default(), true);
    builtin.base = 2;
    let mut vm = vm_with(false, 3);
    vm.builtin_runners.push((String::from("bitwise"), BuiltinRunner::Bitwise(builtin)));
    write(&mut vm, &[((2, 0), num(12)), ((2, 1), num(10))]);
    assert_eq!(vm.verify_auto_deductions(), Ok(()));
}

#[test]
fn verify_auto_deductions_bitwise_inconsistent() {
    let mut builtin = BitwiseBuiltinRunner::new(&BitwiseInstanceDef::default(), true);
    builtin.base = 2;
    let mut vm = vm_with(false, 3);
    vm.builtin_runners.push((String::from("bitwise"), BuiltinRunner::Bitwise(builtin)));
    write(&mut vm, &[((2, 0), num(12)), ((2, 1), num(10)), ((2, 2), num(9)), ((2, 3), num(6))]);
    assert_eq!(
        vm.verify_auto_deductions(),
        Err(VirtualMachineError::InconsistentAutoDeduction("bitwise".to_string(), num(8), Some(num(9))))
    );
}

#[test]
fn end_run_checks_scopes() {
    let mut builtin = BitwiseBuiltinRunner::new(&BitwiseInstanceDef::default(), true);
    builtin.base = 2;
    let mut vm = vm_with(false, 3);
    vm.builtin_runners.push((String::from("bitwise"), BuiltinRunner::Bitwise(builtin)));
    write(&mut vm, &[((2, 0), num(12)), ((2, 1), num(10)), ((2, 2), num(8))]);
    assert_eq!(vm.end_run(1), Ok(()));
}

#[test]
fn end_run_error() {
    let vm = vm();
    assert_eq!(vm.end_run(2), Err(VirtualMachineError::NoScopeError));
}

#[test]
fn can_get_return_values() {
    let mut vm = vm_with(false, 2);
    vm.set_ap(4);
    write(&mut vm, &[((1, 0), num(1)), ((1, 1), num(2)), ((1, 2), num(3)), ((1, 3), num(4))]);
    let expected = vec![num(1), num(2), num(3), num(4)];
    assert_eq!(vm.get_return_values(4).unwrap(), expected);
}

#[test]
fn get_return_values_fails_when_ap_is_0() {
    let mut vm = vm_with(false, 2);
    write(&mut vm, &[((1, 0), num(1)), ((1, 1), num(2)), ((1, 2), num(3)), ((1, 3), num(4))]);
    assert!(matches!(vm.get_return_values(3), Err(MemoryError::NumOutOfBounds)));
}

#[test]
fn get_range_for_continuous_memory() {
    let mut vm = vm_with(false, 2);
    write(&mut vm, &[((1, 0), num(2)), ((1, 1), num(3)), ((1, 2), num(4))]);
    let value1 = num(2);
    let value2 = num(3);
    let value3 = num(4);
    let expected_vec = vec![Some(value1), Some(value2), Some(value3)];
    assert_eq!(vm.get_range(&addr(1, 0), 3), Ok(expected_vec));
}

#[test]
fn get_range_for_non_continuous_memory() {
    let mut vm = vm_with(false, 2);
    write(&mut vm, &[((1, 0), num(2)), ((1, 1), num(3)), ((1, 3), num(4))]);
    let expected_vec = vec![Some(num(2)), Some(num(3)), None, Some(num(4))];
    assert_eq!(vm.get_range(&addr(1, 0), 4), Ok(expected_vec));
}

#[test]
fn get_continuous_range_for_continuous_memory() {
    let mut vm = vm_with(false, 2);
    write(&mut vm, &[((1, 0), num(2)), ((1, 1), num(3)), ((1, 2), num(4))]);
    let expected_vec = vec![num(2), num(3), num(4)];
    assert_eq!(vm.get_continuous_range(&addr(1, 0), 3), Ok(expected_vec));
}

#[test]
fn get_continuous_range_for_non_continuous_memory() {
    let mut vm = vm_with(false, 2);
    write(&mut vm, &[((1, 0), num(2)), ((1, 1), num(3)), ((1, 3), num(4))]);
    assert_eq!(vm.get_continuous_range(&addr(1, 0), 3), Err(MemoryError::GetRangeMemoryGap));
}

#[test]
fn get_integer_range_reads_integers() {
    let mut vm = vm_with(false, 2);
    write(&mut vm, &[((1, 0), num(2)), ((1, 1), num(3)), ((1, 2), addr(0, 0))]);
    assert_eq!(vm.get_integer_range(&rel(1, 0), 2), Ok(vec![Felt::from_u64(2), Felt::from_u64(3)]));
    assert_eq!(vm.get_integer_range(&rel(1, 0), 3), Err(VirtualMachineError::ExpectedInteger(rel(1, 2))));
}

#[test]
fn get_segment_used_size_after_computing_used() {
    let mut vm = vm();
    vm.segments.segment_used_sizes = Some(vec![1, 4, 7]);
    assert_eq!(vm.get_segment_used_size(2), Some(7));
}

#[test]
fn get_segment_used_size_before_computing_used() {
    let vm = vm();
    assert_eq!(None, vm.get_segment_used_size(2));
}

#[test]
fn get_and_set_pc() {
    let mut vm = vm();
    vm.set_pc(rel(3, 4));
    assert_eq!(vm.get_pc(), rel(3, 4))
}

#[test]
fn get_and_set_fp() {
    let mut vm = vm();
    vm.set_fp(3);
    assert_eq!(vm.get_fp(), rel(1, 3))
}

#[test]
fn get_maybe_key_not_in_memory() {
    let vm = vm();
    assert_eq!(vm.get_maybe(&rel(5, 2)), Ok(None));
}

#[test]
fn add_temporary_segments() {
    let mut vm = vm();
    let mut active_index = -1;
    for i in 1..7 {
        assert_eq!(vm.add_temporary_segment(), rel(-i, 0));
        active_index -= 1;
    }
    assert_eq!(active_index, -7);
}

#[test]
fn compute_dst_deductions_insert_into_written_mem() {
    let i = simple(Res::Add, PcUpdate::Regular, ApUpdate::Regular, FpUpdate::Regular, Opcode::AssertEq);
    let mut vm = vm_with(false, 2);
    write(&mut vm, &[((1, 0), num(1))]);
    assert_eq!(
        vm.compute_dst_deductions(&rel(1, 0), &i, &Some(num(2))),
        Err(VirtualMachineError::MemoryError(MemoryError::InconsistentMemory(addr(1, 0), num(1), num(2))))
    );
}

#[test]
fn compute_op1_deductions_insert_into_written_mem() {
    let i = simple(Res::Op1, PcUpdate::Regular, ApUpdate::Regular, FpUpdate::Regular, Opcode::AssertEq);
    let mut vm = vm_with(false, 2);
    write(&mut vm, &[((1, 0), num(10))]);
    let mut res = None;
    assert_eq!(
        vm.compute_op1_deductions(&rel(1, 0), &mut res, &i, &Some(num(11)), &num(0)),
        Err(VirtualMachineError::MemoryError(MemoryError::InconsistentMemory(addr(1, 0), num(10), num(11))))
    );
}

#[test]
fn compute_op0_deductions_missing_segment() {
    let i = simple(Res::Add, PcUpdate::Regular, ApUpdate::Regular, FpUpdate::Regular, Opcode::AssertEq);
    let mut vm = vm_with(false, 1);
    let mut res = None;
    assert!(matches!(
        vm.compute_op0_deductions(&rel(1, 0), &mut res, &i, &Some(num(20)), &Some(num(10))),
        Err(VirtualMachineError::MemoryError(MemoryError::UnallocatedSegment(1, 1)))
    ));
}

#[test]
fn decode_current_instruction_invalid_encoding() {
    let mut vm = vm_with(false, 1);
    write(&mut vm, &[((0, 0), MaybeRelocatable::Int(big(b"112233445566778899112233445566778899")))]);
    assert!(matches!(vm.decode_current_instruction(), Err(VirtualMachineError::InvalidInstructionEncoding)));
}

#[test]
fn add_relocation_rule_test() {
    let mut vm = vm();
    assert_eq!(vm.add_relocation_rule(rel(-1, 0), rel(1, 2)), Ok(()));
    assert_eq!(vm.add_relocation_rule(rel(-2, 0), rel(-1, 1)), Ok(()));
    assert_eq!(vm.add_relocation_rule(rel(5, 0), rel(0, 0)), Err(MemoryError::AddressNotInTemporarySegment(5)));
    assert_eq!(vm.add_relocation_rule(rel(-3, 6), rel(0, 0)), Err(MemoryError::NonZeroOffset(6)));
    assert_eq!(vm.add_relocation_rule(rel(-1, 0), rel(0, 0)), Err(MemoryError::DuplicatedRelocation(-1)));
}

#[test]
fn relocated_values_read_through_the_rule() {
    let mut vm = vm_with(false, 3);
    vm.add_temporary_segment();
    write(&mut vm, &[((1, 0), addr(-1, 3))]);
    assert_eq!(vm.get_relocatable(&rel(1, 0)), Ok(rel(-1, 3)));
    assert_eq!(vm.add_relocation_rule(rel(-1, 0), rel(2, 5)), Ok(()));
    assert_eq!(vm.get_relocatable(&rel(1, 0)), Ok(rel(2, 8)));
}

#[test]
fn disable_trace() {
    let mut vm = VirtualMachine::new(Felt::from_u64(17), true, Vec::new());
    assert!(vm.get_trace().is_some());
    vm.disable_trace();
    assert!(vm.get_trace().is_none());
}

#[test]
fn write_once_violation() {
    let mut vm = vm_with(false, 2);
    assert_eq!(vm.insert_value(&rel(1, 0), &num(4)), Ok(()));
    assert_eq!(vm.insert_value(&rel(1, 0), &num(4)), Ok(()));
    assert_eq!(
        vm.insert_value(&rel(1, 0), &num(5)),
        Err(VirtualMachineError::MemoryError(MemoryError::InconsistentMemory(addr(1, 0), num(4), num(5))))
    );
    assert_eq!(vm.get_integer(&rel(1, 0)), Ok(Felt::from_u64(4)));
}

#[test]
fn load_data_writes_consecutive_cells() {
    let mut vm = vm_with(false, 2);
    let end = vm.load_data(&addr(1, 1), &vec![num(7), num(8), addr(0, 0)]).unwrap();
    assert_eq!(end, addr(1, 4));
    assert_eq!(vm.get_range(&addr(1, 0), 4), Ok(vec![None, Some(num(7)), Some(num(8)), Some(addr(0, 0))]));
    assert_eq!(vm.load_data(&num(1), &vec![num(7)]), Err(MemoryError::AddressNotRelocatable));
}

#[test]
fn identical_states_step_identically() {
    let build = || {
        let mut vm = vm_with(true, 4);
        write(
            &mut vm,
            &[
                ((0, 0), num(0x400680017fff8000)),
                ((0, 1), num(0x4)),
                ((0, 2), num(0x40780017fff7fff)),
                ((0, 3), num(0x1)),
                ((1, 0), addr(2, 0)),
                ((1, 1), addr(3, 0)),
            ],
        );
        set_registers(&mut vm, 0, 2, 2);
        vm
    };
    let mut a = build();
    let mut b = build();
    for _ in 0..2 {
        assert_eq!(a.step_instruction(), b.step_instruction());
        assert_eq!(a.run_context, b.run_context);
    }
    assert_eq!(a.get_trace(), b.get_trace());
    assert_eq!(a.get_range(&addr(1, 0), 4), b.get_range(&addr(1, 0), 4));
}

#[test]
fn accesses_in_a_relocated_segment_land_at_the_target() {
    let mut vm = vm_with(false, 3);
    vm.add_temporary_segment();
    assert_eq!(vm.add_relocation_rule(rel(-1, 0), rel(2, 5)), Ok(()));
    assert_eq!(vm.insert_value(&rel(-1, 2), &num(9)), Ok(()));
    assert_eq!(vm.get_integer(&rel(2, 7)), Ok(Felt::from_u64(9)));
    assert_eq!(vm.get_integer(&rel(-1, 2)), Ok(Felt::from_u64(9)));
    assert_eq!(
        vm.insert_value(&rel(2, 7), &num(10)),
        Err(VirtualMachineError::MemoryError(MemoryError::InconsistentMemory(addr(2, 7), num(9), num(10))))
    );
}

#[test]
fn step_refuses_to_overflow_the_counter() {
    let mut vm = vm_with(false, 2);
    write(&mut vm, &[((0, 0), num(0x400680017fff8000)), ((0, 1), num(0x4))]);
    set_registers(&mut vm, 0, 2, 2);
    vm.current_step = usize::MAX;
    assert_eq!(vm.step_instruction(), Err(VirtualMachineError::StepCounterOverflow));
    assert_eq!(vm.run_context.pc, rel(0, 0));
}

#[test]
fn step_deduces_op1_by_field_division() {
    // [ap] = [ap + 1] * [ap + 2] with [ap + 2] missing: op1 = dst / op0
    let i = inst(
        (0, 1, 2),
        Register::AP,
        Register::AP,
        Op1Addr::AP,
        Res::Mul,
        PcUpdate::Regular,
        ApUpdate::Regular,
        FpUpdate::Regular,
        Opcode::AssertEq,
    );
    let mut vm = VirtualMachine::new(Felt::from_u64(7), false, Vec::new());
    for _ in 0..2 {
        vm.add_memory_segment();
    }
    write(&mut vm, &[((1, 0), num(1)), ((1, 1), num(3))]);
    assert_eq!(vm.run_instruction(i), Ok(()));
    assert_eq!(vm.get_integer(&rel(1, 2)), Ok(Felt::from_u64(5)));
    assert_eq!(vm.current_step, 1);
}

#[test]
fn compute_op0_deductions_insert_into_written_mem() {
    let mut vm = vm_with(false, 2);
    write(&mut vm, &[((0, 0), num(1)), ((1, 0), num(4))]);
    let op0_addr = rel(1, 0);
    let i = inst(
        (0, 0, 0),
        Register::AP,
        Register::AP,
        Op1Addr::AP,
        Res::Add,
        PcUpdate::Regular,
        ApUpdate::Regular,
        FpUpdate::Regular,
        Opcode::AssertEq,
    );
    assert_eq!(
        vm.compute_op0_deductions(&op0_addr, &mut Some(num(5)), &i, &Some(num(20)), &Some(num(10))),
        Err(VirtualMachineError::MemoryError(MemoryError::InconsistentMemory(addr(1, 0), num(4), num(10))))
    );
}

#[test]
fn step_failure_outside_any_attribute_is_not_wrapped() {
    let attr = Attribute { name: "error_message".to_string(), start_pc: 3, end_pc: 5, value: "bad step".to_string() };
    let mut vm = VirtualMachine::new(big(PRIME), false, vec![attr]);
    for _ in 0..2 {
        vm.add_memory_segment();
    }
    write(&mut vm, &[((0, 0), num(0x40507ffe7fff8000))]);
    set_registers(&mut vm, 0, 2, 2);
    assert_eq!(vm.step_instruction(), Err(VirtualMachineError::FailedToComputeOperands));
}
