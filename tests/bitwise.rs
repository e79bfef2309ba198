use cairo_vm_core::bitwise::{BitwiseBuiltinRunner, BitwiseInstanceDef};
use cairo_vm_core::builtin_runner::BuiltinRunner;
use cairo_vm_core::errors::{MemoryError, RunnerError};
use cairo_vm_core::felt::Felt;
use cairo_vm_core::memory::Memory;
use cairo_vm_core::relocatable::{MaybeRelocatable, Relocatable};
use cairo_vm_core::segments::MemorySegmentManager;
use cairo_vm_core::vm_core::VirtualMachine;
use num_bigint::BigUint;

fn prime() -> Felt {
    let p = BigUint::parse_bytes(
        b"3618502788666131213697322783095070105623107215331596699973092056135872020481",
        10,
    )
    .unwrap();
    Felt::from_digits(p.to_u32_digits())
}

fn num(n: u64) -> MaybeRelocatable {
    MaybeRelocatable::from_u64(n)
}

fn addr(s: isize, o: usize) -> MaybeRelocatable {
    MaybeRelocatable::from_addr(s, o)
}

/// A memory with segments 0..n and the given cells written.
fn memory_with(n: usize, cells: &[((isize, usize), MaybeRelocatable)]) -> Memory {
    let mut m = Memory::new();
    for _ in 0..n {
        m.add_segment();
    }
    for ((s, o), v) in cells {
        m.insert(&Relocatable::new(*s, *o), v).unwrap();
    }
    m
}

fn vm() -> VirtualMachine {
    VirtualMachine::new(prime(), false, Vec::new())
}

#[test]
fn deduce_memory_cell_bitwise_for_preset_memory_valid_and() {
    let memory = memory_with(1, &[((0, 5), num(10)), ((0, 6), num(12)), ((0, 7), num(0))]);
    let builtin = BitwiseBuiltinRunner::new(&BitwiseInstanceDef::default(), true);
    let result = builtin.deduce_memory_cell(&Relocatable::new(0, 7), &memory);
    assert_eq!(result, Ok(Some(num(8))));
}

#[test]
fn deduce_memory_cell_bitwise_for_preset_memory_valid_xor() {
    let memory = memory_with(1, &[((0, 5), num(10)), ((0, 6), num(12)), ((0, 8), num(0))]);
    let builtin = BitwiseBuiltinRunner::new(&BitwiseInstanceDef::default(), true);
    let result = builtin.deduce_memory_cell(&Relocatable::new(0, 8), &memory);
    assert_eq!(result, Ok(Some(num(6))));
}

#[test]
fn deduce_memory_cell_bitwise_for_preset_memory_valid_or() {
    let memory = memory_with(1, &[((0, 5), num(10)), ((0, 6), num(12)), ((0, 9), num(0))]);
    let builtin = BitwiseBuiltinRunner::new(&BitwiseInstanceDef::default(), true);
    let result = builtin.deduce_memory_cell(&Relocatable::new(0, 9), &memory);
    assert_eq!(result, Ok(Some(num(14))));
}

#[test]
fn deduce_memory_cell_bitwise_for_preset_memory_incorrect_offset() {
    let memory = memory_with(1, &[((0, 3), num(10)), ((0, 4), num(12)), ((0, 5), num(0))]);
    let builtin = BitwiseBuiltinRunner::new(&BitwiseInstanceDef::default(), true);
    let result = builtin.deduce_memory_cell(&Relocatable::new(0, 5), &memory);
    assert_eq!(result, Ok(None));
}

#[test]
fn deduce_memory_cell_bitwise_for_preset_memory_no_values_to_operate() {
    let memory = memory_with(1, &[((0, 5), num(12)), ((0, 7), num(0))]);
    let builtin = BitwiseBuiltinRunner::new(&BitwiseInstanceDef::default(), true);
    let result = builtin.deduce_memory_cell(&Relocatable::new(0, 5), &memory);
    assert_eq!(result, Ok(None));
}

#[test]
fn deduce_memory_cell_bitwise_missing_input_gives_none() {
    let memory = memory_with(1, &[((0, 5), num(12))]);
    let builtin = BitwiseBuiltinRunner::new(&BitwiseInstanceDef::default(), true);
    assert_eq!(builtin.deduce_memory_cell(&Relocatable::new(0, 7), &memory), Ok(None));
}

#[test]
fn deduce_memory_cell_bitwise_input_too_large() {
    let big = Felt::pow2(251);
    let memory = memory_with(1, &[((0, 0), MaybeRelocatable::Int(big.clone())), ((0, 1), num(1))]);
    let builtin = BitwiseBuiltinRunner::new(&BitwiseInstanceDef::default(), true);
    assert_eq!(
        builtin.deduce_memory_cell(&Relocatable::new(0, 2), &memory),
        Err(RunnerError::IntegerBiggerThanPowerOfTwo(addr(0, 0), 251, big))
    );
}

#[test]
fn deduce_memory_cell_bitwise_second_input_too_large() {
    let big = Felt::pow2(252);
    let memory = memory_with(1, &[((0, 0), num(3)), ((0, 1), MaybeRelocatable::Int(big.clone()))]);
    let builtin = BitwiseBuiltinRunner::new(&BitwiseInstanceDef::default(), true);
    assert_eq!(
        builtin.deduce_memory_cell(&Relocatable::new(0, 4), &memory),
        Err(RunnerError::IntegerBiggerThanPowerOfTwo(addr(0, 1), 251, big))
    );
}

#[test]
fn deduce_memory_cell_bitwise_results_stay_below_bound() {
    // inputs below 2^8 give outputs below 2^8
    let memory = memory_with(1, &[((0, 0), num(0xf0)), ((0, 1), num(0x3c))]);
    let builtin = BitwiseBuiltinRunner::new(&BitwiseInstanceDef { ratio: 1, total_n_bits: 8 }, true);
    assert_eq!(builtin.deduce_memory_cell(&Relocatable::new(0, 2), &memory), Ok(Some(num(0x30))));
    assert_eq!(builtin.deduce_memory_cell(&Relocatable::new(0, 3), &memory), Ok(Some(num(0xcc))));
    assert_eq!(builtin.deduce_memory_cell(&Relocatable::new(0, 4), &memory), Ok(Some(num(0xfc))));
}

#[test]
fn get_memory_segment_addresses() {
    let builtin = BitwiseBuiltinRunner::new(&BitwiseInstanceDef::default(), true);
    assert_eq!(builtin.get_memory_segment_addresses(), ("bitwise", (0, None)));
}

#[test]
fn get_memory_accesses_missing_segment_used_sizes() {
    let builtin = BuiltinRunner::Bitwise(BitwiseBuiltinRunner::new(&BitwiseInstanceDef::default(), true));
    let vm = vm();
    assert_eq!(builtin.get_memory_accesses(&vm), Err(MemoryError::MissingSegmentUsedSizes));
}

#[test]
fn get_memory_accesses_empty() {
    let builtin = BuiltinRunner::Bitwise(BitwiseBuiltinRunner::new(&BitwiseInstanceDef::default(), true));
    let mut vm = vm();
    vm.segments.segment_used_sizes = Some(vec![0]);
    assert_eq!(builtin.get_memory_accesses(&vm), Ok(vec![]));
}

#[test]
fn get_memory_accesses() {
    let builtin = BuiltinRunner::Bitwise(BitwiseBuiltinRunner::new(&BitwiseInstanceDef::default(), true));
    let mut vm = vm();
    vm.segments.segment_used_sizes = Some(vec![4]);
    assert_eq!(
        builtin.get_memory_accesses(&vm),
        Ok(vec![
            Relocatable::new(builtin.base(), 0),
            Relocatable::new(builtin.base(), 1),
            Relocatable::new(builtin.base(), 2),
            Relocatable::new(builtin.base(), 3),
        ]),
    );
}

#[test]
fn get_used_cells_missing_segment_used_sizes() {
    let builtin = BuiltinRunner::Bitwise(BitwiseBuiltinRunner::new(&BitwiseInstanceDef::default(), true));
    let vm = vm();
    assert_eq!(builtin.get_used_cells(&vm), Err(MemoryError::MissingSegmentUsedSizes));
}

#[test]
fn get_used_cells_empty() {
    let builtin = BuiltinRunner::Bitwise(BitwiseBuiltinRunner::new(&BitwiseInstanceDef::default(), true));
    let mut vm = vm();
    vm.segments.segment_used_sizes = Some(vec![0]);
    assert_eq!(builtin.get_used_cells(&vm), Ok(0));
}

#[test]
fn get_used_cells() {
    let builtin = BuiltinRunner::Bitwise(BitwiseBuiltinRunner::new(&BitwiseInstanceDef::default(), true));
    let mut vm = vm();
    vm.segments.segment_used_sizes = Some(vec![4]);
    assert_eq!(builtin.get_used_cells(&vm), Ok(4));
}

#[test]
fn get_used_cells_temporary_base() {
    let mut b = BitwiseBuiltinRunner::new(&BitwiseInstanceDef::default(), true);
    b.base = -1;
    let vm = vm();
    assert_eq!(b.get_used_cells(&vm), Err(MemoryError::AddressInTemporarySegment(-1)));
}

#[test]
fn get_used_instances() {
    let builtin = BitwiseBuiltinRunner::new(&BitwiseInstanceDef::new(10), true);
    let mut vm = vm();
    vm.segments.segment_used_sizes = Some(vec![1]);
    assert_eq!(builtin.get_used_instances(&vm), Ok(1));
}

#[test]
fn get_used_instances_rounds_up() {
    let builtin = BitwiseBuiltinRunner::new(&BitwiseInstanceDef::new(10), true);
    let mut vm = vm();
    vm.segments.segment_used_sizes = Some(vec![11]);
    assert_eq!(builtin.get_used_instances(&vm), Ok(3));
}

/// A machine with segments 0..=2, and `(2,0), (2,1)` written.
fn vm_for_final_stack(last: MaybeRelocatable, used: usize) -> VirtualMachine {
    let mut vm = vm();
    for _ in 0..3 {
        vm.add_memory_segment();
    }
    vm.insert_value(&Relocatable::new(0, 0), &addr(0, 0)).unwrap();
    vm.insert_value(&Relocatable::new(0, 1), &addr(0, 1)).unwrap();
    vm.insert_value(&Relocatable::new(2, 0), &addr(0, 0)).unwrap();
    vm.insert_value(&Relocatable::new(2, 1), &last).unwrap();
    vm.segments.segment_used_sizes = Some(vec![used]);
    vm
}

#[test]
fn final_stack() {
    let builtin = BitwiseBuiltinRunner::new(&BitwiseInstanceDef::new(10), true);
    let vm = vm_for_final_stack(addr(0, 0), 0);
    let pointer = Relocatable::new(2, 2);
    assert_eq!(builtin.final_stack(&vm, pointer).unwrap(), (Relocatable::new(2, 1), 0));
}

#[test]
fn final_stack_error_stop_pointer() {
    let builtin = BitwiseBuiltinRunner::new(&BitwiseInstanceDef::new(10), true);
    let vm = vm_for_final_stack(addr(0, 0), 999);
    let pointer = Relocatable::new(2, 2);
    assert_eq!(
        builtin.final_stack(&vm, pointer),
        Err(RunnerError::InvalidStopPointer("bitwise".to_string()))
    );
}

#[test]
fn final_stack_error_when_not_included() {
    let builtin = BitwiseBuiltinRunner::new(&BitwiseInstanceDef::new(10), false);
    let vm = vm_for_final_stack(addr(0, 0), 0);
    let pointer = Relocatable::new(2, 2);
    assert_eq!(builtin.final_stack(&vm, pointer).unwrap(), (Relocatable::new(2, 2), 0));
}

#[test]
fn final_stack_error_non_relocatable() {
    let builtin = BitwiseBuiltinRunner::new(&BitwiseInstanceDef::new(10), true);
    let vm = vm_for_final_stack(num(2), 0);
    let pointer = Relocatable::new(2, 2);
    assert_eq!(builtin.final_stack(&vm, pointer), Err(RunnerError::FinalStack));
}

#[test]
fn get_allocated_memory_units_divides_steps() {
    let builtin = BitwiseBuiltinRunner::new(&BitwiseInstanceDef::new(10), true);
    let mut vm = vm();
    vm.current_step = 10;
    assert_eq!(builtin.get_allocated_memory_units(&vm), Ok(5));
    vm.current_step = 7;
    assert_eq!(builtin.get_allocated_memory_units(&vm), Err(MemoryError::ErrorCalculatingMemoryUnits));
}

#[test]
fn get_used_cells_and_allocated_size_test() {
    let builtin = BitwiseBuiltinRunner::new(&BitwiseInstanceDef::new(10), true);
    let mut vm = vm();
    vm.segments.segment_used_sizes = Some(vec![0]);
    vm.current_step = 10;
    assert_eq!(builtin.get_used_cells_and_allocated_size(&vm), Ok((0, 5)));
    vm.current_step = 5;
    assert_eq!(
        builtin.get_used_cells_and_allocated_size(&vm),
        Err(MemoryError::InsufficientAllocatedCells)
    );
}

#[test]
fn get_used_diluted_check_units_a() {
    let builtin = BuiltinRunner::Bitwise(BitwiseBuiltinRunner::new(&BitwiseInstanceDef::default(), true));
    assert_eq!(builtin.get_used_diluted_check_units(12, 2), 535);
}

#[test]
fn get_used_diluted_check_units_b() {
    let builtin = BuiltinRunner::Bitwise(BitwiseBuiltinRunner::new(&BitwiseInstanceDef::default(), true));
    assert_eq!(builtin.get_used_diluted_check_units(30, 56), 150);
}

#[test]
fn get_used_diluted_check_units_c() {
    let builtin = BuiltinRunner::Bitwise(BitwiseBuiltinRunner::new(&BitwiseInstanceDef::default(), true));
    assert_eq!(builtin.get_used_diluted_check_units(50, 25), 250);
}

#[test]
fn initial_stack_and_segments() {
    let mut builtin = BitwiseBuiltinRunner::new(&BitwiseInstanceDef::default(), true);
    let mut segments = MemorySegmentManager::new();
    let mut memory = Memory::new();
    memory.add_segment();
    builtin.initialize_segments(&mut segments, &mut memory);
    assert_eq!(builtin.base(), 1);
    assert_eq!(builtin.initial_stack(), vec![addr(1, 0)]);
    assert_eq!(builtin.ratio(), 256);
    assert_eq!(builtin.cells_per_instance(), 5);
    assert_eq!(builtin.n_input_cells(), 2);
    assert_eq!(builtin.add_validation_rule(&mut memory), Ok(()));
    let excluded = BitwiseBuiltinRunner::new(&BitwiseInstanceDef::default(), false);
    assert_eq!(excluded.initial_stack(), vec![]);
}
