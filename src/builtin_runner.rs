//! The builtins that a machine can hold, as one tagged type.
use crate::bitwise::{bitwise_bad_input, bitwise_deduce, used_size, BitwiseBuiltinRunner};
use crate::errors::{MemoryError, RunnerError};
use crate::memory::{opt_view, Memory};
use crate::relocatable::{MaybeRelocatable, Relocatable, Val};
use crate::vm_core::VirtualMachine;
use vstd::prelude::*;

verus! {

#[derive(Debug)]
pub enum BuiltinRunner {
    Bitwise(BitwiseBuiltinRunner),
}

impl BuiltinRunner {
    pub open spec fn spec_base(&self) -> isize {
        match self {
            BuiltinRunner::Bitwise(b) => b.base,
        }
    }

    /// What the builtin deduces at `a`: `None` where it fails.
    pub open spec fn spec_deduce(&self, a: Relocatable, m: &Memory) -> Option<Option<Val>> {
        match self {
            BuiltinRunner::Bitwise(b) => bitwise_deduce(b.bitwise_builtin.total_n_bits, a, m),
        }
    }

    /// The address, bit bound and value that a failing deduction at `a` reports.
    pub open spec fn spec_error(&self, a: Relocatable, m: &Memory) -> (Relocatable, u32, nat) {
        match self {
            BuiltinRunner::Bitwise(b) => (
                bitwise_bad_input(b.bitwise_builtin.total_n_bits, a, m).0,
                b.bitwise_builtin.total_n_bits,
                bitwise_bad_input(b.bitwise_builtin.total_n_bits, a, m).1,
            ),
        }
    }

    pub fn base(&self) -> (r: isize)
        ensures
            r == self.spec_base(),
    {
        match self {
            BuiltinRunner::Bitwise(b) => b.base(),
        }
    }

    pub fn ratio(&self) -> (r: u32)
        ensures
            self matches BuiltinRunner::Bitwise(b) ==> r == b.ratio,
    {
        match self {
            BuiltinRunner::Bitwise(b) => b.ratio(),
        }
    }

    pub fn deduce_memory_cell(&self, address: &Relocatable, memory: &Memory) -> (r: Result<Option<MaybeRelocatable>, RunnerError>)
        requires
            memory.wf(),
        ensures
            r is Ok <==> self.spec_deduce(*address, memory) is Some,
            r is Ok ==> opt_view(r->Ok_0) == self.spec_deduce(*address, memory).unwrap(),
            r is Err ==> r->Err_0 is IntegerBiggerThanPowerOfTwo && r->Err_0->IntegerBiggerThanPowerOfTwo_0@ == self.spec_error(
                *address,
                memory,
            ).0@ && r->Err_0->IntegerBiggerThanPowerOfTwo_1 == self.spec_error(*address, memory).1
                && r->Err_0->IntegerBiggerThanPowerOfTwo_2.val() == self.spec_error(*address, memory).2,
    {
        match self {
            BuiltinRunner::Bitwise(b) => b.deduce_memory_cell(address, memory),
        }
    }

    /// The used size of the builtin's segment.
    pub fn get_used_cells(&self, vm: &VirtualMachine) -> (r: Result<usize, MemoryError>)
        ensures
            self.spec_base() < 0 ==> r == Err::<usize, MemoryError>(MemoryError::AddressInTemporarySegment(self.spec_base())),
            self.spec_base() >= 0 && used_size(vm, self.spec_base() as int) is None ==> r == Err::<usize, MemoryError>(
                MemoryError::MissingSegmentUsedSizes,
            ),
            self.spec_base() >= 0 && used_size(vm, self.spec_base() as int) is Some ==> r == Ok::<usize, MemoryError>(
                used_size(vm, self.spec_base() as int).unwrap(),
            ),
    {
        match self {
            BuiltinRunner::Bitwise(b) => b.get_used_cells(vm),
        }
    }

    /// Every address of the builtin's segment up to its used size.
    pub fn get_memory_accesses(&self, vm: &VirtualMachine) -> (r: Result<Vec<Relocatable>, MemoryError>)
        ensures
            self.spec_base() < 0 ==> r == Err::<Vec<Relocatable>, MemoryError>(
                MemoryError::AddressInTemporarySegment(self.spec_base()),
            ),
            self.spec_base() >= 0 && used_size(vm, self.spec_base() as int) is None ==> r == Err::<Vec<Relocatable>, MemoryError>(
                MemoryError::MissingSegmentUsedSizes,
            ),
            self.spec_base() >= 0 && used_size(vm, self.spec_base() as int) is Some ==> r is Ok && r->Ok_0@ == Seq::new(
                used_size(vm, self.spec_base() as int).unwrap() as nat,
                |i: int| Relocatable { segment_index: self.spec_base(), offset: i as usize },
            ),
    {
        let base = self.base();
        let size = match self.get_used_cells(vm) {
            Ok(n) => n,
            Err(e) => {
                return Err(e);
            },
        };
        let mut v: Vec<Relocatable> = Vec::new();
        let mut i: usize = 0;
        while i < size
            invariant
                i <= size,
                base == self.spec_base(),
                v@ == Seq::new(i as nat, |j: int| Relocatable { segment_index: base, offset: j as usize }),
            decreases size - i,
        {
            v.push(Relocatable { segment_index: base, offset: i });
            i = i + 1;
            assert(v@ =~= Seq::new(i as nat, |j: int| Relocatable { segment_index: base, offset: j as usize }));
        }
        Ok(v)
    }

    pub fn get_used_diluted_check_units(&self, diluted_spacing: u32, diluted_n_bits: u32) -> (r: usize)
        requires
            diluted_spacing > 0,
            diluted_n_bits > 0,
            diluted_spacing * diluted_n_bits <= u32::MAX,
            self matches BuiltinRunner::Bitwise(b) ==> b.bitwise_builtin.total_n_bits + diluted_spacing * diluted_n_bits <= u32::MAX
                && 5 * b.bitwise_builtin.total_n_bits <= usize::MAX,
        ensures
            self matches BuiltinRunner::Bitwise(b) ==> ({
                let total = b.bitwise_builtin.total_n_bits as nat;
                let step = (diluted_spacing * diluted_n_bits) as nat;
                let p = crate::bitwise::partition(total, step, diluted_spacing as nat, 0);
                r == 4 * p.len() + crate::bitwise::count_trimmed(
                    p,
                    total,
                    (diluted_spacing * (diluted_n_bits - 1) + 1) as nat,
                )
            }),
    {
        match self {
            BuiltinRunner::Bitwise(b) => b.get_used_diluted_check_units(diluted_spacing, diluted_n_bits),
        }
    }
}

} // verus!
