//! The bitwise builtin: cells of five, `x, y, x & y, x ^ y, x | y`.
use crate::errors::{MemoryError, RunnerError};
use crate::felt::{bit_and, bit_or, bit_xor, two_pow, Felt};
use crate::memory::{opt_view, Memory};
use crate::relocatable::{MaybeRelocatable, Relocatable, Val};
use crate::segments::MemorySegmentManager;
use crate::vm_core::VirtualMachine;
use vstd::prelude::*;

verus! {

pub const CELLS_PER_BITWISE: u32 = 5;

pub const INPUT_CELLS_PER_BITWISE: u32 = 2;

/// Static parameters of the bitwise builtin.
#[derive(Clone, Copy, Debug, PartialEq, Eq, Structural)]
pub struct BitwiseInstanceDef {
    pub ratio: u32,
    pub total_n_bits: u32,
}

impl BitwiseInstanceDef {
    pub fn new(ratio: u32) -> (r: BitwiseInstanceDef)
        ensures
            r.ratio == ratio,
            r.total_n_bits == 251,
    {
        BitwiseInstanceDef { ratio, total_n_bits: 251 }
    }

    pub fn default() -> (r: BitwiseInstanceDef)
        ensures
            r.ratio == 256,
            r.total_n_bits == 251,
    {
        BitwiseInstanceDef { ratio: 256, total_n_bits: 251 }
    }
}

/// The value of output cell `index` of an instance with inputs `x` and `y`.
pub open spec fn bitwise_output(index: nat, x: nat, y: nat) -> Option<nat> {
    if index == 2 {
        Some(bit_and(x, y))
    } else if index == 3 {
        Some(bit_xor(x, y))
    } else if index == 4 {
        Some(bit_or(x, y))
    } else {
        None
    }
}

/// The integer read at `a`, if an integer is there.
pub open spec fn int_at(memory: &Memory, a: Relocatable) -> Option<nat> {
    match memory.value_at(a) {
        Some(Val::Int(n)) => Some(n),
        _ => None,
    }
}

/// What the bitwise builtin deduces at `a`: `None` for an operand out of
/// range, else the value owed at `a`, if any.
pub open spec fn bitwise_deduce(n_bits: u32, a: Relocatable, m: &Memory) -> Option<Option<Val>> {
    let index = a.offset % 5;
    let x = int_at(m, instance_start(a));
    let y = int_at(m, second_input(a));
    if index < 2 || x is None || y is None {
        Some(None)
    } else if x.unwrap() >= two_pow(n_bits as nat) || y.unwrap() >= two_pow(n_bits as nat) {
        None
    } else {
        Some(Some(Val::Int(bitwise_output(index as nat, x.unwrap(), y.unwrap()).unwrap())))
    }
}

/// The input that an out-of-range deduction at `a` reports: `x` where it is
/// too large, else `y`.
pub open spec fn bitwise_bad_input(n_bits: u32, a: Relocatable, m: &Memory) -> (Relocatable, nat) {
    let x = int_at(m, instance_start(a));
    let y = int_at(m, second_input(a));
    if x.unwrap() >= two_pow(n_bits as nat) {
        (instance_start(a), x.unwrap())
    } else {
        (second_input(a), y.unwrap())
    }
}

/// First cell of the instance that holds `a`.
pub open spec fn instance_start(a: Relocatable) -> Relocatable {
    Relocatable { segment_index: a.segment_index, offset: (a.offset - a.offset % 5) as usize }
}

pub open spec fn second_input(a: Relocatable) -> Relocatable {
    Relocatable { segment_index: a.segment_index, offset: (a.offset - a.offset % 5 + 1) as usize }
}

#[derive(Debug)]
pub struct BitwiseBuiltinRunner {
    pub ratio: u32,
    pub base: isize,
    pub bitwise_builtin: BitwiseInstanceDef,
    pub stop_ptr: Option<usize>,
    pub included: bool,
    pub instances_per_component: u32,
}

impl BitwiseBuiltinRunner {
    pub fn new(instance_def: &BitwiseInstanceDef, included: bool) -> (r: BitwiseBuiltinRunner)
        ensures
            r.base == 0,
            r.ratio == instance_def.ratio,
            r.bitwise_builtin == *instance_def,
            r.stop_ptr is None,
            r.included == included,
            r.instances_per_component == 1,
    {
        BitwiseBuiltinRunner {
            ratio: instance_def.ratio,
            base: 0,
            bitwise_builtin: *instance_def,
            stop_ptr: None,
            included,
            instances_per_component: 1,
        }
    }

    /// Takes a new segment of `memory` as the builtin's own.
    pub fn initialize_segments(&mut self, segments: &mut MemorySegmentManager, memory: &mut Memory)
        requires
            old(memory).wf(),
            old(memory).num_segments() < isize::MAX,
        ensures
            final(memory).wf(),
            final(self).base == old(memory).num_segments(),
            final(self).ratio == old(self).ratio,
            final(self).bitwise_builtin == old(self).bitwise_builtin,
            final(self).stop_ptr == old(self).stop_ptr,
            final(self).included == old(self).included,
            final(self).instances_per_component == old(self).instances_per_component,
            *final(segments) == *old(segments),
            final(memory).num_segments() == old(memory).num_segments() + 1,
            old(memory).extends(&*final(memory)),
            final(memory).segment(final(self).base as int) == Some(Seq::<Option<MaybeRelocatable>>::empty()),
            forall|seg: int| seg != final(self).base ==> #[trigger] final(memory).segment(seg) == old(memory).segment(seg),
            forall|seg: int| #[trigger] final(memory).rule(seg) == old(memory).rule(seg),
    {
        self.base = segments.add(memory).segment_index;
    }

    /// The pointer that the program receives: the segment's start, when included.
    pub fn initial_stack(&self) -> (r: Vec<MaybeRelocatable>)
        ensures
            self.included ==> r@.len() == 1 && r@[0]@ == Val::Addr(self.base as int, 0),
            !self.included ==> r@.len() == 0,
    {
        if self.included {
            let mut v = Vec::new();
            v.push(MaybeRelocatable::from_addr(self.base, 0));
            v
        } else {
            Vec::new()
        }
    }

    pub fn base(&self) -> (r: isize)
        ensures
            r == self.base,
    {
        self.base
    }

    pub fn ratio(&self) -> (r: u32)
        ensures
            r == self.ratio,
    {
        self.ratio
    }

    pub fn cells_per_instance(&self) -> (r: u32)
        ensures
            r == CELLS_PER_BITWISE,
    {
        CELLS_PER_BITWISE
    }

    pub fn n_input_cells(&self) -> (r: u32)
        ensures
            r == INPUT_CELLS_PER_BITWISE,
    {
        INPUT_CELLS_PER_BITWISE
    }

    /// The bitwise builtin checks nothing on write.
    pub fn add_validation_rule(&self, memory: &mut Memory) -> (r: Result<(), RunnerError>)
        ensures
            r is Ok,
            *final(memory) == *old(memory),
    {
        Ok(())
    }

    /// The value that must stand at `address`: an output cell of an instance
    /// whose two inputs are integers below `2^total_n_bits` gets their AND, XOR
    /// or OR. Input cells, and cells whose inputs are missing, give `None`.
    pub fn deduce_memory_cell(&self, address: &Relocatable, memory: &Memory) -> (r: Result<Option<MaybeRelocatable>, RunnerError>)
        requires
            memory.wf(),
        ensures
            ({
                let index = address.offset % 5;
                let xa = instance_start(*address);
                let ya = second_input(*address);
                let n = two_pow(self.bitwise_builtin.total_n_bits as nat);
                let x = int_at(memory, xa);
                let y = int_at(memory, ya);
                &&& index < 2 ==> r == Ok::<Option<MaybeRelocatable>, RunnerError>(None)
                &&& index >= 2 && (x is None || y is None) ==> r == Ok::<Option<MaybeRelocatable>, RunnerError>(None)
                &&& index >= 2 && x is Some && y is Some && x.unwrap() >= n ==> (r is Err
                    && r->Err_0 is IntegerBiggerThanPowerOfTwo && r->Err_0->IntegerBiggerThanPowerOfTwo_0@ == xa@
                    && r->Err_0->IntegerBiggerThanPowerOfTwo_1 == self.bitwise_builtin.total_n_bits
                    && r->Err_0->IntegerBiggerThanPowerOfTwo_2.val() == x.unwrap())
                &&& index >= 2 && x is Some && y is Some && x.unwrap() < n && y.unwrap() >= n ==> (r is Err
                    && r->Err_0 is IntegerBiggerThanPowerOfTwo && r->Err_0->IntegerBiggerThanPowerOfTwo_0@ == ya@
                    && r->Err_0->IntegerBiggerThanPowerOfTwo_1 == self.bitwise_builtin.total_n_bits
                    && r->Err_0->IntegerBiggerThanPowerOfTwo_2.val() == y.unwrap())
                &&& index >= 2 && x is Some && y is Some && x.unwrap() < n && y.unwrap() < n ==> (r is Ok && r->Ok_0 is Some
                    && r->Ok_0->Some_0@ == Val::Int(bitwise_output(index as nat, x.unwrap(), y.unwrap()).unwrap()))
                &&& r is Err ==> r->Err_0 is IntegerBiggerThanPowerOfTwo && r->Err_0->IntegerBiggerThanPowerOfTwo_0@
                    == bitwise_bad_input(self.bitwise_builtin.total_n_bits, *address, memory).0@
                    && r->Err_0->IntegerBiggerThanPowerOfTwo_1 == self.bitwise_builtin.total_n_bits
                    && r->Err_0->IntegerBiggerThanPowerOfTwo_2.val() == bitwise_bad_input(
                    self.bitwise_builtin.total_n_bits,
                    *address,
                    memory,
                ).1
                &&& r is Ok <==> bitwise_deduce(self.bitwise_builtin.total_n_bits, *address, memory) is Some
                &&& r is Ok ==> opt_view(r->Ok_0) == bitwise_deduce(self.bitwise_builtin.total_n_bits, *address, memory).unwrap()
            }),
    {
        let index = address.offset % 5;
        if index == 0 || index == 1 {
            return Ok(None);
        }
        let x_addr = Relocatable { segment_index: address.segment_index, offset: address.offset - index };
        let y_addr = Relocatable { segment_index: address.segment_index, offset: address.offset - index + 1 };
        let num_x = memory.get(&x_addr);
        let num_y = memory.get(&y_addr);
        if let (Some(MaybeRelocatable::Int(num_x)), Some(MaybeRelocatable::Int(num_y))) = (num_x, num_y) {
            let n = self.bitwise_builtin.total_n_bits;
            let two_pow_bits = Felt::pow2(n);
            if num_x.ge(&two_pow_bits) {
                return Err(RunnerError::IntegerBiggerThanPowerOfTwo(MaybeRelocatable::RelocatableValue(x_addr), n, num_x));
            }
            if num_y.ge(&two_pow_bits) {
                return Err(RunnerError::IntegerBiggerThanPowerOfTwo(MaybeRelocatable::RelocatableValue(y_addr), n, num_y));
            }
            let res = if index == 2 {
                num_x.and(&num_y)
            } else if index == 3 {
                num_x.xor(&num_y)
            } else {
                num_x.or(&num_y)
            };
            return Ok(Some(MaybeRelocatable::Int(res)));
        }
        Ok(None)
    }

    /// The builtin's name, base and stop pointer.
    pub fn get_memory_segment_addresses(&self) -> (r: (&'static str, (isize, Option<usize>)))
        ensures
            r.0@ == "bitwise"@,
            r.1 == (self.base, self.stop_ptr),
    {
        proof {
            reveal_strlit("bitwise");
        }
        ("bitwise", (self.base, self.stop_ptr))
    }

    /// Diluted-pool cells the builtin uses for `total_n_bits`-bit operands.
    pub fn get_used_diluted_check_units(&self, diluted_spacing: u32, diluted_n_bits: u32) -> (r: usize)
        requires
            diluted_spacing > 0,
            diluted_n_bits > 0,
            diluted_spacing * diluted_n_bits <= u32::MAX,
            self.bitwise_builtin.total_n_bits + diluted_spacing * diluted_n_bits <= u32::MAX,
            5 * self.bitwise_builtin.total_n_bits <= usize::MAX,
        ensures
            ({
                let total = self.bitwise_builtin.total_n_bits as nat;
                let step = (diluted_spacing * diluted_n_bits) as nat;
                let p = partition(total, step, diluted_spacing as nat, 0);
                r == 4 * p.len() + count_trimmed(p, total, (diluted_spacing * (diluted_n_bits - 1) + 1) as nat)
            }),
    {
        let total_n_bits = self.bitwise_builtin.total_n_bits;
        let step: u32 = diluted_spacing * diluted_n_bits;
        let ghost total = total_n_bits as nat;
        let ghost sp = diluted_spacing as nat;
        let mut part: Vec<u32> = Vec::new();
        let mut i: u32 = 0;
        assert(step >= diluted_spacing) by (nonlinear_arith)
            requires step == diluted_spacing * diluted_n_bits, diluted_n_bits > 0, diluted_spacing > 0;
        assert(0int % (step as int) == 0) by (nonlinear_arith)
            requires step > 0;
        while i < total_n_bits
            invariant
                step == diluted_spacing * diluted_n_bits,
                step >= diluted_spacing,
                diluted_spacing > 0,
                total == total_n_bits,
                sp == diluted_spacing,
                total_n_bits + step <= u32::MAX,
                i <= total_n_bits + step,
                i % step == 0,
                seq_nat(part@) + partition(total, step as nat, sp, i as nat) == partition(total, step as nat, sp, 0),
                part@.len() <= i,
            decreases total_n_bits + step - i,
        {
            let ghost before = part@;
            let mut j: u32 = 0;
            while j < diluted_spacing
                invariant
                    i < total_n_bits,
                    i + step <= u32::MAX,
                    step >= diluted_spacing,
                    j <= diluted_spacing,
                    total == total_n_bits,
                    sp == diluted_spacing,
                    seq_nat(part@) == seq_nat(before) + block(i as nat, j as nat, total),
                    part@.len() <= before.len() + j,
                decreases diluted_spacing - j,
            {
                let ghost prev = part@;
                if i + j < total_n_bits {
                    part.push(i + j);
                    assert(seq_nat(part@) =~= seq_nat(prev).push((i + j) as nat));
                }
                proof {
                    lemma_block_step(i as nat, j as nat, total);
                    assert(seq_nat(part@) =~= seq_nat(before) + block(i as nat, (j + 1) as nat, total));
                }
                j = j + 1;
            }
            proof {
                lemma_block_full(i as nat, sp, total);
                assert(partition(total, step as nat, sp, i as nat) == block(i as nat, sp, total) + partition(total, step as nat, sp, (i + step) as nat));
                assert(seq_nat(part@) + partition(total, step as nat, sp, (i + step) as nat) =~= seq_nat(before) + partition(total, step as nat, sp, i as nat));
                vstd::arithmetic::div_mod::lemma_mod_add_multiples_vanish(i as int, step as int);
            }
            i = i + step;
        }
        proof {
            assert(partition(total, step as nat, sp, i as nat) == Seq::<nat>::empty());
            assert(seq_nat(part@) =~= partition(total, step as nat, sp, 0));
            lemma_partition_len(total, step as nat, sp, 0);
        }
        let len = part.len();
        assert(diluted_spacing * (diluted_n_bits - 1) + 1 <= step) by (nonlinear_arith)
            requires step == diluted_spacing * diluted_n_bits, diluted_n_bits > 0, diluted_spacing > 0;
        let bound: u32 = diluted_spacing * (diluted_n_bits - 1) + 1;
        let mut trimmed: usize = 0;
        let mut k: usize = 0;
        while k < len
            invariant
                len == part@.len(),
                len <= total_n_bits,
                k <= len,
                total == total_n_bits,
                trimmed <= k,
                trimmed == count_trimmed(seq_nat(part@).take(k as int), total, bound as nat),
                bound <= step,
            decreases len - k,
        {
            proof {
                assert(seq_nat(part@).take(k as int + 1).drop_last() =~= seq_nat(part@).take(k as int));
                assert(seq_nat(part@).take(k as int + 1).last() == part@[k as int] as nat);
            }
            if part[k] as u64 + bound as u64 > total_n_bits as u64 {
                trimmed = trimmed + 1;
            }
            k = k + 1;
        }
        proof {
            assert(seq_nat(part@).take(len as int) =~= seq_nat(part@));
        }
        4 * len + trimmed
    }
}

pub open spec fn seq_nat(s: Seq<u32>) -> Seq<nat> {
    s.map_values(|x: u32| x as nat)
}

/// Bits `i, i + 1, ..., i + n - 1` that lie below `total`.
pub open spec fn block(i: nat, n: nat, total: nat) -> Seq<nat>
    decreases n,
{
    if n == 0 {
        Seq::empty()
    } else if i + n - 1 < total {
        block(i, (n - 1) as nat, total).push((i + n - 1) as nat)
    } else {
        block(i, (n - 1) as nat, total)
    }
}

/// The bits that the diluted check covers: the first `spacing` bits of every
/// `step`-bit block from `i` on, below `total`.
pub open spec fn partition(total: nat, step: nat, spacing: nat, i: nat) -> Seq<nat>
    decreases if i < total { total - i } else { 0 },
{
    if i >= total || step == 0 {
        Seq::empty()
    } else {
        block(i, spacing, total) + partition(total, step, spacing, i + step)
    }
}

/// How many of `s` reach past `total` once `bound` is added.
pub open spec fn count_trimmed(s: Seq<nat>, total: nat, bound: nat) -> nat
    decreases s.len(),
{
    if s.len() == 0 {
        0
    } else {
        count_trimmed(s.drop_last(), total, bound) + if s.last() + bound > total {
            1nat
        } else {
            0nat
        }
    }
}

proof fn lemma_block_step(i: nat, j: nat, total: nat)
    ensures
        block(i, j + 1, total) == if i + j < total {
            block(i, j, total).push(i + j)
        } else {
            block(i, j, total)
        },
{
}

proof fn lemma_block_full(i: nat, n: nat, total: nat)
    ensures
        block(i, n, total).len() <= n,
        i < total ==> block(i, n, total).len() <= total - i,
        i >= total ==> block(i, n, total).len() == 0,
    decreases n,
{
    if n > 0 {
        lemma_block_full(i, (n - 1) as nat, total);
    }
}

proof fn lemma_partition_len(total: nat, step: nat, spacing: nat, i: nat)
    requires
        spacing <= step,
    ensures
        partition(total, step, spacing, i).len() <= if i < total { total - i } else { 0 },
    decreases if i < total { total - i } else { 0 },
{
    if i < total && step > 0 {
        lemma_block_full(i, spacing, total);
        lemma_partition_len(total, step, spacing, i + step);
    }
}

/// The used size recorded for segment `index`, if sizes were computed.
pub open spec fn used_size(vm: &VirtualMachine, index: int) -> Option<usize> {
    match vm.segments.segment_used_sizes {
        Some(v) => if 0 <= index < v@.len() {
            Some(v@[index])
        } else {
            None
        },
        None => None,
    }
}

/// The address stored just below `pointer`, if an address is there.
pub open spec fn stop_pointer_at(vm: &VirtualMachine, pointer: Relocatable) -> Option<(int, nat)> {
    if pointer.offset == 0 {
        None
    } else {
        match vm.memory.value_at(Relocatable { segment_index: pointer.segment_index, offset: (pointer.offset - 1) as usize }) {
            Some(Val::Addr(s, o)) => Some((s, o)),
            _ => None,
        }
    }
}

/// `ceil(a / b)`.
pub open spec fn ceil_div(a: nat, b: nat) -> nat {
    if a % b == 0 {
        a / b
    } else {
        a / b + 1
    }
}

impl BitwiseBuiltinRunner {
    /// Cells the builtin may use after `vm.current_step` steps: five per
    /// `ratio` steps, which must divide the step count.
    pub fn get_allocated_memory_units(&self, vm: &VirtualMachine) -> (r: Result<usize, MemoryError>)
        ensures
            self.ratio == 0 || (vm.current_step as nat) % (self.ratio as nat) != 0 || 5 * ((vm.current_step as nat) / (self.ratio as nat))
                > usize::MAX ==> r == Err::<usize, MemoryError>(MemoryError::ErrorCalculatingMemoryUnits),
            !(self.ratio == 0 || (vm.current_step as nat) % (self.ratio as nat) != 0 || 5 * ((vm.current_step as nat) / (self.ratio as nat))
                > usize::MAX) ==> r == Ok::<usize, MemoryError>((5 * ((vm.current_step as nat) / (self.ratio as nat))) as usize),
    {
        let ratio = self.ratio as usize;
        if ratio == 0 || vm.current_step % ratio != 0 {
            return Err(MemoryError::ErrorCalculatingMemoryUnits);
        }
        match (vm.current_step / ratio).checked_mul(5) {
            Some(x) => Ok(x),
            None => Err(MemoryError::ErrorCalculatingMemoryUnits),
        }
    }

    /// The used size of the builtin's segment.
    pub fn get_used_cells(&self, vm: &VirtualMachine) -> (r: Result<usize, MemoryError>)
        ensures
            self.base < 0 ==> r == Err::<usize, MemoryError>(MemoryError::AddressInTemporarySegment(self.base)),
            self.base >= 0 && used_size(vm, self.base as int) is None ==> r == Err::<usize, MemoryError>(
                MemoryError::MissingSegmentUsedSizes,
            ),
            self.base >= 0 && used_size(vm, self.base as int) is Some ==> r == Ok::<usize, MemoryError>(
                used_size(vm, self.base as int).unwrap(),
            ),
    {
        let base = self.base();
        if base < 0 {
            return Err(MemoryError::AddressInTemporarySegment(base));
        }
        match vm.segments.get_segment_used_size(base as usize) {
            Some(n) => Ok(n),
            None => Err(MemoryError::MissingSegmentUsedSizes),
        }
    }

    /// The used cells and the cells allocated after `vm.current_step` steps;
    /// `InsufficientAllocatedCells` where fewer are allocated than used.
    pub fn get_used_cells_and_allocated_size(&self, vm: &VirtualMachine) -> (r: Result<(usize, usize), MemoryError>)
        ensures
            self.ratio > 0 && vm.current_step >= self.ratio * self.instances_per_component && self.base >= 0 && used_size(
                vm,
                self.base as int,
            ) is Some && (vm.current_step as nat) % (self.ratio as nat) == 0 && 5 * ((vm.current_step as nat) / (self.ratio as nat)) <= usize::MAX
                && used_size(vm, self.base as int).unwrap() <= 5 * ((vm.current_step as nat) / (self.ratio as nat)) ==> r == Ok::<
                (usize, usize),
                MemoryError,
            >((used_size(vm, self.base as int).unwrap(), (5 * ((vm.current_step as nat) / (self.ratio as nat))) as usize)),
            vm.current_step < self.ratio * self.instances_per_component ==> r == Err::<(usize, usize), MemoryError>(
                MemoryError::InsufficientAllocatedCells,
            ),
            self.ratio > 0 && vm.current_step >= self.ratio * self.instances_per_component && self.base >= 0 && used_size(
                vm,
                self.base as int,
            ) is Some && (vm.current_step as nat) % (self.ratio as nat) == 0 && 5 * ((vm.current_step as nat) / (self.ratio as nat))
                <= usize::MAX && used_size(vm, self.base as int).unwrap() > 5 * ((vm.current_step as nat) / (self.ratio as nat)) ==> r
                == Err::<(usize, usize), MemoryError>(MemoryError::InsufficientAllocatedCells),
            r matches Ok((used, size)) ==> used <= size && size == 5 * ((vm.current_step as nat) / (self.ratio as nat)),
    {
        let ratio = self.ratio as usize;
        assert(self.ratio as u64 * self.instances_per_component as u64 <= u64::MAX) by (nonlinear_arith)
            requires self.ratio <= u32::MAX, self.instances_per_component <= u32::MAX;
        let min_step: u64 = self.ratio as u64 * self.instances_per_component as u64;
        if (vm.current_step as u64) < min_step {
            return Err(MemoryError::InsufficientAllocatedCells);
        }
        let used = match self.get_used_cells(vm) {
            Ok(u) => u,
            Err(e) => {
                return Err(e);
            },
        };
        if ratio == 0 || vm.current_step % ratio != 0 {
            return Err(MemoryError::InsufficientAllocatedCells);
        }
        let size = match (vm.current_step / ratio).checked_mul(5) {
            Some(x) => x,
            None => {
                return Err(MemoryError::InsufficientAllocatedCells);
            },
        };
        if used > size {
            return Err(MemoryError::InsufficientAllocatedCells);
        }
        Ok((used, size))
    }

    /// Instances in use: the used cells over five, rounded up.
    pub fn get_used_instances(&self, vm: &VirtualMachine) -> (r: Result<usize, MemoryError>)
        ensures
            self.base < 0 ==> r == Err::<usize, MemoryError>(MemoryError::AddressInTemporarySegment(self.base)),
            self.base >= 0 && used_size(vm, self.base as int) is None ==> r == Err::<usize, MemoryError>(
                MemoryError::MissingSegmentUsedSizes,
            ),
            self.base >= 0 && used_size(vm, self.base as int) is Some ==> r == Ok::<usize, MemoryError>(
                ceil_div(used_size(vm, self.base as int).unwrap() as nat, 5) as usize,
            ),
    {
        let used = match self.get_used_cells(vm) {
            Ok(u) => u,
            Err(e) => {
                return Err(e);
            },
        };
        Ok(div_ceil_usize(used, CELLS_PER_BITWISE as usize))
    }

    /// Checks the stop pointer that the program left just below `pointer`: it
    /// must point into the builtin's segment, right after its used instances.
    /// Returns the address below `pointer` and the stop offset; a builtin that
    /// is not included returns `pointer` and its base.
    pub fn final_stack(&self, vm: &VirtualMachine, pointer: Relocatable) -> (r: Result<(Relocatable, usize), RunnerError>)
        requires
            vm.wf(),
        ensures
            !self.included ==> r == Ok::<(Relocatable, usize), RunnerError>((pointer, self.base as usize)),
            self.included && stop_pointer_at(vm, pointer) is None ==> r == Err::<(Relocatable, usize), RunnerError>(
                RunnerError::FinalStack,
            ),
            self.included && stop_pointer_at(vm, pointer) is Some && stop_pointer_at(vm, pointer).unwrap().0 != self.base ==> r is Err
                && r->Err_0 is InvalidStopPointer && r->Err_0->InvalidStopPointer_0@ == "bitwise"@,
            self.included && stop_pointer_at(vm, pointer) is Some && stop_pointer_at(vm, pointer).unwrap().0 == self.base && self.base
                >= 0 && used_size(vm, self.base as int) is Some && 5 * ceil_div(used_size(vm, self.base as int).unwrap() as nat, 5)
                == stop_pointer_at(vm, pointer).unwrap().1 ==> r == Ok::<(Relocatable, usize), RunnerError>(
                (
                    Relocatable { segment_index: pointer.segment_index, offset: (pointer.offset - 1) as usize },
                    stop_pointer_at(vm, pointer).unwrap().1 as usize,
                ),
            ),
            self.included && stop_pointer_at(vm, pointer) is Some && stop_pointer_at(vm, pointer).unwrap().0 == self.base && self.base
                >= 0 && used_size(vm, self.base as int) is Some && 5 * ceil_div(used_size(vm, self.base as int).unwrap() as nat, 5)
                <= usize::MAX && 5 * ceil_div(used_size(vm, self.base as int).unwrap() as nat, 5) != stop_pointer_at(vm, pointer).unwrap().1
                ==> r is Err && r->Err_0 is InvalidStopPointer && r->Err_0->InvalidStopPointer_0@ == "bitwise"@,
            r is Ok && self.included ==> pointer.offset > 0 && r->Ok_0.0 == (Relocatable {
                segment_index: pointer.segment_index,
                offset: (pointer.offset - 1) as usize,
            }),
    {
        proof {
            reveal_strlit("bitwise");
        }
        if self.included {
            let below = match pointer.sub_usize(1) {
                Some(a) => a,
                None => {
                    return Err(RunnerError::FinalStack);
                },
            };
            let stop_pointer = match vm.get_relocatable(&below) {
                Ok(a) => a,
                Err(_) => {
                    return Err(RunnerError::FinalStack);
                },
            };
            if self.base != stop_pointer.segment_index {
                return Err(RunnerError::InvalidStopPointer("bitwise".to_string()));
            }
            let stop_ptr = stop_pointer.offset;
            let num_instances = match self.get_used_instances(vm) {
                Ok(n) => n,
                Err(_) => {
                    return Err(RunnerError::FinalStack);
                },
            };
            let used_cells = match num_instances.checked_mul(CELLS_PER_BITWISE as usize) {
                Some(c) => c,
                None => {
                    return Err(RunnerError::FinalStack);
                },
            };
            if stop_ptr != used_cells {
                return Err(RunnerError::InvalidStopPointer("bitwise".to_string()));
            }
            Ok((below, stop_ptr))
        } else {
            Ok((pointer, self.base as usize))
        }
    }
}

/// Relies on `num_integer::div_ceil` for `usize`, which panics on a zero
/// divisor: the quotient rounded up.
#[verifier::external_body]
fn div_ceil_usize(a: usize, b: usize) -> (r: usize)
    requires
        b > 0,
    ensures
        r == ceil_div(a as nat, b as nat),
{
    num_integer::div_ceil(a, b)
}

} // verus!
