//! Write-once memory organised in segments, with relocation rules for
//! temporary segments.
use crate::errors::{MemoryError, VirtualMachineError};
use crate::felt::Felt;
use crate::relocatable::{nth, MaybeRelocatable, Relocatable, Val};
use vstd::prelude::*;

verus! {

pub open spec fn opt_view(c: Option<MaybeRelocatable>) -> Option<Val> {
    match c {
        Some(v) => Some(v@),
        None => None,
    }
}

/// Index of a temporary segment (`-1, -2, ...`) in its list (`0, 1, ...`).
pub open spec fn temp_index(seg: int) -> int {
    -seg - 1
}

/// Growth of memory is transitive.
pub proof fn lemma_extends_trans(a: &Memory, b: &Memory, c: &Memory)
    requires
        a.extends(b),
        b.extends(c),
    ensures
        a.extends(c),
{
    assert forall|seg: int, off: int| #[trigger] a.cell(seg, off) is Some implies c.cell(seg, off) == a.cell(seg, off) by {
        assert(b.cell(seg, off) == a.cell(seg, off));
    }
    assert forall|seg: int| #[trigger] a.rule(seg) is Some implies c.rule(seg) == a.rule(seg) by {
        assert(b.rule(seg) == a.rule(seg));
    }
    assert forall|seg: int| a.allocated(seg) implies #[trigger] c.allocated(seg) by {
        assert(b.allocated(seg));
    }
}

/// Write-once: a cell written in `m1` holds the same value in every later
/// memory `m2`, and reads the same, unless an address involved (the one read,
/// or the one it holds) lies in a temporary segment that only gained its
/// relocation rule in between.
pub proof fn lemma_write_once(m1: &Memory, m2: &Memory, a: Relocatable)
    requires
        m1.extends(m2),
        m1.cell_at(a) is Some,
        a.segment_index < 0 ==> m1.rule(a.segment_index as int) is Some,
    ensures
        m2.cell_at(a) == m1.cell_at(a),
        !(m1.cell_at(a).unwrap() is Addr && m1.cell_at(a).unwrap()->Addr_0 < 0 && m1.rule(m1.cell_at(a).unwrap()->Addr_0) is None)
            ==> m2.value_at(a) == m1.value_at(a),
{
    if a.segment_index < 0 {
        assert(m2.rule(a.segment_index as int) == m1.rule(a.segment_index as int));
    }
    assert(m2.resolve(a) == m1.resolve(a));
    match m1.cell_at(a).unwrap() {
        Val::Addr(s, _) => {
            if s < 0 && m1.rule(s) is Some {
                assert(m2.rule(s) == m1.rule(s));
            }
        },
        Val::Int(_) => {},
    }
}

/// Write-once across growth that adds no relocation rule (a step adds none):
/// every read that found a value finds the same value later.
pub proof fn lemma_write_once_same_rules(m1: &Memory, m2: &Memory, a: Relocatable)
    requires
        m1.extends(m2),
        forall|s: int| #[trigger] m2.rule(s) == m1.rule(s),
        m1.value_at(a) is Some,
    ensures
        m2.value_at(a) == m1.value_at(a),
        m2.cell_at(a) == m1.cell_at(a),
{
    assert(m2.rule(a.segment_index as int) == m1.rule(a.segment_index as int));
    assert(m2.resolve(a) == m1.resolve(a));
    match m1.cell_at(a).unwrap() {
        Val::Addr(s, _) => {
            assert(m2.rule(s) == m1.rule(s));
        },
        Val::Int(_) => {},
    }
}

/// The memory. Cells are `None` until written; a written cell never changes.
pub struct Memory {
    data: Vec<Vec<Option<MaybeRelocatable>>>,
    temp_data: Vec<Vec<Option<MaybeRelocatable>>>,
    relocation_rules: Vec<(usize, Relocatable)>,
}

impl Memory {
    /// The cells of segment `seg`, or `None` where the segment was not added.
    pub closed spec fn segment(&self, seg: int) -> Option<Seq<Option<MaybeRelocatable>>> {
        if 0 <= seg < self.data@.len() {
            Some(self.data@[seg]@)
        } else if seg < 0 && temp_index(seg) < self.temp_data@.len() {
            Some(self.temp_data@[temp_index(seg)]@)
        } else {
            None
        }
    }

    pub closed spec fn num_segments(&self) -> nat {
        self.data@.len()
    }

    pub closed spec fn num_temp_segments(&self) -> nat {
        self.temp_data@.len()
    }

    /// The relocation rule of temporary segment `seg`, if one was added.
    pub closed spec fn rule(&self, seg: int) -> Option<Relocatable> {
        if exists|i: int| 0 <= i < self.relocation_rules@.len() && self.relocation_rules@[i].0 == temp_index(seg) {
            let i = choose|i: int| 0 <= i < self.relocation_rules@.len() && self.relocation_rules@[i].0 == temp_index(seg);
            Some(self.relocation_rules@[i].1)
        } else {
            None
        }
    }

    pub closed spec fn wf(&self) -> bool {
        forall|i: int, j: int|
            0 <= i < j < self.relocation_rules@.len() ==> #[trigger] self.relocation_rules@[i].0
                != #[trigger] self.relocation_rules@[j].0
    }

    pub open spec fn allocated(&self, seg: int) -> bool {
        self.segment(seg) is Some
    }

    /// What is written at `(seg, off)`, before relocation.
    pub open spec fn cell(&self, seg: int, off: int) -> Option<Val> {
        match self.segment(seg) {
            Some(s) => if 0 <= off < s.len() {
                opt_view(s[off])
            } else {
                None
            },
            None => None,
        }
    }

    /// Where an access to `a` lands: an address in a temporary segment that has
    /// a rule moves to the rule's target.
    pub open spec fn resolve(&self, a: Relocatable) -> Relocatable {
        if a.segment_index < 0 && self.rule(a.segment_index as int) is Some && self.rule(a.segment_index as int).unwrap().offset
            + a.offset <= usize::MAX {
            Relocatable {
                segment_index: self.rule(a.segment_index as int).unwrap().segment_index,
                offset: (self.rule(a.segment_index as int).unwrap().offset + a.offset) as usize,
            }
        } else {
            a
        }
    }

    /// What an access to `a` finds written, before the value is relocated.
    pub open spec fn cell_at(&self, a: Relocatable) -> Option<Val> {
        self.cell(self.resolve(a).segment_index as int, self.resolve(a).offset as int)
    }

    /// A value as it reads once the relocation rules apply: an address in a
    /// temporary segment that has a rule moves to the rule's target.
    pub open spec fn relocate_val(&self, v: Val) -> Val {
        match v {
            Val::Addr(s, o) => if s < 0 && self.rule(s) is Some && self.rule(s).unwrap().offset + o <= usize::MAX {
                Val::Addr(self.rule(s).unwrap().segment_index as int, (self.rule(s).unwrap().offset + o) as nat)
            } else {
                v
            },
            Val::Int(_) => v,
        }
    }

    /// What a read of `a` returns.
    pub open spec fn value_at(&self, a: Relocatable) -> Option<Val> {
        match self.cell_at(a) {
            Some(v) => Some(self.relocate_val(v)),
            None => None,
        }
    }

    /// `self` grows into `later`: segments and rules stay, and every written cell
    /// keeps its value.
    pub open spec fn extends(&self, later: &Memory) -> bool {
        &&& self.num_segments() <= later.num_segments()
        &&& self.num_temp_segments() <= later.num_temp_segments()
        &&& forall|seg: int| self.allocated(seg) ==> #[trigger] later.allocated(seg)
        &&& forall|seg: int, off: int| #[trigger] self.cell(seg, off) is Some ==> later.cell(seg, off) == self.cell(seg, off)
        &&& forall|seg: int| #[trigger] self.rule(seg) is Some ==> later.rule(seg) == self.rule(seg)
    }

    /// `later` equals `self` but at `(seg, off)`, and has the same segments and rules.
    pub open spec fn same_but(&self, later: &Memory, seg: int, off: int) -> bool {
        &&& self.num_segments() == later.num_segments()
        &&& self.num_temp_segments() == later.num_temp_segments()
        &&& forall|s: int| #[trigger] later.allocated(s) == self.allocated(s)
        &&& forall|s: int, o: int| (s, o) != (seg, off) ==> #[trigger] later.cell(s, o) == self.cell(s, o)
        &&& forall|s: int| #[trigger] later.rule(s) == self.rule(s)
    }

    pub fn new() -> (r: Memory)
        ensures
            r.wf(),
            r.num_segments() == 0,
            r.num_temp_segments() == 0,
            forall|seg: int| !(#[trigger] r.allocated(seg)),
            forall|seg: int| #[trigger] r.rule(seg) is None,
    {
        Memory { data: Vec::new(), temp_data: Vec::new(), relocation_rules: Vec::new() }
    }

    /// Adds an empty segment and returns its index.
    pub fn add_segment(&mut self) -> (r: usize)
        requires
            old(self).wf(),
        ensures
            final(self).wf(),
            r == old(self).num_segments(),
            final(self).num_segments() == old(self).num_segments() + 1,
            final(self).num_temp_segments() == old(self).num_temp_segments(),
            final(self).segment(r as int) == Some(Seq::<Option<MaybeRelocatable>>::empty()),
            forall|seg: int| seg != r ==> #[trigger] final(self).segment(seg) == old(self).segment(seg),
            forall|seg: int| #[trigger] final(self).rule(seg) == old(self).rule(seg),
            old(self).extends(&*final(self)),
    {
        let r = self.data.len();
        self.data.push(Vec::new());
        proof {
            assert(final(self).relocation_rules@ == old(self).relocation_rules@);
            assert forall|seg: int| #[trigger] final(self).rule(seg) == old(self).rule(seg) by {}
            assert forall|seg: int, off: int| #[trigger] old(self).cell(seg, off) is Some implies final(self).cell(seg, off)
                == old(self).cell(seg, off) by {
                assert(final(self).segment(seg) == old(self).segment(seg));
            }
            assert forall|seg: int| old(self).allocated(seg) implies #[trigger] final(self).allocated(seg) by {
                assert(final(self).segment(seg) == old(self).segment(seg));
            }
        }
        r
    }

    /// Adds an empty temporary segment and returns its index (`-1`, `-2`, ...).
    pub fn add_temp_segment(&mut self) -> (r: isize)
        requires
            old(self).wf(),
            old(self).num_temp_segments() < isize::MAX,
        ensures
            final(self).wf(),
            r == -(old(self).num_temp_segments() as int) - 1,
            final(self).num_segments() == old(self).num_segments(),
            final(self).num_temp_segments() == old(self).num_temp_segments() + 1,
            final(self).segment(r as int) == Some(Seq::<Option<MaybeRelocatable>>::empty()),
            forall|seg: int| seg != r ==> #[trigger] final(self).segment(seg) == old(self).segment(seg),
            forall|seg: int| #[trigger] final(self).rule(seg) == old(self).rule(seg),
            old(self).extends(&*final(self)),
    {
        let n = self.temp_data.len();
        self.temp_data.push(Vec::new());
        let r: isize = -(n as isize) - 1;
        proof {
            assert(final(self).relocation_rules@ == old(self).relocation_rules@);
            assert forall|seg: int| #[trigger] final(self).rule(seg) == old(self).rule(seg) by {}
            assert forall|seg: int, off: int| #[trigger] old(self).cell(seg, off) is Some implies final(self).cell(seg, off)
                == old(self).cell(seg, off) by {
                assert(final(self).segment(seg) == old(self).segment(seg));
            }
            assert forall|seg: int| old(self).allocated(seg) implies #[trigger] final(self).allocated(seg) by {
                assert(final(self).segment(seg) == old(self).segment(seg));
            }
        }
        r
    }

    fn relocate_value(&self, v: &MaybeRelocatable) -> (r: MaybeRelocatable)
        requires
            self.wf(),
        ensures
            r@ == self.relocate_val(v@),
    {
        match v {
            MaybeRelocatable::RelocatableValue(a) => {
                if a.segment_index < 0 {
                    match self.find_rule(a.segment_index) {
                        Some(t) => match t.offset.checked_add(a.offset) {
                            Some(o) => MaybeRelocatable::RelocatableValue(Relocatable { segment_index: t.segment_index, offset: o }),
                            None => v.copy(),
                        },
                        None => v.copy(),
                    }
                } else {
                    v.copy()
                }
            },
            MaybeRelocatable::Int(_) => v.copy(),
        }
    }

    /// Where an access to `a` lands.
    pub fn resolve_addr(&self, a: &Relocatable) -> (r: Relocatable)
        requires
            self.wf(),
        ensures
            r == self.resolve(*a),
    {
        if a.segment_index < 0 {
            match self.find_rule(a.segment_index) {
                Some(t) => match t.offset.checked_add(a.offset) {
                    Some(o) => Relocatable { segment_index: t.segment_index, offset: o },
                    None => *a,
                },
                None => *a,
            }
        } else {
            *a
        }
    }

    fn find_rule(&self, seg: isize) -> (r: Option<Relocatable>)
        requires
            self.wf(),
            seg < 0,
        ensures
            r == self.rule(seg as int),
    {
        let key = (-(seg as i128) - 1) as usize;
        let mut i: usize = 0;
        while i < self.relocation_rules.len()
            invariant
                self.wf(),
                0 <= i <= self.relocation_rules@.len(),
                key == temp_index(seg as int),
                forall|j: int| 0 <= j < i ==> self.relocation_rules@[j].0 != key,
            decreases self.relocation_rules@.len() - i,
        {
            if self.relocation_rules[i].0 == key {
                let r = self.relocation_rules[i].1;
                proof {
                    assert(0 <= i < self.relocation_rules@.len() && self.relocation_rules@[i as int].0 == temp_index(seg as int));
                    let k = choose|j: int| 0 <= j < self.relocation_rules@.len() && self.relocation_rules@[j].0 == temp_index(seg as int);
                    assert(k == i as int) by {
                        if k < i {
                        } else if k > i {
                            assert(self.relocation_rules@[i as int].0 != self.relocation_rules@[k].0);
                        }
                    }
                }
                return Some(r);
            }
            i = i + 1;
        }
        None
    }

    /// Writes `val` at `key`. A cell that holds a value keeps it: writing the same
    /// value again is accepted and changes nothing, another value is refused.
    pub fn insert(&mut self, key: &Relocatable, val: &MaybeRelocatable) -> (r: Result<(), MemoryError>)
        requires
            old(self).wf(),
        ensures
            final(self).wf(),
            old(self).extends(&*final(self)),
            !old(self).allocated(old(self).resolve(*key).segment_index as int) ==> (r is Err && r->Err_0 is UnallocatedSegment
                && *final(self) == *old(self)),
            old(self).allocated(old(self).resolve(*key).segment_index as int) && old(self).cell_at(*key) is None ==> r is Ok
                && old(self).same_but(
                &*final(self),
                old(self).resolve(*key).segment_index as int,
                old(self).resolve(*key).offset as int,
            ) && final(self).cell_at(*key) == Some(val@),
            old(self).cell_at(*key) == Some(val@) ==> r is Ok && *final(self) == *old(self),
            old(self).cell_at(*key) is Some && old(self).cell_at(*key).unwrap() != val@ ==> (*final(self) == *old(self)
                && r is Err && r->Err_0 is InconsistentMemory && r->Err_0->InconsistentMemory_0@ == key@
                && r->Err_0->InconsistentMemory_1@ == old(self).cell_at(*key).unwrap() && r->Err_0->InconsistentMemory_2@ == val@),
    {
        let k = self.resolve_addr(key);
        if k.segment_index >= 0 {
            let i = k.segment_index as usize;
            if i >= self.data.len() {
                return Err(MemoryError::UnallocatedSegment(i, self.data.len()));
            }
            let j = k.offset;
            if j < self.data[i].len() {
                match &self.data[i][j] {
                    Some(cur) => {
                        if cur.eq(val) {
                            return Ok(());
                        } else {
                            return Err(MemoryError::InconsistentMemory(
                                MaybeRelocatable::RelocatableValue(*key),
                                cur.copy(),
                                val.copy(),
                            ));
                        }
                    },
                    None => {},
                }
            }
            write_cell(&mut self.data, i, j, val.copy());
        } else {
            let i = (-(k.segment_index as i128) - 1) as usize;
            if i >= self.temp_data.len() {
                return Err(MemoryError::UnallocatedSegment(i, self.temp_data.len()));
            }
            let j = k.offset;
            if j < self.temp_data[i].len() {
                match &self.temp_data[i][j] {
                    Some(cur) => {
                        if cur.eq(val) {
                            return Ok(());
                        } else {
                            return Err(MemoryError::InconsistentMemory(
                                MaybeRelocatable::RelocatableValue(*key),
                                cur.copy(),
                                val.copy(),
                            ));
                        }
                    },
                    None => {},
                }
            }
            write_cell(&mut self.temp_data, i, j, val.copy());
        }
        proof {
            let (ks, ko) = (k.segment_index as int, k.offset as int);
            assert(final(self).relocation_rules@ == old(self).relocation_rules@);
            assert forall|s: int| #[trigger] final(self).rule(s) == old(self).rule(s) by {}
            assert forall|s: int| #[trigger] final(self).allocated(s) == old(self).allocated(s) by {}
            assert forall|s: int, o: int| (s, o) != (ks, ko) implies #[trigger] final(self).cell(s, o) == old(self).cell(s, o) by {
                if s != ks {
                    assert(final(self).segment(s) == old(self).segment(s));
                }
            }
            assert(final(self).resolve(*key) == k);
        }
        Ok(())
    }

    /// The value at `key`, relocated, or `None` where nothing is written.
    pub fn get(&self, key: &Relocatable) -> (r: Option<MaybeRelocatable>)
        requires
            self.wf(),
        ensures
            opt_view(r) == self.value_at(*key),
    {
        let c = self.get_raw(key);
        match c {
            Some(v) => Some(self.relocate_value(v)),
            None => None,
        }
    }

    /// Number of cells of segment `seg` (written or holes), if it was added.
    pub fn segment_len(&self, seg: isize) -> (r: Option<usize>)
        ensures
            match self.segment(seg as int) {
                Some(s) => r is Some && r.unwrap() == s.len(),
                None => r is None,
            },
    {
        if seg >= 0 {
            let i = seg as usize;
            if i < self.data.len() {
                Some(self.data[i].len())
            } else {
                None
            }
        } else {
            let i = (-(seg as i128) - 1) as usize;
            if i < self.temp_data.len() {
                Some(self.temp_data[i].len())
            } else {
                None
            }
        }
    }

    /// What an access to `key` finds written, before the value is relocated.
    pub fn get_raw(&self, key: &Relocatable) -> (r: Option<&MaybeRelocatable>)
        requires
            self.wf(),
        ensures
            match r {
                Some(v) => self.cell_at(*key) == Some(v@),
                None => self.cell_at(*key) is None,
            },
    {
        let key = &self.resolve_addr(key);
        if key.segment_index >= 0 {
            let i = key.segment_index as usize;
            if i < self.data.len() && key.offset < self.data[i].len() {
                match &self.data[i][key.offset] {
                    Some(v) => Some(v),
                    None => None,
                }
            } else {
                None
            }
        } else {
            let i = (-(key.segment_index as i128) - 1) as usize;
            if i < self.temp_data.len() && key.offset < self.temp_data[i].len() {
                match &self.temp_data[i][key.offset] {
                    Some(v) => Some(v),
                    None => None,
                }
            } else {
                None
            }
        }
    }

    /// The integer at `key`, or `ExpectedInteger` where there is none.
    pub fn get_integer(&self, key: &Relocatable) -> (r: Result<Felt, VirtualMachineError>)
        requires
            self.wf(),
        ensures
            self.value_at(*key) matches Some(Val::Int(n)) ==> r matches Ok(x) && x.val() == n,
            !(self.value_at(*key) is Some && self.value_at(*key).unwrap() is Int) ==> r == Err::<Felt, VirtualMachineError>(
                VirtualMachineError::ExpectedInteger(*key),
            ),
    {
        match self.get_raw(key) {
            Some(MaybeRelocatable::Int(n)) => Ok(n.clone()),
            _ => Err(VirtualMachineError::ExpectedInteger(*key)),
        }
    }

    /// The address at `key`, relocated, or `ExpectedRelocatable` where there is none.
    pub fn get_relocatable(&self, key: &Relocatable) -> (r: Result<Relocatable, VirtualMachineError>)
        requires
            self.wf(),
        ensures
            self.value_at(*key) matches Some(Val::Addr(s, o)) ==> r matches Ok(a) && a@ == Val::Addr(s, o),
            !(self.value_at(*key) is Some && self.value_at(*key).unwrap() is Addr) ==> r == Err::<Relocatable, VirtualMachineError>(
                VirtualMachineError::ExpectedRelocatable(*key),
            ),
    {
        match self.get(key) {
            Some(MaybeRelocatable::RelocatableValue(a)) => Ok(a),
            _ => Err(VirtualMachineError::ExpectedRelocatable(*key)),
        }
    }

    /// The `size` values from `addr` on, `None` at each hole.
    pub fn get_range(&self, addr: &MaybeRelocatable, size: usize) -> (r: Result<Vec<Option<MaybeRelocatable>>, MemoryError>)
        requires
            self.wf(),
        ensures
            addr is Int ==> r == Err::<Vec<Option<MaybeRelocatable>>, MemoryError>(MemoryError::AddressNotRelocatable),
            addr matches MaybeRelocatable::RelocatableValue(a) && a.offset + size > usize::MAX ==> r
                == Err::<Vec<Option<MaybeRelocatable>>, MemoryError>(MemoryError::NumOutOfBounds),
            addr is RelocatableValue && addr->RelocatableValue_0.offset + size <= usize::MAX ==> (r is Ok && r->Ok_0@.len()
                == size && forall|i: int| 0 <= i < size ==> opt_view(#[trigger] r->Ok_0@[i]) == self.value_at(
                nth(addr->RelocatableValue_0, i),
            )),
    {
        let a = match addr {
            MaybeRelocatable::RelocatableValue(a) => *a,
            MaybeRelocatable::Int(_) => {
                return Err(MemoryError::AddressNotRelocatable);
            },
        };
        if a.offset > usize::MAX - size {
            return Err(MemoryError::NumOutOfBounds);
        }
        let mut v: Vec<Option<MaybeRelocatable>> = Vec::new();
        let mut i: usize = 0;
        while i < size
            invariant
                self.wf(),
                i <= size,
                a.offset + size <= usize::MAX,
                v@.len() == i,
                forall|k: int| 0 <= k < i ==> opt_view(#[trigger] v@[k]) == self.value_at(nth(a, k)),
            decreases size - i,
        {
            let c = self.get(&Relocatable { segment_index: a.segment_index, offset: a.offset + i });
            v.push(c);
            i = i + 1;
        }
        Ok(v)
    }

    /// The `size` values from `addr` on; `GetRangeMemoryGap` where one is missing.
    pub fn get_continuous_range(&self, addr: &MaybeRelocatable, size: usize) -> (r: Result<Vec<MaybeRelocatable>, MemoryError>)
        requires
            self.wf(),
        ensures
            addr is Int ==> r == Err::<Vec<MaybeRelocatable>, MemoryError>(MemoryError::AddressNotRelocatable),
            addr matches MaybeRelocatable::RelocatableValue(a) && a.offset + size > usize::MAX ==> r
                == Err::<Vec<MaybeRelocatable>, MemoryError>(MemoryError::NumOutOfBounds),
            addr is RelocatableValue && addr->RelocatableValue_0.offset + size <= usize::MAX && (forall|i: int|
                0 <= i < size ==> #[trigger] self.value_at(nth(addr->RelocatableValue_0, i)) is Some) ==> r is Ok
                && r->Ok_0@.len() == size && forall|i: int| 0 <= i < size ==> Some(#[trigger] r->Ok_0@[i]@) == self.value_at(
                nth(addr->RelocatableValue_0, i),
            ),
            addr is RelocatableValue && addr->RelocatableValue_0.offset + size <= usize::MAX && (exists|i: int|
                0 <= i < size && #[trigger] self.value_at(nth(addr->RelocatableValue_0, i)) is None) ==> r == Err::<Vec<MaybeRelocatable>, MemoryError>(
                MemoryError::GetRangeMemoryGap,
            ),
    {
        let range = self.get_range(addr, size);
        let range = match range {
            Ok(x) => x,
            Err(e) => {
                return Err(e);
            },
        };
        let ghost a = addr->RelocatableValue_0;
        let mut out: Vec<MaybeRelocatable> = Vec::new();
        let mut i: usize = 0;
        while i < size
            invariant
                i <= size,
                addr is RelocatableValue,
                a == addr->RelocatableValue_0,
                a.offset + size <= usize::MAX,
                range@.len() == size,
                forall|k: int| 0 <= k < size ==> opt_view(#[trigger] range@[k]) == self.value_at(nth(a, k)),
                out@.len() == i,
                forall|k: int| 0 <= k < i ==> (#[trigger] range@[k]) is Some,
                forall|k: int| 0 <= k < i ==> Some(#[trigger] out@[k]@) == opt_view(range@[k]),
            decreases size - i,
        {
            match &range[i] {
                Some(v) => {
                    let c = v.copy();
                    out.push(c);
                    assert(range@[i as int] == Some(*v));
                    assert(out@[i as int] == c);
                },
                None => {
                    assert(self.value_at(nth(a, i as int)) is None);
                    return Err(MemoryError::GetRangeMemoryGap);
                },
            }
            i = i + 1;
        }
        proof {
            assert forall|k: int| 0 <= k < size implies #[trigger] self.value_at(nth(a, k)) is Some by {
                assert(opt_view(range@[k]) == self.value_at(nth(a, k)));
            }
        }
        Ok(out)
    }

    /// Adds the rule that temporary segment `src.segment_index` is to be read as
    /// starting at `dst`.
    pub fn add_relocation_rule(&mut self, src: Relocatable, dst: Relocatable) -> (r: Result<(), MemoryError>)
        requires
            old(self).wf(),
        ensures
            final(self).wf(),
            old(self).extends(&*final(self)),
            src.segment_index >= 0 ==> r == Err::<(), MemoryError>(
                MemoryError::AddressNotInTemporarySegment(src.segment_index),
            ) && *final(self) == *old(self),
            src.segment_index < 0 && src.offset != 0 ==> r == Err::<(), MemoryError>(MemoryError::NonZeroOffset(src.offset))
                && *final(self) == *old(self),
            src.segment_index < 0 && src.offset == 0 && old(self).rule(src.segment_index as int) is Some ==> r
                == Err::<(), MemoryError>(MemoryError::DuplicatedRelocation(src.segment_index)) && *final(self) == *old(self),
            src.segment_index < 0 && src.offset == 0 && old(self).rule(src.segment_index as int) is None ==> r is Ok
                && final(self).rule(src.segment_index as int) == Some(dst)
                && (forall|s: int| s != src.segment_index ==> #[trigger] final(self).rule(s) == old(self).rule(s))
                && (forall|s: int| #[trigger] final(self).segment(s) == old(self).segment(s))
                && final(self).num_segments() == old(self).num_segments()
                && final(self).num_temp_segments() == old(self).num_temp_segments(),
    {
        if src.segment_index >= 0 {
            return Err(MemoryError::AddressNotInTemporarySegment(src.segment_index));
        }
        if src.offset != 0 {
            return Err(MemoryError::NonZeroOffset(src.offset));
        }
        if self.find_rule(src.segment_index).is_some() {
            return Err(MemoryError::DuplicatedRelocation(src.segment_index));
        }
        let key = (-(src.segment_index as i128) - 1) as usize;
        let ghost old_rules = self.relocation_rules@;
        self.relocation_rules.push((key, dst));
        proof {
            let rules = self.relocation_rules@;
            assert(rules == old_rules.push((key, dst)));
            assert(final(self).rule(src.segment_index as int) == Some(dst)) by {
                assert(rules[old_rules.len() as int].0 == temp_index(src.segment_index as int));
                let k = choose|j: int| 0 <= j < rules.len() && rules[j].0 == temp_index(src.segment_index as int);
                if k < old_rules.len() {
                    assert(old_rules[k].0 == temp_index(src.segment_index as int));
                    assert(old(self).rule(src.segment_index as int) is Some);
                }
            }
            assert forall|s: int| s != src.segment_index implies #[trigger] final(self).rule(s) == old(self).rule(s) by {
                if exists|j: int| 0 <= j < rules.len() && rules[j].0 == temp_index(s) {
                    let k = choose|j: int| 0 <= j < rules.len() && rules[j].0 == temp_index(s);
                    assert(k < old_rules.len());
                    assert(old_rules[k].0 == temp_index(s));
                    let k2 = choose|j: int| 0 <= j < old_rules.len() && old_rules[j].0 == temp_index(s);
                    assert(rules[k2].0 == temp_index(s));
                    assert(k == k2) by {
                        if k < k2 {
                            assert(rules[k].0 != rules[k2].0);
                        } else if k2 < k {
                            assert(rules[k2].0 != rules[k].0);
                        }
                    }
                } else {
                    assert forall|j: int| 0 <= j < old_rules.len() implies old_rules[j].0 != temp_index(s) by {
                        assert(rules[j] == old_rules[j]);
                    }
                }
            }
            assert forall|i: int, j: int| 0 <= i < j < rules.len() implies #[trigger] rules[i].0 != #[trigger] rules[j].0 by {
                if j == old_rules.len() {
                    if rules[i].0 == key {
                        assert(old_rules[i].0 == temp_index(src.segment_index as int));
                    }
                }
            }
            assert forall|s: int| #[trigger] final(self).segment(s) == old(self).segment(s) by {}
        }
        Ok(())
    }
}

/// Writes `v` at `(i, j)`, padding segment `i` with holes up to `j`.
fn write_cell(segs: &mut Vec<Vec<Option<MaybeRelocatable>>>, i: usize, j: usize, v: MaybeRelocatable)
    requires
        i < old(segs)@.len(),
    ensures
        final(segs)@.len() == old(segs)@.len(),
        forall|k: int| 0 <= k < final(segs)@.len() && k != i ==> #[trigger] final(segs)@[k] == old(segs)@[k],
        final(segs)@[i as int]@.len() == if j < old(segs)@[i as int]@.len() { old(segs)@[i as int]@.len() } else { (j + 1) as nat },
        final(segs)@[i as int]@[j as int] == Some(v),
        forall|o: int| 0 <= o < final(segs)@[i as int]@.len() && o != j ==> #[trigger] final(segs)@[i as int]@[o] == if o
            < old(segs)@[i as int]@.len() {
            old(segs)@[i as int]@[o]
        } else {
            None
        },
{
    let ghost old_seg = segs@[i as int]@;
    segs.push(Vec::new());
    let mut seg = segs.swap_remove(i);
    assert(seg@ == old_seg);
    while seg.len() <= j
        invariant
            seg@.len() >= old_seg.len(),
            seg@.len() <= j + 1 || seg@.len() == old_seg.len(),
            forall|o: int| 0 <= o < seg@.len() ==> #[trigger] seg@[o] == if o < old_seg.len() { old_seg[o] } else { None },
        decreases j + 1 - seg@.len(),
    {
        seg.push(None);
    }
    seg.set(j, Some(v));
    segs.set(i, seg);
}

} // verus!
