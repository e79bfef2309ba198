//! Allocation of segments and bulk loading of data.
use crate::errors::MemoryError;
use crate::memory::Memory;
use crate::relocatable::{nth, MaybeRelocatable, Relocatable, Val};
use vstd::prelude::*;

verus! {

/// Accesses to segment `seg` land in it: it is no temporary segment with a
/// relocation rule.
pub open spec fn no_rule_at(m: &Memory, seg: int) -> bool {
    seg >= 0 || m.rule(seg) is None
}

/// Hands out segments of a `Memory` and records their used sizes once computed.
pub struct MemorySegmentManager {
    pub segment_used_sizes: Option<Vec<usize>>,
}

impl MemorySegmentManager {
    pub fn new() -> (r: MemorySegmentManager)
        ensures
            r.segment_used_sizes is None,
    {
        MemorySegmentManager { segment_used_sizes: None }
    }

    /// Adds a segment to `memory` and returns its first address.
    pub fn add(&mut self, memory: &mut Memory) -> (r: Relocatable)
        requires
            old(memory).wf(),
            old(memory).num_segments() < isize::MAX,
        ensures
            final(memory).wf(),
            *final(self) == *old(self),
            r.segment_index == old(memory).num_segments(),
            r.offset == 0,
            final(memory).segment(r.segment_index as int) == Some(Seq::<Option<MaybeRelocatable>>::empty()),
            forall|seg: int| seg != r.segment_index ==> #[trigger] final(memory).segment(seg) == old(memory).segment(seg),
            forall|seg: int| #[trigger] final(memory).rule(seg) == old(memory).rule(seg),
            final(memory).num_segments() == old(memory).num_segments() + 1,
            final(memory).num_temp_segments() == old(memory).num_temp_segments(),
            old(memory).extends(&*final(memory)),
    {
        let i = memory.add_segment();
        Relocatable { segment_index: i as isize, offset: 0 }
    }

    /// Adds a temporary segment to `memory` and returns its first address.
    pub fn add_temporary_segment(&mut self, memory: &mut Memory) -> (r: Relocatable)
        requires
            old(memory).wf(),
            old(memory).num_temp_segments() < isize::MAX,
        ensures
            final(memory).wf(),
            *final(self) == *old(self),
            r.segment_index == -(old(memory).num_temp_segments() as int) - 1,
            r.offset == 0,
            final(memory).segment(r.segment_index as int) == Some(Seq::<Option<MaybeRelocatable>>::empty()),
            forall|seg: int| seg != r.segment_index ==> #[trigger] final(memory).segment(seg) == old(memory).segment(seg),
            forall|seg: int| #[trigger] final(memory).rule(seg) == old(memory).rule(seg),
            final(memory).num_segments() == old(memory).num_segments(),
            final(memory).num_temp_segments() == old(memory).num_temp_segments() + 1,
            old(memory).extends(&*final(memory)),
    {
        let i = memory.add_temp_segment();
        Relocatable { segment_index: i, offset: 0 }
    }

    /// The used size of segment `index`, once sizes were computed.
    pub fn get_segment_used_size(&self, index: usize) -> (r: Option<usize>)
        ensures
            r == match self.segment_used_sizes {
                Some(v) => if index < v@.len() {
                    Some(v@[index as int])
                } else {
                    None
                },
                None => None,
            },
    {
        match &self.segment_used_sizes {
            Some(v) => if index < v.len() {
                Some(v[index])
            } else {
                None
            },
            None => None,
        }
    }

    /// Writes `data` into consecutive cells from `ptr` on and returns the address
    /// right after them.
    pub fn load_data(&mut self, memory: &mut Memory, ptr: &MaybeRelocatable, data: &Vec<MaybeRelocatable>) -> (r: Result<
        MaybeRelocatable,
        MemoryError,
    >)
        requires
            old(memory).wf(),
        ensures
            final(memory).wf(),
            *final(self) == *old(self),
            old(memory).extends(&*final(memory)),
            ptr is Int ==> r == Err::<MaybeRelocatable, MemoryError>(MemoryError::AddressNotRelocatable),
            ptr is RelocatableValue && ptr->RelocatableValue_0.offset + data@.len() > usize::MAX ==> r == Err::<
                MaybeRelocatable,
                MemoryError,
            >(MemoryError::NumOutOfBounds),
            ptr is RelocatableValue && ptr->RelocatableValue_0.offset + data@.len() <= usize::MAX && no_rule_at(
                &*old(memory),
                ptr->RelocatableValue_0.segment_index as int,
            ) ==> {
                let a = ptr->RelocatableValue_0;
                (r is Ok <==> (data@.len() == 0 || old(memory).allocated(a.segment_index as int)) && forall|i: int|
                    0 <= i < data@.len() ==> #[trigger] old(memory).cell_at(nth(a, i)) is None || old(memory).cell_at(nth(a, i))
                        == Some(data@[i]@))
            },
            r is Ok ==> ptr is RelocatableValue && r->Ok_0@ == Val::Addr(
                ptr->RelocatableValue_0.segment_index as int,
                (ptr->RelocatableValue_0.offset + data@.len()) as nat,
            ) && forall|i: int| 0 <= i < data@.len() ==> #[trigger] final(memory).cell_at(nth(ptr->RelocatableValue_0, i))
                == Some(data@[i]@),
    {
        let a = match ptr {
            MaybeRelocatable::RelocatableValue(a) => *a,
            MaybeRelocatable::Int(_) => {
                return Err(MemoryError::AddressNotRelocatable);
            },
        };
        if a.offset > usize::MAX - data.len() {
            return Err(MemoryError::NumOutOfBounds);
        }
        let ghost plain = no_rule_at(&*old(memory), a.segment_index as int);
        let mut i: usize = 0;
        while i < data.len()
            invariant
                memory.wf(),
                ptr is RelocatableValue && ptr->RelocatableValue_0 == a,
                old(memory).extends(&*memory),
                a.offset + data@.len() <= usize::MAX,
                i <= data@.len(),
                plain == no_rule_at(&*old(memory), a.segment_index as int),
                forall|seg: int| #[trigger] memory.rule(seg) == old(memory).rule(seg),
                forall|seg: int| #[trigger] memory.allocated(seg) == old(memory).allocated(seg),
                forall|k: int| 0 <= k < i ==> #[trigger] memory.cell_at(nth(a, k)) == Some(data@[k]@),
                plain ==> (i > 0 ==> old(memory).allocated(a.segment_index as int)),
                plain ==> forall|k: int| 0 <= k < i ==> #[trigger] old(memory).cell_at(nth(a, k)) is None || old(memory).cell_at(
                    nth(a, k),
                ) == Some(data@[k]@),
                plain ==> forall|k: int| i <= k < data@.len() ==> #[trigger] memory.cell_at(nth(a, k)) == old(memory).cell_at(
                    nth(a, k),
                ),
            decreases data@.len() - i,
        {
            let key = Relocatable { segment_index: a.segment_index, offset: a.offset + i };
            let ghost before = *memory;
            match memory.insert(&key, &data[i]) {
                Ok(()) => {},
                Err(e) => {
                    proof {
                        if plain {
                            assert(old(memory).cell_at(nth(a, i as int)) == before.cell_at(key));
                            assert(before.resolve(key) == key);
                        }
                    }
                    return Err(e);
                },
            }
            proof {
                assert(nth(a, i as int) == key);
                assert forall|seg: int| #[trigger] memory.rule(seg) == old(memory).rule(seg) by {
                    assert(before.rule(seg) == old(memory).rule(seg));
                }
                assert forall|x: Relocatable| #[trigger] memory.resolve(x) == before.resolve(x) by {
                    assert(memory.rule(x.segment_index as int) == before.rule(x.segment_index as int));
                }
                if plain {
                    assert(before.resolve(key) == key);
                    assert forall|k: int| i < k < data@.len() implies #[trigger] memory.cell_at(nth(a, k)) == old(memory).cell_at(
                        nth(a, k),
                    ) by {
                        assert(before.resolve(nth(a, k)) == nth(a, k));
                        assert(nth(a, k).offset != key.offset);
                        assert(before.cell_at(nth(a, k)) == old(memory).cell_at(nth(a, k)));
                    }
                    assert(old(memory).cell_at(nth(a, i as int)) == before.cell_at(key));
                }
                assert forall|k: int| 0 <= k < i implies #[trigger] memory.cell_at(nth(a, k)) == Some(data@[k]@) by {
                    assert(before.cell_at(nth(a, k)) == Some(data@[k]@));
                    assert(memory.resolve(nth(a, k)) == before.resolve(nth(a, k)));
                }
                assert forall|seg: int| #[trigger] memory.allocated(seg) == old(memory).allocated(seg) by {
                    assert(before.allocated(seg) == old(memory).allocated(seg));
                }
            }
            i = i + 1;
        }
        Ok(MaybeRelocatable::RelocatableValue(Relocatable { segment_index: a.segment_index, offset: a.offset + data.len() }))
    }
}

} // verus!
