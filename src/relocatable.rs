//! Addresses and the values that memory holds: field integers or addresses.
use crate::errors::{unwrapped, VirtualMachineError};
use crate::felt::Felt;
use vstd::prelude::*;

verus! {

/// An address: a segment (negative for temporary segments) and an offset in it.
#[derive(Clone, Copy, Debug, PartialEq, Eq, Hash, Structural)]
pub struct Relocatable {
    pub segment_index: isize,
    pub offset: usize,
}

/// What a memory cell holds, as mathematics sees it.
pub enum Val {
    Int(nat),
    Addr(int, nat),
}

/// The address `i` cells after `a`.
pub open spec fn nth(a: Relocatable, i: int) -> Relocatable {
    Relocatable { segment_index: a.segment_index, offset: (a.offset + i) as usize }
}

/// A memory value: a field integer or an address.
#[derive(Clone, Debug)]
pub enum MaybeRelocatable {
    Int(Felt),
    RelocatableValue(Relocatable),
}

/// The address `(segment, offset + n mod p)`, if the offset fits in a `usize`.
pub open spec fn addr_plus(seg: int, offset: nat, n: nat, p: nat) -> Option<Val> {
    let o = (offset + n) % p;
    if o <= usize::MAX {
        Some(Val::Addr(seg, o as nat))
    } else {
        None
    }
}

/// The address `(segment, offset - n mod p)`, if the offset fits in a `usize`.
pub open spec fn addr_minus(seg: int, offset: nat, n: nat, p: nat) -> Option<Val> {
    let o = (offset - n) % (p as int);
    if o <= usize::MAX {
        Some(Val::Addr(seg, o as nat))
    } else {
        None
    }
}

/// `a + b` over the prime `p`: `None` where the sum is not defined or does not fit.
pub open spec fn val_add(a: Val, b: Val, p: nat) -> Option<Val> {
    match (a, b) {
        (Val::Int(x), Val::Int(y)) => Some(Val::Int((x + y) % p)),
        (Val::Addr(s, o), Val::Int(y)) => addr_plus(s, o, y, p),
        (Val::Int(x), Val::Addr(s, o)) => addr_plus(s, o, x, p),
        (Val::Addr(_, _), Val::Addr(_, _)) => None,
    }
}

/// `a - b` over the prime `p`: `None` where the difference is not defined or does not fit.
pub open spec fn val_sub(a: Val, b: Val, p: nat) -> Option<Val> {
    match (a, b) {
        (Val::Int(x), Val::Int(y)) => Some(Val::Int(((x - y) % (p as int)) as nat)),
        (Val::Addr(s, o), Val::Int(y)) => addr_minus(s, o, y, p),
        (Val::Addr(s1, o1), Val::Addr(s2, o2)) => if s1 == s2 {
            Some(Val::Int(((o1 - o2) % (p as int)) as nat))
        } else {
            None
        },
        (Val::Int(_), Val::Addr(_, _)) => None,
    }
}

impl Relocatable {
    pub open spec fn view(&self) -> Val {
        Val::Addr(self.segment_index as int, self.offset as nat)
    }

    pub fn new(segment_index: isize, offset: usize) -> (r: Relocatable)
        ensures
            r.segment_index == segment_index,
            r.offset == offset,
    {
        Relocatable { segment_index, offset }
    }

    /// The address `n` cells further, if the offset fits.
    pub fn add_usize(&self, n: usize) -> (r: Option<Relocatable>)
        ensures
            self.offset + n <= usize::MAX ==> r == Some(
                Relocatable { segment_index: self.segment_index, offset: (self.offset + n) as usize },
            ),
            self.offset + n > usize::MAX ==> r is None,
    {
        match self.offset.checked_add(n) {
            Some(o) => Some(Relocatable { segment_index: self.segment_index, offset: o }),
            None => None,
        }
    }

    /// The address `n` cells before, if there is one.
    pub fn sub_usize(&self, n: usize) -> (r: Option<Relocatable>)
        ensures
            n <= self.offset ==> r == Some(
                Relocatable { segment_index: self.segment_index, offset: (self.offset - n) as usize },
            ),
            n > self.offset ==> r is None,
    {
        if n <= self.offset {
            Some(Relocatable { segment_index: self.segment_index, offset: self.offset - n })
        } else {
            None
        }
    }

    /// The address `(segment, offset + n mod p)`.
    pub fn add_int_mod(&self, n: &Felt, p: &Felt) -> (r: Result<Relocatable, VirtualMachineError>)
        requires
            p.val() > 0,
        ensures
            unwrapped(r),
            addr_plus(self.segment_index as int, self.offset as nat, n.val(), p.val()) matches Some(v)
                ==> r matches Ok(a) && a@ == v,
            addr_plus(self.segment_index as int, self.offset as nat, n.val(), p.val()) is None
                ==> r matches Err(VirtualMachineError::OffsetExceeded(_)),
    {
        let o = Felt::from_usize(self.offset);
        let s = o.add_mod(n, p);
        match s.to_usize() {
            Some(off) => Ok(Relocatable { segment_index: self.segment_index, offset: off }),
            None => Err(VirtualMachineError::OffsetExceeded(s)),
        }
    }

    /// The address `(segment, offset - n mod p)`.
    pub fn sub_int_mod(&self, n: &Felt, p: &Felt) -> (r: Result<Relocatable, VirtualMachineError>)
        requires
            p.val() > 0,
        ensures
            unwrapped(r),
            addr_minus(self.segment_index as int, self.offset as nat, n.val(), p.val()) matches Some(v)
                ==> r matches Ok(a) && a@ == v,
            addr_minus(self.segment_index as int, self.offset as nat, n.val(), p.val()) is None
                ==> r matches Err(VirtualMachineError::OffsetExceeded(_)),
    {
        let o = Felt::from_usize(self.offset);
        let s = o.sub_mod(n, p);
        match s.to_usize() {
            Some(off) => Ok(Relocatable { segment_index: self.segment_index, offset: off }),
            None => Err(VirtualMachineError::OffsetExceeded(s)),
        }
    }

    /// `self + v`: an integer moves the address, an address cannot be added.
    pub fn add_maybe_mod(&self, v: &MaybeRelocatable, p: &Felt) -> (r: Result<Relocatable, VirtualMachineError>)
        requires
            p.val() > 0,
        ensures
            unwrapped(r),
            val_add(self@, v@, p.val()) matches Some(w) ==> r matches Ok(a) && a@ == w,
            v is RelocatableValue ==> r == Err::<Relocatable, VirtualMachineError>(VirtualMachineError::PureValue),
            v is Int && val_add(self@, v@, p.val()) is None ==> r matches Err(VirtualMachineError::OffsetExceeded(_)),
    {
        match v {
            MaybeRelocatable::Int(n) => self.add_int_mod(n, p),
            MaybeRelocatable::RelocatableValue(_) => Err(VirtualMachineError::PureValue),
        }
    }
}

impl View for MaybeRelocatable {
    type V = Val;

    open spec fn view(&self) -> Val {
        match self {
            MaybeRelocatable::Int(n) => Val::Int(n.val()),
            MaybeRelocatable::RelocatableValue(r) => r@,
        }
    }
}

impl MaybeRelocatable {
    pub fn from_u64(n: u64) -> (r: MaybeRelocatable)
        ensures
            r@ == Val::Int(n as nat),
    {
        MaybeRelocatable::Int(Felt::from_u64(n))
    }

    pub fn from_addr(segment_index: isize, offset: usize) -> (r: MaybeRelocatable)
        ensures
            r@ == Val::Addr(segment_index as int, offset as nat),
            r == MaybeRelocatable::RelocatableValue(Relocatable { segment_index, offset }),
    {
        MaybeRelocatable::RelocatableValue(Relocatable { segment_index, offset })
    }

    /// A copy with the same value.
    pub fn copy(&self) -> (r: MaybeRelocatable)
        ensures
            r@ == self@,
            self is Int <==> r is Int,
    {
        match self {
            MaybeRelocatable::Int(n) => MaybeRelocatable::Int(n.clone()),
            MaybeRelocatable::RelocatableValue(a) => MaybeRelocatable::RelocatableValue(*a),
        }
    }

    /// `self + o` over the prime `p`.
    pub fn add_mod(&self, o: &MaybeRelocatable, p: &Felt) -> (r: Result<MaybeRelocatable, VirtualMachineError>)
        requires
            p.val() > 0,
        ensures
            unwrapped(r),
            val_add(self@, o@, p.val()) matches Some(w) ==> r matches Ok(v) && v@ == w,
            self is RelocatableValue && o is RelocatableValue ==> r == Err::<MaybeRelocatable, VirtualMachineError>(
                VirtualMachineError::PureValue,
            ),
            !(self is RelocatableValue && o is RelocatableValue) && val_add(self@, o@, p.val()) is None
                ==> r matches Err(VirtualMachineError::OffsetExceeded(_)),
    {
        match (self, o) {
            (MaybeRelocatable::Int(a), MaybeRelocatable::Int(b)) => Ok(MaybeRelocatable::Int(a.add_mod(b, p))),
            (MaybeRelocatable::RelocatableValue(a), MaybeRelocatable::Int(b)) => match a.add_int_mod(b, p) {
                Ok(x) => Ok(MaybeRelocatable::RelocatableValue(x)),
                Err(e) => Err(e),
            },
            (MaybeRelocatable::Int(a), MaybeRelocatable::RelocatableValue(b)) => match b.add_int_mod(a, p) {
                Ok(x) => Ok(MaybeRelocatable::RelocatableValue(x)),
                Err(e) => Err(e),
            },
            (MaybeRelocatable::RelocatableValue(_), MaybeRelocatable::RelocatableValue(_)) => Err(
                VirtualMachineError::PureValue,
            ),
        }
    }

    /// `self - o` over the prime `p`.
    pub fn sub(&self, o: &MaybeRelocatable, p: &Felt) -> (r: Result<MaybeRelocatable, VirtualMachineError>)
        requires
            p.val() > 0,
        ensures
            unwrapped(r),
            val_sub(self@, o@, p.val()) matches Some(w) ==> r matches Ok(v) && v@ == w,
            self is Int && o is RelocatableValue ==> r == Err::<MaybeRelocatable, VirtualMachineError>(
                VirtualMachineError::PureValue,
            ),
            self is RelocatableValue && o is RelocatableValue && val_sub(self@, o@, p.val()) is None ==> r
                == Err::<MaybeRelocatable, VirtualMachineError>(VirtualMachineError::DiffIndexSub),
            self is RelocatableValue && o is Int && val_sub(self@, o@, p.val()) is None
                ==> r matches Err(VirtualMachineError::OffsetExceeded(_)),
    {
        match (self, o) {
            (MaybeRelocatable::Int(a), MaybeRelocatable::Int(b)) => Ok(MaybeRelocatable::Int(a.sub_mod(b, p))),
            (MaybeRelocatable::RelocatableValue(a), MaybeRelocatable::Int(b)) => match a.sub_int_mod(b, p) {
                Ok(x) => Ok(MaybeRelocatable::RelocatableValue(x)),
                Err(e) => Err(e),
            },
            (MaybeRelocatable::RelocatableValue(a), MaybeRelocatable::RelocatableValue(b)) => {
                if a.segment_index == b.segment_index {
                    let x = Felt::from_usize(a.offset);
                    let y = Felt::from_usize(b.offset);
                    Ok(MaybeRelocatable::Int(x.sub_mod(&y, p)))
                } else {
                    Err(VirtualMachineError::DiffIndexSub)
                }
            },
            (MaybeRelocatable::Int(_), MaybeRelocatable::RelocatableValue(_)) => Err(
                VirtualMachineError::PureValue,
            ),
        }
    }

    /// The address held, or `PureValue` for an integer.
    pub fn get_relocatable(&self) -> (r: Result<Relocatable, VirtualMachineError>)
        ensures
            unwrapped(r),
            self matches MaybeRelocatable::RelocatableValue(a) ==> r == Ok::<Relocatable, VirtualMachineError>(*a),
            self is Int ==> r == Err::<Relocatable, VirtualMachineError>(VirtualMachineError::PureValue),
    {
        match self {
            MaybeRelocatable::RelocatableValue(a) => Ok(*a),
            MaybeRelocatable::Int(_) => Err(VirtualMachineError::PureValue),
        }
    }
}

impl PartialEq for MaybeRelocatable {
    fn eq(&self, o: &MaybeRelocatable) -> (r: bool) {
        match (self, o) {
            (MaybeRelocatable::Int(a), MaybeRelocatable::Int(b)) => a.eq_val(b),
            (MaybeRelocatable::RelocatableValue(a), MaybeRelocatable::RelocatableValue(b)) => a == b,
            _ => false,
        }
    }
}

impl vstd::std_specs::cmp::PartialEqSpecImpl for MaybeRelocatable {
    open spec fn obeys_eq_spec() -> bool {
        true
    }

    open spec fn eq_spec(&self, o: &MaybeRelocatable) -> bool {
        self@ == o@
    }
}

impl Eq for MaybeRelocatable {
}

} // verus!
