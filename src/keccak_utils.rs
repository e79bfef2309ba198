//! Keccak hints: hash words of memory and store the digest as two 128-bit
//! halves.
use crate::errors::VirtualMachineError;
use crate::felt::{be_val, felt_from_bytes_be, felt_to_bytes_be, two_pow, Felt};
use crate::memory::{opt_view, Memory};
use crate::relocatable::{nth, MaybeRelocatable, Relocatable, Val};
use crate::vm_core::VirtualMachine;
use sha3::{Digest, Keccak256};
use vstd::prelude::*;

verus! {

/// The Keccak-256 digest of `input`.
pub uninterp spec fn keccak256_of(input: Seq<u8>) -> Seq<u8>;

/// The `k`-byte big-endian form of `n`.
pub open spec fn be_fixed(n: nat, k: nat) -> Seq<u8>
    decreases k,
{
    if k == 0 {
        Seq::empty()
    } else {
        be_fixed(n / 256, (k - 1) as nat).push((n % 256) as u8)
    }
}

pub open spec fn min_nat(a: nat, b: nat) -> nat {
    if a < b {
        a
    } else {
        b
    }
}

/// The bytes hashed for `length` bytes held in words of sixteen from `data`
/// on, from word `i`: each word in as many bytes as remain, up to sixteen.
pub open spec fn keccak_input(m: &Memory, data: Relocatable, length: nat, i: nat) -> Seq<u8>
    decreases if 16 * i < length { length - 16 * i } else { 0 },
{
    if 16 * i >= length {
        Seq::empty()
    } else {
        let word = match m.value_at(nth(data, i as int)) {
            Some(Val::Int(w)) => w,
            _ => 0,
        };
        be_fixed(word, min_nat(16, (length - 16 * i) as nat)) + keccak_input(m, data, length, i + 1)
    }
}

/// The integer at word `i` from `data`, if one is there.
pub open spec fn word_at(m: &Memory, data: Relocatable, i: nat) -> Option<nat> {
    match m.value_at(nth(data, i as int)) {
        Some(Val::Int(w)) => Some(w),
        _ => None,
    }
}

/// From word `i` on, every word of the input is an integer that fits the bytes
/// it stands for, at an address that exists.
pub open spec fn keccak_words_ok(m: &Memory, data: Relocatable, length: nat, i: nat) -> bool
    decreases if 16 * i < length { length - 16 * i } else { 0 },
{
    16 * i >= length || (data.offset + i <= usize::MAX && word_at(m, data, i) is Some && word_at(m, data, i).unwrap() < pow256(
        min_nat(16, (length - 16 * i) as nat),
    ) && keccak_words_ok(m, data, length, i + 1))
}

/// The two cells that take a digest's halves are distinct, unwritten, and in
/// segments that exist.
pub open spec fn outputs_free(m: &Memory, high: Relocatable, low: Relocatable) -> bool {
    &&& m.allocated(m.resolve(high).segment_index as int)
    &&& m.allocated(m.resolve(low).segment_index as int)
    &&& m.cell_at(high) is None
    &&& m.cell_at(low) is None
    &&& m.resolve(high) != m.resolve(low)
}

/// `s` preceded by `n` zeros.
pub fn left_pad(bytes_vector: &[u8], n_zeros: usize) -> (r: Vec<u8>)
    ensures
        r@ == Seq::new(n_zeros as nat, |i: int| 0u8) + bytes_vector@,
{
    let mut res: Vec<u8> = Vec::new();
    let mut i: usize = 0;
    while i < n_zeros
        invariant
            i <= n_zeros,
            res@ == Seq::new(i as nat, |k: int| 0u8),
        decreases n_zeros - i,
    {
        res.push(0);
        i = i + 1;
        assert(res@ =~= Seq::new(i as nat, |k: int| 0u8));
    }
    let mut j: usize = 0;
    while j < bytes_vector.len()
        invariant
            j <= bytes_vector@.len(),
            res@ == Seq::new(n_zeros as nat, |k: int| 0u8) + bytes_vector@.take(j as int),
        decreases bytes_vector@.len() - j,
    {
        res.push(bytes_vector[j]);
        j = j + 1;
        assert(res@ =~= Seq::new(n_zeros as nat, |k: int| 0u8) + bytes_vector@.take(j as int));
    }
    assert(bytes_vector@.take(j as int) =~= bytes_vector@);
    res
}

/// `s` preceded by `n` zeros.
pub fn left_pad_u64(bytes_vector: &[u64], n_zeros: usize) -> (r: Vec<u64>)
    ensures
        r@ == Seq::new(n_zeros as nat, |i: int| 0u64) + bytes_vector@,
{
    let mut res: Vec<u64> = Vec::new();
    let mut i: usize = 0;
    while i < n_zeros
        invariant
            i <= n_zeros,
            res@ == Seq::new(i as nat, |k: int| 0u64),
        decreases n_zeros - i,
    {
        res.push(0);
        i = i + 1;
        assert(res@ =~= Seq::new(i as nat, |k: int| 0u64));
    }
    let mut j: usize = 0;
    while j < bytes_vector.len()
        invariant
            j <= bytes_vector@.len(),
            res@ == Seq::new(n_zeros as nat, |k: int| 0u64) + bytes_vector@.take(j as int),
        decreases bytes_vector@.len() - j,
    {
        res.push(bytes_vector[j]);
        j = j + 1;
        assert(res@ =~= Seq::new(n_zeros as nat, |k: int| 0u64) + bytes_vector@.take(j as int));
    }
    assert(bytes_vector@.take(j as int) =~= bytes_vector@);
    res
}

/// `NoneInMemoryRange` where the range has a hole.
pub fn check_no_nones_in_range<T>(range: &Vec<Option<T>>) -> (r: Result<(), VirtualMachineError>)
    ensures
        (forall|i: int| 0 <= i < range@.len() ==> (#[trigger] range@[i]) is Some) ==> r is Ok,
        (exists|i: int| 0 <= i < range@.len() && (#[trigger] range@[i]) is None) ==> r == Err::<(), VirtualMachineError>(
            VirtualMachineError::NoneInMemoryRange,
        ),
{
    let mut i: usize = 0;
    while i < range.len()
        invariant
            i <= range@.len(),
            forall|k: int| 0 <= k < i ==> (#[trigger] range@[k]) is Some,
        decreases range@.len() - i,
    {
        if range[i].is_none() {
            return Err(VirtualMachineError::NoneInMemoryRange);
        }
        i = i + 1;
    }
    Ok(())
}

proof fn lemma_pow_mono(a: nat, b: nat)
    requires
        a <= b,
    ensures
        pow256(a) <= pow256(b),
    decreases b,
{
    if a < b {
        lemma_pow_mono(a, (b - 1) as nat);
    }
}

pub open spec fn pow256(k: nat) -> nat
    decreases k,
{
    if k == 0 {
        1
    } else {
        256 * pow256((k - 1) as nat)
    }
}

/// Bytes with a non-zero first byte are worth at least `256^(len - 1)`.
proof fn lemma_be_lower(s: Seq<u8>)
    requires
        s.len() >= 1,
        s[0] != 0,
    ensures
        be_val(s) >= pow256((s.len() - 1) as nat),
    decreases s.len(),
{
    if s.len() > 1 {
        assert(s.drop_last()[0] == s[0]);
        lemma_be_lower(s.drop_last());
    }
}

/// Bytes are worth less than `256^len`.
proof fn lemma_be_upper(s: Seq<u8>)
    ensures
        be_val(s) < pow256(s.len()),
    decreases s.len(),
{
    if s.len() > 0 {
        lemma_be_upper(s.drop_last());
    }
}

/// `k - len` zeros before the bytes of `n` give its `k`-byte form.
proof fn lemma_pad_fixed(s: Seq<u8>, k: nat)
    requires
        s.len() <= k,
    ensures
        Seq::new((k - s.len()) as nat, |i: int| 0u8) + s == be_fixed(be_val(s), k),
    decreases k,
{
    let z = Seq::new((k - s.len()) as nat, |i: int| 0u8);
    if k == 0 {
        assert(z + s =~= Seq::<u8>::empty());
    } else if s.len() == 0 {
        lemma_pad_fixed(s, (k - 1) as nat);
        assert(z =~= Seq::new((k - 1) as nat, |i: int| 0u8).push(0u8));
        assert(z + s =~= (Seq::new((k - 1 - s.len()) as nat, |i: int| 0u8) + s).push(0u8));
    } else {
        lemma_pad_fixed(s.drop_last(), (k - 1) as nat);
        let v = be_val(s);
        assert(v / 256 == be_val(s.drop_last()));
        assert((v % 256) as u8 == s.last());
        assert(z + s =~= (Seq::new(((k - 1) - s.drop_last().len()) as nat, |i: int| 0u8) + s.drop_last()).push(s.last()));
    }
}

/// Relies on `sha3::Digest::digest` for `Keccak256`: the 32-byte digest of `input`.
#[verifier::external_body]
fn keccak256(input: &Vec<u8>) -> (r: Vec<u8>)
    ensures
        r@ == keccak256_of(input@),
        r@.len() == 32,
{
    Keccak256::digest(input.as_slice()).to_vec()
}

/// The `k`-byte big-endian form of `w`, which must be below `256^k`.
fn word_bytes(w: &Felt, k: usize) -> (r: Vec<u8>)
    requires
        1 <= k,
        w.val() < pow256(k as nat),
    ensures
        r@ == be_fixed(w.val(), k as nat),
{
    let bytes = felt_to_bytes_be(w);
    proof {
        if bytes@.len() > k {
            lemma_be_lower(bytes@);
            lemma_pow_mono(k as nat, (bytes@.len() - 1) as nat);
        }
        lemma_pad_fixed(bytes@, k as nat);
    }
    left_pad(bytes.as_slice(), k - bytes.len())
}

/// Splits a 32-byte digest into its two 16-byte halves, as integers.
pub fn digest_halves(hashed: &Vec<u8>) -> (r: (Felt, Felt))
    requires
        hashed@.len() == 32,
    ensures
        r.0.val() == be_val(hashed@.subrange(0, 16)),
        r.1.val() == be_val(hashed@.subrange(16, 32)),
{
    let mut hi: Vec<u8> = Vec::new();
    let mut lo: Vec<u8> = Vec::new();
    let mut i: usize = 0;
    while i < 16
        invariant
            i <= 16,
            hashed@.len() == 32,
            hi@ == hashed@.subrange(0, i as int),
            lo@ == hashed@.subrange(16, 16 + i as int),
        decreases 16 - i,
    {
        hi.push(hashed[i]);
        lo.push(hashed[16 + i]);
        i = i + 1;
        assert(hi@ =~= hashed@.subrange(0, i as int));
        assert(lo@ =~= hashed@.subrange(16, 16 + i as int));
    }
    (felt_from_bytes_be(hi.as_slice()), felt_from_bytes_be(lo.as_slice()))
}

/// Hashes `length` bytes held in words of sixteen from `data` on (the last word
/// holding the remainder) and writes the digest's two halves at `high_addr` and
/// `low_addr`. `length` may not pass `keccak_max_size`, where one is set.
pub fn unsafe_keccak(
    vm: &mut VirtualMachine,
    keccak_max_size: Option<&Felt>,
    length: &Felt,
    data: Relocatable,
    high_addr: Relocatable,
    low_addr: Relocatable,
) -> (r: Result<(), VirtualMachineError>)
    requires
        old(vm).wf(),
    ensures
        final(vm).wf(),
        old(vm).memory.extends(&final(vm).memory),
        keccak_max_size matches Some(m) && length.val() > m.val() ==> r is Err && r->Err_0 is KeccakMaxSize,
        keccak_max_size is Some && length.val() > keccak_max_size.unwrap().val() ==> r->Err_0->KeccakMaxSize_0.val() == length.val()
            && r->Err_0->KeccakMaxSize_1.val() == keccak_max_size.unwrap().val() && *final(vm) == *old(vm),
        (keccak_max_size is None || length.val() <= keccak_max_size.unwrap().val()) && length.val() <= usize::MAX
            && keccak_words_ok(&old(vm).memory, data, length.val(), 0) && outputs_free(&old(vm).memory, high_addr, low_addr) ==> r
            is Ok,
        !(keccak_max_size matches Some(m) && length.val() > m.val()) && length.val() > usize::MAX ==> r is Err && r->Err_0 is InvalidKeccakInputLength,
        r is Ok ==> keccak256_of(keccak_input(&old(vm).memory, data, length.val(), 0)).len() == 32 && ({
            let digest = keccak256_of(keccak_input(&old(vm).memory, data, length.val(), 0));
            &&& final(vm).memory.cell_at(high_addr) == Some(Val::Int(be_val(digest.subrange(0, 16))))
            &&& final(vm).memory.cell_at(low_addr) == Some(Val::Int(be_val(digest.subrange(16, 32))))
        }),
{
    match keccak_max_size {
        Some(m) => {
            if length.ge(m) && !length.eq_val(m) {
                return Err(VirtualMachineError::KeccakMaxSize(length.clone(), m.clone()));
            }
        },
        None => {},
    }
    let len: usize = match length.to_usize() {
        Some(l) => l,
        None => {
            return Err(VirtualMachineError::InvalidKeccakInputLength(length.clone()));
        },
    };
    let ghost m0 = vm.memory;
    let ghost ok0 = keccak_words_ok(&m0, data, len as nat, 0);
    let mut input: Vec<u8> = Vec::new();
    let mut word_i: usize = 0;
    let mut remaining: usize = len;
    while remaining > 0
        invariant
            vm.wf(),
            vm.memory == m0,
            m0 == old(vm).memory,
            *vm == *old(vm),
            len == length.val(),
            !(keccak_max_size matches Some(m) && length.val() > m.val()),
            remaining <= len,
            remaining > 0 ==> 16 * word_i + remaining == len,
            remaining == 0 ==> 16 * word_i >= len,
            word_i <= len,
            input@ + keccak_input(&m0, data, len as nat, word_i as nat) == keccak_input(&m0, data, len as nat, 0),
            ok0 == keccak_words_ok(&m0, data, len as nat, 0),
            ok0 ==> keccak_words_ok(&m0, data, len as nat, word_i as nat),
        decreases remaining,
    {
        if data.offset > usize::MAX - word_i {
            return Err(VirtualMachineError::InvalidKeccakInputLength(length.clone()));
        }
        let word_addr = Relocatable { segment_index: data.segment_index, offset: data.offset + word_i };
        assert(word_addr == nth(data, word_i as int));
        let word = match vm.get_integer(&word_addr) {
            Ok(w) => w,
            Err(e) => {
                return Err(e);
            },
        };
        let n_bytes: usize = if remaining < 16 {
            remaining
        } else {
            16
        };
        proof {
            lemma_pow_two(n_bytes as nat);
            assert(min_nat(16, (len - 16 * word_i) as nat) == n_bytes);
        }
        let bound = Felt::pow2((8 * n_bytes) as u32);
        if word.ge(&bound) {
            return Err(VirtualMachineError::InvalidWordSize(word));
        }
        let bytes = word_bytes(&word, n_bytes);
        let ghost before = input@;
        let mut k: usize = 0;
        while k < bytes.len()
            invariant
                k <= bytes@.len(),
                input@ == before + bytes@.take(k as int),
            decreases bytes@.len() - k,
        {
            input.push(bytes[k]);
            k = k + 1;
            assert(input@ =~= before + bytes@.take(k as int));
        }
        proof {
            assert(bytes@.take(k as int) =~= bytes@);
            assert(min_nat(16, (len - 16 * word_i) as nat) == n_bytes);
            assert(input@ + keccak_input(&m0, data, len as nat, (word_i + 1) as nat) =~= before + keccak_input(
                &m0,
                data,
                len as nat,
                word_i as nat,
            ));
        }
        word_i = word_i + 1;
        remaining = remaining - n_bytes;
    }
    proof {
        assert(keccak_input(&m0, data, len as nat, word_i as nat) == Seq::<u8>::empty());
        assert(input@ =~= keccak_input(&m0, data, len as nat, 0));
    }
    let hashed = keccak256(&input);
    let (high, low) = digest_halves(&hashed);
    match vm.insert_value(&high_addr, &MaybeRelocatable::Int(high)) {
        Ok(()) => {},
        Err(e) => {
            return Err(e);
        },
    }
    vm.insert_value(&low_addr, &MaybeRelocatable::Int(low))
}

/// `2^(8k) == 256^k`.
proof fn lemma_pow_two(k: nat)
    ensures
        two_pow(8 * k) == pow256(k),
    decreases k,
{
    if k > 0 {
        lemma_pow_two((k - 1) as nat);
        assert(two_pow(8 * k) == 256 * two_pow(8 * (k - 1) as nat)) by {
            reveal_with_fuel(two_pow, 9);
        }
    }
}

/// The bytes hashed for `n` words from `start` on, from word `i`: sixteen
/// bytes each.
pub open spec fn finalize_input(m: &Memory, start: Relocatable, n: nat, i: nat) -> Seq<u8>
    decreases n - i,
{
    if i >= n {
        Seq::empty()
    } else {
        let word = match m.value_at(nth(start, i as int)) {
            Some(Val::Int(w)) => w,
            _ => 0,
        };
        be_fixed(word, 16) + finalize_input(m, start, n, i + 1)
    }
}

/// The range that a keccak state at `ptr` describes: its start, stored at
/// `ptr`, and its length up to the end stored right after, when both are
/// addresses of one segment.
pub open spec fn keccak_state(m: &Memory, ptr: Relocatable, p: nat) -> Option<(Relocatable, nat)> {
    match (m.value_at(ptr), m.value_at(nth(ptr, 1))) {
        (Some(Val::Addr(s1, o1)), Some(Val::Addr(s2, o2))) => if s1 == s2 && ptr.offset < usize::MAX && isize::MIN <= s1
            <= isize::MAX && o1 <= usize::MAX {
            Some((Relocatable { segment_index: s1 as isize, offset: o1 as usize }, ((o2 - o1) % (p as int)) as nat))
        } else {
            None
        },
        _ => None,
    }
}

/// The keccak state at `ptr` describes a range that fits in memory, of words
/// that are integers below `2^128`.
pub open spec fn keccak_state_ok(m: &Memory, ptr: Relocatable, p: nat) -> bool {
    &&& keccak_state(m, ptr, p) is Some
    &&& keccak_state(m, ptr, p).unwrap().1 <= usize::MAX
    &&& keccak_state(m, ptr, p).unwrap().0.offset + keccak_state(m, ptr, p).unwrap().1 <= usize::MAX
    &&& forall|i: nat|
        i < keccak_state(m, ptr, p).unwrap().1 ==> #[trigger] word_at(m, keccak_state(m, ptr, p).unwrap().0, i) is Some && word_at(
            m,
            keccak_state(m, ptr, p).unwrap().0,
            i,
        ).unwrap() < pow256(16)
}

/// Hashes the words of a keccak state at `keccak_state_ptr` (sixteen bytes
/// each) and writes the digest's two halves at `high_addr` and `low_addr`.
pub fn unsafe_keccak_finalize(
    vm: &mut VirtualMachine,
    keccak_state_ptr: Relocatable,
    high_addr: Relocatable,
    low_addr: Relocatable,
) -> (r: Result<(), VirtualMachineError>)
    requires
        old(vm).wf(),
    ensures
        final(vm).wf(),
        old(vm).memory.extends(&final(vm).memory),
        r is Ok ==> keccak_state(&old(vm).memory, keccak_state_ptr, old(vm).prime_val()) is Some && ({
            let (start, n) = keccak_state(&old(vm).memory, keccak_state_ptr, old(vm).prime_val()).unwrap();
            let digest = keccak256_of(finalize_input(&old(vm).memory, start, n, 0));
            &&& digest.len() == 32
            &&& final(vm).memory.cell_at(high_addr) == Some(Val::Int(be_val(digest.subrange(0, 16))))
            &&& final(vm).memory.cell_at(low_addr) == Some(Val::Int(be_val(digest.subrange(16, 32))))
        }),
        keccak_state(&old(vm).memory, keccak_state_ptr, old(vm).prime_val()) is None ==> r is Err,
        keccak_state_ok(&old(vm).memory, keccak_state_ptr, old(vm).prime_val()) && outputs_free(&old(vm).memory, high_addr, low_addr)
            ==> r is Ok,
{
    let start_ptr = match vm.get_relocatable(&keccak_state_ptr) {
        Ok(a) => a,
        Err(e) => {
            return Err(e);
        },
    };
    let end_addr = match keccak_state_ptr.add_usize(1) {
        Some(a) => a,
        None => {
            return Err(VirtualMachineError::OffsetOverflow(keccak_state_ptr.offset, 1));
        },
    };
    assert(end_addr == nth(keccak_state_ptr, 1));
    let end_ptr = match vm.get_relocatable(&end_addr) {
        Ok(a) => a,
        Err(e) => {
            return Err(e);
        },
    };
    if start_ptr.segment_index != end_ptr.segment_index {
        return Err(VirtualMachineError::DiffIndexSub);
    }
    let diff = match MaybeRelocatable::RelocatableValue(end_ptr).sub(&MaybeRelocatable::RelocatableValue(start_ptr), vm.get_prime()) {
        Ok(MaybeRelocatable::Int(n)) => n,
        _ => {
            return Err(VirtualMachineError::PureValue);
        },
    };
    let n_elems: usize = match diff.to_usize() {
        Some(n) => n,
        None => {
            return Err(VirtualMachineError::BigintToUsizeFail);
        },
    };
    let ghost m0 = vm.memory;
    let ghost ok0 = keccak_state_ok(&m0, keccak_state_ptr, vm.prime_val());
    proof {
        if ok0 {
            assert forall|k: int| 0 <= k < n_elems implies #[trigger] m0.value_at(nth(start_ptr, k)) is Some by {
                assert(word_at(&m0, start_ptr, k as nat) is Some);
            }
        }
    }
    let range = match vm.get_range(&MaybeRelocatable::RelocatableValue(start_ptr), n_elems) {
        Ok(v) => v,
        Err(e) => {
            return Err(VirtualMachineError::MemoryError(e));
        },
    };
    match check_no_nones_in_range(&range) {
        Ok(()) => {},
        Err(e) => {
            return Err(e);
        },
    }
    let mut input: Vec<u8> = Vec::new();
    let mut i: usize = 0;
    while i < range.len()
        invariant
            vm.wf(),
            vm.memory == m0,
            *vm == *old(vm),
            range@.len() == n_elems,
            start_ptr.offset + n_elems <= usize::MAX,
            forall|k: int| 0 <= k < n_elems ==> opt_view(#[trigger] range@[k]) == m0.value_at(nth(start_ptr, k)),
            i <= range@.len(),
            input@ + finalize_input(&m0, start_ptr, n_elems as nat, i as nat) == finalize_input(&m0, start_ptr, n_elems as nat, 0),
            ok0 ==> forall|k: nat| k < n_elems ==> #[trigger] word_at(&m0, start_ptr, k) is Some && word_at(&m0, start_ptr, k).unwrap()
                < pow256(16),
            ok0 == keccak_state_ok(&m0, keccak_state_ptr, old(vm).prime_val()),
        decreases range@.len() - i,
    {
        proof {
            lemma_pow_two(16);
            if ok0 {
                assert(word_at(&m0, start_ptr, i as nat) is Some);
                assert(opt_view(range@[i as int]) == m0.value_at(nth(start_ptr, i as int)));
            }
        }
        let word = match &range[i] {
            Some(MaybeRelocatable::Int(w)) => w,
            other => {
                return Err(VirtualMachineError::ExpectedIntAtRange(
                    match other {
                        Some(v) => Some(v.copy()),
                        None => None,
                    },
                ));
            },
        };
        let bound = Felt::pow2(128);
        if word.ge(&bound) {
            return Err(VirtualMachineError::InvalidWordSize(word.clone()));
        }
        proof {
            lemma_pow_two(16);
            assert(m0.value_at(nth(start_ptr, i as int)) == Some(Val::Int(word.val())));
        }
        let bytes = word_bytes(word, 16);
        let ghost before = input@;
        let mut k: usize = 0;
        while k < bytes.len()
            invariant
                k <= bytes@.len(),
                input@ == before + bytes@.take(k as int),
            decreases bytes@.len() - k,
        {
            input.push(bytes[k]);
            k = k + 1;
            assert(input@ =~= before + bytes@.take(k as int));
        }
        proof {
            assert(bytes@.take(k as int) =~= bytes@);
            assert(input@ + finalize_input(&m0, start_ptr, n_elems as nat, (i + 1) as nat) =~= before + finalize_input(
                &m0,
                start_ptr,
                n_elems as nat,
                i as nat,
            ));
        }
        i = i + 1;
    }
    proof {
        assert(input@ =~= finalize_input(&m0, start_ptr, n_elems as nat, 0));
    }
    let hashed = keccak256(&input);
    let (high, low) = digest_halves(&hashed);
    match vm.insert_value(&high_addr, &MaybeRelocatable::Int(high)) {
        Ok(()) => {},
        Err(e) => {
            return Err(e);
        },
    }
    vm.insert_value(&low_addr, &MaybeRelocatable::Int(low))
}

} // verus!
