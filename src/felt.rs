//! Non-negative big integers, as used for field elements and bitwise operands.
use num_bigint::BigUint;
use num_integer::Integer;
use num_traits::ToPrimitive;
use vstd::prelude::*;

verus! {

/// Value of little-endian base 2^32 digits.
pub open spec fn digits_val(d: Seq<u32>) -> nat
    decreases d.len(),
{
    if d.len() == 0 {
        0
    } else {
        d[0] as nat + 4294967296 * digits_val(d.subrange(1, d.len() as int))
    }
}

/// Value of big-endian bytes.
pub open spec fn be_val(s: Seq<u8>) -> nat
    decreases s.len(),
{
    if s.len() == 0 {
        0
    } else {
        be_val(s.drop_last()) * 256 + s.last() as nat
    }
}

/// 2 to the power `n`.
pub open spec fn two_pow(n: nat) -> nat
    decreases n,
{
    if n == 0 {
        1
    } else {
        2 * two_pow((n - 1) as nat)
    }
}

/// Bitwise AND of two non-negative integers.
pub open spec fn bit_and(x: nat, y: nat) -> nat
    decreases x,
{
    if x == 0 || y == 0 {
        0
    } else {
        (if x % 2 == 1 && y % 2 == 1 { 1nat } else { 0nat }) + 2 * bit_and(x / 2, y / 2)
    }
}

/// Bitwise exclusive OR of two non-negative integers.
pub open spec fn bit_xor(x: nat, y: nat) -> nat
    decreases x,
{
    if x == 0 {
        y
    } else if y == 0 {
        x
    } else {
        (if x % 2 != y % 2 { 1nat } else { 0nat }) + 2 * bit_xor(x / 2, y / 2)
    }
}

/// Bitwise inclusive OR of two non-negative integers.
pub open spec fn bit_or(x: nat, y: nat) -> nat
    decreases x,
{
    if x == 0 {
        y
    } else if y == 0 {
        x
    } else {
        (if x % 2 == 1 || y % 2 == 1 { 1nat } else { 0nat }) + 2 * bit_or(x / 2, y / 2)
    }
}

/// Below `2^n`, the AND, XOR and OR of two numbers stay below `2^n`: the
/// bitwise operations of `n`-bit operands need no truncation to `n` bits.
pub proof fn lemma_bitwise_range(x: nat, y: nat, n: nat)
    requires
        x < two_pow(n),
        y < two_pow(n),
    ensures
        bit_and(x, y) < two_pow(n),
        bit_xor(x, y) < two_pow(n),
        bit_or(x, y) < two_pow(n),
    decreases n,
{
    if n > 0 && x > 0 && y > 0 {
        lemma_bitwise_range(x / 2, y / 2, (n - 1) as nat);
    }
}

/// Bit `k` of `z`.
pub open spec fn bit(z: nat, k: nat) -> bool
    decreases k,
{
    if k == 0 {
        z % 2 == 1
    } else {
        bit(z / 2, (k - 1) as nat)
    }
}

proof fn lemma_bit_of_zero(k: nat)
    ensures
        !bit(0, k),
    decreases k,
{
    if k > 0 {
        lemma_bit_of_zero((k - 1) as nat);
    }
}

/// The bitwise operations act bit by bit: bit `k` of the AND, XOR and OR is
/// the AND, XOR and OR of bit `k` of each operand.
pub proof fn lemma_bitwise_bits(x: nat, y: nat, k: nat)
    ensures
        bit(bit_and(x, y), k) == (bit(x, k) && bit(y, k)),
        bit(bit_xor(x, y), k) == (bit(x, k) != bit(y, k)),
        bit(bit_or(x, y), k) == (bit(x, k) || bit(y, k)),
    decreases k,
{
    lemma_bit_of_zero(k);
    if x > 0 && y > 0 && k > 0 {
        lemma_bitwise_bits(x / 2, y / 2, (k - 1) as nat);
    }
}

/// A non-negative integer of any size, held as base 2^32 digits, least
/// significant first.
#[derive(Debug)]
pub struct Felt {
    digits: Vec<u32>,
}

impl Felt {
    pub closed spec fn val(&self) -> nat {
        digits_val(self.digits@)
    }

    /// Builds the number whose base 2^32 digits, least significant first, are `digits`.
    pub fn from_digits(digits: Vec<u32>) -> (r: Felt)
        ensures
            r.val() == digits_val(digits@),
    {
        Felt { digits }
    }

    /// The base 2^32 digits, least significant first.
    pub fn to_digits(&self) -> (r: Vec<u32>)
        ensures
            digits_val(r@) == self.val(),
    {
        self.digits.clone()
    }

    pub fn from_u64(n: u64) -> (r: Felt)
        ensures
            r.val() == n,
    {
        big_from_u64(n)
    }

    pub fn zero() -> (r: Felt)
        ensures
            r.val() == 0,
    {
        Felt { digits: Vec::new() }
    }

    pub fn is_zero(&self) -> (r: bool)
        ensures
            r == (self.val() == 0),
    {
        big_is_zero(self)
    }

    /// The value as a `usize`, when it fits.
    pub fn to_usize(&self) -> (r: Option<usize>)
        ensures
            self.val() <= usize::MAX ==> r == Some(self.val() as usize),
            self.val() > usize::MAX ==> r is None,
    {
        big_to_usize(self)
    }

    /// The value as an `i64`, when it fits.
    pub fn to_i64(&self) -> (r: Option<i64>)
        ensures
            self.val() <= i64::MAX ==> r == Some(self.val() as i64),
            self.val() > i64::MAX ==> r is None,
    {
        big_to_i64(self)
    }

    pub fn from_usize(n: usize) -> (r: Felt)
        ensures
            r.val() == n,
    {
        big_from_u64(n as u64)
    }

    /// `(self + o) mod p`.
    pub fn add_mod(&self, o: &Felt, p: &Felt) -> (r: Felt)
        requires
            p.val() > 0,
        ensures
            r.val() == (self.val() + o.val()) % p.val(),
    {
        let s = big_add(self, o);
        big_mod_floor(&s, p)
    }

    /// `(self * o) mod p`.
    pub fn mul_mod(&self, o: &Felt, p: &Felt) -> (r: Felt)
        requires
            p.val() > 0,
        ensures
            r.val() == (self.val() * o.val()) % p.val(),
    {
        let m = big_mul(self, o);
        big_mod_floor(&m, p)
    }

    /// `(self - o) mod p`, the result in `[0, p)`.
    pub fn sub_mod(&self, o: &Felt, p: &Felt) -> (r: Felt)
        requires
            p.val() > 0,
        ensures
            r.val() == (self.val() - o.val()) % (p.val() as int),
    {
        let a = big_mod_floor(self, p);
        let b = big_mod_floor(o, p);
        let ghost (x, y, m) = (self.val() as int, o.val() as int, p.val() as int);
        if big_ge(&a, &b) {
            let r = big_sub(&a, &b);
            proof {
                lemma_sub_mod(x, y, m);
            }
            r
        } else {
            let t = big_add(&a, p);
            let r = big_sub(&t, &b);
            proof {
                lemma_sub_mod(x, y, m);
            }
            r
        }
    }

    /// The field quotient `self / o` modulo `p`: the `r` in `[0, p)` with
    /// `r * o == self (mod p)`, or `None` when `o` has no inverse modulo `p`.
    pub fn div_mod(&self, o: &Felt, p: &Felt) -> (r: Option<Felt>)
        requires
            p.val() > 0,
        ensures
            r matches Some(q) ==> q.val() < p.val() && (q.val() * o.val()) % p.val()
                == self.val() % p.val(),
            r is None ==> forall|x: nat| #[trigger] (o.val() * x) % p.val() != 1nat % p.val(),
            r is Some ==> exists|x: nat| #[trigger] (o.val() * x) % p.val() == 1nat % p.val(),
    {
        match big_modinv(o, p) {
            Some(inv) => {
                let q = self.mul_mod(&inv, p);
                proof {
                    lemma_div_by_inverse(self.val() as int, o.val() as int, inv.val() as int, p.val() as int);
                    assert((o.val() * inv.val()) % p.val() == 1nat % p.val());
                }
                Some(q)
            },
            None => None,
        }
    }

    pub fn ge(&self, o: &Felt) -> (r: bool)
        ensures
            r == (self.val() >= o.val()),
    {
        big_ge(self, o)
    }

    pub fn eq_val(&self, o: &Felt) -> (r: bool)
        ensures
            r == (self.val() == o.val()),
    {
        big_eq(self, o)
    }

    /// `2^n`.
    pub fn pow2(n: u32) -> (r: Felt)
        ensures
            r.val() == two_pow(n as nat),
    {
        big_shl_one(n)
    }

    pub fn and(&self, o: &Felt) -> (r: Felt)
        ensures
            r.val() == bit_and(self.val(), o.val()),
    {
        big_and(self, o)
    }

    pub fn xor(&self, o: &Felt) -> (r: Felt)
        ensures
            r.val() == bit_xor(self.val(), o.val()),
    {
        big_xor(self, o)
    }

    pub fn or(&self, o: &Felt) -> (r: Felt)
        ensures
            r.val() == bit_or(self.val(), o.val()),
    {
        big_or(self, o)
    }
}

impl Clone for Felt {
    fn clone(&self) -> (r: Felt)
        ensures
            r.val() == self.val(),
    {
        Felt { digits: self.digits.clone() }
    }
}

impl PartialEq for Felt {
    fn eq(&self, o: &Felt) -> (r: bool) {
        big_eq(self, o)
    }
}

impl vstd::std_specs::cmp::PartialEqSpecImpl for Felt {
    open spec fn obeys_eq_spec() -> bool {
        true
    }

    open spec fn eq_spec(&self, o: &Felt) -> bool {
        self.val() == o.val()
    }
}

impl Eq for Felt {
}

proof fn lemma_sub_mod(x: int, y: int, m: int)
    requires
        m > 0,
        x >= 0,
        y >= 0,
    ensures
        x % m >= y % m ==> x % m - y % m == (x - y) % m,
        x % m < y % m ==> x % m + m - y % m == (x - y) % m,
{
    let a = x % m;
    let b = y % m;
    assert(x == m * (x / m) + a) by (nonlinear_arith)
        requires m > 0, a == x % m;
    assert(y == m * (y / m) + b) by (nonlinear_arith)
        requires m > 0, b == y % m;
    assert(0 <= a < m && 0 <= b < m) by (nonlinear_arith)
        requires m > 0, a == x % m, b == y % m;
    let k = x / m - y / m;
    assert(x - y == k * m + (a - b)) by (nonlinear_arith)
        requires x == m * (x / m) + a, y == m * (y / m) + b, k == x / m - y / m;
    if a >= b {
        vstd::arithmetic::div_mod::lemma_fundamental_div_mod_converse(x - y, m, k, a - b);
    } else {
        assert(x - y == (k - 1) * m + (a + m - b)) by (nonlinear_arith)
            requires x - y == k * m + (a - b);
        vstd::arithmetic::div_mod::lemma_fundamental_div_mod_converse(x - y, m, k - 1, a + m - b);
    }
}

proof fn lemma_div_by_inverse(a: int, b: int, inv: int, m: int)
    requires
        m > 0,
        (b * inv) % m == 1int % m,
    ensures
        ((a * inv) % m * b) % m == a % m,
{
    vstd::arithmetic::div_mod::lemma_mul_mod_noop_left(a * inv, b, m);
    assert((a * inv) * b == a * (b * inv)) by (nonlinear_arith);
    vstd::arithmetic::div_mod::lemma_mul_mod_noop_right(a, b * inv, m);
    vstd::arithmetic::div_mod::lemma_mul_mod_noop_right(a, 1, m);
}

/// Relies on `BigUint::from(u64)`: the same number.
#[verifier::external_body]
fn big_from_u64(n: u64) -> (r: Felt)
    ensures
        r.val() == n,
{
    Felt { digits: BigUint::from(n).to_u32_digits() }
}

/// Relies on `num_traits::Zero::is_zero` for `BigUint`.
#[verifier::external_body]
fn big_is_zero(a: &Felt) -> (r: bool)
    ensures
        r == (a.val() == 0),
{
    num_traits::Zero::is_zero(&BigUint::new(a.digits.clone()))
}

/// Relies on `num_traits::ToPrimitive::to_usize` for `BigUint`: `Some` exactly
/// when the value fits.
#[verifier::external_body]
fn big_to_usize(a: &Felt) -> (r: Option<usize>)
    ensures
        a.val() <= usize::MAX ==> r == Some(a.val() as usize),
        a.val() > usize::MAX ==> r is None,
{
    BigUint::new(a.digits.clone()).to_usize()
}

/// Relies on `num_traits::ToPrimitive::to_i64` for `BigUint`: `Some` exactly
/// when the value fits.
#[verifier::external_body]
fn big_to_i64(a: &Felt) -> (r: Option<i64>)
    ensures
        a.val() <= i64::MAX ==> r == Some(a.val() as i64),
        a.val() > i64::MAX ==> r is None,
{
    BigUint::new(a.digits.clone()).to_i64()
}

/// Relies on `BigUint`'s `Add`: the exact sum.
#[verifier::external_body]
fn big_add(a: &Felt, b: &Felt) -> (r: Felt)
    ensures
        r.val() == a.val() + b.val(),
{
    Felt { digits: (BigUint::new(a.digits.clone()) + BigUint::new(b.digits.clone())).to_u32_digits() }
}

/// Relies on `BigUint`'s `Sub`, which panics below zero: the exact difference.
#[verifier::external_body]
fn big_sub(a: &Felt, b: &Felt) -> (r: Felt)
    requires
        a.val() >= b.val(),
    ensures
        r.val() == a.val() - b.val(),
{
    Felt { digits: (BigUint::new(a.digits.clone()) - BigUint::new(b.digits.clone())).to_u32_digits() }
}

/// Relies on `BigUint`'s `Mul`: the exact product.
#[verifier::external_body]
fn big_mul(a: &Felt, b: &Felt) -> (r: Felt)
    ensures
        r.val() == a.val() * b.val(),
{
    Felt { digits: (BigUint::new(a.digits.clone()) * BigUint::new(b.digits.clone())).to_u32_digits() }
}

/// Relies on `num_integer::Integer::mod_floor` for `BigUint`, which panics on a
/// zero modulus: the remainder.
#[verifier::external_body]
fn big_mod_floor(a: &Felt, m: &Felt) -> (r: Felt)
    requires
        m.val() > 0,
    ensures
        r.val() == a.val() % m.val(),
{
    Felt { digits: BigUint::new(a.digits.clone()).mod_floor(&BigUint::new(m.digits.clone())).to_u32_digits() }
}

/// Relies on `BigUint::modinv`, which panics on a zero modulus: an inverse in
/// `[0, m)` when one exists, else `None`.
#[verifier::external_body]
fn big_modinv(a: &Felt, m: &Felt) -> (r: Option<Felt>)
    requires
        m.val() > 0,
    ensures
        r matches Some(x) ==> x.val() < m.val() && (a.val() * x.val()) % m.val() == 1nat % m.val(),
        r is None ==> forall|x: nat| #[trigger] (a.val() * x) % m.val() != 1nat % m.val(),
{
    match BigUint::new(a.digits.clone()).modinv(&BigUint::new(m.digits.clone())) {
        Some(x) => Some(Felt { digits: x.to_u32_digits() }),
        None => None,
    }
}

/// Relies on `BigUint::to_bytes_be`: big-endian bytes without leading zeros,
/// `[0]` for zero.
#[verifier::external_body]
pub(crate) fn felt_to_bytes_be(n: &Felt) -> (r: Vec<u8>)
    ensures
        be_val(r@) == n.val(),
        r@.len() >= 1,
        r@.len() > 1 ==> r@[0] != 0,
{
    BigUint::new(n.digits.clone()).to_bytes_be()
}

/// Relies on `BigUint::from_bytes_be`: the value of big-endian bytes.
#[verifier::external_body]
pub(crate) fn felt_from_bytes_be(bytes: &[u8]) -> (r: Felt)
    ensures
        r.val() == be_val(bytes@),
{
    Felt { digits: BigUint::from_bytes_be(bytes).to_u32_digits() }
}

/// Relies on `BigUint`'s `PartialOrd::ge`.
#[verifier::external_body]
fn big_ge(a: &Felt, b: &Felt) -> (r: bool)
    ensures
        r == (a.val() >= b.val()),
{
    BigUint::new(a.digits.clone()) >= BigUint::new(b.digits.clone())
}

/// Relies on `BigUint`'s `PartialEq::eq`.
#[verifier::external_body]
fn big_eq(a: &Felt, b: &Felt) -> (r: bool)
    ensures
        r == (a.val() == b.val()),
{
    BigUint::new(a.digits.clone()) == BigUint::new(b.digits.clone())
}

/// Relies on `BigUint`'s `Shl<u32>` applied to one: a power of two.
#[verifier::external_body]
fn big_shl_one(n: u32) -> (r: Felt)
    ensures
        r.val() == two_pow(n as nat),
{
    Felt { digits: (BigUint::from(1u32) << n).to_u32_digits() }
}

/// Relies on `BigUint`'s `BitAnd`.
#[verifier::external_body]
fn big_and(a: &Felt, b: &Felt) -> (r: Felt)
    ensures
        r.val() == bit_and(a.val(), b.val()),
{
    Felt { digits: (BigUint::new(a.digits.clone()) & BigUint::new(b.digits.clone())).to_u32_digits() }
}

/// Relies on `BigUint`'s `BitXor`.
#[verifier::external_body]
fn big_xor(a: &Felt, b: &Felt) -> (r: Felt)
    ensures
        r.val() == bit_xor(a.val(), b.val()),
{
    Felt { digits: (BigUint::new(a.digits.clone()) ^ BigUint::new(b.digits.clone())).to_u32_digits() }
}

/// Relies on `BigUint`'s `BitOr`.
#[verifier::external_body]
fn big_or(a: &Felt, b: &Felt) -> (r: Felt)
    ensures
        r.val() == bit_or(a.val(), b.val()),
{
    Felt { digits: (BigUint::new(a.digits.clone()) | BigUint::new(b.digits.clone())).to_u32_digits() }
}

} // verus!
