//! Arithmetic in the BabyBear prime field, `p = 2^31 - 2^27 + 1`.
//!
//! A field element is stored as a `u64`. Every element that this module
//! produces is reduced (strictly below the modulus); elements built directly
//! from the public field may hold any `u64`, and every operation is defined on
//! them by the same formula over the integers.

use vstd::prelude::*;
use vstd::arithmetic::div_mod::*;
use vstd::arithmetic::mul::*;
use vstd::arithmetic::power::*;
use vstd::bytes::*;
use vstd::std_specs::ops::AddSpec;
use vstd::std_specs::ops::MulSpec;
use vstd::std_specs::ops::NegSpec;
use crate::encoding::le_bytes;
use crate::fermat::lemma_fermat_inverse;

verus! {

/// The BabyBear modulus, `2^31 - 2^27 + 1 = 2013265921`.
pub const BABY_BEAR_MODULUS: u64 = 0x78000001;

/// `(a + b) mod p`.
pub open spec fn field_add(a: int, b: int) -> int {
    (a + b) % (BABY_BEAR_MODULUS as int)
}

/// `(a + p - b) mod p`.
pub open spec fn field_sub(a: int, b: int) -> int {
    (a + BABY_BEAR_MODULUS as int - b) % (BABY_BEAR_MODULUS as int)
}

/// `(a * b) mod p`.
pub open spec fn field_mul(a: int, b: int) -> int {
    (a * b) % (BABY_BEAR_MODULUS as int)
}

/// `(p - a) mod p`.
pub open spec fn field_neg(a: int) -> int {
    (BABY_BEAR_MODULUS as int - a) % (BABY_BEAR_MODULUS as int)
}

/// `a^e mod p`.
pub open spec fn field_pow(a: int, e: nat) -> int {
    pow(a, e) % (BABY_BEAR_MODULUS as int)
}

/// The reduced element that the integer `value` stands for.
pub open spec fn reduce(value: int) -> BabyBearField {
    BabyBearField((value % (BABY_BEAR_MODULUS as int)) as u64)
}

/// An element of the BabyBear field.
#[derive(Debug, Clone, Copy, PartialEq, Eq, Structural)]
pub struct BabyBearField(pub u64);

impl View for BabyBearField {
    type V = int;

    open spec fn view(&self) -> int {
        self.0 as int
    }
}

impl BabyBearField {
    /// The modulus.
    pub const MODULUS: u64 = 0x78000001;

    /// The stored integer is below the modulus.
    pub open spec fn is_reduced(self) -> bool {
        self.0 < BABY_BEAR_MODULUS
    }

    /// The canonical encoding: the stored integer as eight little-endian bytes.
    pub open spec fn spec_to_bytes(self) -> Seq<u8> {
        spec_u64_to_le_bytes(self.0)
    }

    /// The element that eight little-endian bytes decode to.
    pub open spec fn spec_from_bytes(bytes: Seq<u8>) -> Self {
        reduce(spec_u64_from_le_bytes(bytes) as int)
    }

    /// The inverse by Fermat's little theorem, `self^(p-2)`; none for zero.
    pub open spec fn spec_inverse(self) -> Option<Self> {
        if self.0 == 0 {
            None
        } else {
            Some(BabyBearField(field_pow(self@, (BABY_BEAR_MODULUS - 2) as nat) as u64))
        }
    }

    /// The additive identity.
    pub fn zero() -> (r: Self)
        ensures
            r@ == 0,
            r.is_reduced(),
    {
        BabyBearField(0)
    }

    /// The multiplicative identity.
    pub fn one() -> (r: Self)
        ensures
            r@ == 1,
            r.is_reduced(),
    {
        BabyBearField(1)
    }

    /// Reduces `value` modulo `p`.
    pub fn new(value: u64) -> (r: Self)
        ensures
            r == reduce(value as int),
            r.is_reduced(),
    {
        BabyBearField(value % BABY_BEAR_MODULUS)
    }

    /// Reduces `value` modulo `p`.
    pub fn from_u32(value: u32) -> (r: Self)
        ensures
            r == reduce(value as int),
            r.is_reduced(),
    {
        Self::new(value as u64)
    }

    /// The eight little-endian bytes of the stored integer.
    pub fn to_bytes(&self) -> (bytes: [u8; 8])
        ensures
            bytes@ == self.spec_to_bytes(),
    {
        le_bytes(self.0)
    }

    /// Reads eight little-endian bytes and reduces the integer modulo `p`.
    pub fn from_bytes(bytes: [u8; 8]) -> (r: Self)
        ensures
            r == Self::spec_from_bytes(bytes@),
            r.is_reduced(),
    {
        Self::new(u64_from_le_bytes(bytes.as_slice()))
    }

    /// `self^exp` by square-and-multiply, from the lowest bit of `exp` up.
    pub fn pow(&self, exp: u64) -> (r: Self)
        ensures
            r@ == field_pow(self@, exp as nat),
            r.is_reduced(),
    {
        let ghost p = BABY_BEAR_MODULUS as int;
        let mut result = Self::one();
        let mut base = *self;
        let mut e: u64 = exp;
        proof {
            lemma_pow0(self@);
            lemma_mul_basics(pow(base@, e as nat));
        }
        while e > 0
            invariant
                p == BABY_BEAR_MODULUS as int,
                result.is_reduced(),
                (result@ * pow(base@, e as nat)) % p == pow(self@, exp as nat) % p,
            decreases e,
        {
            let ghost b0 = base@;
            let ghost r0 = result@;
            let ghost e0 = e as nat;
            let ghost half = (e / 2) as nat;
            proof {
                assert(e & 1 == e % 2) by (bit_vector);
                assert(e >> 1 == e / 2) by (bit_vector);
                lemma_pow_square_step(b0, e0);
            }
            if e & 1 == 1 {
                result = result * base;
                proof {
                    lemma_mul_is_associative(r0, b0, pow(b0 * b0, half));
                    lemma_mul_mod_noop_left(r0 * b0, pow(b0 * b0, half), p);
                }
            }
            base = base * base;
            e = e >> 1;
            proof {
                lemma_pow_mod_noop(b0 * b0, half, p);
                lemma_mul_mod_noop_right(result@, pow(b0 * b0, half), p);
                lemma_mul_mod_noop_right(result@, pow(base@, half), p);
            }
        }
        proof {
            lemma_pow0(base@);
            lemma_small_mod(result@ as nat, p as nat);
        }
        result
    }

    /// The multiplicative inverse `self^(p-2)`, or `None` for zero.
    pub fn inverse(&self) -> (r: Option<Self>)
        ensures
            r == self.spec_inverse(),
            r matches Some(v) ==> v.is_reduced(),
    {
        if self.0 == 0 {
            return None;
        }
        Some(self.pow(BABY_BEAR_MODULUS - 2))
    }
}

impl core::ops::Add for BabyBearField {
    type Output = Self;

    fn add(self, rhs: Self) -> (r: Self)
        ensures
            r.is_reduced(),
    {
        let sum: u128 = self.0 as u128 + rhs.0 as u128;
        let reduced: u128 = sum % (BABY_BEAR_MODULUS as u128);
        assert(reduced == field_add(self@, rhs@));
        BabyBearField(reduced as u64)
    }
}

impl vstd::std_specs::ops::AddSpecImpl for BabyBearField {
    open spec fn obeys_add_spec() -> bool {
        true
    }

    open spec fn add_req(self, rhs: Self) -> bool {
        true
    }

    open spec fn add_spec(self, rhs: Self) -> Self {
        BabyBearField(field_add(self@, rhs@) as u64)
    }
}

impl core::ops::Sub for BabyBearField {
    type Output = Self;

    fn sub(self, rhs: Self) -> (r: Self)
        ensures
            r.is_reduced(),
    {
        let a: u64 = self.0 % BABY_BEAR_MODULUS;
        let b: u64 = rhs.0 % BABY_BEAR_MODULUS;
        let difference: u64 = (a + BABY_BEAR_MODULUS - b) % BABY_BEAR_MODULUS;
        proof {
            let p = BABY_BEAR_MODULUS as int;
            lemma_sub_mod_noop(self@ + p, rhs@, p);
            lemma_mod_add_multiples_vanish(self@, p);
            lemma_mod_add_multiples_vanish(a as int, p);
            lemma_mod_twice(self@, p);
            assert((self@ + p) % p == a);
            assert((a + p) % p == a);
            assert(((self@ + p) % p - rhs@ % p) % p == (self@ + p - rhs@) % p);
            lemma_sub_mod_noop(a + p, b as int, p);
            lemma_mod_twice(rhs@, p);
            assert(((a + p) % p - (b as int) % p) % p == (a + p - b) % p);
            assert(difference == field_sub(self@, rhs@));
        }
        BabyBearField(difference)
    }
}

impl vstd::std_specs::ops::SubSpecImpl for BabyBearField {
    open spec fn obeys_sub_spec() -> bool {
        true
    }

    open spec fn sub_req(self, rhs: Self) -> bool {
        true
    }

    open spec fn sub_spec(self, rhs: Self) -> Self {
        BabyBearField(field_sub(self@, rhs@) as u64)
    }
}

impl core::ops::Mul for BabyBearField {
    type Output = Self;

    fn mul(self, rhs: Self) -> (r: Self)
        ensures
            r.is_reduced(),
    {
        proof {
            lemma_mul_bounds_u64(self.0, rhs.0);
        }
        let product: u128 = (self.0 as u128) * (rhs.0 as u128);
        let reduced: u128 = product % (BABY_BEAR_MODULUS as u128);
        assert(product == self@ * rhs@);
        assert(reduced == field_mul(self@, rhs@));
        BabyBearField(reduced as u64)
    }
}

impl vstd::std_specs::ops::MulSpecImpl for BabyBearField {
    open spec fn obeys_mul_spec() -> bool {
        true
    }

    open spec fn mul_req(self, rhs: Self) -> bool {
        true
    }

    open spec fn mul_spec(self, rhs: Self) -> Self {
        BabyBearField(field_mul(self@, rhs@) as u64)
    }
}

impl core::ops::Neg for BabyBearField {
    type Output = Self;

    fn neg(self) -> (r: Self)
        ensures
            r.is_reduced(),
    {
        let a: u64 = self.0 % BABY_BEAR_MODULUS;
        let negated: u64 = if a == 0 {
            0
        } else {
            BABY_BEAR_MODULUS - a
        };
        proof {
            let p = BABY_BEAR_MODULUS as int;
            lemma_sub_mod_noop_right(p, self@, p);
            assert((p - a) % p == field_neg(self@));
            if a != 0 {
                lemma_small_mod((p - a) as nat, p as nat);
            }
            assert(negated == field_neg(self@));
        }
        BabyBearField(negated)
    }
}

impl vstd::std_specs::ops::NegSpecImpl for BabyBearField {
    open spec fn obeys_neg_spec() -> bool {
        true
    }

    open spec fn neg_req(self) -> bool {
        true
    }

    open spec fn neg_spec(self) -> Self {
        BabyBearField(field_neg(self@) as u64)
    }
}

/// Addition is associative: `(a + b) + c == a + (b + c)`.
pub proof fn lemma_add_associative(a: BabyBearField, b: BabyBearField, c: BabyBearField)
    ensures
        a.add_spec(b).add_spec(c) == a.add_spec(b.add_spec(c)),
{
    let p = BABY_BEAR_MODULUS as int;
    lemma_add_mod_noop_left_by_sub(a@ + b@, c@, p);
    lemma_add_mod_noop_right(a@, b@ + c@, p);
}

/// Multiplication distributes over addition: `a * (b + c) == a * b + a * c`.
pub proof fn lemma_mul_distributes(a: BabyBearField, b: BabyBearField, c: BabyBearField)
    ensures
        a.mul_spec(b.add_spec(c)) == a.mul_spec(b).add_spec(a.mul_spec(c)),
{
    let p = BABY_BEAR_MODULUS as int;
    lemma_mul_mod_noop_right(a@, b@ + c@, p);
    lemma_mul_is_distributive_add(a@, b@, c@);
    lemma_add_mod_noop(a@ * b@, a@ * c@, p);
}

/// Every element plus its negation is zero: `a + (-a) == 0`.
pub proof fn lemma_add_negation(a: BabyBearField)
    ensures
        a.add_spec(a.neg_spec()) == BabyBearField(0),
{
    let p = BABY_BEAR_MODULUS as int;
    lemma_add_mod_noop_right(a@, p - a@, p);
}

/// Every reduced non-zero element times its inverse is one: `a * a^-1 == 1`.
pub proof fn lemma_mul_inverse(a: BabyBearField)
    requires
        a.is_reduced(),
        a@ != 0,
    ensures
        a.spec_inverse() matches Some(inv) && a.mul_spec(inv) == BabyBearField(1),
{
    let p = BABY_BEAR_MODULUS as int;
    lemma_fermat_inverse(a@);
    lemma_mod_bound(pow(a@, (BABY_BEAR_MODULUS - 2) as nat), p);
}

/// Decoding the encoding of a reduced element gives the element back.
pub proof fn lemma_bytes_roundtrip(v: BabyBearField)
    requires
        v.is_reduced(),
    ensures
        BabyBearField::spec_from_bytes(v.spec_to_bytes()) == v,
{
    lemma_auto_spec_u64_to_from_le_bytes();
}

/// The product of two `u64` fits in a `u128`.
pub proof fn lemma_mul_bounds_u64(a: u64, b: u64)
    ensures
        0 <= a * b <= u128::MAX,
{
    assert(0 <= a * b <= 0xffff_ffff_ffff_ffff * 0xffff_ffff_ffff_ffff) by (nonlinear_arith)
        requires
            0 <= a <= 0xffff_ffff_ffff_ffff,
            0 <= b <= 0xffff_ffff_ffff_ffff,
    ;
}

/// `(x % m + y) % m == (x + y) % m`.
proof fn lemma_add_mod_noop_left_by_sub(x: int, y: int, m: int)
    requires
        m > 0,
    ensures
        ((x % m) + y) % m == (x + y) % m,
{
    lemma_add_mod_noop(x, y, m);
    lemma_add_mod_noop(x % m, y, m);
    lemma_mod_twice(x, m);
}

/// One step of square-and-multiply: `b^e` is `(b*b)^(e/2)`, times `b` when
/// `e` is odd.
proof fn lemma_pow_square_step(b: int, e: nat)
    ensures
        e % 2 == 0 ==> pow(b, e) == pow(b * b, e / 2),
        e % 2 == 1 ==> pow(b, e) == b * pow(b * b, e / 2),
{
    let half = e / 2;
    lemma_pow1(b);
    lemma_pow_adds(b, 1, 1);
    assert(pow(b, 2) == b * b);
    lemma_pow_multiplies(b, 2, half);
    assert(pow(b * b, half) == pow(b, 2 * half));
    if e % 2 == 1 {
        lemma_pow_adds(b, 1, 2 * half);
    }
}

} // verus!
