//! Field values, the assignment context into which gadgets write their
//! witnesses, and the small amount of field arithmetic the gadgets need.

use vstd::prelude::*;
use vstd::arithmetic::div_mod::*;
use vstd::arithmetic::power::*;
use vstd::arithmetic::mul::*;
use halo2_proofs::pasta::Fp;
use halo2_proofs::arithmetic::Field;
use halo2_proofs::pasta::group::ff::PrimeField;

verus! {

/// The modulus of the scalar field over which every gate is checked
/// (the base field of the Pallas curve).
pub open spec fn modulus() -> int {
    28948022309329048855892746252171976963363056481941560715954676764349967630337int
}

/// A gate polynomial is satisfied in the field when it vanishes modulo the
/// field's characteristic.
pub open spec fn fzero(e: int) -> bool {
    e % modulus() == 0
}

/// A polynomial whose integer value is small compared to the modulus
/// vanishes in the field only if it is zero as an integer.
pub proof fn lemma_fzero_small(e: int)
    requires
        -modulus() < e < modulus(),
    ensures
        fzero(e) <==> e == 0,
{
    if fzero(e) {
        lemma_fundamental_div_mod(e, modulus());
        let q = e / modulus();
        if q > 0 {
            assert(e >= modulus()) by (nonlinear_arith)
                requires
                    e == modulus() * q,
                    q > 0,
                    modulus() > 0,
            ;
        } else if q < 0 {
            assert(e <= -modulus()) by (nonlinear_arith)
                requires
                    e == modulus() * q,
                    q < 0,
                    modulus() > 0,
            ;
        }
    }
}

/// One for true and zero for false.
pub open spec fn b2i(b: bool) -> int {
    if b {
        1
    } else {
        0
    }
}

/// A bound, 2 to the 112, under which the product of two values cannot
/// reach the modulus.
pub open spec fn small_bound() -> int {
    0x1_0000_0000_0000_0000_0000_0000_0000int
}

/// A product of two small factors vanishes in the field only if one of
/// the factors is zero.
pub proof fn lemma_fzero_mul(a: int, b: int)
    requires
        -small_bound() < a < small_bound(),
        -small_bound() < b < small_bound(),
    ensures
        fzero(a * b) <==> (a == 0 || b == 0),
{
    let k = small_bound();
    assert(-(k * k) < a * b < k * k) by (nonlinear_arith)
        requires
            -k < a < k,
            -k < b < k,
            k > 0,
    ;
    assert(k * k < modulus());
    lemma_fzero_small(a * b);
    vstd::arithmetic::mul::lemma_mul_nonzero(a, b);
}

/// A polynomial multiplied by a selector bit vanishes in the field exactly
/// when the selector is off or the polynomial is zero, provided the
/// polynomial is smaller than the modulus.
pub proof fn lemma_fzero_mul_bit(p: int, s: int)
    requires
        s == 0 || s == 1,
        -modulus() < p < modulus(),
    ensures
        fzero(p * s) <==> (s == 0 || p == 0),
{
    vstd::arithmetic::mul::lemma_mul_basics(p);
    lemma_fzero_small(p);
}

/// A polynomial multiplied by a selector of at most two vanishes in the
/// field exactly when the selector is zero or the polynomial is zero,
/// provided the polynomial is smaller than half the modulus.
pub proof fn lemma_fzero_mul_sel(p: int, s: int)
    requires
        0 <= s <= 2,
        -modulus() / 2 < p < modulus() / 2,
    ensures
        fzero(p * s) <==> (s == 0 || p == 0),
{
    vstd::arithmetic::mul::lemma_mul_basics(p);
    if s == 2 {
        vstd::arithmetic::mul::lemma_mul_is_distributive_add(p, 1, 1);
        assert(p * s == 2 * p);
        lemma_fzero_small(2 * p);
    } else {
        lemma_fzero_small(p);
    }
}

/// The `n` lowest base-`b` digits of `x`, least significant first.
pub open spec fn digits(x: int, b: int, n: nat) -> Seq<int>
    decreases n,
{
    if n == 0 {
        Seq::empty()
    } else {
        seq![x % b].add(digits(x / b, b, (n - 1) as nat))
    }
}

/// The number that the base-`b` digits `ds` spell out, least significant
/// first.
pub open spec fn weighted(ds: Seq<int>, b: int) -> int
    decreases ds.len(),
{
    if ds.len() == 0 {
        0
    } else {
        ds[0] + b * weighted(ds.drop_first(), b)
    }
}

/// Every entry of `ds` is a base-`b` digit.
pub open spec fn all_digits(ds: Seq<int>, b: int) -> bool {
    forall|i: int| 0 <= i < ds.len() ==> 0 <= #[trigger] ds[i] < b
}

/// The digits of a number are digits, `n` of them.
pub proof fn lemma_digits_shape(x: int, b: int, n: nat)
    requires
        x >= 0,
        b > 1,
    ensures
        digits(x, b, n).len() == n,
        all_digits(digits(x, b, n), b),
    decreases n,
{
    if n > 0 {
        lemma_div_pos_is_pos(x, b);
        lemma_digits_shape(x / b, b, (n - 1) as nat);
        lemma_mod_bound(x, b);
        let ds = digits(x, b, n);
        assert forall|i: int| 0 <= i < ds.len() implies 0 <= #[trigger] ds[i] < b by {
            if i > 0 {
                assert(ds[i] == digits(x / b, b, (n - 1) as nat)[i - 1]);
            }
        }
    }
}

/// The `i`-th digit is the remainder of `x` divided by `b` to the `i`.
pub proof fn lemma_digit_index(x: int, b: int, n: nat, i: nat)
    requires
        x >= 0,
        b > 1,
        i < n,
    ensures
        digits(x, b, n)[i as int] == (x / pow(b, i)) % b,
    decreases i,
{
    reveal(pow);
    if i == 0 {
        assert(x / 1 == x);
    } else {
        lemma_div_pos_is_pos(x, b);
        lemma_digit_index(x / b, b, (n - 1) as nat, (i - 1) as nat);
        lemma_digits_shape(x / b, b, (n - 1) as nat);
        lemma_pow_positive(b, (i - 1) as nat);
        lemma_div_denominator(x, b, pow(b, (i - 1) as nat));
        assert(digits(x, b, n)[i as int] == digits(x / b, b, (n - 1) as nat)[i - 1]);
    }
}

/// The digits of a number spell out its remainder by `b` to the `n`.
pub proof fn lemma_weighted_digits(x: int, b: int, n: nat)
    requires
        x >= 0,
        b > 1,
    ensures
        weighted(digits(x, b, n), b) == x % pow(b, n),
    decreases n,
{
    reveal(pow);
    if n == 0 {
        assert(x % 1 == 0) by (nonlinear_arith);
    } else {
        lemma_div_pos_is_pos(x, b);
        lemma_weighted_digits(x / b, b, (n - 1) as nat);
        let ds = digits(x, b, n);
        assert(ds.drop_first() =~= digits(x / b, b, (n - 1) as nat));
        lemma_pow_positive(b, (n - 1) as nat);
        lemma_mod_breakdown(x, b, pow(b, (n - 1) as nat));
    }
}

/// Digits in range that spell out `x` are the digits of `x`: the
/// decomposition is unique.
pub proof fn lemma_digits_unique(ds: Seq<int>, x: int, b: int)
    requires
        b > 1,
        all_digits(ds, b),
        weighted(ds, b) == x,
    ensures
        ds =~= digits(x, b, ds.len()),
    decreases ds.len(),
{
    if ds.len() > 0 {
        let rest = ds.drop_first();
        assert(all_digits(rest, b)) by {
            assert forall|i: int| 0 <= i < rest.len() implies 0 <= #[trigger] rest[i] < b by {
                assert(rest[i] == ds[i + 1]);
            }
        }
        lemma_weighted_nonneg(rest, b);
        let w = weighted(rest, b);
        assert(ds[0] == 0 || ds[0] != 0);
        assert(0 <= ds[0] < b);
        lemma_mul_is_commutative(b, w);
        lemma_fundamental_div_mod_converse(x, b, w, ds[0]);
        lemma_digits_unique(rest, w, b);
    }
}

/// Digits in range spell out a nonnegative number.
pub proof fn lemma_weighted_nonneg(ds: Seq<int>, b: int)
    requires
        b > 1,
        all_digits(ds, b),
    ensures
        weighted(ds, b) >= 0,
    decreases ds.len(),
{
    if ds.len() > 0 {
        let rest = ds.drop_first();
        assert(all_digits(rest, b)) by {
            assert forall|i: int| 0 <= i < rest.len() implies 0 <= #[trigger] rest[i] < b by {
                assert(rest[i] == ds[i + 1]);
            }
        }
        lemma_weighted_nonneg(rest, b);
        assert(ds[0] >= 0);
        lemma_mul_nonnegative(b, weighted(rest, b));
    }
}

/// 2 to the power 64.
pub open spec fn two64() -> int {
    0x1_0000_0000_0000_0000int
}

/// An element of the field, held as four little-endian 64-bit limbs.
#[derive(Clone, Copy, Debug, PartialEq, Eq, Structural)]
pub struct FieldValue {
    pub l0: u64,
    pub l1: u64,
    pub l2: u64,
    pub l3: u64,
}

impl FieldValue {
    /// The integer that the limbs spell out.
    pub open spec fn value(self) -> int {
        self.l0 as int + self.l1 as int * two64() + self.l2 as int * two64() * two64()
            + self.l3 as int * two64() * two64() * two64()
    }

    /// A canonical representative: strictly below the modulus.
    pub open spec fn wf(self) -> bool {
        self.value() < modulus()
    }

    /// The field value of a 64-bit integer.
    pub fn from_u64(v: u64) -> (r: FieldValue)
        ensures
            r.value() == v as int,
            r.wf(),
            r == fv_u64(v),
    {
        FieldValue { l0: v, l1: 0, l2: 0, l3: 0 }
    }

    /// The field value of a boolean: one for true, zero for false.
    pub fn from_bool(b: bool) -> (r: FieldValue)
        ensures
            r.value() == (if b { 1int } else { 0int }),
            r.wf(),
    {
        FieldValue { l0: if b { 1 } else { 0 }, l1: 0, l2: 0, l3: 0 }
    }
}

/// Calls `invert` of `halo2_proofs::arithmetic::Field` on the Pallas base
/// field element of `v`, and `unwrap_or` with zero on the `CtOption` that
/// comes back; the result is read out with `PrimeField::to_repr`, which
/// gives the canonical little-endian bytes. The contract claims what the
/// documentation of `invert` says: the inverse of a nonzero element, and no
/// inverse (hence zero here) for zero.
#[verifier::external_body]
pub fn invert_or_zero(v: u64) -> (r: FieldValue)
    ensures
        r.wf(),
        v == 0 ==> r.value() == 0,
        v != 0 ==> (v as int * r.value()) % modulus() == 1,
{
    let inv = Field::invert(&Fp::from(v)).unwrap_or(Fp::zero());
    let bytes = PrimeField::to_repr(&inv);
    FieldValue {
        l0: u64::from_le_bytes(bytes[0..8].try_into().unwrap()),
        l1: u64::from_le_bytes(bytes[8..16].try_into().unwrap()),
        l2: u64::from_le_bytes(bytes[16..24].try_into().unwrap()),
        l3: u64::from_le_bytes(bytes[24..32].try_into().unwrap()),
    }
}

/// Calls `Mul` of the Pallas base field `halo2_proofs::pasta::Fp` on the
/// elements that `Fp::from_raw` gives for the operands' limbs (documented
/// as the congruent element), and reads the product back with
/// `PrimeField::to_repr` (the canonical little-endian bytes). The contract
/// claims the product modulo the field's modulus.
#[verifier::external_body]
pub fn field_mul(a: FieldValue, b: FieldValue) -> (r: FieldValue)
    ensures
        r.wf(),
        r.value() == (a.value() * b.value()) % modulus(),
{
    let p = Fp::from_raw([a.l0, a.l1, a.l2, a.l3]) * Fp::from_raw([b.l0, b.l1, b.l2, b.l3]);
    let bytes = PrimeField::to_repr(&p);
    FieldValue {
        l0: u64::from_le_bytes(bytes[0..8].try_into().unwrap()),
        l1: u64::from_le_bytes(bytes[8..16].try_into().unwrap()),
        l2: u64::from_le_bytes(bytes[16..24].try_into().unwrap()),
        l3: u64::from_le_bytes(bytes[24..32].try_into().unwrap()),
    }
}

/// Calls `Sub` of `halo2_proofs::pasta::Fp` on the elements that
/// `Fp::from_raw` gives for the operands' limbs, and reads the difference
/// back with `PrimeField::to_repr`. The contract claims the difference
/// modulo the field's modulus.
#[verifier::external_body]
pub fn field_sub(a: FieldValue, b: FieldValue) -> (r: FieldValue)
    ensures
        r.wf(),
        r.value() == (a.value() - b.value()) % modulus(),
{
    let d = Fp::from_raw([a.l0, a.l1, a.l2, a.l3]) - Fp::from_raw([b.l0, b.l1, b.l2, b.l3]);
    let bytes = PrimeField::to_repr(&d);
    FieldValue {
        l0: u64::from_le_bytes(bytes[0..8].try_into().unwrap()),
        l1: u64::from_le_bytes(bytes[8..16].try_into().unwrap()),
        l2: u64::from_le_bytes(bytes[16..24].try_into().unwrap()),
        l3: u64::from_le_bytes(bytes[24..32].try_into().unwrap()),
    }
}

impl FieldValue {
    /// Whether the value is zero.
    pub fn is_zero(&self) -> (b: bool)
        ensures
            b == (self.value() == 0),
    {
        self.l0 == 0 && self.l1 == 0 && self.l2 == 0 && self.l3 == 0
    }
}

/// The field value that `FieldValue::from_u64` gives for `v`.
pub open spec fn fv_u64(v: u64) -> FieldValue {
    FieldValue { l0: v, l1: 0, l2: 0, l3: 0 }
}

/// The field value that `FieldValue::from_bool` gives for `b`.
pub open spec fn fv_bool(b: bool) -> FieldValue {
    FieldValue { l0: if b { 1 } else { 0 }, l1: 0, l2: 0, l3: 0 }
}

/// One assignment of a value to an advice cell of a region.
#[derive(Clone, Copy, Debug, PartialEq, Eq, Structural)]
pub struct CellWrite {
    pub col: usize,
    pub row: usize,
    pub value: FieldValue,
}

/// The assignment context of a region: the row at which the current step
/// starts, and every cell assignment made so far, in order.
pub struct Context {
    pub offset: usize,
    pub writes: Vec<CellWrite>,
}

impl Context {
    /// A context at the first row, with nothing assigned.
    pub fn new() -> (r: Context)
        ensures
            r.offset == 0,
            r.writes@.len() == 0,
    {
        Context { offset: 0, writes: Vec::new() }
    }

    /// Moves to the next row.
    pub fn next(&mut self)
        requires
            old(self).offset < usize::MAX,
        ensures
            final(self).offset == old(self).offset + 1,
            final(self).writes@ == old(self).writes@,
    {
        self.offset = self.offset + 1;
    }

    /// Moves back to the first row.
    pub fn reset(&mut self)
        ensures
            final(self).offset == 0,
            final(self).writes@ == old(self).writes@,
    {
        self.offset = 0;
    }

    /// Assigns `value` to the cell of column `col` at row `row`.
    pub fn assign_advice(&mut self, col: usize, row: usize, value: FieldValue)
        ensures
            final(self).offset == old(self).offset,
            final(self).writes@ == old(self).writes@.push(CellWrite { col, row, value }),
    {
        self.writes.push(CellWrite { col, row, value });
    }
}

} // verus!
