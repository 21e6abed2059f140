//! Prime-field arithmetic for the protocol's scalar field.
//!
//! Every circuit value, challenge and polynomial coefficient is a residue
//! modulo `P = 15 * 2^27 + 1`, a prime whose multiplicative group contains a
//! subgroup of order `2^27`, so every power-of-two evaluation domain up to
//! that size exists. A field element is carried as a `u64` below `P`; the
//! mathematical model of each operation is plain integer arithmetic mod `P`.
use vstd::prelude::*;
use vstd::arithmetic::div_mod::{
    lemma_add_mod_noop, lemma_mod_bound, lemma_mul_mod_noop_general, lemma_small_mod,
};

verus! {

/// The field modulus: `15 * 2^27 + 1`, prime.
pub const P: u64 = 2013265921;

/// A multiplicative generator of the field: its order is `P - 1`.
pub const MULT_GEN: u64 = 31;

/// An element of multiplicative order exactly `2^27`; repeated squaring of
/// it yields a generator for every power-of-two subgroup up to that size.
pub const TWO_ADIC_ROOT: u64 = 440564289;

/// The largest `k` with a subgroup of order `2^k`: `P - 1 = 15 * 2^27`.
pub const TWO_ADICITY: u64 = 27;

/// A `u64` is a field element when it is a reduced residue.
pub open spec fn is_felt(x: u64) -> bool {
    x < P
}

/// Addition in the field.
pub open spec fn fadd(a: int, b: int) -> int {
    (a + b) % (P as int)
}

/// Subtraction in the field, stated over reduced residues so the
/// left operand of `%` stays nonnegative.
pub open spec fn fsub(a: int, b: int) -> int {
    (a + P - b) % (P as int)
}

/// Negation in the field.
pub open spec fn fneg(a: int) -> int {
    (P - a) % (P as int)
}

/// Multiplication in the field.
pub open spec fn fmul(a: int, b: int) -> int {
    (a * b) % (P as int)
}

/// Exponentiation in the field, as iterated reduced multiplication.
pub open spec fn fpow(b: int, e: nat) -> int
    decreases e,
{
    if e == 0 {
        1
    } else {
        fmul(b, fpow(b, (e - 1) as nat))
    }
}

/// The multiplicative inverse as a formula: the `(P - 2)`-th power. For a
/// nonzero residue this is the inverse by Fermat's little theorem; the
/// executable code never relies on that theorem but checks the product.
pub open spec fn finv(a: int) -> int {
    fpow(a, (P - 2) as nat)
}

/// The run-time inverse check passes: the candidate inverse really
/// multiplies to one. On a prime modulus this holds of every nonzero
/// residue, but nothing here assumes that theorem; the predicate is
/// exactly what `fp_inv` computes.
pub open spec fn inv_ok(a: int) -> bool {
    a != 0 && fmul(a, finv(a)) == 1
}

/// Reduced multiplication never leaves the field.
pub proof fn lemma_fmul_bound(a: int, b: int)
    ensures
        0 <= fmul(a, b) < P,
{
    lemma_mod_bound(a * b, P as int);
}

/// Powers are reduced residues.
pub proof fn lemma_fpow_bound(b: int, e: nat)
    ensures
        0 <= fpow(b, e) < P,
    decreases e,
{
    if e == 0 {
    } else {
        lemma_fpow_bound(b, (e - 1) as nat);
        lemma_fmul_bound(b, fpow(b, (e - 1) as nat));
    }
}

/// Multiplication commutes with prior reduction of either operand.
pub proof fn lemma_fmul_reduce(a: int, b: int)
    ensures
        fmul(a % (P as int), b) == fmul(a, b),
        fmul(a, b % (P as int)) == fmul(a, b),
{
    lemma_mul_mod_noop_general(a, b, P as int);
}

/// Associativity of field multiplication.
pub proof fn lemma_fmul_assoc(a: int, b: int, c: int)
    ensures
        fmul(fmul(a, b), c) == fmul(a, fmul(b, c)),
{
    lemma_mul_mod_noop_general(a * b, c, P as int);
    lemma_mul_mod_noop_general(a, b * c, P as int);
    assert((a * b) * c == a * (b * c)) by (nonlinear_arith);
}

/// Splitting an exponent sum into a product of powers.
pub proof fn lemma_fpow_adds(b: int, m: nat, n: nat)
    ensures
        fpow(b, m + n) == fmul(fpow(b, m), fpow(b, n)),
    decreases m,
{
    lemma_fpow_bound(b, n);
    if m == 0 {
        lemma_small_mod(fpow(b, n) as nat, P as nat);
        assert(fmul(1, fpow(b, n)) == fpow(b, n) % (P as int));
    } else {
        lemma_fpow_adds(b, (m - 1) as nat, n);
        assert(fpow(b, m + n) == fmul(b, fmul(fpow(b, (m - 1) as nat), fpow(b, n))));
        lemma_fmul_assoc(b, fpow(b, (m - 1) as nat), fpow(b, n));
    }
}

/// Squaring the base halves the exponent.
pub proof fn lemma_fpow_square(b: int, k: nat)
    ensures
        fpow(fmul(b, b), k) == fpow(b, 2 * k),
    decreases k,
{
    if k == 0 {
    } else {
        lemma_fpow_square(b, (k - 1) as nat);
        assert(fpow(fmul(b, b), k) == fmul(fmul(b, b), fpow(b, (2 * k - 2) as nat)));
        lemma_fpow_adds(b, 1, (2 * k - 2) as nat);
        lemma_fpow_adds(b, 1, (2 * k - 1) as nat);
        assert(fpow(b, 0) == 1);
        assert(fpow(b, 1) == fmul(b, fpow(b, 0)));
        lemma_fmul_reduce(b, 1);
        lemma_small_mod(1, P as nat);
        assert(fpow(b, 1) == b % (P as int)) by {
            assert(fmul(b, 1) == (b * 1) % (P as int));
        }
        lemma_fmul_reduce(b, fpow(b, (2 * k - 2) as nat));
        lemma_fmul_assoc(b, b, fpow(b, (2 * k - 2) as nat));
        lemma_fmul_reduce(b, fpow(b, (2 * k - 1) as nat));
    }
}

/// Field addition of reduced residues.
pub fn fp_add(a: u64, b: u64) -> (r: u64)
    requires
        is_felt(a),
        is_felt(b),
    ensures
        is_felt(r),
        r == fadd(a as int, b as int),
{
    let s: u64 = a + b;
    proof {
        if s >= P {
            lemma_small_mod((s - P) as nat, P as nat);
            assert((s as int) % (P as int) == (s - P) as int % (P as int)) by {
                lemma_add_mod_noop(s - P, P as int, P as int);
                assert((P as int) % (P as int) == 0);
                lemma_small_mod(((s - P) as int % (P as int)) as nat, P as nat);
            }
        } else {
            lemma_small_mod(s as nat, P as nat);
        }
    }
    if s >= P {
        s - P
    } else {
        s
    }
}

/// Field subtraction of reduced residues.
pub fn fp_sub(a: u64, b: u64) -> (r: u64)
    requires
        is_felt(a),
        is_felt(b),
    ensures
        is_felt(r),
        r == fsub(a as int, b as int),
{
    let s: u64 = a + P - b;
    proof {
        if s >= P {
            lemma_small_mod((s - P) as nat, P as nat);
            assert((s as int) % (P as int) == (s - P) as int % (P as int)) by {
                lemma_add_mod_noop(s - P, P as int, P as int);
                assert((P as int) % (P as int) == 0);
                lemma_small_mod(((s - P) as int % (P as int)) as nat, P as nat);
            }
        } else {
            lemma_small_mod(s as nat, P as nat);
        }
    }
    if s >= P {
        s - P
    } else {
        s
    }
}

/// Field negation of a reduced residue.
pub fn fp_neg(a: u64) -> (r: u64)
    requires
        is_felt(a),
    ensures
        is_felt(r),
        r == fneg(a as int),
{
    if a == 0 {
        proof {
            assert((P as int) % (P as int) == 0) by {
                lemma_add_mod_noop(0, P as int, P as int);
                lemma_small_mod(0, P as nat);
            }
        }
        0
    } else {
        proof {
            lemma_small_mod((P - a) as nat, P as nat);
        }
        P - a
    }
}

/// Field multiplication of reduced residues; the `u64` product of two
/// values below `P < 2^31` cannot overflow.
pub fn fp_mul(a: u64, b: u64) -> (r: u64)
    requires
        is_felt(a),
        is_felt(b),
    ensures
        is_felt(r),
        r == fmul(a as int, b as int),
{
    proof {
        assert((a as int) * (b as int) <= (P - 1) * (P - 1)) by (nonlinear_arith)
            requires
                a < P,
                b < P,
        ;
        lemma_mod_bound((a as int) * (b as int), P as int);
    }
    (a * b) % P
}

/// Reduces an arbitrary machine word into the field.
pub fn fp_reduce(x: u64) -> (r: u64)
    ensures
        is_felt(r),
        r == (x as int) % (P as int),
{
    proof {
        lemma_mod_bound(x as int, P as int);
    }
    x % P
}

/// Square-and-multiply exponentiation in the field.
pub fn fp_pow(base: u64, e: u64) -> (r: u64)
    requires
        is_felt(base),
    ensures
        is_felt(r),
        r == fpow(base as int, e as nat),
{
    let mut acc: u64 = 1;
    let mut b: u64 = base;
    let mut k: u64 = e;
    proof {
        lemma_fpow_bound(base as int, e as nat);
    }
    while k > 0
        invariant
            is_felt(acc),
            is_felt(b),
            fmul(acc as int, fpow(b as int, k as nat)) == fpow(base as int, e as nat),
        decreases k,
    {
        if k % 2 == 1 {
            proof {
                lemma_fpow_adds(b as int, 1, (k - 1) as nat);
                assert(fpow(b as int, 0) == 1);
                assert(fpow(b as int, 1) == fmul(b as int, fpow(b as int, 0)));
                lemma_fmul_reduce(b as int, 1);
                lemma_small_mod(b as nat, P as nat);
                assert(fpow(b as int, 1) == b as int);
                lemma_fmul_assoc(acc as int, b as int, fpow(b as int, (k - 1) as nat));
                lemma_fpow_square(b as int, ((k - 1) / 2) as nat);
                lemma_fmul_reduce(fmul(acc as int, b as int), fpow(b as int, (k - 1) as nat));
            }
            acc = fp_mul(acc, b);
            proof {
                lemma_fmul_reduce(acc as int, fpow((b * b) as int % (P as int), ((k - 1) / 2) as nat));
            }
            let ghost old_b: u64 = b;
            b = fp_mul(b, b);
            proof {
                assert(fpow(b as int, ((k - 1) / 2) as nat) == fpow(old_b as int, (k - 1) as nat));
            }
            k = (k - 1) / 2;
        } else {
            proof {
                lemma_fpow_square(b as int, (k / 2) as nat);
            }
            let ghost old_b: u64 = b;
            b = fp_mul(b, b);
            proof {
                assert(fpow(b as int, (k / 2) as nat) == fpow(old_b as int, k as nat));
            }
            k = k / 2;
        }
    }
    proof {
        assert(fpow(b as int, 0) == 1);
        lemma_small_mod(acc as nat, P as nat);
        assert(fmul(acc as int, 1) == acc as int);
    }
    acc
}

/// Multiplicative inverse, computed by exponentiation with `P - 2` and then
/// checked by an actual multiplication; `None` for zero. That the check
/// always succeeds on a nonzero residue is a fact of field theory outside
/// this arithmetic model, so callers treat `None` as an error path.
pub fn fp_inv(a: u64) -> (r: Option<u64>)
    requires
        is_felt(a),
    ensures
        r is Some <==> inv_ok(a as int),
        r matches Some(c) ==> is_felt(c) && c == finv(a as int) && fmul(a as int, c as int) == 1,
{
    if a == 0 {
        None
    } else {
        let c: u64 = fp_pow(a, P - 2);
        if fp_mul(a, c) == 1 {
            Some(c)
        } else {
            None
        }
    }
}

} // verus!
