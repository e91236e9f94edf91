//! Modular exponentiation, the arithmetic behind the key agreement.

use vstd::arithmetic::div_mod::{lemma_mul_mod_noop_general, lemma_small_mod};
use vstd::arithmetic::power::{
    lemma_pow0, lemma_pow_mod_noop, lemma_pow_multiplies, lemma_square_is_pow2, pow,
};
use vstd::prelude::*;

verus! {

/// `base` to the power `exponent`, reduced modulo `modulus`.
pub open spec fn pow_mod(base: int, exponent: nat, modulus: int) -> int {
    pow(base, exponent) % modulus
}

/// Splitting an exponent into its halves and its lowest bit:
/// `b^e == (b*b)^(e/2) * b^(e%2)`.
proof fn lemma_pow_halves(b: int, e: nat)
    ensures
        pow(b, e) == pow(b * b, e / 2) * (if e % 2 == 1 { b } else { 1 }),
{
    let q: nat = e / 2;
    lemma_square_is_pow2(b);
    lemma_pow_multiplies(b, 2, q);
    assert(pow(b * b, q) == pow(b, 2 * q));
    if e % 2 == 1 {
        assert(e == 2 * q + 1);
        assert(pow(b, e) == b * pow(b, (e - 1) as nat)) by {
            reveal(pow);
        }
        assert(b * pow(b, 2 * q) == pow(b, 2 * q) * b) by (nonlinear_arith);
    } else {
        assert(e == 2 * q);
    }
}

/// One round of square-and-multiply keeps `acc * b^e` unchanged modulo `m`.
proof fn lemma_square_and_multiply(acc: int, b: int, e: nat, m: int)
    requires
        m > 0,
        e > 0,
    ensures
        (acc * pow(b, e)) % m == ((if e % 2 == 1 {
            (acc * b) % m
        } else {
            acc
        }) * pow((b * b) % m, e / 2)) % m,
{
    let q: nat = e / 2;
    let f: int = if e % 2 == 1 { b } else { 1 };
    let p: int = pow(b * b, q);
    let next: int = if e % 2 == 1 { (acc * b) % m } else { acc };
    lemma_pow_halves(b, e);
    assert(acc * (p * f) == (acc * f) * p) by (nonlinear_arith);
    assert(acc * pow(b, e) == (acc * f) * p);
    lemma_mul_mod_noop_general(acc * f, p, m);
    lemma_pow_mod_noop(b * b, q, m);
    let pr: int = pow((b * b) % m, q);
    assert(p % m == pr % m);
    assert(((acc * f) * p) % m == (((acc * f) % m) * (p % m)) % m);
    lemma_mul_mod_noop_general(next, pr, m);
    assert((next * pr) % m == ((next % m) * (pr % m)) % m);
    if e % 2 == 1 {
        assert(next % m == (acc * f) % m) by {
            vstd::arithmetic::div_mod::lemma_mod_twice(acc * b, m);
        }
    } else {
        assert(acc * f == acc) by (nonlinear_arith)
            requires
                f == 1,
        ;
    }
}

/// Modular exponentiation commutes in its exponents: whoever raises the
/// other side's public value to its own private value arrives where the
/// other side does. It holds for every modulus above zero, prime or not,
/// and for all exponents.
pub proof fn lemma_shared_secret_agrees(g: int, a: nat, b: nat, p: int)
    requires
        p > 0,
    ensures
        pow_mod(pow_mod(g, a, p), b, p) == pow_mod(pow_mod(g, b, p), a, p),
{
    lemma_pow_mod_noop(pow(g, a), b, p);
    lemma_pow_mod_noop(pow(g, b), a, p);
    lemma_pow_multiplies(g, a, b);
    lemma_pow_multiplies(g, b, a);
    assert(a * b == b * a) by (nonlinear_arith);
}

/// Computes `base^exponent mod modulus` by square-and-multiply, in a number
/// of rounds logarithmic in `exponent`.
///
/// A modulus of zero has no remainder to offer and is left out by the
/// precondition. Intermediate products are formed in 32 bits, so every
/// 16-bit modulus is served.
pub fn mod_exp(base: u16, exponent: u16, modulus: u16) -> (result: u16)
    requires
        modulus > 0,
    ensures
        result as int == pow_mod(base as int, exponent as nat, modulus as int),
        result < modulus,
{
    let m: u32 = modulus as u32;
    let mut result: u32 = 1 % m;
    let mut b: u32 = (base as u32) % m;
    let mut exp: u16 = exponent;
    proof {
        lemma_pow_mod_noop(base as int, exponent as nat, m as int);
        lemma_mul_mod_noop_general(1, pow(b as int, exp as nat), m as int);
        assert(1 * pow(b as int, exp as nat) == pow(b as int, exp as nat));
    }
    while exp > 0
        invariant
            m == modulus,
            m > 0,
            result < m,
            b < m,
            (result as int * pow(b as int, exp as nat)) % (m as int) == pow_mod(
                base as int,
                exponent as nat,
                modulus as int,
            ),
        decreases exp,
    {
        proof {
            lemma_square_and_multiply(result as int, b as int, exp as nat, m as int);
            assert(result * b <= 0xffff * 0xffff) by (nonlinear_arith)
                requires
                    result <= 0xffff,
                    b <= 0xffff,
            ;
            assert(b * b <= 0xffff * 0xffff) by (nonlinear_arith)
                requires
                    b <= 0xffff,
            ;
        }
        if exp % 2 == 1 {
            result = (result * b) % m;
        }
        b = (b * b) % m;
        exp = exp / 2;
    }
    proof {
        lemma_pow0(b as int);
        lemma_small_mod(result as nat, m as nat);
    }
    result as u16
}

} // verus!
