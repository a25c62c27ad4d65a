//! Integer helpers of the function library.

use vstd::arithmetic::div_mod::{
    lemma_div_multiples_vanish, lemma_fundamental_div_mod, lemma_mod_multiples_basic,
};
use vstd::arithmetic::mul::lemma_mul_is_distributive_add;
use vstd::prelude::*;

verus! {

/// Greatest common divisor by Euclid's algorithm, with `gcd(a, 0) == a`.
pub open spec fn gcd_spec(a: nat, b: nat) -> nat
    decreases b,
{
    if b == 0 {
        a
    } else {
        gcd_spec(b, a % b)
    }
}

/// Greatest common divisor of two unsigned integers.
pub fn gcd(a: u64, b: u64) -> (r: u64)
    ensures
        r == gcd_spec(a as nat, b as nat),
{
    let mut x: u64 = a;
    let mut y: u64 = b;
    while y != 0
        invariant
            gcd_spec(x as nat, y as nat) == gcd_spec(a as nat, b as nat),
        decreases y,
    {
        let t: u64 = y;
        y = x % y;
        x = t;
    }
    x
}

/// Least common multiple, with the convention that it is 0 when either
/// argument is 0.
pub open spec fn lcm_spec(a: nat, b: nat) -> nat {
    if a == 0 || b == 0 {
        0
    } else {
        (a * b) / gcd_spec(a, b)
    }
}

/// The greatest common divisor of two numbers that are not both 0 is
/// positive and divides both.
pub proof fn lemma_gcd_divides(a: nat, b: nat)
    requires
        a > 0 || b > 0,
    ensures
        gcd_spec(a, b) > 0,
        a % gcd_spec(a, b) == 0,
        b % gcd_spec(a, b) == 0,
    decreases b,
{
    if b == 0 {
        lemma_mod_multiples_basic(1, a as int);
        lemma_mod_multiples_basic(0, a as int);
    } else {
        let r = a % b;
        lemma_gcd_divides(b, r);
        let g = gcd_spec(b, r);
        assert(gcd_spec(a, b) == g);
        let q = a / b;
        let m = b / g;
        let n = r / g;
        lemma_fundamental_div_mod(a as int, b as int);
        lemma_fundamental_div_mod(b as int, g as int);
        lemma_fundamental_div_mod(r as int, g as int);
        assert(b == g * m);
        assert(r == g * n);
        assert(a == b * q + r);
        assert(a == (g * m) * q + g * n);
        assert((g * m) * q == g * (m * q)) by (nonlinear_arith);
        lemma_mul_is_distributive_add(g as int, (m * q) as int, n as int);
        assert(a == (m * q + n) * g) by (nonlinear_arith)
            requires
                a == g * (m * q) + g * n,
                g * (m * q + n) == g * (m * q) + g * n,
        ;
        lemma_mod_multiples_basic((m * q + n) as int, g as int);
    }
}

/// Least common multiple of two unsigned integers; 0 when either is 0.
pub fn lcm(a: u64, b: u64) -> (r: u64)
    requires
        lcm_spec(a as nat, b as nat) <= u64::MAX,
    ensures
        r == lcm_spec(a as nat, b as nat),
{
    if a == 0 || b == 0 {
        0
    } else {
        let g = gcd(a, b);
        proof {
            lemma_gcd_divides(a as nat, b as nat);
            let k = a / g;
            lemma_fundamental_div_mod(a as int, g as int);
            assert(a == g * k);
            assert(a * b == g * (k * b)) by (nonlinear_arith)
                requires
                    a == g * k,
            ;
            lemma_div_multiples_vanish((k * b) as int, g as int);
            assert(k * b <= u64::MAX);
        }
        (a / g) * b
    }
}

/// A random integer between `a` and `b`, both included.
///
/// Relies on `rand::rng` and `rand::Rng::random_range` over `a..=b`, which
/// draws from that range and panics when it is empty.
#[verifier::external_body]
pub fn randint(a: i64, b: i64) -> (r: i64)
    requires
        a <= b,
    ensures
        a <= r <= b,
{
    rand::Rng::random_range(&mut rand::rng(), a..=b)
}

} // verus!
