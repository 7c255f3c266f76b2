//! Arithmetic modulo a prime.
//!
//! Field elements are modelled by their canonical representatives, the
//! integers `0..p`, and field operations by integer operations followed by a
//! reduction modulo `p`.  The one fact about primes that the gadget rests on
//! is Euclid's lemma: a product vanishes modulo `p` only if a factor does.

use vstd::arithmetic::div_mod::*;
use vstd::prelude::*;

verus! {

/// `p` is a prime number.
pub open spec fn is_prime(p: int) -> bool {
    &&& p >= 2
    &&& forall|d: int| 1 < d < p ==> #[trigger] (p % d) != 0
}

/// `v` is the canonical representative of an element of the field of order `p`.
pub open spec fn is_canonical(v: int, p: int) -> bool {
    0 <= v < p
}

/// A multiple of `p` leaves no remainder.
proof fn lemma_multiple_vanishes(p: int, k: int)
    requires
        p > 0,
    ensures
        (p * k) % p == 0,
{
    lemma_mod_multiples_basic(k, p);
    assert(p * k == k * p) by (nonlinear_arith);
}

/// A number that leaves no remainder is a multiple of `p`.
proof fn lemma_vanishing_is_multiple(p: int, x: int)
    requires
        p > 0,
        x % p == 0,
    ensures
        x == p * (x / p),
{
    lemma_fundamental_div_mod(x, p);
}

/// The descent behind Euclid's lemma: if `r * b` is a multiple of the prime
/// `p` and `0 < r < p`, then so is `(p % r) * b`, and `p % r` is smaller
/// than `r` and still positive until `r` reaches one.
proof fn lemma_descent(p: int, r: int, b: int)
    requires
        is_prime(p),
        0 < r < p,
        (r * b) % p == 0,
    ensures
        b % p == 0,
    decreases r,
{
    if r == 1 {
        assert(r * b == b) by (nonlinear_arith)
            requires
                r == 1,
        ;
    } else {
        let q = p / r;
        let s = p % r;
        assert(s != 0);
        lemma_mod_pos_bound(p, r);
        lemma_fundamental_div_mod(p, r);
        let k = (r * b) / p;
        lemma_vanishing_is_multiple(p, r * b);
        assert(s * b == p * (b - q * k)) by (nonlinear_arith)
            requires
                p == r * q + s,
                r * b == p * k,
        ;
        lemma_multiple_vanishes(p, b - q * k);
        lemma_descent(p, s, b);
    }
}

/// Euclid's lemma: a prime that divides a product divides one of its factors.
pub proof fn lemma_prime_divides_factor(p: int, a: int, b: int)
    requires
        is_prime(p),
        (a * b) % p == 0,
    ensures
        a % p == 0 || b % p == 0,
{
    let r = a % p;
    if r != 0 {
        lemma_mod_bound(a, p);
        lemma_mul_mod_noop_left(a, b, p);
        lemma_descent(p, r, b);
    }
}

/// A product with a factor that vanishes modulo `p` vanishes modulo `p`.
pub proof fn lemma_factor_vanishes(p: int, a: int, b: int)
    requires
        p > 0,
        a % p == 0 || b % p == 0,
    ensures
        (a * b) % p == 0,
{
    lemma_mul_mod_noop_general(a, b, p);
    if a % p == 0 {
        assert((a % p) * (b % p) == 0) by (nonlinear_arith)
            requires
                a % p == 0,
        ;
    } else {
        assert((a % p) * (b % p) == 0) by (nonlinear_arith)
            requires
                b % p == 0,
        ;
    }
    lemma_small_mod(0, p as nat);
}

/// Two canonical representatives differ by a multiple of `p` only if they
/// are equal.
pub proof fn lemma_difference_vanishes(p: int, a: int, b: int)
    requires
        is_canonical(a, p),
        is_canonical(b, p),
    ensures
        (a - b) % p == 0 <==> a == b,
{
    let d = a - b;
    if d > 0 {
        lemma_small_mod(d as nat, p as nat);
    } else if d < 0 {
        lemma_mod_add_multiples_vanish(d, p);
        lemma_small_mod((p + d) as nat, p as nat);
    } else {
        lemma_small_mod(0, p as nat);
    }
}

} // verus!
