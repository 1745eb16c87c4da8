//! Powers modulo a number: the facts that the proof engine rests on.

use vstd::prelude::*;
use vstd::arithmetic::power::*;
use vstd::arithmetic::div_mod::*;
use vstd::arithmetic::mul::*;

verus! {

/// Two integers are congruent when they leave the same remainder.
pub open spec fn congruent(a: int, b: int, m: int) -> bool {
    a % m == b % m
}

/// The power of a product of the exponent's period is congruent to one:
/// if `b^q = 1 (mod m)` then `b^(q*n) = 1 (mod m)`.
pub proof fn lemma_pow_period(b: int, q: nat, n: nat, m: int)
    requires
        m > 0,
        pow(b, q) % m == 1,
    ensures
        q * n >= 0,
        pow(b, (q * n) as nat) % m == 1,
{
    lemma_pow_multiplies(b, q, n);
    lemma_pow_mod_noop(pow(b, q), n, m);
    lemma1_pow(n);
    assert(m > 1) by {
        if m == 1 {
            assert(pow(b, q) % 1 == 0);
        }
    }
    assert(pow(pow(b, q), n) % m == pow(1, n) % m);
    lemma_small_mod(1, m as nat);
}

/// Raising the exponent by a multiple of the period leaves the power's
/// remainder unchanged.
pub proof fn lemma_pow_add_period(b: int, e: nat, q: nat, n: nat, m: int)
    requires
        m > 0,
        pow(b, q) % m == 1,
    ensures
        q * n >= 0,
        pow(b, (e + q * n) as nat) % m == pow(b, e) % m,
{
    lemma_pow_period(b, q, n, m);
    let t = (q * n) as nat;
    lemma_pow_adds(b, e, t);
    lemma_mul_mod_noop_general(pow(b, e), pow(b, t), m);
    assert(pow(b, e) * 1 == pow(b, e));
}

/// Exponents that are congruent modulo the period give congruent powers.
pub proof fn lemma_pow_congruent_exponents(b: int, e1: nat, e2: nat, q: nat, m: int)
    requires
        m > 0,
        q > 0,
        pow(b, q) % m == 1,
        congruent(e1 as int, e2 as int, q as int),
    ensures
        congruent(pow(b, e1), pow(b, e2), m),
{
    lemma_fundamental_div_mod(e1 as int, q as int);
    lemma_fundamental_div_mod(e2 as int, q as int);
    let d1 = e1 as int / q as int;
    let d2 = e2 as int / q as int;
    let r = (e1 as int % q as int) as nat;
    lemma_div_pos_is_pos(e1 as int, q as int);
    lemma_div_pos_is_pos(e2 as int, q as int);
    lemma_mul_is_commutative(q as int, d1);
    lemma_mul_is_commutative(q as int, d2);
    lemma_pow_add_period(b, r, q, d1 as nat, m);
    lemma_pow_add_period(b, r, q, d2 as nat, m);
    assert(e1 == r + q * (d1 as nat));
    assert(e2 == r + q * (d2 as nat));
}

/// `q` is the order of `b` modulo `m`: the least exponent above zero whose
/// power of `b` is congruent to one.
pub open spec fn has_order(b: int, q: nat, m: int) -> bool {
    &&& q > 0
    &&& pow(b, q) % m == 1
    &&& forall|d: nat| 0 < d < q ==> #[trigger] pow(b, d) % m != 1
}

/// The exponents whose power is congruent to one are closed under taking
/// remainders: if `b^a = 1` and `b^d = 1 (mod m)` then `b^(a mod d) = 1`.
pub proof fn lemma_pow_one_remainder(b: int, a: nat, d: nat, m: int)
    requires
        m > 0,
        d > 0,
        pow(b, a) % m == 1,
        pow(b, d) % m == 1,
    ensures
        pow(b, (a as int % d as int) as nat) % m == 1,
{
    lemma_fundamental_div_mod(a as int, d as int);
    lemma_mod_bound(a as int, d as int);
    lemma_div_pos_is_pos(a as int, d as int);
    let r = (a as int % d as int) as nat;
    let n = (a as int / d as int) as nat;
    lemma_pow_add_period(b, r, d, n, m);
    assert(a == r + d * n);
}

/// Congruent powers can be cancelled: if `b^e1` and `b^e2` are congruent and
/// `e1 >= e2`, then `b^(e1 - e2)` is congruent to one.
pub proof fn lemma_pow_congruent_difference(b: int, e1: nat, e2: nat, q: nat, m: int)
    requires
        m > 0,
        q > 0,
        pow(b, q) % m == 1,
        e1 >= e2,
        congruent(pow(b, e1), pow(b, e2), m),
    ensures
        pow(b, (e1 - e2) as nat) % m == 1,
{
    let d = (e1 - e2) as nat;
    // e2 + t is a multiple of q.
    lemma_mul_nonnegative(e2 as int, q as int - 1);
    let t = (e2 * (q - 1)) as nat;
    assert(e2 + t == q * e2) by {
        lemma_mul_is_distributive_sub(e2 as int, q as int, 1);
        lemma_mul_is_commutative(e2 as int, q as int);
    }
    lemma_pow_period(b, q, e2, m);
    // b^(e1 + t) is congruent to b^(e2 + t), which is congruent to one.
    lemma_pow_adds(b, e1, t);
    lemma_pow_adds(b, e2, t);
    lemma_mul_mod_noop_left(pow(b, e1), pow(b, t), m);
    lemma_mul_mod_noop_left(pow(b, e2), pow(b, t), m);
    assert(pow(b, e1 + t) % m == 1);
    // b^(e1 + t) is b^d times b^(e2 + t).
    lemma_pow_adds(b, d, e2 + t);
    lemma_mul_mod_noop_right(pow(b, d), pow(b, e2 + t), m);
    assert(pow(b, d) * 1 == pow(b, d));
    assert(d + (e2 + t) == e1 + t);
}

/// For a base of order `q`, congruent powers have exponents that are
/// congruent modulo `q`.
pub proof fn lemma_congruent_powers_have_congruent_exponents(
    b: int,
    e1: nat,
    e2: nat,
    q: nat,
    m: int,
)
    requires
        m > 0,
        has_order(b, q, m),
        congruent(pow(b, e1), pow(b, e2), m),
    ensures
        congruent(e1 as int, e2 as int, q as int),
{
    let (high, low) = if e1 >= e2 {
        (e1, e2)
    } else {
        (e2, e1)
    };
    lemma_pow_congruent_difference(b, high, low, q, m);
    let d = (high - low) as nat;
    let r = (d as int % q as int) as nat;
    lemma_mod_bound(d as int, q as int);
    lemma_mod_twice(d as int, q as int);
    lemma_pow_congruent_exponents(b, r, d, q, m);
    assert(pow(b, r) % m == 1);
    assert(r == 0);
    lemma_mod_equivalence(high as int, low as int, q as int);
}

/// A number above one that no number between one and itself divides.
pub open spec fn is_prime(n: nat) -> bool {
    &&& n > 1
    &&& forall|d: nat| 1 < d < n ==> #[trigger] (n % d) != 0
}

/// A number strictly between two consecutive multiples of `d` is no
/// multiple of `d`.
pub proof fn lemma_between_multiples(d: nat, k: nat, below: nat, n: nat)
    by (nonlinear_arith)
    requires
        d * below < n,
        n < d * (below + 1),
    ensures
        d * k != n,
{
    if k <= below {
        assert(d * k <= d * below);
    } else {
        assert(d * k >= d * (below + 1));
    }
}

/// A number is prime if no number from two up to a bound is a factor of it,
/// where the square of the next number after the bound exceeds it.
pub proof fn lemma_prime_by_small_factors(n: nat, bound: nat)
    requires
        n > 1,
        (bound + 1) * (bound + 1) > n,
        forall|x: nat, y: nat| 1 < x <= bound ==> #[trigger] (x * y) != n,
    ensures
        is_prime(n),
{
    assert forall|d: nat| 1 < d < n implies #[trigger] (n % d) != 0 by {
        if n % d == 0 {
            lemma_fundamental_div_mod(n as int, d as int);
            lemma_div_pos_is_pos(n as int, d as int);
            let k = (n as int / d as int) as nat;
            assert(d * k == n);
            if d > bound {
                assert(k > 1) by (nonlinear_arith)
                    requires
                        d * k == n,
                        1 < d < n,
                ;
                lemma_mul_is_commutative(d as int, k as int);
                assert(k * d == n);
                assert(d * k >= (bound + 1) * (bound + 1)) by (nonlinear_arith)
                    requires
                        d >= bound + 1,
                        k >= bound + 1,
                ;
            }
        }
    }
}

/// Below a prime `q`, no exponent above zero gives a power congruent to
/// one, for a base that is itself not congruent to one and whose power at
/// `q` is.
proof fn lemma_no_smaller_exponent(b: int, q: nat, d: nat, m: int)
    requires
        m > 0,
        is_prime(q),
        pow(b, q) % m == 1,
        b % m != 1,
        0 < d < q,
    ensures
        pow(b, d) % m != 1,
    decreases d,
{
    if pow(b, d) % m == 1 {
        if d == 1 {
            lemma_pow1(b);
        } else {
            let r = (q as int % d as int) as nat;
            lemma_mod_bound(q as int, d as int);
            assert(q % d != 0);
            lemma_pow_one_remainder(b, q, d, m);
            lemma_no_smaller_exponent(b, q, r, m);
        }
    }
}

/// A base that is not congruent to one and whose power at a prime `q` is
/// congruent to one has order exactly `q`.
pub proof fn lemma_prime_order(b: int, q: nat, m: int)
    requires
        m > 0,
        is_prime(q),
        pow(b, q) % m == 1,
        b % m != 1,
    ensures
        has_order(b, q, m),
{
    assert forall|d: nat| 0 < d < q implies #[trigger] pow(b, d) % m != 1 by {
        lemma_no_smaller_exponent(b, q, d, m);
    }
}

/// A prime that divides a product with a factor below it divides the other
/// factor.
pub proof fn lemma_prime_divides_product(q: nat, c: nat, a: int)
    requires
        is_prime(q),
        0 < c < q,
        (c * a) % (q as int) == 0,
    ensures
        a % (q as int) == 0,
    decreases c,
{
    if c == 1 {
        assert(c * a == a) by (nonlinear_arith)
            requires
                c == 1,
        ;
    } else {
        let r = (q as int % c as int) as nat;
        let k = q as int / c as int;
        let j = (c * a) / (q as int);
        lemma_mod_bound(q as int, c as int);
        assert(q % c != 0);
        lemma_fundamental_div_mod(q as int, c as int);
        lemma_fundamental_div_mod(c * a, q as int);
        assert(r * a == (a - k * j) * q) by (nonlinear_arith)
            requires
                q == c * k + r,
                c * a == q * j,
        ;
        lemma_mod_multiples_basic(a - k * j, q as int);
        lemma_prime_divides_product(q, r, a);
    }
}

/// The remainder of a squared power, from the remainder of the power.
pub proof fn lemma_pow_mod_double(b: int, e: nat, m: int)
    requires
        m > 0,
    ensures
        pow(b, 2 * e) % m == ((pow(b, e) % m) * (pow(b, e) % m)) % m,
{
    lemma_pow_adds(b, e, e);
    lemma_mul_mod_noop(pow(b, e), pow(b, e), m);
}

/// The remainder of the next power, from the remainder of the power.
pub proof fn lemma_pow_mod_succ(b: int, e: nat, m: int)
    requires
        m > 0,
    ensures
        pow(b, e + 1) % m == ((pow(b, e) % m) * b) % m,
{
    lemma_pow_adds(b, e, 1);
    lemma_pow1(b);
    lemma_mul_mod_noop_left(pow(b, e), b, m);
}

} // verus!
