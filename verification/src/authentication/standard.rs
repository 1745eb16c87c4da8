//! The standard group: its modulus and its order are primes, the order
//! divides the modulus less one, and both generators have that order.

use vstd::prelude::*;
use vstd::arithmetic::power::{lemma_pow1, pow};
use crate::modular::{
    has_order, is_prime, lemma_between_multiples, lemma_pow_mod_double, lemma_pow_mod_succ,
    lemma_prime_by_small_factors, lemma_prime_order,
};
use super::exponentiation::{STANDARD_G, STANDARD_H, STANDARD_P, STANDARD_Q};

verus! {

/// In the standard group `g` raised to `q` is congruent to one. The
/// power is reached by squaring and multiplying along the bits of `q`.
pub proof fn lemma_standard_g_power()
    ensures
        pow(STANDARD_G as int, STANDARD_Q as nat) % (STANDARD_P as int) == 1,
{
    lemma_pow1(7069);
    assert(pow(7069, 1) % 10009 == 7069);
    lemma_pow_mod_double(7069, 1, 10009);
    assert(pow(7069, 2) % 10009 == 5833);
    lemma_pow_mod_double(7069, 2, 10009);
    assert(pow(7069, 4) % 10009 == 3298);
    lemma_pow_mod_double(7069, 4, 10009);
    assert(pow(7069, 8) % 10009 == 7030);
    lemma_pow_mod_double(7069, 8, 10009);
    assert(pow(7069, 16) % 10009 == 6467);
    lemma_pow_mod_succ(7069, 16, 10009);
    assert(pow(7069, 17) % 10009 == 4120);
    lemma_pow_mod_double(7069, 17, 10009);
    assert(pow(7069, 34) % 10009 == 9145);
    lemma_pow_mod_double(7069, 34, 10009);
    assert(pow(7069, 68) % 10009 == 5830);
    lemma_pow_mod_succ(7069, 68, 10009);
    assert(pow(7069, 69) % 10009 == 5217);
    lemma_pow_mod_double(7069, 69, 10009);
    assert(pow(7069, 138) % 10009 == 2618);
    lemma_pow_mod_succ(7069, 138, 10009);
    assert(pow(7069, 139) % 10009 == 1);
}

/// In the standard group `h` raised to `q` is congruent to one. The
/// power is reached by squaring and multiplying along the bits of `q`.
pub proof fn lemma_standard_h_power()
    ensures
        pow(STANDARD_H as int, STANDARD_Q as nat) % (STANDARD_P as int) == 1,
{
    lemma_pow1(8596);
    assert(pow(8596, 1) % 10009 == 8596);
    lemma_pow_mod_double(8596, 1, 10009);
    assert(pow(8596, 2) % 10009 == 4778);
    lemma_pow_mod_double(8596, 2, 10009);
    assert(pow(8596, 4) % 10009 == 8764);
    lemma_pow_mod_double(8596, 4, 10009);
    assert(pow(8596, 8) % 10009 == 8639);
    lemma_pow_mod_double(8596, 8, 10009);
    assert(pow(8596, 16) % 10009 == 5217);
    lemma_pow_mod_succ(8596, 16, 10009);
    assert(pow(8596, 17) % 10009 == 5012);
    lemma_pow_mod_double(8596, 17, 10009);
    assert(pow(8596, 34) % 10009 == 7563);
    lemma_pow_mod_double(8596, 34, 10009);
    assert(pow(8596, 68) % 10009 == 7543);
    lemma_pow_mod_succ(8596, 68, 10009);
    assert(pow(8596, 69) % 10009 == 1326);
    lemma_pow_mod_double(8596, 69, 10009);
    assert(pow(8596, 138) % 10009 == 6701);
    lemma_pow_mod_succ(8596, 138, 10009);
    assert(pow(8596, 139) % 10009 == 1);
}

/// No number from 2 to 11 is a factor of the standard `q`: `q` lies strictly
/// between two consecutive multiples of each.
proof fn lemma_no_small_factor_of_q(small: nat, other: nat)
    requires
        1 < small <= 11,
    ensures
        small * other != 139,
{
    if small == 2 {
        lemma_between_multiples(small, other, 69, 139);
    } else if small == 3 {
        lemma_between_multiples(small, other, 46, 139);
    } else if small == 4 {
        lemma_between_multiples(small, other, 34, 139);
    } else if small == 5 {
        lemma_between_multiples(small, other, 27, 139);
    } else if small == 6 {
        lemma_between_multiples(small, other, 23, 139);
    } else if small == 7 {
        lemma_between_multiples(small, other, 19, 139);
    } else if small == 8 {
        lemma_between_multiples(small, other, 17, 139);
    } else if small == 9 {
        lemma_between_multiples(small, other, 15, 139);
    } else if small == 10 {
        lemma_between_multiples(small, other, 13, 139);
    } else {
        lemma_between_multiples(small, other, 12, 139);
    }
}

/// No number from 2 to 100 is a factor of the standard `p`: `p` lies strictly
/// between two consecutive multiples of each.
proof fn lemma_no_small_factor_of_p(small: nat, other: nat)
    requires
        1 < small <= 100,
    ensures
        small * other != 10009,
{
    if small == 2 {
        lemma_between_multiples(small, other, 5004, 10009);
    } else if small == 3 {
        lemma_between_multiples(small, other, 3336, 10009);
    } else if small == 4 {
        lemma_between_multiples(small, other, 2502, 10009);
    } else if small == 5 {
        lemma_between_multiples(small, other, 2001, 10009);
    } else if small == 6 {
        lemma_between_multiples(small, other, 1668, 10009);
    } else if small == 7 {
        lemma_between_multiples(small, other, 1429, 10009);
    } else if small == 8 {
        lemma_between_multiples(small, other, 1251, 10009);
    } else if small == 9 {
        lemma_between_multiples(small, other, 1112, 10009);
    } else if small == 10 {
        lemma_between_multiples(small, other, 1000, 10009);
    } else if small == 11 {
        lemma_between_multiples(small, other, 909, 10009);
    } else if small == 12 {
        lemma_between_multiples(small, other, 834, 10009);
    } else if small == 13 {
        lemma_between_multiples(small, other, 769, 10009);
    } else if small == 14 {
        lemma_between_multiples(small, other, 714, 10009);
    } else if small == 15 {
        lemma_between_multiples(small, other, 667, 10009);
    } else if small == 16 {
        lemma_between_multiples(small, other, 625, 10009);
    } else if small == 17 {
        lemma_between_multiples(small, other, 588, 10009);
    } else if small == 18 {
        lemma_between_multiples(small, other, 556, 10009);
    } else if small == 19 {
        lemma_between_multiples(small, other, 526, 10009);
    } else if small == 20 {
        lemma_between_multiples(small, other, 500, 10009);
    } else if small == 21 {
        lemma_between_multiples(small, other, 476, 10009);
    } else if small == 22 {
        lemma_between_multiples(small, other, 454, 10009);
    } else if small == 23 {
        lemma_between_multiples(small, other, 435, 10009);
    } else if small == 24 {
        lemma_between_multiples(small, other, 417, 10009);
    } else if small == 25 {
        lemma_between_multiples(small, other, 400, 10009);
    } else if small == 26 {
        lemma_between_multiples(small, other, 384, 10009);
    } else if small == 27 {
        lemma_between_multiples(small, other, 370, 10009);
    } else if small == 28 {
        lemma_between_multiples(small, other, 357, 10009);
    } else if small == 29 {
        lemma_between_multiples(small, other, 345, 10009);
    } else if small == 30 {
        lemma_between_multiples(small, other, 333, 10009);
    } else if small == 31 {
        lemma_between_multiples(small, other, 322, 10009);
    } else if small == 32 {
        lemma_between_multiples(small, other, 312, 10009);
    } else if small == 33 {
        lemma_between_multiples(small, other, 303, 10009);
    } else if small == 34 {
        lemma_between_multiples(small, other, 294, 10009);
    } else if small == 35 {
        lemma_between_multiples(small, other, 285, 10009);
    } else if small == 36 {
        lemma_between_multiples(small, other, 278, 10009);
    } else if small == 37 {
        lemma_between_multiples(small, other, 270, 10009);
    } else if small == 38 {
        lemma_between_multiples(small, other, 263, 10009);
    } else if small == 39 {
        lemma_between_multiples(small, other, 256, 10009);
    } else if small == 40 {
        lemma_between_multiples(small, other, 250, 10009);
    } else if small == 41 {
        lemma_between_multiples(small, other, 244, 10009);
    } else if small == 42 {
        lemma_between_multiples(small, other, 238, 10009);
    } else if small == 43 {
        lemma_between_multiples(small, other, 232, 10009);
    } else if small == 44 {
        lemma_between_multiples(small, other, 227, 10009);
    } else if small == 45 {
        lemma_between_multiples(small, other, 222, 10009);
    } else if small == 46 {
        lemma_between_multiples(small, other, 217, 10009);
    } else if small == 47 {
        lemma_between_multiples(small, other, 212, 10009);
    } else if small == 48 {
        lemma_between_multiples(small, other, 208, 10009);
    } else if small == 49 {
        lemma_between_multiples(small, other, 204, 10009);
    } else if small == 50 {
        lemma_between_multiples(small, other, 200, 10009);
    } else if small == 51 {
        lemma_between_multiples(small, other, 196, 10009);
    } else if small == 52 {
        lemma_between_multiples(small, other, 192, 10009);
    } else if small == 53 {
        lemma_between_multiples(small, other, 188, 10009);
    } else if small == 54 {
        lemma_between_multiples(small, other, 185, 10009);
    } else if small == 55 {
        lemma_between_multiples(small, other, 181, 10009);
    } else if small == 56 {
        lemma_between_multiples(small, other, 178, 10009);
    } else if small == 57 {
        lemma_between_multiples(small, other, 175, 10009);
    } else if small == 58 {
        lemma_between_multiples(small, other, 172, 10009);
    } else if small == 59 {
        lemma_between_multiples(small, other, 169, 10009);
    } else if small == 60 {
        lemma_between_multiples(small, other, 166, 10009);
    } else if small == 61 {
        lemma_between_multiples(small, other, 164, 10009);
    } else if small == 62 {
        lemma_between_multiples(small, other, 161, 10009);
    } else if small == 63 {
        lemma_between_multiples(small, other, 158, 10009);
    } else if small == 64 {
        lemma_between_multiples(small, other, 156, 10009);
    } else if small == 65 {
        lemma_between_multiples(small, other, 153, 10009);
    } else if small == 66 {
        lemma_between_multiples(small, other, 151, 10009);
    } else if small == 67 {
        lemma_between_multiples(small, other, 149, 10009);
    } else if small == 68 {
        lemma_between_multiples(small, other, 147, 10009);
    } else if small == 69 {
        lemma_between_multiples(small, other, 145, 10009);
    } else if small == 70 {
        lemma_between_multiples(small, other, 142, 10009);
    } else if small == 71 {
        lemma_between_multiples(small, other, 140, 10009);
    } else if small == 72 {
        lemma_between_multiples(small, other, 139, 10009);
    } else if small == 73 {
        lemma_between_multiples(small, other, 137, 10009);
    } else if small == 74 {
        lemma_between_multiples(small, other, 135, 10009);
    } else if small == 75 {
        lemma_between_multiples(small, other, 133, 10009);
    } else if small == 76 {
        lemma_between_multiples(small, other, 131, 10009);
    } else if small == 77 {
        lemma_between_multiples(small, other, 129, 10009);
    } else if small == 78 {
        lemma_between_multiples(small, other, 128, 10009);
    } else if small == 79 {
        lemma_between_multiples(small, other, 126, 10009);
    } else if small == 80 {
        lemma_between_multiples(small, other, 125, 10009);
    } else if small == 81 {
        lemma_between_multiples(small, other, 123, 10009);
    } else if small == 82 {
        lemma_between_multiples(small, other, 122, 10009);
    } else if small == 83 {
        lemma_between_multiples(small, other, 120, 10009);
    } else if small == 84 {
        lemma_between_multiples(small, other, 119, 10009);
    } else if small == 85 {
        lemma_between_multiples(small, other, 117, 10009);
    } else if small == 86 {
        lemma_between_multiples(small, other, 116, 10009);
    } else if small == 87 {
        lemma_between_multiples(small, other, 115, 10009);
    } else if small == 88 {
        lemma_between_multiples(small, other, 113, 10009);
    } else if small == 89 {
        lemma_between_multiples(small, other, 112, 10009);
    } else if small == 90 {
        lemma_between_multiples(small, other, 111, 10009);
    } else if small == 91 {
        lemma_between_multiples(small, other, 109, 10009);
    } else if small == 92 {
        lemma_between_multiples(small, other, 108, 10009);
    } else if small == 93 {
        lemma_between_multiples(small, other, 107, 10009);
    } else if small == 94 {
        lemma_between_multiples(small, other, 106, 10009);
    } else if small == 95 {
        lemma_between_multiples(small, other, 105, 10009);
    } else if small == 96 {
        lemma_between_multiples(small, other, 104, 10009);
    } else if small == 97 {
        lemma_between_multiples(small, other, 103, 10009);
    } else if small == 98 {
        lemma_between_multiples(small, other, 102, 10009);
    } else if small == 99 {
        lemma_between_multiples(small, other, 101, 10009);
    } else {
        lemma_between_multiples(small, other, 100, 10009);
    }
}

/// The standard `q` is a prime.
pub proof fn lemma_standard_q_is_prime()
    ensures
        is_prime(STANDARD_Q as nat),
{
    assert forall|x: nat, y: nat| 1 < x <= 11 implies #[trigger] (x * y) != STANDARD_Q as nat by {
        lemma_no_small_factor_of_q(x, y);
    }
    assert((11nat + 1) * (11nat + 1) == 144) by (nonlinear_arith);
    lemma_prime_by_small_factors(STANDARD_Q as nat, 11);
}

/// The standard `p` is a prime.
pub proof fn lemma_standard_p_is_prime()
    ensures
        is_prime(STANDARD_P as nat),
{
    assert forall|x: nat, y: nat| 1 < x <= 100 implies #[trigger] (x * y) != STANDARD_P as nat by {
        lemma_no_small_factor_of_p(x, y);
    }
    assert((100nat + 1) * (100nat + 1) == 10201) by (nonlinear_arith);
    lemma_prime_by_small_factors(STANDARD_P as nat, 100);
}

/// In the standard group `g` has order exactly `q`.
pub proof fn lemma_standard_g_has_order_q()
    ensures
        has_order(STANDARD_G as int, STANDARD_Q as nat, STANDARD_P as int),
{
    lemma_standard_g_power();
    lemma_standard_q_is_prime();
    lemma_prime_order(STANDARD_G as int, STANDARD_Q as nat, STANDARD_P as int);
}

/// In the standard group `h` has order exactly `q`.
pub proof fn lemma_standard_h_has_order_q()
    ensures
        has_order(STANDARD_H as int, STANDARD_Q as nat, STANDARD_P as int),
{
    lemma_standard_h_power();
    lemma_standard_q_is_prime();
    lemma_prime_order(STANDARD_H as int, STANDARD_Q as nat, STANDARD_P as int);
}

} // verus!
