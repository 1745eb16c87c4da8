//! The protocol over the multiplicative group of integers modulo a prime.

use vstd::prelude::*;
use vstd::arithmetic::power::*;
use vstd::arithmetic::div_mod::*;
use vstd::arithmetic::mul::*;
use crate::bignat::{BigNat, BigSigned};
use crate::errors::AuthenticationError;
use crate::modular::{
    congruent, has_order, is_prime, lemma_congruent_powers_have_congruent_exponents,
    lemma_pow_congruent_exponents, lemma_prime_divides_product, lemma_prime_order,
};
use crate::zkp_auth::AuthenticationType;
use super::common::{generate_random_string_of_length, get_random_int_within_bound};
use super::standard::{
    lemma_standard_g_has_order_q, lemma_standard_h_has_order_q, lemma_standard_p_is_prime,
    lemma_standard_q_is_prime,
};
use super::{Authenticate, AUTH_ID_LENGTH, SESSION_ID_LENGTH};

verus! {

/// The parameters of the group: a modulus `p`, the order `q` of the subgroup
/// and two elements `g` and `h` of that subgroup.
#[derive(Debug)]
pub struct Exponentiation {
    pub p: BigNat,
    pub q: BigNat,
    pub g: BigNat,
    pub h: BigNat,
}

/// The exponent of the response: `nonce - challenge * secret`, reduced into
/// `[0, q)`.
pub open spec fn response_exponent(nonce: nat, secret: nat, challenge: nat, q: nat) -> nat {
    ((nonce as int - challenge as int * secret as int) % (q as int)) as nat
}

/// One verification equation: `base^s * y^c` is congruent to `r` modulo `p`.
pub open spec fn equation_holds(base: nat, y: nat, r: nat, s: nat, c: nat, p: nat) -> bool {
    congruent(pow(base as int, s) * pow(y as int, c), r as int, p as int)
}

impl Exponentiation {
    /// The parameters describe a subgroup of prime order: `p` and `q` are
    /// primes, `q` divides `p - 1`, and `g` and `h` are two different
    /// elements between one and `p` whose power at `q` is congruent to one.
    pub open spec fn is_group(&self) -> bool {
        &&& is_prime(self.p@)
        &&& is_prime(self.q@)
        &&& (self.p@ - 1) % (self.q@ as int) == 0
        &&& 1 < self.g@ < self.p@
        &&& 1 < self.h@ < self.p@
        &&& self.g@ != self.h@
        &&& pow(self.g@ as int, self.q@) % (self.p@ as int) == 1
        &&& pow(self.h@ as int, self.q@) % (self.p@ as int) == 1
    }

    /// The powers of `g` and of `h` by the exponent, reduced by `p`.
    pub open spec fn committed(&self, exponent: nat) -> (nat, nat) {
        (
            (pow(self.g@ as int, exponent) % (self.p@ as int)) as nat,
            (pow(self.h@ as int, exponent) % (self.p@ as int)) as nat,
        )
    }

    /// Both verification equations hold: the one of `g` with `y1` and `r1`,
    /// and the one of `h` with `y2` and `r2`.
    pub open spec fn equations_hold(
        &self,
        y1: nat,
        y2: nat,
        r1: nat,
        r2: nat,
        s: nat,
        c: nat,
    ) -> bool {
        &&& equation_holds(self.g@, y1, r1, s, c, self.p@)
        &&& equation_holds(self.h@, y2, r2, s, c, self.p@)
    }
}

impl Authenticate for Exponentiation {
    open spec fn wf(&self) -> bool {
        self.is_group()
    }

    open spec fn implemented(&self) -> bool {
        true
    }

    open spec fn kind(&self) -> AuthenticationType {
        AuthenticationType::Exponentiation
    }

    open spec fn order(&self) -> nat {
        self.q@
    }

    open spec fn commitment(&self, exponent: nat) -> (nat, nat) {
        self.committed(exponent)
    }

    open spec fn response_to(&self, nonce: nat, secret: nat, challenge: nat) -> nat {
        response_exponent(nonce, secret, challenge, self.q@)
    }

    open spec fn accepts(&self, y1: nat, y2: nat, r1: nat, r2: nat, s: nat, c: nat) -> bool {
        self.equations_hold(y1, y2, r1, r2, s, c)
    }

    fn auth_type(&self) -> (t: AuthenticationType) {
        AuthenticationType::Exponentiation
    }

    fn auth_id(&self) -> (r: Result<String, AuthenticationError>) {
        Ok(generate_random_string_of_length(AUTH_ID_LENGTH))
    }

    fn session_id(&self) -> (r: Result<String, AuthenticationError>) {
        Ok(generate_random_string_of_length(SESSION_ID_LENGTH))
    }

    fn get_random(&self) -> (r: Result<BigNat, AuthenticationError>) {
        Ok(get_random_int_within_bound(&self.q))
    }

    fn registration(&self, secret: &BigNat) -> (r: Result<(BigNat, BigNat), AuthenticationError>) {
        proof {
            lemma_pow_mod_bounds(self.g@ as int, secret@, self.p@ as int);
            lemma_pow_mod_bounds(self.h@ as int, secret@, self.p@ as int);
        }
        let y1 = self.g.modpow(secret, &self.p);
        let y2 = self.h.modpow(secret, &self.p);
        Ok((y1, y2))
    }

    fn challenge(&self) -> (r: Result<BigNat, AuthenticationError>) {
        Ok(get_random_int_within_bound(&self.q))
    }

    fn response(&self, nonce: &BigNat, secret: &BigNat, challenge: &BigNat) -> (r: Result<
        BigNat,
        AuthenticationError,
    >)
        ensures
            r matches Ok(s) ==> s@ < self.q@,
    {
        let cs = BigSigned::from_nat(challenge.multiply(secret));
        let n = BigSigned::from_nat(nonce.clone());
        let q = BigSigned::from_nat(self.q.clone());
        let difference = n.minus(&cs);
        let s = difference.modpow(&BigSigned::one(), &q);
        proof {
            lemma_pow1(difference@);
            lemma_mod_bound(difference@, q@);
        }
        Ok(s.to_bignat().unwrap())
    }

    fn authentication(&self, nonce: &BigNat) -> (r: Result<(BigNat, BigNat), AuthenticationError>) {
        proof {
            lemma_pow_mod_bounds(self.g@ as int, nonce@, self.p@ as int);
            lemma_pow_mod_bounds(self.h@ as int, nonce@, self.p@ as int);
        }
        let r1 = self.g.modpow(nonce, &self.p);
        let r2 = self.h.modpow(nonce, &self.p);
        Ok((r1, r2))
    }

    fn verify(
        &self,
        y1: &BigNat,
        y2: &BigNat,
        r1: &BigNat,
        r2: &BigNat,
        s: &BigNat,
        c: &BigNat,
    ) -> (r: Result<bool, AuthenticationError>) {
        let ver1 = self.g.modpow(s, &self.p).multiply(&y1.modpow(c, &self.p)).remainder(&self.p);
        let ver2 = self.h.modpow(s, &self.p).multiply(&y2.modpow(c, &self.p)).remainder(&self.p);
        let first = ver1 == r1.remainder(&self.p);
        let second = ver2 == r2.remainder(&self.p);
        proof {
            let p = self.p@ as int;
            lemma_mul_mod_noop(pow(self.g@ as int, s@), pow(y1@ as int, c@), p);
            lemma_mul_mod_noop(pow(self.h@ as int, s@), pow(y2@ as int, c@), p);
        }
        Ok(first && second)
    }
}

/// The modulus of the standard group, a prime.
pub const STANDARD_P: u32 = 10009;

/// The order of the standard group's subgroup, which divides `p - 1`.
pub const STANDARD_Q: u32 = 139;

/// The first generator of the standard group.
pub const STANDARD_G: u32 = 7069;

/// The second generator of the standard group.
pub const STANDARD_H: u32 = 8596;

impl Exponentiation {
    /// The parameters are those of the standard group.
    pub open spec fn is_standard(&self) -> bool {
        &&& self.p@ == STANDARD_P
        &&& self.q@ == STANDARD_Q
        &&& self.g@ == STANDARD_G
        &&& self.h@ == STANDARD_H
    }

    /// Both `g` and `h` have order exactly `q`: they generate a subgroup
    /// of `q` elements.
    pub open spec fn has_generators(&self) -> bool {
        &&& has_order(self.g@ as int, self.q@, self.p@ as int)
        &&& has_order(self.h@ as int, self.q@, self.p@ as int)
    }

    /// The standard group.
    pub fn new() -> (r: Self)
        ensures
            r.is_standard(),
            r.wf(),
            r.has_generators(),
    {
        proof {
            lemma_standard_p_is_prime();
            lemma_standard_q_is_prime();
            lemma_standard_g_has_order_q();
            lemma_standard_h_has_order_q();
        }
        Exponentiation {
            p: BigNat::from_u32(STANDARD_P),
            q: BigNat::from_u32(STANDARD_Q),
            g: BigNat::from_u32(STANDARD_G),
            h: BigNat::from_u32(STANDARD_H),
        }
    }
}

/// The standard parameters form a valid group: 10009 and 139 are primes,
/// 139 divides 10008, and both generators raised to 139 are congruent to
/// one.
pub proof fn lemma_standard_group_is_valid(e: Exponentiation)
    requires
        e.is_standard(),
    ensures
        e.wf(),
        e.has_generators(),
{
    lemma_standard_p_is_prime();
    lemma_standard_q_is_prime();
    lemma_standard_g_has_order_q();
    lemma_standard_h_has_order_q();
}

/// In every valid group both `g` and `h` have order exactly `q`: they
/// generate the subgroup of `q` elements.
pub proof fn lemma_group_has_generators(e: Exponentiation)
    requires
        e.wf(),
    ensures
        e.has_generators(),
{
    lemma_small_mod(e.g@, e.p@);
    lemma_small_mod(e.h@, e.p@);
    lemma_prime_order(e.g@ as int, e.q@, e.p@ as int);
    lemma_prime_order(e.h@ as int, e.q@, e.p@ as int);
}

/// The left side of a verification equation, for a registered value that
/// is the power of the base by the secret: `base^s * y^c` is congruent to
/// `base^(s + secret * c)`.
pub proof fn lemma_equation_left_side(base: nat, p: nat, secret: nat, s: nat, challenge: nat)
    requires
        p > 0,
    ensures
        secret * challenge >= 0,
        congruent(
            pow(base as int, s) * pow(pow(base as int, secret) % (p as int), challenge),
            pow(base as int, (s + secret * challenge) as nat),
            p as int,
        ),
{
    let b = base as int;
    let m = p as int;
    let y = pow(b, secret) % m;
    lemma_pow_mod_noop(pow(b, secret), challenge, m);
    lemma_pow_multiplies(b, secret, challenge);
    let sc = (secret * challenge) as nat;
    assert(pow(y, challenge) % m == pow(b, sc) % m);
    lemma_mul_mod_noop_right(pow(b, s), pow(y, challenge), m);
    lemma_mul_mod_noop_right(pow(b, s), pow(b, sc), m);
    lemma_pow_adds(b, s, sc);
}

/// The honest response added to `secret * challenge` is congruent to the
/// nonce modulo `q`.
pub proof fn lemma_response_restores_nonce(secret: nat, nonce: nat, challenge: nat, q: nat)
    requires
        q > 0,
    ensures
        secret * challenge >= 0,
        congruent(
            (response_exponent(nonce, secret, challenge, q) + secret * challenge) as int,
            nonce as int,
            q as int,
        ),
{
    let difference = nonce as int - challenge as int * secret as int;
    lemma_mul_nonnegative(secret as int, challenge as int);
    lemma_mul_is_commutative(secret as int, challenge as int);
    lemma_mod_bound(difference, q as int);
    lemma_fundamental_div_mod(difference, q as int);
    let d = difference / (q as int);
    let s = response_exponent(nonce, secret, challenge, q);
    assert(s + secret * challenge == q as int * (-d) + nonce as int) by {
        lemma_mul_unary_negation(q as int, d);
    }
    lemma_mod_multiples_vanish(-d, nonce as int, q as int);
}

/// One verification equation holds of an honest run: for a base whose power
/// `q` is congruent to one, the response to any challenge, computed from any
/// nonce and secret, satisfies the equation for the registered value and the
/// commitment of that base.
pub proof fn lemma_honest_equation(
    base: nat,
    p: nat,
    q: nat,
    secret: nat,
    nonce: nat,
    challenge: nat,
)
    requires
        p > 0,
        q > 0,
        pow(base as int, q) % (p as int) == 1,
    ensures
        equation_holds(
            base,
            (pow(base as int, secret) % (p as int)) as nat,
            (pow(base as int, nonce) % (p as int)) as nat,
            response_exponent(nonce, secret, challenge, q),
            challenge,
            p,
        ),
{
    let b = base as int;
    let m = p as int;
    let s = response_exponent(nonce, secret, challenge, q);
    lemma_pow_mod_bounds(b, secret, m);
    lemma_pow_mod_bounds(b, nonce, m);
    lemma_equation_left_side(base, p, secret, s, challenge);
    lemma_response_restores_nonce(secret, nonce, challenge, q);
    lemma_pow_congruent_exponents(b, (s + secret * challenge) as nat, nonce, q, m);
    lemma_mod_twice(pow(b, nonce), m);
}

/// For a base of order exactly `q`, one verification equation holds of a
/// registered value, a commitment and a response only if the response added
/// to `secret * challenge` is congruent to the nonce modulo `q`.
pub proof fn lemma_equation_fixes_response(
    base: nat,
    p: nat,
    q: nat,
    secret: nat,
    nonce: nat,
    challenge: nat,
    s: nat,
)
    requires
        p > 0,
        has_order(base as int, q, p as int),
        equation_holds(
            base,
            (pow(base as int, secret) % (p as int)) as nat,
            (pow(base as int, nonce) % (p as int)) as nat,
            s,
            challenge,
            p,
        ),
    ensures
        secret * challenge >= 0,
        congruent((s + secret * challenge) as int, nonce as int, q as int),
{
    let b = base as int;
    let m = p as int;
    lemma_pow_mod_bounds(b, secret, m);
    lemma_pow_mod_bounds(b, nonce, m);
    lemma_equation_left_side(base, p, secret, s, challenge);
    lemma_mod_twice(pow(b, nonce), m);
    lemma_congruent_powers_have_congruent_exponents(
        b,
        (s + secret * challenge) as nat,
        nonce,
        q,
        m,
    );
}

/// Soundness, as far as it holds without chance: the only response below
/// `q` that is accepted against the registration of a secret and the
/// commitment to a nonce is the honest one.
pub proof fn lemma_accepted_response_is_honest(
    e: Exponentiation,
    secret: nat,
    nonce: nat,
    challenge: nat,
    s: nat,
)
    requires
        e.wf(),
        s < e.q@,
        e.accepts(
            e.commitment(secret).0,
            e.commitment(secret).1,
            e.commitment(nonce).0,
            e.commitment(nonce).1,
            s,
            challenge,
        ),
    ensures
        s == e.response_to(nonce, secret, challenge),
{
    let q = e.q@ as int;
    let honest = e.response_to(nonce, secret, challenge);
    lemma_group_has_generators(e);
    lemma_equation_fixes_response(e.g@, e.p@, e.q@, secret, nonce, challenge, s);
    lemma_response_restores_nonce(secret, nonce, challenge, e.q@);
    lemma_mod_bound(nonce as int - challenge as int * secret as int, q);
    let sc = secret * challenge;
    lemma_mod_equivalence((s + sc) as int, (honest + sc) as int, q);
    assert((s + sc) - (honest + sc) == s - honest);
    lemma_mod_equivalence(s as int, honest as int, q);
    lemma_small_mod(s, e.q@);
    lemma_small_mod(honest, e.q@);
}

/// A response computed with a wrong secret is rejected: for every challenge
/// that is no multiple of `q`, so for every challenge that is drawn from
/// `[1, q)`, and every secret that is not congruent to the registered one
/// modulo `q`.
pub proof fn lemma_wrong_secret_is_rejected(
    e: Exponentiation,
    secret: nat,
    wrong: nat,
    nonce: nat,
    challenge: nat,
)
    requires
        e.wf(),
        challenge % e.q@ != 0,
        !congruent(secret as int, wrong as int, e.q@ as int),
    ensures
        !e.accepts(
            e.commitment(secret).0,
            e.commitment(secret).1,
            e.commitment(nonce).0,
            e.commitment(nonce).1,
            e.response_to(nonce, wrong, challenge),
            challenge,
        ),
{
    let q = e.q@ as int;
    let forged = e.response_to(nonce, wrong, challenge);
    lemma_mod_bound(nonce as int - challenge as int * wrong as int, q);
    if e.accepts(
        e.commitment(secret).0,
        e.commitment(secret).1,
        e.commitment(nonce).0,
        e.commitment(nonce).1,
        forged,
        challenge,
    ) {
        lemma_accepted_response_is_honest(e, secret, nonce, challenge, forged);
        let a = nonce as int - challenge as int * secret as int;
        let b = nonce as int - challenge as int * wrong as int;
        let difference = secret as int - wrong as int;
        lemma_mod_equivalence(b, a, q);
        assert(b - a == challenge * difference) by {
            lemma_mul_is_distributive_sub(challenge as int, secret as int, wrong as int);
        }
        // q divides challenge * difference and not the challenge.
        let c = (challenge as int % q) as nat;
        lemma_mod_bound(challenge as int, q);
        lemma_mul_mod_noop_left(challenge as int, difference, q);
        lemma_prime_divides_product(e.q@, c, difference);
        lemma_mod_equivalence(secret as int, wrong as int, q);
    }
}

/// A response computed with a wrong nonce is rejected, unless the two
/// nonces are congruent modulo `q`.
pub proof fn lemma_wrong_nonce_is_rejected(
    e: Exponentiation,
    secret: nat,
    nonce: nat,
    wrong: nat,
    challenge: nat,
)
    requires
        e.wf(),
        !congruent(nonce as int, wrong as int, e.q@ as int),
    ensures
        !e.accepts(
            e.commitment(secret).0,
            e.commitment(secret).1,
            e.commitment(nonce).0,
            e.commitment(nonce).1,
            e.response_to(wrong, secret, challenge),
            challenge,
        ),
{
    let q = e.q@ as int;
    let forged = e.response_to(wrong, secret, challenge);
    lemma_mod_bound(wrong as int - challenge as int * secret as int, q);
    if e.accepts(
        e.commitment(secret).0,
        e.commitment(secret).1,
        e.commitment(nonce).0,
        e.commitment(nonce).1,
        forged,
        challenge,
    ) {
        lemma_accepted_response_is_honest(e, secret, nonce, challenge, forged);
        let a = nonce as int - challenge as int * secret as int;
        let b = wrong as int - challenge as int * secret as int;
        lemma_mod_equivalence(a, b, q);
        lemma_mod_equivalence(nonce as int, wrong as int, q);
        assert(a - b == nonce - wrong);
    }
}

/// Completeness: in a valid group, whatever the secret, the nonce and the
/// challenge are, the response computed from them is accepted against the
/// registration of the secret and the commitment to the nonce. This holds
/// also where `nonce < challenge * secret`, and for a secret beyond `p` or
/// `q`.
pub proof fn lemma_honest_run_is_accepted(
    e: Exponentiation,
    secret: nat,
    nonce: nat,
    challenge: nat,
)
    requires
        e.wf(),
    ensures
        e.response_to(nonce, secret, challenge) < e.q@,
        e.accepts(
            e.commitment(secret).0,
            e.commitment(secret).1,
            e.commitment(nonce).0,
            e.commitment(nonce).1,
            e.response_to(nonce, secret, challenge),
            challenge,
        ),
{
    lemma_honest_equation(e.g@, e.p@, e.q@, secret, nonce, challenge);
    lemma_honest_equation(e.h@, e.p@, e.q@, secret, nonce, challenge);
    lemma_mod_bound(nonce as int - challenge as int * secret as int, e.q@ as int);
}

/// A power reduced by a positive modulus lies in `[0, m)`.
pub proof fn lemma_pow_mod_bounds(b: int, e: nat, m: int)
    requires
        m > 0,
    ensures
        0 <= pow(b, e) % m < m,
{
    lemma_mod_bound(pow(b, e), m);
}

} // verus!
