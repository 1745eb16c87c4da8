//! The proof engine: what a variant of the protocol offers, and the choice
//! between the variants.

pub mod common;
pub mod ellipticcurve;
pub mod exponentiation;
pub mod standard;

use vstd::prelude::*;
use crate::bignat::BigNat;
use crate::errors::AuthenticationError;
use crate::zkp_auth::AuthenticationType;
use self::common::is_identifier;
use self::ellipticcurve::EllipticCurve;
use self::exponentiation::{response_exponent, Exponentiation};

verus! {

/// The length of the identifier of an authentication attempt.
pub const AUTH_ID_LENGTH: usize = 50;

/// The length of the token issued after a successful verification.
pub const SESSION_ID_LENGTH: usize = 100;

/// What a variant of the protocol offers to the client and the server.
///
/// A variant that does not implement the operations answers each of them,
/// but for `auth_type`, with `AuthenticationError::NotImplemented`.
pub trait Authenticate {
    /// The variant's parameters are fit for use.
    spec fn wf(&self) -> bool;

    /// The variant implements the operations.
    spec fn implemented(&self) -> bool;

    /// The tag of the variant.
    spec fn kind(&self) -> AuthenticationType;

    /// The order of the subgroup: scalars are drawn from `[1, order)`.
    spec fn order(&self) -> nat;

    /// The pair of group elements that commits to an exponent.
    spec fn commitment(&self, exponent: nat) -> (nat, nat);

    /// The response that answers a challenge, from the nonce and the secret.
    spec fn response_to(&self, nonce: nat, secret: nat, challenge: nat) -> nat;

    /// The verification equations hold of the six values.
    spec fn accepts(&self, y1: nat, y2: nat, r1: nat, r2: nat, s: nat, c: nat) -> bool;

    /// The tag that tells a client which variant the server runs.
    fn auth_type(&self) -> (t: AuthenticationType)
        ensures
            t == self.kind(),
    ;

    /// A fresh identifier for one authentication attempt.
    fn auth_id(&self) -> (r: Result<String, AuthenticationError>)
        requires
            self.wf(),
        ensures
            r is Ok <==> self.implemented(),
            r matches Ok(id) ==> is_identifier(id@, AUTH_ID_LENGTH as nat),
            r matches Err(e) ==> e is NotImplemented,
    ;

    /// A fresh token, issued only after a successful verification.
    fn session_id(&self) -> (r: Result<String, AuthenticationError>)
        requires
            self.wf(),
        ensures
            r is Ok <==> self.implemented(),
            r matches Ok(id) ==> is_identifier(id@, SESSION_ID_LENGTH as nat),
            r matches Err(e) ==> e is NotImplemented,
    ;

    /// A random scalar of `[1, order)`: the secret nonce of one attempt.
    fn get_random(&self) -> (r: Result<BigNat, AuthenticationError>)
        requires
            self.wf(),
        ensures
            r is Ok <==> self.implemented(),
            r matches Ok(k) ==> 1 <= k@ < self.order(),
            r matches Err(e) ==> e is NotImplemented,
    ;

    /// The public values `(y1, y2)` that a secret is registered under.
    fn registration(&self, secret: &BigNat) -> (r: Result<(BigNat, BigNat), AuthenticationError>)
        requires
            self.wf(),
        ensures
            r is Ok <==> self.implemented(),
            r matches Ok(y) ==> (y.0@, y.1@) == self.commitment(secret@),
            r matches Err(e) ==> e is NotImplemented,
    ;

    /// The commitment `(r1, r2)` to the nonce of one attempt.
    fn authentication(&self, nonce: &BigNat) -> (r: Result<(BigNat, BigNat), AuthenticationError>)
        requires
            self.wf(),
        ensures
            r is Ok <==> self.implemented(),
            r matches Ok(y) ==> (y.0@, y.1@) == self.commitment(nonce@),
            r matches Err(e) ==> e is NotImplemented,
    ;

    /// A random scalar of `[1, order)`: the verifier's challenge.
    fn challenge(&self) -> (r: Result<BigNat, AuthenticationError>)
        requires
            self.wf(),
        ensures
            r is Ok <==> self.implemented(),
            r matches Ok(c) ==> 1 <= c@ < self.order(),
            r matches Err(e) ==> e is NotImplemented,
    ;

    /// The response to a challenge.
    fn response(&self, nonce: &BigNat, secret: &BigNat, challenge: &BigNat) -> (r: Result<
        BigNat,
        AuthenticationError,
    >)
        requires
            self.wf(),
        ensures
            r is Ok <==> self.implemented(),
            r matches Ok(s) ==> s@ == self.response_to(nonce@, secret@, challenge@),
            r matches Err(e) ==> e is NotImplemented,
    ;

    /// Whether the response answers the challenge for the registered values
    /// and the commitment.
    fn verify(
        &self,
        y1: &BigNat,
        y2: &BigNat,
        r1: &BigNat,
        r2: &BigNat,
        s: &BigNat,
        c: &BigNat,
    ) -> (r: Result<bool, AuthenticationError>)
        requires
            self.wf(),
        ensures
            r is Ok <==> self.implemented(),
            r matches Ok(b) ==> b == self.accepts(y1@, y2@, r1@, r2@, s@, c@),
            r matches Err(e) ==> e is NotImplemented,
    ;
}

/// The variant in use. The choice is made once, by `get_authentication`.
#[derive(Debug)]
pub enum Authenticator {
    Exponentiation(Exponentiation),
    EllipticCurve(EllipticCurve),
}

impl Authenticate for Authenticator {
    open spec fn wf(&self) -> bool {
        match self {
            Authenticator::Exponentiation(e) => e.is_group(),
            Authenticator::EllipticCurve(_) => true,
        }
    }

    open spec fn implemented(&self) -> bool {
        self is Exponentiation
    }

    open spec fn kind(&self) -> AuthenticationType {
        match self {
            Authenticator::Exponentiation(_) => AuthenticationType::Exponentiation,
            Authenticator::EllipticCurve(_) => AuthenticationType::EllipticCurve,
        }
    }

    open spec fn order(&self) -> nat {
        match self {
            Authenticator::Exponentiation(e) => e.q@,
            Authenticator::EllipticCurve(_) => 0,
        }
    }

    open spec fn commitment(&self, exponent: nat) -> (nat, nat) {
        match self {
            Authenticator::Exponentiation(e) => e.committed(exponent),
            Authenticator::EllipticCurve(_) => (0, 0),
        }
    }

    open spec fn response_to(&self, nonce: nat, secret: nat, challenge: nat) -> nat {
        match self {
            Authenticator::Exponentiation(e) => response_exponent(nonce, secret, challenge, e.q@),
            Authenticator::EllipticCurve(_) => 0,
        }
    }

    open spec fn accepts(&self, y1: nat, y2: nat, r1: nat, r2: nat, s: nat, c: nat) -> bool {
        match self {
            Authenticator::Exponentiation(e) => e.equations_hold(y1, y2, r1, r2, s, c),
            Authenticator::EllipticCurve(_) => false,
        }
    }

    fn auth_type(&self) -> (t: AuthenticationType) {
        match self {
            Authenticator::Exponentiation(e) => e.auth_type(),
            Authenticator::EllipticCurve(e) => e.auth_type(),
        }
    }

    fn auth_id(&self) -> (r: Result<String, AuthenticationError>) {
        match self {
            Authenticator::Exponentiation(e) => e.auth_id(),
            Authenticator::EllipticCurve(e) => e.auth_id(),
        }
    }

    fn session_id(&self) -> (r: Result<String, AuthenticationError>) {
        match self {
            Authenticator::Exponentiation(e) => e.session_id(),
            Authenticator::EllipticCurve(e) => e.session_id(),
        }
    }

    fn get_random(&self) -> (r: Result<BigNat, AuthenticationError>) {
        match self {
            Authenticator::Exponentiation(e) => e.get_random(),
            Authenticator::EllipticCurve(e) => e.get_random(),
        }
    }

    fn registration(&self, secret: &BigNat) -> (r: Result<(BigNat, BigNat), AuthenticationError>) {
        match self {
            Authenticator::Exponentiation(e) => e.registration(secret),
            Authenticator::EllipticCurve(e) => e.registration(secret),
        }
    }

    fn authentication(&self, nonce: &BigNat) -> (r: Result<(BigNat, BigNat), AuthenticationError>) {
        match self {
            Authenticator::Exponentiation(e) => e.authentication(nonce),
            Authenticator::EllipticCurve(e) => e.authentication(nonce),
        }
    }

    fn challenge(&self) -> (r: Result<BigNat, AuthenticationError>) {
        match self {
            Authenticator::Exponentiation(e) => e.challenge(),
            Authenticator::EllipticCurve(e) => e.challenge(),
        }
    }

    fn response(&self, nonce: &BigNat, secret: &BigNat, challenge: &BigNat) -> (r: Result<
        BigNat,
        AuthenticationError,
    >) {
        match self {
            Authenticator::Exponentiation(e) => e.response(nonce, secret, challenge),
            Authenticator::EllipticCurve(e) => e.response(nonce, secret, challenge),
        }
    }

    fn verify(
        &self,
        y1: &BigNat,
        y2: &BigNat,
        r1: &BigNat,
        r2: &BigNat,
        s: &BigNat,
        c: &BigNat,
    ) -> (r: Result<bool, AuthenticationError>) {
        match self {
            Authenticator::Exponentiation(e) => e.verify(y1, y2, r1, r2, s, c),
            Authenticator::EllipticCurve(e) => e.verify(y1, y2, r1, r2, s, c),
        }
    }
}

/// The variant holds its standard parameters: those of the standard group,
/// or the four zeros that stand in for a curve.
pub open spec fn is_standard_variant(a: Authenticator) -> bool {
    match a {
        Authenticator::Exponentiation(e) => e.is_standard(),
        Authenticator::EllipticCurve(e) => e.p@ == 0 && e.q@ == 0 && e.g@ == 0 && e.h@ == 0,
    }
}

/// The variant that a tag selects, with its standard parameters.
pub fn get_authentication(authtype: AuthenticationType) -> (a: Authenticator)
    ensures
        a.wf(),
        a.kind() == authtype,
        is_standard_variant(a),
{
    match authtype {
        AuthenticationType::EllipticCurve => Authenticator::EllipticCurve(EllipticCurve::new()),
        AuthenticationType::Exponentiation => Authenticator::Exponentiation(Exponentiation::new()),
    }
}

} // verus!
