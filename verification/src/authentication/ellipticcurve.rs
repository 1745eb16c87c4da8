//! The protocol over an elliptic curve: declared, and not implemented.

use vstd::prelude::*;
use crate::bignat::BigNat;
use crate::errors::AuthenticationError;
use crate::zkp_auth::AuthenticationType;
use super::Authenticate;

verus! {

/// The parameters of the curve. None is in use: all four are zero.
#[derive(Debug)]
pub struct EllipticCurve {
    pub p: BigNat,
    pub q: BigNat,
    pub g: BigNat,
    pub h: BigNat,
}

impl Authenticate for EllipticCurve {
    open spec fn wf(&self) -> bool {
        true
    }

    open spec fn implemented(&self) -> bool {
        false
    }

    open spec fn kind(&self) -> AuthenticationType {
        AuthenticationType::EllipticCurve
    }

    open spec fn order(&self) -> nat {
        0
    }

    open spec fn commitment(&self, exponent: nat) -> (nat, nat) {
        (0, 0)
    }

    open spec fn response_to(&self, nonce: nat, secret: nat, challenge: nat) -> nat {
        0
    }

    open spec fn accepts(&self, y1: nat, y2: nat, r1: nat, r2: nat, s: nat, c: nat) -> bool {
        false
    }

    fn auth_type(&self) -> (t: AuthenticationType) {
        AuthenticationType::EllipticCurve
    }

    fn auth_id(&self) -> (r: Result<String, AuthenticationError>) {
        Err(AuthenticationError::NotImplemented)
    }

    fn session_id(&self) -> (r: Result<String, AuthenticationError>) {
        Err(AuthenticationError::NotImplemented)
    }

    fn get_random(&self) -> (r: Result<BigNat, AuthenticationError>) {
        Err(AuthenticationError::NotImplemented)
    }

    fn registration(&self, secret: &BigNat) -> (r: Result<(BigNat, BigNat), AuthenticationError>) {
        Err(AuthenticationError::NotImplemented)
    }

    fn challenge(&self) -> (r: Result<BigNat, AuthenticationError>) {
        Err(AuthenticationError::NotImplemented)
    }

    fn response(&self, nonce: &BigNat, secret: &BigNat, challenge: &BigNat) -> (r: Result<
        BigNat,
        AuthenticationError,
    >) {
        Err(AuthenticationError::NotImplemented)
    }

    fn authentication(&self, nonce: &BigNat) -> (r: Result<(BigNat, BigNat), AuthenticationError>) {
        Err(AuthenticationError::NotImplemented)
    }

    fn verify(
        &self,
        y1: &BigNat,
        y2: &BigNat,
        r1: &BigNat,
        r2: &BigNat,
        s: &BigNat,
        c: &BigNat,
    ) -> (r: Result<bool, AuthenticationError>) {
        Err(AuthenticationError::NotImplemented)
    }
}

impl EllipticCurve {
    /// The placeholder parameters.
    pub fn new() -> (r: Self)
        ensures
            r.p@ == 0,
            r.q@ == 0,
            r.g@ == 0,
            r.h@ == 0,
    {
        EllipticCurve {
            p: BigNat::from_u32(0),
            q: BigNat::from_u32(0),
            g: BigNat::from_u32(0),
            h: BigNat::from_u32(0),
        }
    }
}

} // verus!
