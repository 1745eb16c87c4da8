//! The messages of the authentication service and the tag that tells the
//! two proof variants apart, as plain values.

use vstd::prelude::*;

verus! {

/// Which group the proof is carried out in.
#[derive(Clone, Copy, Debug, PartialEq, Eq, Structural)]
pub enum AuthenticationType {
    Exponentiation,
    EllipticCurve,
}

impl AuthenticationType {
    /// The variant's name as text.
    pub open spec fn spec_name(self) -> Seq<char> {
        match self {
            AuthenticationType::Exponentiation => "Exponentiation"@,
            AuthenticationType::EllipticCurve => "EllipticCurve"@,
        }
    }

    /// The number that stands for the variant in a message.
    pub open spec fn spec_code(self) -> i32 {
        match self {
            AuthenticationType::Exponentiation => 0,
            AuthenticationType::EllipticCurve => 1,
        }
    }

    /// The variant that a number in a message stands for, if any.
    pub open spec fn spec_from_i32(code: i32) -> Option<AuthenticationType> {
        if code == 0 {
            Some(AuthenticationType::Exponentiation)
        } else if code == 1 {
            Some(AuthenticationType::EllipticCurve)
        } else {
            None
        }
    }

    /// The variant's name, as it is shown to an operator.
    pub fn name(&self) -> (r: String)
        ensures
            r@ == self.spec_name(),
    {
        match self {
            AuthenticationType::Exponentiation => "Exponentiation".to_owned(),
            AuthenticationType::EllipticCurve => "EllipticCurve".to_owned(),
        }
    }

    /// The number sent to a client so that it selects the same variant.
    pub fn as_i32(self) -> (code: i32)
        ensures
            code == self.spec_code(),
    {
        match self {
            AuthenticationType::Exponentiation => 0,
            AuthenticationType::EllipticCurve => 1,
        }
    }

    /// Reads the number back; an unknown number stands for no variant.
    pub fn from_i32(code: i32) -> (r: Option<AuthenticationType>)
        ensures
            r == Self::spec_from_i32(code),
    {
        if code == 0 {
            Some(AuthenticationType::Exponentiation)
        } else if code == 1 {
            Some(AuthenticationType::EllipticCurve)
        } else {
            None
        }
    }
}

/// Every variant is read back from its own number.
pub proof fn lemma_code_round_trip(t: AuthenticationType)
    ensures
        AuthenticationType::spec_from_i32(t.spec_code()) == Some(t),
{
}

/// Asks the server which variant it runs.
#[derive(Debug)]
pub struct AuthTypeRequest {}

/// The server's variant, by its number.
#[derive(Debug)]
pub struct AuthTypeResponse {
    pub auth: i32,
}

/// A user's public registration values, as big-endian bytes.
#[derive(Debug)]
pub struct RegisterRequest {
    pub user: String,
    pub y1: Vec<u8>,
    pub y2: Vec<u8>,
}

/// The acknowledgement of a registration.
#[derive(Debug)]
pub struct RegisterResponse {}

/// A prover's commitment, which opens an authentication attempt.
#[derive(Debug)]
pub struct AuthenticationChallengeRequest {
    pub user: String,
    pub r1: Vec<u8>,
    pub r2: Vec<u8>,
}

/// The identifier of the attempt and the verifier's challenge.
#[derive(Debug)]
pub struct AuthenticationChallengeResponse {
    pub auth_id: String,
    pub c: Vec<u8>,
}

/// The prover's response to the challenge of one attempt.
#[derive(Debug)]
pub struct AuthenticationAnswerRequest {
    pub auth_id: String,
    pub s: Vec<u8>,
}

/// The token issued after a successful verification.
#[derive(Debug)]
pub struct AuthenticationAnswerResponse {
    pub session_id: String,
}

} // verus!
