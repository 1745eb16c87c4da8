//! The prover: the registration flow and the authentication flow, each as
//! the steps that lie between two exchanges with the server. The caller
//! performs the exchanges and the reading of the password, and hands each
//! outcome to the next step.

use vstd::prelude::*;
use vstd::string::*;
use vstd::utf8::encode_utf8;
use crate::authentication::{
    get_authentication, is_standard_variant, Authenticate, Authenticator,
};
use crate::bignat::{be_value, is_minimal, BigNat};
use crate::errors::{AuthenticationError, Status, StatusAsError};
use crate::zkp_auth::{
    AuthTypeResponse, AuthenticationAnswerRequest, AuthenticationAnswerResponse,
    AuthenticationChallengeRequest, AuthenticationChallengeResponse, AuthenticationType,
    RegisterRequest, RegisterResponse,
};

verus! {

/// The secret that a password stands for: its bytes, read as a big-endian
/// number.
pub open spec fn secret_value(password: Seq<char>) -> nat {
    be_value(encode_utf8(password))
}

/// The secret that a password stands for.
pub fn secret_of(password: &str) -> (secret: BigNat)
    ensures
        secret@ == secret_value(password@),
{
    BigNat::from_bytes_be(password.as_bytes())
}

/// The secret of the password as it was entered. Where none could be read,
/// that is the error.
pub fn get_password(entry: Option<&str>) -> (r: Result<BigNat, AuthenticationError>)
    ensures
        entry is Some <==> r is Ok,
        r matches Ok(secret) ==> secret@ == secret_value(entry->Some_0@),
        r matches Err(e) ==> e is CouldNotGetPassword,
{
    match entry {
        Some(password) => Ok(secret_of(password)),
        None => Err(AuthenticationError::CouldNotGetPassword),
    }
}

/// The variant that the server's answer names, if the request succeeded
/// and the number is that of a variant.
pub open spec fn named_auth_type(reply: Result<AuthTypeResponse, Status>) -> Option<
    AuthenticationType,
> {
    match reply {
        Ok(response) => AuthenticationType::spec_from_i32(response.auth),
        Err(_) => None,
    }
}

/// The variant that the server runs, from its answer to the question.
pub fn get_auth_type(reply: Result<AuthTypeResponse, Status>) -> (r: Result<
    AuthenticationType,
    AuthenticationError,
>)
    ensures
        r matches Ok(t) ==> named_auth_type(reply) == Some(t),
        r matches Err(e) ==> named_auth_type(reply) is None && e is UnableToGetAuthTypeFromServer,
{
    match reply {
        Ok(response) => match AuthenticationType::from_i32(response.auth) {
            Some(t) => Ok(t),
            None => Err(AuthenticationError::UnableToGetAuthTypeFromServer),
        },
        Err(_) => Err(AuthenticationError::UnableToGetAuthTypeFromServer),
    }
}

/// The error for the status of a request that failed.
pub open spec fn reports(e: AuthenticationError, status: Status) -> bool {
    e matches AuthenticationError::UnableToAuthenticateWithServer { status: reported }
        && reported.code == status.code && reported.message@ == status.message@
}

/// Registers a user: holds the variant that the server named.
pub struct ClientRegistrar {
    authenticator: Authenticator,
}

impl ClientRegistrar {
    /// The variant in use.
    pub closed spec fn authenticator(&self) -> Authenticator {
        self.authenticator
    }

    /// The variant is fit for use.
    pub open spec fn wf(&self) -> bool {
        self.authenticator().wf()
    }

    /// A registrar for the variant that the server named.
    pub fn new(reply: Result<AuthTypeResponse, Status>) -> (r: Result<Self, AuthenticationError>)
        ensures
            r is Ok <==> named_auth_type(reply) is Some,
            r matches Ok(registrar) ==> {
                &&& registrar.wf()
                &&& Some(registrar.authenticator().kind()) == named_auth_type(reply)
                &&& is_standard_variant(registrar.authenticator())
            },
            r matches Err(e) ==> e is UnableToGetAuthTypeFromServer,
    {
        let auth_type = match get_auth_type(reply) {
            Ok(t) => t,
            Err(e) => { return Err(e); },
        };
        let authenticator = get_authentication(auth_type);
        Ok(ClientRegistrar { authenticator })
    }

    /// The request that registers the user under the entered password: it
    /// carries the public values of the password's secret. No password is
    /// an error, and so is a variant that is not implemented.
    pub fn register(&self, user: &str, password: Option<&str>) -> (r: Result<
        RegisterRequest,
        AuthenticationError,
    >)
        requires
            self.wf(),
        ensures
            r is Ok <==> password is Some && self.authenticator().implemented(),
            r matches Ok(request) ==> {
                &&& request.user@ == user@
                &&& (be_value(request.y1@), be_value(request.y2@))
                    == self.authenticator().commitment(secret_value(password->Some_0@))
                &&& is_minimal(request.y1@)
                &&& is_minimal(request.y2@)
            },
            r matches Err(e) ==> if password is None {
                e is CouldNotGetPassword
            } else {
                e is NotImplemented
            },
    {
        let secret = match get_password(password) {
            Ok(secret) => secret,
            Err(e) => { return Err(e); },
        };
        let (y1, y2) = match self.authenticator.registration(&secret) {
            Ok(pair) => pair,
            Err(e) => { return Err(e); },
        };
        Ok(RegisterRequest { user: user.to_owned(), y1: y1.to_bytes_be(), y2: y2.to_bytes_be() })
    }

    /// The outcome of the flow, from the server's answer to the request:
    /// an acknowledgement is success, a failed request is the error that
    /// carries its status.
    pub fn registered(reply: Result<RegisterResponse, Status>) -> (r: Result<
        bool,
        AuthenticationError,
    >)
        ensures
            reply is Ok ==> r == Ok::<bool, AuthenticationError>(true),
            reply matches Err(status) ==> (r matches Err(e) && reports(e, status)),
    {
        match reply {
            Ok(_) => Ok(true),
            Err(status) => Err(status.map_status_to_err()),
        }
    }
}

/// Authenticates a user: holds the variant that the server named and the
/// nonce of this one attempt. Each step consumes the state, so that a nonce
/// serves for one attempt only.
pub struct ClientAuthenticator {
    pub authenticator: Authenticator,
    pub k: BigNat,
}

/// An attempt whose commitment was sent and whose challenge is awaited.
pub struct AwaitingChallenge {
    authenticator: Authenticator,
    k: BigNat,
    secret: BigNat,
}

/// An attempt whose response was sent and whose verdict is awaited.
pub struct AwaitingVerdict {}

impl ClientAuthenticator {
    /// An authenticator for the variant that the server named, with a nonce
    /// drawn from `[1, order)`.
    pub fn new(reply: Result<AuthTypeResponse, Status>) -> (r: Result<Self, AuthenticationError>)
        ensures
            r matches Ok(client) ==> {
                &&& client.authenticator.wf()
                &&& client.authenticator.implemented()
                &&& Some(client.authenticator.kind()) == named_auth_type(reply)
                &&& is_standard_variant(client.authenticator)
                &&& 1 <= client.k@ < client.authenticator.order()
            },
            r matches Err(e) ==> match named_auth_type(reply) {
                None => e is UnableToGetAuthTypeFromServer,
                Some(t) => t == AuthenticationType::EllipticCurve && e is NotImplemented,
            },
    {
        let auth_type = match get_auth_type(reply) {
            Ok(t) => t,
            Err(e) => { return Err(e); },
        };
        let authenticator = get_authentication(auth_type);
        let k = match authenticator.get_random() {
            Ok(k) => k,
            Err(e) => { return Err(e); },
        };
        Ok(ClientAuthenticator { authenticator, k })
    }

    /// The first step: from the entered password, the request that opens
    /// the attempt with the commitment to the nonce. No password is an
    /// error, and so is a variant that is not implemented.
    pub fn authenticate(self, user: &str, password: Option<&str>) -> (r: Result<
        (AwaitingChallenge, AuthenticationChallengeRequest),
        AuthenticationError,
    >)
        requires
            self.authenticator.wf(),
        ensures
            r is Ok <==> password is Some && self.authenticator.implemented(),
            r matches Ok(step) ==> {
                &&& step.0.wf()
                &&& step.0.authenticator() == self.authenticator
                &&& step.0.nonce() == self.k@
                &&& step.0.secret() == secret_value(password->Some_0@)
                &&& step.1.user@ == user@
                &&& (be_value(step.1.r1@), be_value(step.1.r2@)) == self.authenticator.commitment(
                    self.k@,
                )
                &&& is_minimal(step.1.r1@)
                &&& is_minimal(step.1.r2@)
            },
            r matches Err(e) ==> if password is None {
                e is CouldNotGetPassword
            } else {
                e is NotImplemented
            },
    {
        let secret = match get_password(password) {
            Ok(secret) => secret,
            Err(e) => { return Err(e); },
        };
        let (r1, r2) = match self.authenticator.authentication(&self.k) {
            Ok(pair) => pair,
            Err(e) => { return Err(e); },
        };
        let request = AuthenticationChallengeRequest {
            user: user.to_owned(),
            r1: r1.to_bytes_be(),
            r2: r2.to_bytes_be(),
        };
        Ok((AwaitingChallenge { authenticator: self.authenticator, k: self.k, secret }, request))
    }
}

impl AwaitingChallenge {
    /// The variant in use.
    pub closed spec fn authenticator(&self) -> Authenticator {
        self.authenticator
    }

    /// The nonce of the attempt.
    pub closed spec fn nonce(&self) -> nat {
        self.k@
    }

    /// The secret of the password that was entered.
    pub closed spec fn secret(&self) -> nat {
        self.secret@
    }

    /// The variant is implemented and fit for use.
    pub open spec fn wf(&self) -> bool {
        self.authenticator().wf() && self.authenticator().implemented()
    }

    /// The second step: from the server's challenge, the request that
    /// carries the response to it, for the attempt that the server named. A
    /// failed request is the error that carries its status.
    pub fn answer(self, reply: Result<AuthenticationChallengeResponse, Status>) -> (r: Result<
        (AwaitingVerdict, AuthenticationAnswerRequest),
        AuthenticationError,
    >)
        requires
            self.wf(),
        ensures
            r is Ok <==> reply is Ok,
            r matches Ok(step) ==> (reply matches Ok(response) && {
                &&& step.1.auth_id@ == response.auth_id@
                &&& be_value(step.1.s@) == self.authenticator().response_to(
                    self.nonce(),
                    self.secret(),
                    be_value(response.c@),
                )
                &&& is_minimal(step.1.s@)
            }),
            r matches Err(e) ==> (reply matches Err(status) && reports(e, status)),
    {
        let response = match reply {
            Ok(response) => response,
            Err(status) => { return Err(status.map_status_to_err()); },
        };
        let c = BigNat::from_bytes_be(response.c.as_slice());
        let s = match self.authenticator.response(&self.k, &self.secret, &c) {
            Ok(s) => s,
            Err(e) => { return Err(e); },
        };
        let request = AuthenticationAnswerRequest { auth_id: response.auth_id, s: s.to_bytes_be() };
        Ok((AwaitingVerdict {  }, request))
    }
}

impl AwaitingVerdict {
    /// The last step: the outcome of the attempt, from the server's verdict.
    /// A session token is success; a failed request is the error that
    /// carries its status.
    pub fn conclude(self, reply: Result<AuthenticationAnswerResponse, Status>) -> (r: Result<
        bool,
        AuthenticationError,
    >)
        ensures
            reply is Ok ==> r == Ok::<bool, AuthenticationError>(true),
            reply matches Err(status) ==> (r matches Err(e) && reports(e, status)),
    {
        match reply {
            Ok(_) => Ok(true),
            Err(status) => Err(status.map_status_to_err()),
        }
    }
}

} // verus!
