//! The failures that the client and the server report.

use vstd::prelude::*;
use vstd::string::*;

verus! {

/// The status code of an entity that was not found.
pub const NOT_FOUND: i32 = 5;

/// The status code of an operation that is not implemented.
pub const UNIMPLEMENTED: i32 = 12;

/// The status code of a request that did not authenticate.
pub const UNAUTHENTICATED: i32 = 16;

/// The outcome that the transport reports for a request that failed.
#[derive(Debug)]
pub struct Status {
    pub code: i32,
    pub message: String,
}

impl Clone for Status {
    fn clone(&self) -> (r: Self)
        ensures
            r.code == self.code,
            r.message@ == self.message@,
    {
        Status { code: self.code, message: self.message.clone() }
    }
}

/// A failure of the store to hold what a verification needs.
#[derive(Clone, Copy, Debug, PartialEq, Eq, Structural)]
pub enum StorageError {
    UnableToFindChallenge,
    UnableToFindRegistration,
}

/// A failure to authenticate.
#[derive(Debug)]
pub enum AuthenticationError {
    /// The transport reported a failure; the status says which.
    UnableToAuthenticateWithServer { status: Status },
    /// No password could be read from the user.
    CouldNotGetPassword,
    /// The server did not name a known variant.
    UnableToGetAuthTypeFromServer,
    /// The variant in use does not implement the operation.
    NotImplemented,
    /// The response did not satisfy the verification equations.
    Rejected,
}

/// Any failure of this library.
#[derive(Debug)]
pub enum AcpError {
    Authentication(AuthenticationError),
    Storage(StorageError),
}

/// Turns the status of a failed request into the error that reports it.
pub trait StatusAsError {
    /// The status as a plain value.
    spec fn as_status(&self) -> Status;

    fn map_status_to_err(&self) -> (e: AuthenticationError)
        ensures
            e matches AuthenticationError::UnableToAuthenticateWithServer { status }
                && status.code == self.as_status().code && status.message@
                == self.as_status().message@,
    ;
}

impl StatusAsError for Status {
    open spec fn as_status(&self) -> Status {
        *self
    }

    fn map_status_to_err(&self) -> (e: AuthenticationError) {
        AuthenticationError::UnableToAuthenticateWithServer { status: self.clone() }
    }
}

impl StorageError {
    /// The text of the error.
    pub open spec fn spec_message(self) -> Seq<char> {
        match self {
            StorageError::UnableToFindChallenge => "Unable to find challange"@,
            StorageError::UnableToFindRegistration => "Unable to find registration"@,
        }
    }

    /// The text shown for the error.
    pub fn message(&self) -> (r: String)
        ensures
            r@ == self.spec_message(),
    {
        match self {
            StorageError::UnableToFindChallenge => "Unable to find challange".to_owned(),
            StorageError::UnableToFindRegistration => "Unable to find registration".to_owned(),
        }
    }
}

impl AuthenticationError {
    /// The text of the error; a transport failure shows the status's message.
    pub open spec fn spec_message(self) -> Seq<char> {
        match self {
            AuthenticationError::UnableToAuthenticateWithServer { status } =>
                "Unable to authenticate with server: "@ + status.message@,
            AuthenticationError::CouldNotGetPassword => "Could not get password from user entry"@,
            AuthenticationError::UnableToGetAuthTypeFromServer =>
                "Unable to get the authentication type from the server"@,
            AuthenticationError::NotImplemented => "No support for Elliptic Curves yet"@,
            AuthenticationError::Rejected => "Unable to authenticate"@,
        }
    }

    /// The text shown for the error.
    pub fn message(&self) -> (r: String)
        ensures
            r@ == self.spec_message(),
    {
        match self {
            AuthenticationError::UnableToAuthenticateWithServer { status } => {
                "Unable to authenticate with server: ".to_owned().concat(status.message.as_str())
            },
            AuthenticationError::CouldNotGetPassword => {
                "Could not get password from user entry".to_owned()
            },
            AuthenticationError::UnableToGetAuthTypeFromServer => {
                "Unable to get the authentication type from the server".to_owned()
            },
            AuthenticationError::NotImplemented => "No support for Elliptic Curves yet".to_owned(),
            AuthenticationError::Rejected => "Unable to authenticate".to_owned(),
        }
    }
}

impl AcpError {
    /// The text of the error: its kind, then the text of what it wraps.
    pub open spec fn spec_message(self) -> Seq<char> {
        match self {
            AcpError::Authentication(e) => "Authentication error: "@ + e.spec_message(),
            AcpError::Storage(e) => "Storage error: "@ + e.spec_message(),
        }
    }

    /// The text shown for the error.
    pub fn message(&self) -> (r: String)
        ensures
            r@ == self.spec_message(),
    {
        match self {
            AcpError::Authentication(e) => {
                "Authentication error: ".to_owned().concat(e.message().as_str())
            },
            AcpError::Storage(e) => "Storage error: ".to_owned().concat(e.message().as_str()),
        }
    }

    /// The status that the service answers a failed verification with: a
    /// missing challenge or registration is `NOT_FOUND`, a proof that does
    /// not hold is `UNAUTHENTICATED`.
    pub open spec fn spec_status(self) -> (int, Seq<char>) {
        match self {
            AcpError::Storage(StorageError::UnableToFindChallenge) => (
                NOT_FOUND as int,
                "Unable to find prior challenge"@,
            ),
            AcpError::Storage(StorageError::UnableToFindRegistration) => (
                NOT_FOUND as int,
                "Unable to find prior registration"@,
            ),
            AcpError::Authentication(AuthenticationError::NotImplemented) => (
                UNIMPLEMENTED as int,
                "No support for Elliptic Curves yet"@,
            ),
            AcpError::Authentication(AuthenticationError::UnableToAuthenticateWithServer {
                status,
            }) => (status.code as int, status.message@),
            AcpError::Authentication(_) => (UNAUTHENTICATED as int, "Unable to authenticate"@),
        }
    }

    /// The status sent to the client for this failure.
    pub fn to_status(&self) -> (r: Status)
        ensures
            (r.code as int, r.message@) == self.spec_status(),
    {
        match self {
            AcpError::Storage(StorageError::UnableToFindChallenge) => Status {
                code: NOT_FOUND,
                message: "Unable to find prior challenge".to_owned(),
            },
            AcpError::Storage(StorageError::UnableToFindRegistration) => Status {
                code: NOT_FOUND,
                message: "Unable to find prior registration".to_owned(),
            },
            AcpError::Authentication(AuthenticationError::NotImplemented) => Status {
                code: UNIMPLEMENTED,
                message: "No support for Elliptic Curves yet".to_owned(),
            },
            AcpError::Authentication(AuthenticationError::UnableToAuthenticateWithServer {
                status,
            }) => status.clone(),
            AcpError::Authentication(_) => Status {
                code: UNAUTHENTICATED,
                message: "Unable to authenticate".to_owned(),
            },
        }
    }
}

} // verus!
