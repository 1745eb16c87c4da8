//! The settings that a server is started with.

use vstd::prelude::*;
use crate::authentication::{is_standard_variant, Authenticate};
use crate::server::{no_challenges, no_registrations, ServerState};
use crate::zkp_auth::AuthenticationType;

verus! {

/// The settings of a server.
#[derive(Clone, Copy, Debug)]
pub struct ServerArgs {
    /// The port on which to bind the authentication server.
    pub port: u32,
    /// Whether the server runs the elliptic-curve variant rather than the
    /// exponentiation variant.
    pub use_elliptic_curve: bool,
}

impl ServerArgs {
    /// The variant that the settings select.
    pub open spec fn spec_auth_type(&self) -> AuthenticationType {
        if self.use_elliptic_curve {
            AuthenticationType::EllipticCurve
        } else {
            AuthenticationType::Exponentiation
        }
    }

    /// A server with empty stores for the variant that the settings select.
    pub fn server_state(&self) -> (state: ServerState)
        ensures
            state.wf(),
            state.authenticator().kind() == self.spec_auth_type(),
            is_standard_variant(state.authenticator()),
            state.registrations() == no_registrations(),
            state.challenges() == no_challenges(),
    {
        ServerState::new(self.use_elliptic_curve)
    }
}

} // verus!
