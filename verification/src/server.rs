//! The verifier: it takes registrations, issues challenges and verifies the
//! responses to them.

use vstd::prelude::*;
use moka::sync::Cache;
use crate::authentication::common::is_identifier;
use crate::authentication::exponentiation::{lemma_honest_run_is_accepted, Exponentiation};
use crate::authentication::{
    get_authentication, is_standard_variant, Authenticate, Authenticator, AUTH_ID_LENGTH,
    SESSION_ID_LENGTH,
};
use crate::bignat::{be_value, is_minimal, BigNat};
use crate::errors::{AcpError, AuthenticationError, StorageError};
use crate::store::{
    challenge_entries, get_challenge, get_registration, insert_challenge, insert_registration,
    keeps_challenges, keeps_registrations, new_challenges, new_registrations,
    registration_entries,
};
use crate::zkp_auth::{
    AuthTypeRequest, AuthTypeResponse, AuthenticationAnswerRequest, AuthenticationAnswerResponse,
    AuthenticationChallengeRequest, AuthenticationChallengeResponse, AuthenticationType,
    RegisterRequest, RegisterResponse,
};

verus! {

/// A user's registration: the public values derived from the secret.
#[derive(Debug)]
pub struct Registration {
    user: String,
    y1: BigNat,
    y2: BigNat,
}

/// A registration as plain values.
pub struct RegistrationView {
    pub user: Seq<char>,
    pub y1: nat,
    pub y2: nat,
}

impl View for Registration {
    type V = RegistrationView;

    closed spec fn view(&self) -> RegistrationView {
        RegistrationView { user: self.user@, y1: self.y1@, y2: self.y2@ }
    }
}

impl Clone for Registration {
    fn clone(&self) -> (r: Self)
        ensures
            r@ == self@,
    {
        Registration { user: self.user.clone(), y1: self.y1.clone(), y2: self.y2.clone() }
    }
}

/// An open challenge: the commitment of one attempt and the challenge that
/// the server answered it with.
#[derive(Debug)]
pub struct Challenge {
    user: String,
    r1: BigNat,
    r2: BigNat,
    c: BigNat,
}

/// A challenge as plain values.
pub struct ChallengeView {
    pub user: Seq<char>,
    pub r1: nat,
    pub r2: nat,
    pub c: nat,
}

impl View for Challenge {
    type V = ChallengeView;

    closed spec fn view(&self) -> ChallengeView {
        ChallengeView { user: self.user@, r1: self.r1@, r2: self.r2@, c: self.c@ }
    }
}

impl Clone for Challenge {
    fn clone(&self) -> (r: Self)
        ensures
            r@ == self@,
    {
        Challenge {
            user: self.user.clone(),
            r1: self.r1.clone(),
            r2: self.r2.clone(),
            c: self.c.clone(),
        }
    }
}

/// The empty store of registrations.
pub open spec fn no_registrations() -> Map<Seq<char>, RegistrationView> {
    Map::empty()
}

/// The empty store of challenges.
pub open spec fn no_challenges() -> Map<Seq<char>, ChallengeView> {
    Map::empty()
}

/// What a verification decides, from the variant in use, the two stores, the
/// identifier of the attempt and the response: a missing challenge, then a
/// missing registration of the challenge's user, then the verification
/// equations.
pub open spec fn decide(
    authenticator: Authenticator,
    registrations: Map<Seq<char>, RegistrationView>,
    challenges: Map<Seq<char>, ChallengeView>,
    auth_id: Seq<char>,
    s: nat,
) -> Result<(), AcpError> {
    if !challenges.dom().contains(auth_id) {
        Err(AcpError::Storage(StorageError::UnableToFindChallenge))
    } else if !registrations.dom().contains(challenges[auth_id].user) {
        Err(AcpError::Storage(StorageError::UnableToFindRegistration))
    } else if !authenticator.implemented() {
        Err(AcpError::Authentication(AuthenticationError::NotImplemented))
    } else {
        let challenge = challenges[auth_id];
        let registration = registrations[challenge.user];
        if authenticator.accepts(
            registration.y1,
            registration.y2,
            challenge.r1,
            challenge.r2,
            s,
            challenge.c,
        ) {
            Ok(())
        } else {
            Err(AcpError::Authentication(AuthenticationError::Rejected))
        }
    }
}

/// The registration that a request asks to store.
pub open spec fn requested_registration(request: RegisterRequest) -> RegistrationView {
    RegistrationView {
        user: request.user@,
        y1: be_value(request.y1@),
        y2: be_value(request.y2@),
    }
}

/// The challenge that is stored for a request and the challenge `c`.
pub open spec fn requested_challenge(
    request: AuthenticationChallengeRequest,
    c: nat,
) -> ChallengeView {
    ChallengeView {
        user: request.user@,
        r1: be_value(request.r1@),
        r2: be_value(request.r2@),
        c,
    }
}

/// The server's state: the variant in use and the two stores.
pub struct ServerState {
    authenticator: Authenticator,
    registrations: Cache<String, Registration>,
    challenges: Cache<String, Challenge>,
}

impl ServerState {
    /// The variant is fit for use and neither store drops an entry.
    pub closed spec fn wf(&self) -> bool {
        &&& self.authenticator.wf()
        &&& keeps_registrations(self.registrations)
        &&& keeps_challenges(self.challenges)
    }

    /// The variant in use.
    pub closed spec fn authenticator(&self) -> Authenticator {
        self.authenticator
    }

    /// The registrations held, by user.
    pub closed spec fn registrations(&self) -> Map<Seq<char>, RegistrationView> {
        registration_entries(self.registrations)
    }

    /// The open challenges, by the identifier of the attempt.
    pub closed spec fn challenges(&self) -> Map<Seq<char>, ChallengeView> {
        challenge_entries(self.challenges)
    }

    /// The stores hold what the sequence of changes leaves in empty stores.
    pub open spec fn reflects(&self, events: Seq<StoreEvent>) -> bool {
        &&& self.registrations() == registrations_after(events)
        &&& self.challenges() == challenges_after(events)
    }

    /// The variant of a well-formed server is fit for use.
    pub proof fn lemma_wf_authenticator(&self)
        requires
            self.wf(),
        ensures
            self.authenticator().wf(),
    {
    }

    /// What a verification of the response `s` to the attempt decides.
    pub open spec fn verdict(&self, auth_id: Seq<char>, s: nat) -> Result<(), AcpError> {
        decide(self.authenticator(), self.registrations(), self.challenges(), auth_id, s)
    }

    /// A server with empty stores, for the variant chosen.
    pub fn new(use_ec: bool) -> (r: Self)
        ensures
            r.wf(),
            r.authenticator().kind() == if use_ec {
                AuthenticationType::EllipticCurve
            } else {
                AuthenticationType::Exponentiation
            },
            is_standard_variant(r.authenticator()),
            r.registrations() == no_registrations(),
            r.challenges() == no_challenges(),
            r.reflects(Seq::empty()),
    {
        let auth = if use_ec {
            AuthenticationType::EllipticCurve
        } else {
            AuthenticationType::Exponentiation
        };
        let authenticator = get_authentication(auth);
        ServerState {
            authenticator,
            registrations: new_registrations(),
            challenges: new_challenges(),
        }
    }

    /// The number of the variant in use. This always succeeds.
    pub fn get_auth_type(&self, request: AuthTypeRequest) -> (r: AuthTypeResponse)
        ensures
            r.auth == self.authenticator().kind().spec_code(),
    {
        AuthTypeResponse { auth: self.authenticator.auth_type().as_i32() }
    }

    /// Stores the registration of the request's user, in place of an earlier
    /// one. This always succeeds.
    pub fn register(&mut self, request: RegisterRequest) -> (r: RegisterResponse)
        requires
            old(self).wf(),
        ensures
            final(self).wf(),
            final(self).registrations() == old(self).registrations().insert(
                request.user@,
                requested_registration(request),
            ),
            final(self).challenges() == old(self).challenges(),
            final(self).authenticator() == old(self).authenticator(),
            forall|events: Seq<StoreEvent>| #[trigger]
                old(self).reflects(events) ==> final(self).reflects(
                    events.push(StoreEvent::Registered(requested_registration(request))),
                ),
    {
        proof {
            assert forall|events: Seq<StoreEvent>| #[trigger] old(self).reflects(events) implies ({
                let event = StoreEvent::Registered(requested_registration(request));
                &&& registrations_after(events.push(event)) == registrations_after(events).insert(
                    request.user@,
                    requested_registration(request),
                )
                &&& challenges_after(events.push(event)) == challenges_after(events)
            }) by {
                lemma_events_push(events, StoreEvent::Registered(requested_registration(request)));
            }
        }
        let reg = Registration {
            y1: BigNat::from_bytes_be(request.y1.as_slice()),
            y2: BigNat::from_bytes_be(request.y2.as_slice()),
            user: request.user,
        };
        insert_registration(&mut self.registrations, reg.user.clone(), reg);
        RegisterResponse {  }
    }

    /// Opens an attempt under a given identifier and with a given challenge:
    /// the commitment of the request and the challenge are stored under the
    /// identifier, in place of what was stored under it, and both are
    /// returned to the client.
    pub fn store_challenge(
        &mut self,
        request: AuthenticationChallengeRequest,
        auth_id: String,
        c: BigNat,
    ) -> (r: AuthenticationChallengeResponse)
        requires
            old(self).wf(),
        ensures
            final(self).wf(),
            final(self).challenges() == old(self).challenges().insert(
                auth_id@,
                requested_challenge(request, c@),
            ),
            final(self).registrations() == old(self).registrations(),
            final(self).authenticator() == old(self).authenticator(),
            r.auth_id@ == auth_id@,
            be_value(r.c@) == c@,
            is_minimal(r.c@),
            forall|events: Seq<StoreEvent>| #[trigger]
                old(self).reflects(events) ==> final(self).reflects(
                    events.push(StoreEvent::Challenged(auth_id@, requested_challenge(request, c@))),
                ),
    {
        proof {
            assert forall|events: Seq<StoreEvent>| #[trigger] old(self).reflects(events) implies ({
                let event = StoreEvent::Challenged(auth_id@, requested_challenge(request, c@));
                &&& registrations_after(events.push(event)) == registrations_after(events)
                &&& challenges_after(events.push(event)) == challenges_after(events).insert(
                    auth_id@,
                    requested_challenge(request, c@),
                )
            }) by {
                lemma_events_push(
                    events,
                    StoreEvent::Challenged(auth_id@, requested_challenge(request, c@)),
                );
            }
        }
        let bytes = c.to_bytes_be();
        let chal = Challenge {
            r1: BigNat::from_bytes_be(request.r1.as_slice()),
            r2: BigNat::from_bytes_be(request.r2.as_slice()),
            user: request.user,
            c,
        };
        insert_challenge(&mut self.challenges, auth_id.clone(), chal);
        AuthenticationChallengeResponse { auth_id, c: bytes }
    }

    /// Opens an attempt: draws a fresh identifier and a challenge of
    /// `[1, order)`, and stores them with the commitment of the request.
    /// The user need not be registered. A variant that is not implemented
    /// leaves the stores as they are.
    pub fn create_authentication_challenge(
        &mut self,
        request: AuthenticationChallengeRequest,
    ) -> (r: Result<AuthenticationChallengeResponse, AcpError>)
        requires
            old(self).wf(),
        ensures
            final(self).wf(),
            final(self).registrations() == old(self).registrations(),
            final(self).authenticator() == old(self).authenticator(),
            r is Ok <==> old(self).authenticator().implemented(),
            r matches Ok(response) ==> {
                &&& is_identifier(response.auth_id@, AUTH_ID_LENGTH as nat)
                &&& 1 <= be_value(response.c@) < old(self).authenticator().order()
                &&& final(self).challenges() == old(self).challenges().insert(
                    response.auth_id@,
                    requested_challenge(request, be_value(response.c@)),
                )
                &&& forall|events: Seq<StoreEvent>| #[trigger]
                    old(self).reflects(events) ==> final(self).reflects(
                        events.push(
                            StoreEvent::Challenged(
                                response.auth_id@,
                                requested_challenge(request, be_value(response.c@)),
                            ),
                        ),
                    )
            },
            r matches Err(e) ==> {
                &&& e == AcpError::Authentication(AuthenticationError::NotImplemented)
                &&& final(self).challenges() == old(self).challenges()
            },
    {
        let auth_id = match self.authenticator.auth_id() {
            Ok(id) => id,
            Err(e) => { return Err(AcpError::Authentication(e)); },
        };
        let challenge = match self.authenticator.challenge() {
            Ok(c) => c,
            Err(e) => { return Err(AcpError::Authentication(e)); },
        };
        Ok(self.store_challenge(request, auth_id, challenge))
    }

    /// Decides on a response: the challenge of the attempt is looked up,
    /// then the registration of the challenge's user, then the equations
    /// are checked. The stores stay as they are, so the same response to
    /// the same attempt is decided alike again.
    pub fn check_response(&self, request: &AuthenticationAnswerRequest) -> (r: Result<
        (),
        AcpError,
    >)
        requires
            self.wf(),
        ensures
            r == self.verdict(request.auth_id@, be_value(request.s@)),
    {
        let s = BigNat::from_bytes_be(request.s.as_slice());
        let challenge = match get_challenge(&self.challenges, &request.auth_id) {
            Some(challenge) => challenge,
            None => { return Err(AcpError::Storage(StorageError::UnableToFindChallenge)); },
        };
        let registration = match get_registration(&self.registrations, &challenge.user) {
            Some(registration) => registration,
            None => { return Err(AcpError::Storage(StorageError::UnableToFindRegistration)); },
        };
        let verified = self.authenticator.verify(
            &registration.y1,
            &registration.y2,
            &challenge.r1,
            &challenge.r2,
            &s,
            &challenge.c,
        );
        match verified {
            Ok(true) => Ok(()),
            Ok(false) => Err(AcpError::Authentication(AuthenticationError::Rejected)),
            Err(_) => Err(AcpError::Authentication(AuthenticationError::NotImplemented)),
        }
    }

    /// Verifies a response and, where it is accepted, issues a fresh session
    /// token. Every other verdict is returned as the error that it is.
    pub fn verify_authentication(&self, request: AuthenticationAnswerRequest) -> (r: Result<
        AuthenticationAnswerResponse,
        AcpError,
    >)
        requires
            self.wf(),
        ensures
            r is Ok <==> self.verdict(request.auth_id@, be_value(request.s@)) is Ok,
            r matches Ok(response) ==> is_identifier(
                response.session_id@,
                SESSION_ID_LENGTH as nat,
            ),
            r matches Err(e) ==> (self.verdict(request.auth_id@, be_value(request.s@)) matches Err(
                d,
            ) && d == e),
    {
        match self.check_response(&request) {
            Ok(()) => {},
            Err(e) => { return Err(e); },
        }
        match self.authenticator.session_id() {
            Ok(session_id) => Ok(AuthenticationAnswerResponse { session_id }),
            Err(e) => Err(AcpError::Authentication(e)),
        }
    }
}

/// One change of the stores: a registration that was taken, or an attempt
/// that was opened under an identifier.
pub enum StoreEvent {
    Registered(RegistrationView),
    Challenged(Seq<char>, ChallengeView),
}

/// The registrations held after a sequence of changes to empty stores: each
/// registration is held under its user, a later one in place of an earlier.
pub open spec fn registrations_after(events: Seq<StoreEvent>) -> Map<Seq<char>, RegistrationView>
    decreases events.len(),
{
    if events.len() == 0 {
        no_registrations()
    } else {
        let before = registrations_after(events.drop_last());
        match events.last() {
            StoreEvent::Registered(registration) => before.insert(registration.user, registration),
            StoreEvent::Challenged(_, _) => before,
        }
    }
}

/// The challenges held after a sequence of changes to empty stores: each is
/// held under the identifier of its attempt.
pub open spec fn challenges_after(events: Seq<StoreEvent>) -> Map<Seq<char>, ChallengeView>
    decreases events.len(),
{
    if events.len() == 0 {
        no_challenges()
    } else {
        let before = challenges_after(events.drop_last());
        match events.last() {
            StoreEvent::Registered(_) => before,
            StoreEvent::Challenged(auth_id, challenge) => before.insert(auth_id, challenge),
        }
    }
}

/// What one more change does to the stores.
pub proof fn lemma_events_push(events: Seq<StoreEvent>, event: StoreEvent)
    ensures
        registrations_after(events.push(event)) == match event {
            StoreEvent::Registered(registration) => registrations_after(events).insert(
                registration.user,
                registration,
            ),
            StoreEvent::Challenged(_, _) => registrations_after(events),
        },
        challenges_after(events.push(event)) == match event {
            StoreEvent::Registered(_) => challenges_after(events),
            StoreEvent::Challenged(auth_id, challenge) => challenges_after(events).insert(
                auth_id,
                challenge,
            ),
        },
{
    assert(events.push(event).drop_last() =~= events);
}

/// A challenge is held under an identifier only if an attempt was opened
/// under it.
pub proof fn lemma_challenges_come_from_attempts(events: Seq<StoreEvent>, auth_id: Seq<char>)
    requires
        challenges_after(events).dom().contains(auth_id),
    ensures
        exists|i: int|
            0 <= i < events.len() && (#[trigger] events[i] matches StoreEvent::Challenged(id, _)
                && id == auth_id),
    decreases events.len(),
{
    if events.len() > 0 {
        let earlier = events.drop_last();
        let last = (events.len() - 1) as int;
        if events[last] matches StoreEvent::Challenged(id, _) && id == auth_id {
        } else {
            lemma_challenges_come_from_attempts(earlier, auth_id);
            let i = choose|i: int|
                0 <= i < earlier.len() && (#[trigger] earlier[i] matches StoreEvent::Challenged(
                    id,
                    _,
                ) && id == auth_id);
            assert(events[i] == earlier[i]);
        }
    }
}

/// A registration is held for a user only if that user was registered.
pub proof fn lemma_registrations_come_from_requests(events: Seq<StoreEvent>, user: Seq<char>)
    requires
        registrations_after(events).dom().contains(user),
    ensures
        exists|i: int|
            0 <= i < events.len() && (#[trigger] events[i] matches StoreEvent::Registered(
                registration,
            ) && registration.user == user),
    decreases events.len(),
{
    if events.len() > 0 {
        let earlier = events.drop_last();
        let last = (events.len() - 1) as int;
        if events[last] matches StoreEvent::Registered(registration) && registration.user == user {
        } else {
            lemma_registrations_come_from_requests(earlier, user);
            let i = choose|i: int|
                0 <= i < earlier.len() && (#[trigger] earlier[i] matches StoreEvent::Registered(
                    registration,
                ) && registration.user == user);
            assert(events[i] == earlier[i]);
        }
    }
}

/// Store consistency, first half: whatever was registered and whatever
/// attempts were opened, a response to an identifier under which no attempt
/// was opened is answered with "challenge not found".
pub proof fn lemma_unknown_attempt_is_not_found(
    authenticator: Authenticator,
    events: Seq<StoreEvent>,
    auth_id: Seq<char>,
    s: nat,
)
    requires
        forall|i: int|
            0 <= i < events.len() ==> !(#[trigger] events[i] matches StoreEvent::Challenged(id, _)
                && id == auth_id),
    ensures
        decide(authenticator, registrations_after(events), challenges_after(events), auth_id, s)
            == Err::<(), AcpError>(AcpError::Storage(StorageError::UnableToFindChallenge)),
{
    if challenges_after(events).dom().contains(auth_id) {
        lemma_challenges_come_from_attempts(events, auth_id);
    }
}

/// Store consistency, second half: a response to an attempt that was opened
/// for a user who was never registered is answered with "registration not
/// found", although the challenge is held.
pub proof fn lemma_unregistered_user_is_not_found(
    authenticator: Authenticator,
    events: Seq<StoreEvent>,
    auth_id: Seq<char>,
    s: nat,
)
    requires
        challenges_after(events).dom().contains(auth_id),
        forall|i: int|
            0 <= i < events.len() ==> !(#[trigger] events[i] matches StoreEvent::Registered(
                registration,
            ) && registration.user == challenges_after(events)[auth_id].user),
    ensures
        decide(authenticator, registrations_after(events), challenges_after(events), auth_id, s)
            == Err::<(), AcpError>(AcpError::Storage(StorageError::UnableToFindRegistration)),
{
    let user = challenges_after(events)[auth_id].user;
    if registrations_after(events).dom().contains(user) {
        lemma_registrations_come_from_requests(events, user);
    }
}

/// Registering a user again overwrites: after two registrations of one user
/// every verification is decided as if only the second had been made.
pub proof fn lemma_reregistration_overwrites(
    authenticator: Authenticator,
    registrations: Map<Seq<char>, RegistrationView>,
    challenges: Map<Seq<char>, ChallengeView>,
    first: RegistrationView,
    second: RegistrationView,
    auth_id: Seq<char>,
    s: nat,
)
    requires
        first.user == second.user,
    ensures
        registrations.insert(first.user, first).insert(second.user, second)
            == registrations.insert(second.user, second),
        decide(
            authenticator,
            registrations.insert(first.user, first).insert(second.user, second),
            challenges,
            auth_id,
            s,
        ) == decide(authenticator, registrations.insert(second.user, second), challenges, auth_id, s),
{
    assert(registrations.insert(first.user, first).insert(second.user, second)
        =~= registrations.insert(second.user, second));
}

/// An honest attempt is verified: where the user's registration is that of
/// a secret, and the attempt holds the commitment to a nonce together with
/// any challenge, the response computed from the three is accepted.
pub proof fn lemma_honest_attempt_is_verified(
    group: Exponentiation,
    registrations: Map<Seq<char>, RegistrationView>,
    challenges: Map<Seq<char>, ChallengeView>,
    auth_id: Seq<char>,
    secret: nat,
    nonce: nat,
)
    requires
        group.wf(),
        challenges.dom().contains(auth_id),
        registrations.dom().contains(challenges[auth_id].user),
        (challenges[auth_id].r1, challenges[auth_id].r2) == group.commitment(nonce),
        ({
            let registration = registrations[challenges[auth_id].user];
            (registration.y1, registration.y2) == group.commitment(secret)
        }),
    ensures
        decide(
            Authenticator::Exponentiation(group),
            registrations,
            challenges,
            auth_id,
            group.response_to(nonce, secret, challenges[auth_id].c),
        ) is Ok,
{
    lemma_honest_run_is_accepted(group, secret, nonce, challenges[auth_id].c);
}

} // verus!
