use acp::authentication::ellipticcurve::EllipticCurve;
use acp::authentication::exponentiation::Exponentiation;
use acp::authentication::{get_authentication, Authenticate, Authenticator};
use acp::bignat::BigNat;
use acp::client::{get_auth_type, get_password, secret_of, ClientAuthenticator, ClientRegistrar};
use acp::errors::{AcpError, AuthenticationError, Status, StatusAsError, StorageError};
use acp::zkp_auth::{
    AuthTypeResponse, AuthenticationAnswerResponse, AuthenticationChallengeResponse,
    AuthenticationType, RegisterResponse,
};

fn unavailable() -> Status {
    Status {
        code: 14,
        message: "connection refused".to_string(),
    }
}

#[test]
fn authentication_type_has_a_name_and_a_number() {
    assert_eq!(AuthenticationType::Exponentiation.name(), "Exponentiation");
    assert_eq!(AuthenticationType::EllipticCurve.name(), "EllipticCurve");
    assert_eq!(AuthenticationType::Exponentiation.as_i32(), 0);
    assert_eq!(AuthenticationType::EllipticCurve.as_i32(), 1);
    assert_eq!(
        AuthenticationType::from_i32(0),
        Some(AuthenticationType::Exponentiation)
    );
    assert_eq!(
        AuthenticationType::from_i32(1),
        Some(AuthenticationType::EllipticCurve)
    );
    assert_eq!(AuthenticationType::from_i32(2), None);
    assert_eq!(AuthenticationType::from_i32(-1), None);
}

#[test]
fn auth_type_is_read_from_the_reply() {
    assert_eq!(
        get_auth_type(Ok(AuthTypeResponse { auth: 1 })).unwrap(),
        AuthenticationType::EllipticCurve
    );
    assert!(matches!(
        get_auth_type(Ok(AuthTypeResponse { auth: 7 })),
        Err(AuthenticationError::UnableToGetAuthTypeFromServer)
    ));
    assert!(matches!(
        get_auth_type(Err(unavailable())),
        Err(AuthenticationError::UnableToGetAuthTypeFromServer)
    ));
}

#[test]
fn get_authentication_selects_the_variant() {
    let a = get_authentication(AuthenticationType::Exponentiation);
    assert!(matches!(a, Authenticator::Exponentiation(_)));
    assert_eq!(a.auth_type(), AuthenticationType::Exponentiation);
    let (y1, _) = a.registration(&BigNat::from_u32(2)).unwrap();
    assert_eq!(y1, BigNat::from_u32(5833));
    let b = get_authentication(AuthenticationType::EllipticCurve);
    assert!(matches!(b, Authenticator::EllipticCurve(_)));
    assert_eq!(b.auth_type(), AuthenticationType::EllipticCurve);
}

#[test]
fn elliptic_curve_is_declared_and_not_implemented() {
    let e = EllipticCurve::new();
    let zero = BigNat::from_u32(0);
    assert_eq!(e.p, zero);
    assert_eq!(e.q, zero);
    assert_eq!(e.g, zero);
    assert_eq!(e.h, zero);
    assert_eq!(e.auth_type(), AuthenticationType::EllipticCurve);
    assert!(matches!(e.auth_id(), Err(AuthenticationError::NotImplemented)));
    assert!(matches!(e.session_id(), Err(AuthenticationError::NotImplemented)));
    assert!(matches!(e.get_random(), Err(AuthenticationError::NotImplemented)));
    assert!(matches!(e.challenge(), Err(AuthenticationError::NotImplemented)));
    assert!(matches!(
        e.registration(&zero),
        Err(AuthenticationError::NotImplemented)
    ));
    assert!(matches!(
        e.authentication(&zero),
        Err(AuthenticationError::NotImplemented)
    ));
    assert!(matches!(
        e.response(&zero, &zero, &zero),
        Err(AuthenticationError::NotImplemented)
    ));
    assert!(matches!(
        e.verify(&zero, &zero, &zero, &zero, &zero, &zero),
        Err(AuthenticationError::NotImplemented)
    ));
    let a = get_authentication(AuthenticationType::EllipticCurve);
    assert!(matches!(
        a.verify(&zero, &zero, &zero, &zero, &zero, &zero),
        Err(AuthenticationError::NotImplemented)
    ));
}

#[test]
fn password_is_read_as_a_number_byte_for_byte() {
    assert_eq!(secret_of("A"), BigNat::from_u32(65));
    assert_eq!(secret_of("AA"), BigNat::from_u32(16705));
    assert_eq!(secret_of(""), BigNat::from_u32(0));
    assert_ne!(secret_of(" A"), secret_of("A"));
    assert_eq!(
        get_password(Some(" s3cr3t ")).unwrap(),
        BigNat::from_bytes_be(b" s3cr3t ")
    );
    assert_ne!(
        get_password(Some(" s3cr3t ")).unwrap(),
        get_password(Some("s3cr3t")).unwrap()
    );
    assert_eq!(get_password(Some("AA\n")).unwrap(), BigNat::from_bytes_be(b"AA\n"));
    assert_eq!(get_password(Some("AA")).unwrap(), BigNat::from_u32(16705));
    assert_eq!(get_password(Some("A A")).unwrap(), secret_of("A A"));
    assert_eq!(get_password(Some("s3cr3t")).unwrap(), BigNat::from_bytes_be(b"s3cr3t"));
    assert!(matches!(
        get_password(None),
        Err(AuthenticationError::CouldNotGetPassword)
    ));
}

#[test]
fn registrar_builds_the_request() {
    let registrar = ClientRegistrar::new(Ok(AuthTypeResponse { auth: 0 })).unwrap();
    let request = registrar.register("alice", Some("\u{2}")).unwrap();
    assert_eq!(request.user, "alice");
    // 7069^2 mod 10009 = 5833 = 0x16c9
    assert_eq!(request.y1, vec![0x16u8, 0xc9]);
    // 8596^2 mod 10009 = 4778 = 0x12aa
    assert_eq!(request.y2, vec![0x12u8, 0xaa]);
    assert!(matches!(
        registrar.register("alice", None),
        Err(AuthenticationError::CouldNotGetPassword)
    ));
}

#[test]
fn registrar_needs_a_known_variant() {
    assert!(matches!(
        ClientRegistrar::new(Ok(AuthTypeResponse { auth: 9 })),
        Err(AuthenticationError::UnableToGetAuthTypeFromServer)
    ));
    assert!(matches!(
        ClientRegistrar::new(Err(unavailable())),
        Err(AuthenticationError::UnableToGetAuthTypeFromServer)
    ));
    let registrar = ClientRegistrar::new(Ok(AuthTypeResponse { auth: 1 })).unwrap();
    assert!(matches!(
        registrar.register("alice", Some("pw")),
        Err(AuthenticationError::NotImplemented)
    ));
    assert!(matches!(
        registrar.register("alice", None),
        Err(AuthenticationError::CouldNotGetPassword)
    ));
}

#[test]
fn registration_outcome_follows_the_reply() {
    assert!(ClientRegistrar::registered(Ok(RegisterResponse {})).unwrap());
    match ClientRegistrar::registered(Err(unavailable())) {
        Err(AuthenticationError::UnableToAuthenticateWithServer { status }) => {
            assert_eq!(status.code, 14);
            assert_eq!(status.message, "connection refused");
        }
        _ => panic!("a failed request should be reported with its status"),
    }
}

#[test]
fn authenticator_draws_a_nonce_in_range() {
    for _ in 0..50 {
        let client = ClientAuthenticator::new(Ok(AuthTypeResponse { auth: 0 })).unwrap();
        assert_ne!(client.k, BigNat::from_u32(0));
        assert_eq!(client.k.remainder(&BigNat::from_u32(139)), client.k);
        assert!(matches!(client.authenticator, Authenticator::Exponentiation(_)));
    }
    assert!(matches!(
        ClientAuthenticator::new(Ok(AuthTypeResponse { auth: 1 })),
        Err(AuthenticationError::NotImplemented)
    ));
    assert!(matches!(
        ClientAuthenticator::new(Ok(AuthTypeResponse { auth: 3 })),
        Err(AuthenticationError::UnableToGetAuthTypeFromServer)
    ));
    assert!(matches!(
        ClientAuthenticator::new(Err(unavailable())),
        Err(AuthenticationError::UnableToGetAuthTypeFromServer)
    ));
}

#[test]
fn authenticator_steps_with_a_fixed_nonce() {
    let e = Exponentiation::new();
    let client = ClientAuthenticator {
        authenticator: get_authentication(AuthenticationType::Exponentiation),
        k: BigNat::from_u32(10),
    };
    let (waiting, commitment) = client.authenticate("alice", Some("\u{5}")).unwrap();
    assert_eq!(commitment.user, "alice");
    let (r1, r2) = e.authentication(&BigNat::from_u32(10)).unwrap();
    assert_eq!(commitment.r1, r1.to_bytes_be());
    assert_eq!(commitment.r2, r2.to_bytes_be());
    let (waiting, answer) = waiting
        .answer(Ok(AuthenticationChallengeResponse {
            auth_id: "attempt-1".to_string(),
            c: vec![7],
        }))
        .unwrap();
    assert_eq!(answer.auth_id, "attempt-1");
    // 10 - 7 * 5 = -25, which is 114 = 0x72 modulo 139
    assert_eq!(answer.s, vec![0x72u8]);
    assert!(waiting
        .conclude(Ok(AuthenticationAnswerResponse {
            session_id: "token".to_string(),
        }))
        .unwrap());
}

#[test]
fn authenticator_reports_failures() {
    let client = ClientAuthenticator::new(Ok(AuthTypeResponse { auth: 0 })).unwrap();
    assert!(matches!(
        client.authenticate("alice", None),
        Err(AuthenticationError::CouldNotGetPassword)
    ));
    let client = ClientAuthenticator::new(Ok(AuthTypeResponse { auth: 0 })).unwrap();
    let (waiting, _) = client.authenticate("alice", Some("pw")).unwrap();
    match waiting.answer(Err(unavailable())) {
        Err(AuthenticationError::UnableToAuthenticateWithServer { status }) => {
            assert_eq!(status.code, 14);
        }
        _ => panic!("a failed request should be reported with its status"),
    }
    let client = ClientAuthenticator::new(Ok(AuthTypeResponse { auth: 0 })).unwrap();
    let (waiting, _) = client.authenticate("alice", Some("pw")).unwrap();
    let (waiting, _) = waiting
        .answer(Ok(AuthenticationChallengeResponse {
            auth_id: "id".to_string(),
            c: vec![1],
        }))
        .unwrap();
    match waiting.conclude(Err(Status {
        code: 16,
        message: "Unable to authenticate".to_string(),
    })) {
        Err(AuthenticationError::UnableToAuthenticateWithServer { status }) => {
            assert_eq!(status.code, 16);
            assert_eq!(status.message, "Unable to authenticate");
        }
        _ => panic!("a rejection should be reported with its status"),
    }
}

#[test]
fn errors_have_their_texts() {
    assert_eq!(
        StorageError::UnableToFindChallenge.message(),
        "Unable to find challange"
    );
    assert_eq!(
        StorageError::UnableToFindRegistration.message(),
        "Unable to find registration"
    );
    assert_eq!(
        AuthenticationError::CouldNotGetPassword.message(),
        "Could not get password from user entry"
    );
    assert_eq!(
        AuthenticationError::UnableToGetAuthTypeFromServer.message(),
        "Unable to get the authentication type from the server"
    );
    assert_eq!(
        AuthenticationError::UnableToAuthenticateWithServer {
            status: unavailable()
        }
        .message(),
        "Unable to authenticate with server: connection refused"
    );
    assert_eq!(
        AcpError::Storage(StorageError::UnableToFindChallenge).message(),
        "Storage error: Unable to find challange"
    );
    assert_eq!(
        AcpError::Authentication(AuthenticationError::CouldNotGetPassword).message(),
        "Authentication error: Could not get password from user entry"
    );
}

#[test]
fn status_becomes_an_error() {
    let status = unavailable();
    match status.map_status_to_err() {
        AuthenticationError::UnableToAuthenticateWithServer { status: inner } => {
            assert_eq!(inner.code, status.code);
            assert_eq!(inner.message, status.message);
        }
        _ => panic!("a status maps to the error that carries it"),
    }
    let passed_on = AcpError::Authentication(status.map_status_to_err()).to_status();
    assert_eq!(passed_on.code, 14);
    assert_eq!(passed_on.message, "connection refused");
}
