use acp::authentication::exponentiation::Exponentiation;
use acp::authentication::Authenticate;
use acp::bignat::BigNat;
use acp::zkp_auth::AuthenticationType;

fn n(value: u32) -> BigNat {
    BigNat::from_u32(value)
}

#[test]
fn g_should_be_a_generator_of_prime_order() {
    let e = Exponentiation::new();
    let should_be_one = e.g.modpow(&e.q, &e.p);
    assert_eq!(
        should_be_one,
        BigNat::from_u32(1u32),
        "g is not a generator of the group"
    );
}

#[test]
fn h_should_be_a_generator_of_prime_order() {
    let e = Exponentiation::new();
    let should_be_one = e.h.modpow(&e.q, &e.p);
    assert_eq!(
        should_be_one,
        BigNat::from_u32(1u32),
        "h is not a generator of the group"
    );
}

#[test]
fn standard_parameters_are_the_documented_ones() {
    let e = Exponentiation::new();
    assert_eq!(e.p, n(10009));
    assert_eq!(e.q, n(139));
    assert_eq!(e.g, n(7069));
    assert_eq!(e.h, n(8596));
    assert_eq!(e.auth_type(), AuthenticationType::Exponentiation);
}

#[test]
fn registration_gives_the_powers_of_both_generators() {
    let e = Exponentiation::new();
    let (y1, y2) = e.registration(&n(2)).unwrap();
    assert_eq!(y1, n(5833));
    assert_eq!(y2, n(4778));
    let (z1, z2) = e.registration(&n(0)).unwrap();
    assert_eq!(z1, n(1));
    assert_eq!(z2, n(1));
}

#[test]
fn authentication_commits_to_the_nonce() {
    let e = Exponentiation::new();
    let (r1, r2) = e.authentication(&n(9)).unwrap();
    assert_eq!(r1, n(385));
    assert_eq!(r2, n(4073));
}

#[test]
fn response_is_the_reduced_difference() {
    let e = Exponentiation::new();
    // 100 - 7 * 5 = 65
    assert_eq!(e.response(&n(100), &n(5), &n(7)).unwrap(), n(65));
    // 10 - 7 * 5 = -25, which is 114 modulo 139
    assert_eq!(e.response(&n(10), &n(5), &n(7)).unwrap(), n(114));
    // 35 - 7 * 5 = 0
    assert_eq!(e.response(&n(35), &n(5), &n(7)).unwrap(), n(0));
}

#[test]
fn response_is_normalized_when_the_difference_is_negative() {
    let e = Exponentiation::new();
    let secret = n(3);
    let nonce = n(1);
    let challenge = n(2);
    let s = e.response(&nonce, &secret, &challenge).unwrap();
    assert_eq!(s, n(134));
    let (y1, y2) = e.registration(&secret).unwrap();
    let (r1, r2) = e.authentication(&nonce).unwrap();
    assert!(e.verify(&y1, &y2, &r1, &r2, &s, &challenge).unwrap());
}

#[test]
fn honest_run_is_accepted_for_fixed_values() {
    let e = Exponentiation::new();
    let secret = BigNat::from_bytes_be(b"s3cr3t");
    let nonce = n(4242);
    let challenge = n(1234);
    let (y1, y2) = e.registration(&secret).unwrap();
    let (r1, r2) = e.authentication(&nonce).unwrap();
    let s = e.response(&nonce, &secret, &challenge).unwrap();
    assert!(e.verify(&y1, &y2, &r1, &r2, &s, &challenge).unwrap());
}

#[test]
fn test_full_authentication() {
    let e = Exponentiation::new();
    let passwords: [&[u8]; 6] = [
        b"0123456789",
        b"correct horse battery staple",
        b"a",
        b"",
        b"ZZZZZZZZZZZZZZZZZZZZ",
        b"\x00\x00leading zeros",
    ];
    for password in passwords.iter() {
        for _ in 0..20 {
            let secret = BigNat::from_bytes_be(password);
            let (y1, y2) = e.registration(&secret).unwrap();
            let k = e.get_random().unwrap();
            let (r1, r2) = e.authentication(&k).unwrap();
            let c = e.challenge().unwrap();
            let s = e.response(&k, &secret, &c).unwrap();
            let auth = e.verify(&y1, &y2, &r1, &r2, &s, &c).unwrap();
            assert!(auth, "Authentication should have been successful");
        }
    }
}

#[test]
fn wrong_secret_is_rejected() {
    let e = Exponentiation::new();
    let (y1, y2) = e.registration(&n(5)).unwrap();
    let nonce = n(10);
    let challenge = n(7);
    let (r1, r2) = e.authentication(&nonce).unwrap();
    let forged = e.response(&nonce, &n(6), &challenge).unwrap();
    assert_eq!(forged, n(107));
    assert!(!e.verify(&y1, &y2, &r1, &r2, &forged, &challenge).unwrap());
}

#[test]
fn wrong_nonce_is_rejected() {
    let e = Exponentiation::new();
    let secret = n(5);
    let (y1, y2) = e.registration(&secret).unwrap();
    let challenge = n(7);
    let (r1, r2) = e.authentication(&n(10)).unwrap();
    let forged = e.response(&n(11), &secret, &challenge).unwrap();
    assert!(!e.verify(&y1, &y2, &r1, &r2, &forged, &challenge).unwrap());
}

#[test]
fn verify_checks_both_equations() {
    let e = Exponentiation::new();
    let secret = n(5);
    let nonce = n(10);
    let challenge = n(7);
    let (y1, y2) = e.registration(&secret).unwrap();
    let (r1, r2) = e.authentication(&nonce).unwrap();
    let s = e.response(&nonce, &secret, &challenge).unwrap();
    assert!(e.verify(&y1, &y2, &r1, &r2, &s, &challenge).unwrap());
    assert!(!e.verify(&y1, &y2, &r2, &r2, &s, &challenge).unwrap());
    assert!(!e.verify(&y1, &y2, &r1, &r1, &s, &challenge).unwrap());
    assert!(!e.verify(&y2, &y2, &r1, &r2, &s, &challenge).unwrap());
    assert!(!e.verify(&y1, &y1, &r1, &r2, &s, &challenge).unwrap());
}

#[test]
fn verify_compares_modulo_p() {
    let e = Exponentiation::new();
    let secret = n(5);
    let nonce = n(10);
    let challenge = n(7);
    let (y1, y2) = e.registration(&secret).unwrap();
    let (r1, r2) = e.authentication(&nonce).unwrap();
    let s = e.response(&nonce, &secret, &challenge).unwrap();
    // r1 + p is congruent to r1.
    let shifted = BigNat::from_u32(10009 + 9126);
    assert_eq!(shifted.remainder(&e.p), r1);
    assert!(e.verify(&y1, &y2, &shifted, &r2, &s, &challenge).unwrap());
}

#[test]
fn random_scalars_lie_in_range() {
    let e = Exponentiation::new();
    for _ in 0..200 {
        let k = e.get_random().unwrap();
        let bytes = k.to_bytes_be();
        let mut value: u64 = 0;
        for b in bytes.iter() {
            value = value * 256 + *b as u64;
        }
        assert!(1 <= value && value < 139);
        let c = e.challenge().unwrap();
        assert_ne!(c, n(0));
        assert_eq!(c.remainder(&e.q), c);
    }
}

#[test]
fn nonces_of_two_attempts_are_drawn_independently() {
    let e = Exponentiation::new();
    let trials = 400;
    let mut equal = 0;
    for _ in 0..trials {
        let first = e.get_random().unwrap();
        let second = e.get_random().unwrap();
        if first == second {
            equal += 1;
        }
    }
    // Two independent draws from 138 values agree about once in 138 times.
    assert!(equal < 30);
}

#[test]
fn identifiers_have_the_documented_lengths() {
    let e = Exponentiation::new();
    let auth_id = e.auth_id().unwrap();
    let session_id = e.session_id().unwrap();
    assert_eq!(auth_id.len(), 50);
    assert_eq!(session_id.len(), 100);
    assert!(auth_id.chars().all(|c| c.is_ascii_alphanumeric()));
    assert!(session_id.chars().all(|c| c.is_ascii_alphanumeric()));
    assert_ne!(auth_id, e.auth_id().unwrap());
}

#[test]
fn secrets_congruent_modulo_q_register_alike() {
    let e = Exponentiation::new();
    let (y1, y2) = e.registration(&n(5)).unwrap();
    let (z1, z2) = e.registration(&n(5 + 139)).unwrap();
    assert_eq!(y1, z1);
    assert_eq!(y2, z2);
    assert_eq!(
        e.response(&n(10), &n(5), &n(7)).unwrap(),
        e.response(&n(10), &n(5 + 139), &n(7)).unwrap()
    );
}

#[test]
fn only_the_honest_response_below_q_is_accepted() {
    let e = Exponentiation::new();
    let secret = n(1234);
    let nonce = n(4321);
    let challenge = n(77);
    let (y1, y2) = e.registration(&secret).unwrap();
    let (r1, r2) = e.authentication(&nonce).unwrap();
    let honest = e.response(&nonce, &secret, &challenge).unwrap();
    let mut accepted = 0;
    for s in 0..139u32 {
        if e.verify(&y1, &y2, &r1, &r2, &n(s), &challenge).unwrap() {
            assert_eq!(n(s), honest);
            accepted += 1;
        }
    }
    assert_eq!(accepted, 1);
}

#[test]
fn no_smaller_power_of_the_generators_is_one() {
    let e = Exponentiation::new();
    for d in 1..139u32 {
        assert_ne!(e.g.modpow(&n(d), &e.p), n(1));
        assert_ne!(e.h.modpow(&n(d), &e.p), n(1));
    }
    assert_eq!(e.g.modpow(&n(139), &e.p), n(1));
    assert_eq!(e.h.modpow(&n(139), &e.p), n(1));
}

#[test]
fn standard_group_has_prime_order() {
    let e = Exponentiation::new();
    // q divides p - 1: 10008 = 139 * 72
    assert_eq!(n(10008).remainder(&e.q), n(0));
    for d in 2..139u32 {
        assert_ne!(n(139).remainder(&n(d)), n(0));
    }
    for d in 2..=100u32 {
        assert_ne!(n(10009).remainder(&n(d)), n(0));
    }
    assert_ne!(e.g, e.h);
}

#[test]
fn wrong_secret_is_rejected_for_every_challenge() {
    let e = Exponentiation::new();
    let secret = n(2503);
    let wrong = n(2);
    let nonce = n(5);
    let (y1, y2) = e.registration(&secret).unwrap();
    let (r1, r2) = e.authentication(&nonce).unwrap();
    for c in 1..139u32 {
        let forged = e.response(&nonce, &wrong, &n(c)).unwrap();
        assert!(!e.verify(&y1, &y2, &r1, &r2, &forged, &n(c)).unwrap());
        let honest = e.response(&nonce, &secret, &n(c)).unwrap();
        assert!(e.verify(&y1, &y2, &r1, &r2, &honest, &n(c)).unwrap());
    }
}
