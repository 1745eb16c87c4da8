use acp::authentication::common::{generate_random_string_of_length, get_random_int_within_bound};
use acp::bignat::{BigNat, BigSigned};

#[test]
fn from_bytes_be_reads_big_endian() {
    assert_eq!(BigNat::from_bytes_be(b"A"), BigNat::from_u32(65));
    assert_eq!(BigNat::from_bytes_be(b"AA"), BigNat::from_u32(16705));
    assert_eq!(BigNat::from_bytes_be(b"AB"), BigNat::from_u32(16706));
    assert_eq!(BigNat::from_bytes_be(&[]), BigNat::from_u32(0));
    assert_eq!(BigNat::from_bytes_be(&[0, 0, 1, 0]), BigNat::from_u32(256));
    assert_ne!(BigNat::from_bytes_be(&[1, 0]), BigNat::from_bytes_be(&[0, 1]));
}

#[test]
fn to_bytes_be_has_no_leading_zeros() {
    assert_eq!(BigNat::from_bytes_be(&[0, 0, 1]).to_bytes_be(), vec![1u8]);
    assert_eq!(BigNat::from_bytes_be(&[0, 0]).to_bytes_be(), vec![0u8]);
    assert_eq!(BigNat::from_bytes_be(&[]).to_bytes_be(), vec![0u8]);
    assert_eq!(BigNat::from_u32(1125).to_bytes_be(), vec![4u8, 101]);
    assert_eq!(BigNat::from_u32(0).to_bytes_be(), vec![0u8]);
    assert_eq!(
        BigNat::from_u32(u32::MAX).to_bytes_be(),
        vec![255u8, 255, 255, 255]
    );
}

#[test]
fn from_u32_holds_the_number() {
    assert_eq!(BigNat::from_u32(0x0102_0304).to_bytes_be(), vec![1u8, 2, 3, 4]);
    assert_eq!(BigNat::from_u32(10009).to_bytes_be(), vec![0x27u8, 0x19]);
}

#[test]
fn modpow_is_the_reduced_power() {
    let p = BigNat::from_u32(10009);
    assert_eq!(
        BigNat::from_u32(3).modpow(&BigNat::from_u32(4), &p),
        BigNat::from_u32(81)
    );
    assert_eq!(
        BigNat::from_u32(3).modpow(&BigNat::from_u32(9), &p),
        BigNat::from_u32(9674)
    );
    assert_eq!(
        BigNat::from_u32(7).modpow(&BigNat::from_u32(0), &p),
        BigNat::from_u32(1)
    );
    assert_eq!(
        BigNat::from_u32(7).modpow(&BigNat::from_u32(0), &BigNat::from_u32(1)),
        BigNat::from_u32(0)
    );
    assert_eq!(
        BigNat::from_u32(2).modpow(&BigNat::from_u32(10), &BigNat::from_u32(1000)),
        BigNat::from_u32(24)
    );
}

#[test]
fn multiply_and_remainder_compute() {
    assert_eq!(
        BigNat::from_u32(6).multiply(&BigNat::from_u32(7)),
        BigNat::from_u32(42)
    );
    assert_eq!(
        BigNat::from_u32(u32::MAX)
            .multiply(&BigNat::from_u32(u32::MAX))
            .to_bytes_be(),
        vec![0xffu8, 0xff, 0xff, 0xfe, 0, 0, 0, 1]
    );
    assert_eq!(
        BigNat::from_u32(10).remainder(&BigNat::from_u32(3)),
        BigNat::from_u32(1)
    );
    assert_eq!(
        BigNat::from_u32(9).remainder(&BigNat::from_u32(3)),
        BigNat::from_u32(0)
    );
}

#[test]
fn clone_keeps_the_number() {
    let a = BigNat::from_bytes_be(b"Hello world!");
    assert_eq!(a.clone(), a);
}

#[test]
fn signed_difference_and_floored_remainder() {
    let three = BigSigned::from_nat(BigNat::from_u32(3));
    let ten = BigSigned::from_nat(BigNat::from_u32(10));
    let seven = BigSigned::from_nat(BigNat::from_u32(7));
    let minus_seven = three.minus(&ten);
    assert!(minus_seven.to_bignat().is_none());
    assert_eq!(ten.minus(&three).to_bignat().unwrap(), BigNat::from_u32(7));
    assert_eq!(three.minus(&three).to_bignat().unwrap(), BigNat::from_u32(0));
    // -7 reduced into [0, 10) is 3.
    assert_eq!(
        minus_seven
            .modpow(&BigSigned::one(), &ten)
            .to_bignat()
            .unwrap(),
        BigNat::from_u32(3)
    );
    // (-7)^2 = 49, which is 9 modulo 10.
    let two = BigSigned::from_nat(BigNat::from_u32(2));
    assert_eq!(
        minus_seven.modpow(&two, &ten).to_bignat().unwrap(),
        BigNat::from_u32(9)
    );
    // 3 - (-7) = 10, which is 3 modulo 7.
    assert_eq!(
        three
            .minus(&minus_seven)
            .modpow(&BigSigned::one(), &seven)
            .to_bignat()
            .unwrap(),
        BigNat::from_u32(3)
    );
    assert_eq!(BigSigned::one().to_bignat().unwrap(), BigNat::from_u32(1));
}

#[test]
fn random_in_range_stays_in_range() {
    let low = BigNat::from_u32(5);
    let high = BigNat::from_u32(8);
    let mut seen = [false; 3];
    for _ in 0..300 {
        let r = BigNat::random_in_range(&low, &high);
        let bytes = r.to_bytes_be();
        assert_eq!(bytes.len(), 1);
        assert!(5 <= bytes[0] && bytes[0] < 8);
        seen[(bytes[0] - 5) as usize] = true;
    }
    assert!(seen.iter().all(|s| *s));
}

#[test]
fn random_int_within_bound_is_never_zero() {
    let two = BigNat::from_u32(2);
    for _ in 0..50 {
        assert_eq!(get_random_int_within_bound(&two), BigNat::from_u32(1));
    }
    let bound = BigNat::from_bytes_be(&[1, 0, 0, 0, 0, 0, 0, 0, 0]);
    for _ in 0..50 {
        let r = get_random_int_within_bound(&bound);
        assert_ne!(r, BigNat::from_u32(0));
        assert_eq!(r.remainder(&bound), r);
    }
}

#[test]
fn random_string_has_requested_length() {
    assert_eq!(generate_random_string_of_length(0), "");
    for size in [1usize, 7, 50, 100] {
        let s = generate_random_string_of_length(size);
        assert_eq!(s.len(), size);
        assert!(s.chars().all(|c| c.is_ascii_alphanumeric()));
    }
    assert_ne!(
        generate_random_string_of_length(50),
        generate_random_string_of_length(50)
    );
}
