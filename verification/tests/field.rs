use ec_points_add::field::Fe;

fn small(v: u64) -> [u8; 32] {
    let mut bytes = [0u8; 32];
    bytes[..8].copy_from_slice(&v.to_le_bytes());
    bytes
}

/// Little-endian bytes of the field order.
fn modulus_bytes() -> [u8; 32] {
    let limbs: [u64; 4] = [0x992d30ed00000001, 0x224698fc094cf91b, 0, 0x4000000000000000];
    let mut bytes = [0u8; 32];
    for (i, limb) in limbs.iter().enumerate() {
        bytes[8 * i..8 * i + 8].copy_from_slice(&limb.to_le_bytes());
    }
    bytes
}

#[test]
fn from_u64_gives_little_endian_bytes() {
    assert_eq!(Fe::from_u64(0).to_bytes(), [0u8; 32]);
    assert_eq!(Fe::from_u64(5).to_bytes(), small(5));
    assert_eq!(Fe::from_u64(u64::MAX).to_bytes(), small(u64::MAX));
    assert_eq!(Fe::from_u64(0x0102030405060708).to_bytes()[0], 8);
}

#[test]
fn one_is_the_byte_one_then_zeros() {
    assert_eq!(Fe::one().to_bytes(), small(1));
    assert_eq!(Fe::one(), Fe::from_u64(1));
}

#[test]
fn addition_is_modular() {
    let seven = Fe::from_u64(3).add(&Fe::from_u64(4));
    assert_eq!(seven.to_bytes(), small(7));
    // (p - 1) + 2 = 1
    let minus_one = Fe::one().neg();
    assert_eq!(minus_one.add(&Fe::from_u64(2)), Fe::one());
}

#[test]
fn multiplication_is_modular() {
    assert_eq!(Fe::from_u64(3).mul(&Fe::from_u64(4)).to_bytes(), small(12));
    // (p - 1) * (p - 1) = 1
    let minus_one = Fe::one().neg();
    assert_eq!(minus_one.mul(&minus_one), Fe::one());
    // 2^63 * 4 = 2^65
    let mut expected = [0u8; 32];
    expected[8] = 2;
    assert_eq!(Fe::from_u64(1 << 63).mul(&Fe::from_u64(4)).to_bytes(), expected);
}

#[test]
fn negation_is_modular() {
    assert_eq!(Fe::from_u64(0).neg(), Fe::from_u64(0));
    let mut expected = modulus_bytes();
    expected[0] -= 1;
    assert_eq!(Fe::one().neg().to_bytes(), expected);
    assert_eq!(Fe::from_u64(9).neg().add(&Fe::from_u64(9)), Fe::from_u64(0));
}

#[test]
fn is_zero_only_for_zero() {
    assert!(Fe::from_u64(0).is_zero());
    assert!(!Fe::one().is_zero());
    assert!(!Fe::from_u64(1 << 40).is_zero());
    let mut high = [0u8; 32];
    high[31] = 1;
    assert!(!Fe::from_bytes(high).unwrap().is_zero());
    assert!(Fe::from_u64(6).add(&Fe::from_u64(6).neg()).is_zero());
}

#[test]
fn from_bytes_takes_canonical_bytes_only() {
    assert_eq!(Fe::from_bytes(small(11)).unwrap(), Fe::from_u64(11));
    assert_eq!(Fe::from_bytes(small(11)).unwrap().to_bytes(), small(11));
    assert!(Fe::from_bytes(modulus_bytes()).is_none());
    assert!(Fe::from_bytes([0xff; 32]).is_none());
    let mut largest = modulus_bytes();
    largest[0] -= 1;
    assert_eq!(Fe::from_bytes(largest).unwrap(), Fe::one().neg());
}

#[test]
fn zero_is_all_zero_bytes() {
    assert_eq!(Fe::zero().to_bytes(), [0u8; 32]);
    assert_eq!(Fe::zero(), Fe::from_u64(0));
    assert!(Fe::zero().is_zero());
}

#[test]
fn subtraction_is_modular() {
    assert_eq!(Fe::from_u64(9).sub(&Fe::from_u64(4)).to_bytes(), small(5));
    assert_eq!(Fe::from_u64(4).sub(&Fe::from_u64(9)), Fe::from_u64(5).neg());
    assert_eq!(Fe::zero().sub(&Fe::one()), Fe::one().neg());
    assert_eq!(Fe::from_u64(4).sub(&Fe::from_u64(4)), Fe::zero());
}

#[test]
fn square_multiplies_by_itself() {
    assert_eq!(Fe::from_u64(12).square().to_bytes(), small(144));
    assert_eq!(Fe::from_u64(3).neg().square(), Fe::from_u64(9));
    let mut expected = [0u8; 32];
    expected[16] = 1;
    assert_eq!(Fe::from_u64(1 << 32).square().square().to_bytes(), expected);
}

#[test]
fn equals_compares_residues() {
    assert!(Fe::from_u64(7).equals(&Fe::from_u64(3).add(&Fe::from_u64(4))));
    assert!(!Fe::from_u64(7).equals(&Fe::from_u64(8)));
    assert!(!Fe::one().equals(&Fe::one().neg()));
    assert!(Fe::from_bytes(small(1)).unwrap().equals(&Fe::one()));
    let mut high = [0u8; 32];
    high[31] = 1;
    assert!(!Fe::from_bytes(high).unwrap().equals(&Fe::zero()));
}
