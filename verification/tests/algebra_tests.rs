use mklhs::algebra::{
    fr_add, fr_from_u64, fr_is_zero, fr_mul, fr_zero, g1_add, g1_gen, g1_mul, g1_zero, hash_to_g1,
};

#[test]
fn hash_to_g1_smoke() {
    let dst = b"hejsan";
    let msg = b"hello";

    // The point type is opaque, so curve and subgroup membership cannot be
    // inspected here; non-identity is checked through the group's equality.
    let p = hash_to_g1(dst, msg).expect("hash_to_g1 failed");
    assert!(p != g1_zero());
}

#[test]
fn hash_to_g1_properties() {
    let dst = b"hejsan";
    let msg = b"hello";

    // deterministic for same inputs
    let p1 = hash_to_g1(dst, msg).unwrap();
    let p2 = hash_to_g1(dst, msg).unwrap();
    assert_eq!(p1, p2);

    // domain separation changes output
    let p3 = hash_to_g1(b"hejsansvejsan", msg).unwrap();
    assert_ne!(p1, p3);
}

#[test]
fn scalar_arithmetic_matches_integers() {
    let two = fr_from_u64(2);
    let three = fr_from_u64(3);
    assert_eq!(fr_add(&two, &three), fr_from_u64(5));
    assert_eq!(fr_mul(&two, &three), fr_from_u64(6));
    assert_eq!(fr_mul(&fr_zero(), &three), fr_zero());
    assert!(fr_is_zero(&fr_zero()));
    assert!(!fr_is_zero(&two));
    assert_ne!(fr_from_u64(2), fr_from_u64(3));
}

#[test]
fn group_arithmetic_sanity() {
    let g = g1_gen();
    // identity element
    assert_eq!(g1_add(&g1_zero(), &g), g);
    // 1 * P == P and 0 * P == identity
    assert_eq!(g1_mul(&g, &fr_from_u64(1)), g);
    assert_eq!(g1_mul(&g, &fr_zero()), g1_zero());
    // 2 * P == P + P
    assert_eq!(g1_mul(&g, &fr_from_u64(2)), g1_add(&g, &g));
}
