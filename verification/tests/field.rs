use ragu::field::{Field, Fp, Fq};
use ragu::polynomial::Polynomial;
use rand::rngs::StdRng;
use rand::SeedableRng;

const P: [u8; 32] = [
    0x01, 0x00, 0x00, 0x00, 0xed, 0x30, 0x2d, 0x99, 0x1b, 0xf9, 0x4c, 0x09, 0xfc, 0x98, 0x46, 0x22,
    0x00, 0x00, 0x00, 0x00, 0x00, 0x00, 0x00, 0x00, 0x00, 0x00, 0x00, 0x00, 0x00, 0x00, 0x00, 0x40,
];

fn below_p(by: u8) -> [u8; 32] {
    // the prime ends in ...00000001, so p - 1 ends in a zero byte and
    // p - 2 .. p - 5 borrow from the bytes above
    let mut b = P;
    match by {
        1 => b[0] = 0x00,
        _ => {
            b[0] = (0x101u16 - by as u16) as u8;
            b[1] = 0xff;
            b[2] = 0xff;
            b[3] = 0xff;
            b[4] = 0xec;
        }
    }
    b
}

#[test]
fn from_u64_spells_little_endian() {
    let e = Fp::from_u64(0x0102_0304_0506_0708);
    let mut want = [0u8; 32];
    want[..8].copy_from_slice(&[8, 7, 6, 5, 4, 3, 2, 1]);
    assert_eq!(e.to_bytes(), want);
    assert_eq!(Fp::zero().to_bytes(), [0u8; 32]);
    assert_eq!(Fp::one().to_bytes()[0], 1);
    assert!(Fp::zero().is_zero());
    assert!(!Fp::one().is_zero());
}

#[test]
fn from_bytes_takes_exactly_the_numbers_below_the_prime() {
    assert!(Fp::from_bytes(P).is_none());
    assert!(Fp::from_bytes([0xff; 32]).is_none());
    assert!(Fp::from_bytes(below_p(1)).is_some());
    assert!(Fp::from_bytes([0; 32]).is_some());
    let e = Fp::from_bytes(below_p(2)).unwrap();
    assert_eq!(e.to_bytes(), below_p(2));
}

#[test]
fn sums_products_and_negations() {
    let two = Fp::from_u64(2);
    let three = Fp::from_u64(3);
    assert_eq!(two.add(&three), Fp::from_u64(5));
    assert_eq!(two.mul(&three), Fp::from_u64(6));
    assert_ne!(two.add(&three), two);
    assert_ne!(two.mul(&three), two);

    let top = Fp::from_bytes(below_p(1)).unwrap();
    assert_eq!(top.add(&Fp::one()), Fp::zero());
    assert_eq!(top.add(&top), Fp::from_bytes(below_p(2)).unwrap());
    assert_eq!(top.mul(&top), Fp::one());

    assert_eq!(Fp::one().neg(), top);
    assert_eq!(Fp::from_u64(5).neg().to_bytes(), below_p(5));
    assert_eq!(Fp::zero().neg(), Fp::zero());
    assert_eq!(three.neg().add(&three), Fp::zero());
}

#[test]
fn random_draws_follow_the_generator() {
    let mut a = StdRng::seed_from_u64(7);
    let mut b = StdRng::seed_from_u64(7);
    let x = Fp::random(&mut a);
    let y = Fp::random(&mut a);
    assert_ne!(x, y);
    assert_eq!(Fp::random(&mut b), x);
    assert_eq!(Fp::random(&mut b), y);
    assert!(Fp::from_bytes(x.to_bytes()).is_some());
}

#[test]
fn eval_is_horner() {
    let mut p: Polynomial<Fp> = Polynomial::new();
    assert!(p.eval(&Fp::from_u64(9)).is_zero());
    // 3 + 2x + x^2
    p.coeffs.push(Fp::from_u64(3));
    p.coeffs.push(Fp::from_u64(2));
    p.coeffs.push(Fp::from_u64(1));
    assert_eq!(p.eval(&Fp::from_u64(5)), Fp::from_u64(38));
    assert_eq!(p.eval(&Fp::zero()), Fp::from_u64(3));
    // at -1: 3 - 2 + 1
    assert_eq!(p.eval(&Fp::one().neg()), Fp::from_u64(2));
}

const Q: [u8; 32] = [
    0x01, 0x00, 0x00, 0x00, 0x21, 0xeb, 0x46, 0x8c, 0xdd, 0xa8, 0x94, 0x09, 0xfc, 0x98, 0x46, 0x22,
    0x00, 0x00, 0x00, 0x00, 0x00, 0x00, 0x00, 0x00, 0x00, 0x00, 0x00, 0x00, 0x00, 0x00, 0x00, 0x40,
];

#[test]
fn the_other_field_has_its_own_prime() {
    assert!(Fq::from_bytes(Q).is_none());
    // the prime of the first field lies below that of the second
    assert!(Fq::from_bytes(P).is_some());
    let mut top = Q;
    top[0] = 0;
    let top = Fq::from_bytes(top).unwrap();
    assert_eq!(top.add(&Fq::one()), Fq::zero());
    assert_eq!(top.mul(&top), Fq::one());
    assert_eq!(Fq::one().neg(), top);
    assert_eq!(Fq::from_u64(6).mul(&Fq::from_u64(7)), Fq::from_u64(42));
    assert_ne!(Fq::from_u64(6).add(&Fq::from_u64(7)), Fq::from_u64(6));
    let mut rng = StdRng::seed_from_u64(11);
    let x = Fq::random(&mut rng);
    let y = Fq::random(&mut rng);
    assert_ne!(x, y);
    assert!(Fq::from_bytes(x.to_bytes()).is_some());
}
