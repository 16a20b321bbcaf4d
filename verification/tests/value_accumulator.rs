use ragu::field::{Field, Fp};
use ragu::value_accumulator::ValueAccumulator;
use rand::rngs::StdRng;
use rand::SeedableRng;

#[test]
fn test_accumulator() {
    let mut rng = StdRng::from_entropy();
    let mut accumulator = ValueAccumulator::<Fp>::new();

    let values = vec![Fp::random(&mut rng); 10];
    for value in &values {
        accumulator.insert_value(*value);
    }

    for i in 0..10 {
        assert!(accumulator.check_membership(values[i]));
    }

    let non_value = vec![Fp::random(&mut rng); 10];
    for value in &non_value {
        assert!(accumulator.check_non_membership(*value));
    }

    assert_eq!(accumulator.current_size, 10);
}

#[test]
fn empty_accumulator_has_no_member() {
    let accumulator = ValueAccumulator::<Fp>::new();
    assert_eq!(accumulator.current_size, 0);
    assert_eq!(accumulator.polynomial.coeffs.len(), 1);
    assert!(!accumulator.check_membership(Fp::zero()));
    assert!(accumulator.check_non_membership(Fp::from_u64(17)));
}

#[test]
fn coefficients_are_those_of_the_product() {
    // (x - 2)(x - 3) = 6 - 5x + x^2
    let mut accumulator = ValueAccumulator::<Fp>::new();
    accumulator.insert_value(Fp::from_u64(2));
    assert_eq!(
        accumulator.polynomial.coeffs,
        vec![Fp::from_u64(2).neg(), Fp::one()]
    );
    accumulator.insert_value(Fp::from_u64(3));
    assert_eq!(
        accumulator.polynomial.coeffs,
        vec![
            Fp::from_u64(6),
            Fp::from_u64(5).neg(),
            Fp::one()
        ]
    );
    assert_eq!(accumulator.current_size, 2);
    assert_eq!(
        accumulator.polynomial.eval(&Fp::from_u64(5)),
        Fp::from_u64(6)
    );
}

#[test]
fn distinct_values_round_trip() {
    let mut rng = StdRng::seed_from_u64(2024);
    let mut accumulator = ValueAccumulator::<Fp>::new();
    let mut values = Vec::new();
    for _ in 0..10 {
        let v = Fp::random(&mut rng);
        values.push(v);
        accumulator.insert_value(v);
    }
    for v in &values {
        assert!(accumulator.check_membership(*v));
        assert!(!accumulator.check_non_membership(*v));
    }
    for _ in 0..10 {
        let other = Fp::random(&mut rng);
        assert!(!values.contains(&other));
        assert!(accumulator.check_non_membership(other));
        assert!(!accumulator.check_membership(other));
    }
    assert_eq!(accumulator.current_size, 10);
}
