use ff::{Field as _, PrimeField};
use group::{Curve, Group};
use pasta_curves::arithmetic::CurveAffine;
use ragu::circuit::StagedCircuit;
use ragu::driver::{AffinePoint, Constraint, Driver, Error};
use ragu::field::{Field, Fp};
use ragu::mesh::{register_all, InternalCircuitIndex, MeshBuilder, NestedCircuit};
use ragu::perhaps::{Always, Empty, Perhaps};
use ragu::point::Point;
use ragu::staging::{allocate_bit, StageBuilder, StageRule, StageSpec};
use ragu::witnessed_endoscalar::{
    endoscalar_bits, EndoscalingInstance, Read, WitnessedEndoscaling, WitnessedEndoscalingWitness,
};
use rand::rngs::StdRng;
use rand::{Rng, SeedableRng};

fn random_point(rng: &mut StdRng) -> AffinePoint<Fp> {
    let p = (pasta_curves::pallas::Point::generator() * pasta_curves::pallas::Scalar::random(rng))
        .to_affine();
    let c = p.coordinates().unwrap();
    AffinePoint {
        x: Fp::from_bytes(c.x().to_repr()).unwrap(),
        y: Fp::from_bytes(c.y().to_repr()).unwrap(),
    }
}

fn off_curve() -> AffinePoint<Fp> {
    AffinePoint { x: Fp::from_u64(1), y: Fp::from_u64(1) }
}

fn circuit(output: usize) -> WitnessedEndoscaling<4> {
    WitnessedEndoscaling::<4> {
        a: Read::Input,
        b: Read::Slot(0),
        c: Read::Slot(1),
        d: Read::Slot(2),
        e: Read::Slot(3),
        output,
    }
}

#[test]
fn test_witnessed_endoscaling() {
    const NUM_SLOTS: usize = 4;
    let mut rng = StdRng::from_entropy();

    let endoscalar: u128 = rng.gen();
    let input = random_point(&mut rng);
    let slots: Vec<AffinePoint<Fp>> = (0..NUM_SLOTS).map(|_| random_point(&mut rng)).collect();
    let stub_results: Vec<AffinePoint<Fp>> = (0..5).map(|_| random_point(&mut rng)).collect();

    let circuit = WitnessedEndoscaling::<NUM_SLOTS> {
        a: Read::Input,
        b: Read::Slot(0),
        c: Read::Slot(1),
        d: Read::Slot(2),
        e: Read::Slot(3),
        output: 4,
    };

    let witness = WitnessedEndoscalingWitness::<Fp, NUM_SLOTS> {
        endoscalar,
        slots,
        input,
        endoscaled_results: stub_results.clone(),
    };

    let mut dr: Driver<Fp, Always<()>> = Driver::new(1 << 13);
    let stages = StageBuilder::new(WitnessedEndoscaling::<NUM_SLOTS>::stages());
    let (_rx, output) = circuit
        .witness(&mut dr, stages, Always::<()>::just(|| witness))
        .unwrap();

    // Output matches whatever stub we provided at index 4.
    assert_eq!(output.take(), stub_results[4]);
}

#[test]
fn witnessed_output_is_the_configured_candidate() {
    let mut rng = StdRng::seed_from_u64(5);
    let input = random_point(&mut rng);
    let slots: Vec<AffinePoint<Fp>> = (0..4).map(|_| random_point(&mut rng)).collect();
    let results: Vec<AffinePoint<Fp>> = (0..5).map(|_| random_point(&mut rng)).collect();
    for index in 0..5 {
        let witness = WitnessedEndoscalingWitness::<Fp, 4> {
            endoscalar: 0xdead_beef,
            slots: slots.clone(),
            input,
            endoscaled_results: results.clone(),
        };
        let mut dr: Driver<Fp, Always<()>> = Driver::new(200);
        let stages = StageBuilder::new(WitnessedEndoscaling::<4>::stages());
        let (out, aux) = circuit(index)
            .witness(&mut dr, stages, Always::<()>::just(|| witness))
            .unwrap();
        assert_eq!(aux.take(), results[index]);
        assert_eq!(out.output.value().take(), results[index]);
        assert_eq!(out.input.value().take(), input);
        assert_eq!(out.input.x.wire, 128 + 8);
        assert_eq!(out.output.x.wire, 128 + 8 + 5 * (1 + index));
        assert_eq!(dr.wire_count(), 128 + 8 + 30);
        assert_eq!(dr.constraint_list().len(), 24);
    }
}

#[test]
fn structure_does_not_depend_on_the_kind() {
    let mut rng = StdRng::seed_from_u64(9);
    let instance = EndoscalingInstance { input: random_point(&mut rng), output: random_point(&mut rng) };
    let witness = WitnessedEndoscalingWitness::<Fp, 4> {
        endoscalar: 77,
        slots: (0..4).map(|_| random_point(&mut rng)).collect(),
        input: instance.input,
        endoscaled_results: (0..5).map(|_| random_point(&mut rng)).collect(),
    };

    let mut with: Driver<Fp, Always<()>> = Driver::new(500);
    let mut without: Driver<Fp, Empty> = Driver::new(500);
    let a = circuit(2).instance(&mut with, Always::<()>::just(|| instance)).unwrap();
    let b = circuit(2).instance(&mut without, Empty).unwrap();
    assert_eq!(a.input.x.wire, b.input.x.wire);
    assert_eq!(a.output.y.wire, b.output.y.wire);
    assert_eq!(with.wire_count(), 10);
    assert_eq!(without.wire_count(), 10);
    assert_eq!(with.constraint_list(), without.constraint_list());
    assert_eq!(
        with.constraint_list()[..4],
        [
            Constraint::Product { left: 0, right: 0, out: 2 },
            Constraint::Product { left: 2, right: 0, out: 3 },
            Constraint::Product { left: 1, right: 1, out: 4 },
            Constraint::Offset { from: 3, to: 4, by: 5 },
        ]
    );
    assert_eq!(with.assignment_values().snag().len(), 10);

    let sa = StageBuilder::new(WitnessedEndoscaling::<4>::stages());
    let sb = StageBuilder::new(WitnessedEndoscaling::<4>::stages());
    circuit(2).witness(&mut with, sa, Always::<()>::just(|| witness)).unwrap();
    circuit(2).witness(&mut without, sb, Empty).unwrap();
    assert_eq!(with.wire_count(), without.wire_count());
    assert_eq!(with.constraint_list(), without.constraint_list());
    assert_eq!(with.assignment_values().snag().len(), with.wire_count());
}

#[test]
fn witness_phase_errors() {
    let mut rng = StdRng::seed_from_u64(3);
    let good = |rng: &mut StdRng| WitnessedEndoscalingWitness::<Fp, 4> {
        endoscalar: 1,
        slots: (0..4).map(|_| random_point(rng)).collect(),
        input: random_point(rng),
        endoscaled_results: (0..5).map(|_| random_point(rng)).collect(),
    };

    // a builder that does not declare the circuit's stages
    let mut dr: Driver<Fp, Always<()>> = Driver::new(500);
    let w = good(&mut rng);
    let wrong = StageBuilder::new(vec![StageSpec { rule: StageRule::Bits, count: 128 }]);
    let r = circuit(0).witness(&mut dr, wrong, Always::<()>::just(|| w));
    assert!(matches!(r, Err(Error::StageCount)));
    assert_eq!(dr.wire_count(), 0);

    // too few wires: 128 + 8 + 30 are needed
    let mut dr: Driver<Fp, Always<()>> = Driver::new(165);
    let w = good(&mut rng);
    let stages = StageBuilder::new(WitnessedEndoscaling::<4>::stages());
    let r = circuit(0).witness(&mut dr, stages, Always::<()>::just(|| w));
    assert!(matches!(r, Err(Error::CapacityExceeded)));
    assert_eq!(dr.wire_count(), 0);
    let mut dr: Driver<Fp, Empty> = Driver::new(166);
    let stages = StageBuilder::new(WitnessedEndoscaling::<4>::stages());
    assert!(circuit(0).witness(&mut dr, stages, Empty).is_ok());

    // three slots where four are declared
    let mut dr: Driver<Fp, Always<()>> = Driver::new(500);
    let mut w = good(&mut rng);
    w.slots.pop();
    let stages = StageBuilder::new(WitnessedEndoscaling::<4>::stages());
    let r = circuit(0).witness(&mut dr, stages, Always::<()>::just(|| w));
    assert!(matches!(r, Err(Error::StageSize)));
    assert_eq!(dr.wire_count(), 128);

    // a candidate that is not on the curve, though not the one configured
    let mut dr: Driver<Fp, Always<()>> = Driver::new(500);
    let mut w = good(&mut rng);
    w.endoscaled_results[3] = off_curve();
    let stages = StageBuilder::new(WitnessedEndoscaling::<4>::stages());
    let r = circuit(0).witness(&mut dr, stages, Always::<()>::just(|| w));
    assert!(matches!(r, Err(Error::Unsatisfied)));
    // the bits, the slots, the input and four candidates were allocated
    assert_eq!(dr.wire_count(), 128 + 8 + 5 * 5);

    // an input that is not on the curve
    let mut dr: Driver<Fp, Always<()>> = Driver::new(500);
    let mut w = good(&mut rng);
    w.input = off_curve();
    let stages = StageBuilder::new(WitnessedEndoscaling::<4>::stages());
    let r = circuit(0).witness(&mut dr, stages, Always::<()>::just(|| w));
    assert!(matches!(r, Err(Error::Unsatisfied)));
    assert_eq!(dr.wire_count(), 128 + 8 + 5);

    // an instance whose output is not on the curve
    let mut dr: Driver<Fp, Always<()>> = Driver::new(500);
    let instance = EndoscalingInstance { input: random_point(&mut rng), output: off_curve() };
    let r = circuit(0).instance(&mut dr, Always::<()>::just(|| instance));
    assert!(matches!(r, Err(Error::Unsatisfied)));
    assert_eq!(dr.wire_count(), 10);
    let mut dr: Driver<Fp, Always<()>> = Driver::new(500);
    let instance = EndoscalingInstance { input: off_curve(), output: off_curve() };
    let r = circuit(0).instance(&mut dr, Always::<()>::just(|| instance));
    assert!(matches!(r, Err(Error::Unsatisfied)));
    assert_eq!(dr.wire_count(), 5);
    let mut dr: Driver<Fp, Always<()>> = Driver::new(9);
    let r = circuit(0).instance(&mut dr, Always::<()>::just(|| instance));
    assert!(matches!(r, Err(Error::CapacityExceeded)));
    assert_eq!(dr.wire_count(), 0);

    // slots are not enforced
    let mut dr: Driver<Fp, Always<()>> = Driver::new(500);
    let mut w = good(&mut rng);
    w.slots[0] = off_curve();
    let stages = StageBuilder::new(WitnessedEndoscaling::<4>::stages());
    assert!(circuit(0).witness(&mut dr, stages, Always::<()>::just(|| w)).is_ok());
}

#[test]
fn driver_allocates_multiplies_and_enforces() {
    let mut dr: Driver<Fp, Always<()>> = Driver::new(3);
    let a = dr.allocate(Always::<()>::just(|| Fp::from_u64(6))).unwrap();
    let b = dr.allocate(Always::<()>::just(|| Fp::from_u64(7))).unwrap();
    let c = dr.mul(&a, &b).unwrap();
    assert_eq!((a.wire, b.wire, c.wire), (0, 1, 2));
    assert_eq!(*c.value.snag(), Fp::from_u64(42));
    assert!(matches!(dr.allocate(Always::<()>::just(|| Fp::one())), Err(Error::CapacityExceeded)));
    assert!(matches!(dr.mul(&a, &b), Err(Error::CapacityExceeded)));
    assert_eq!(dr.wire_count(), 3);
    assert_eq!(dr.capacity_limit(), 3);

    assert!(dr.enforce_offset(&a, &b, 1).is_ok());
    assert!(matches!(dr.enforce_offset(&a, &b, 2), Err(Error::Unsatisfied)));
    assert_eq!(
        dr.constraint_list(),
        &vec![
            Constraint::Product { left: 0, right: 1, out: 2 },
            Constraint::Offset { from: 0, to: 1, by: 1 },
        ]
    );
    assert_eq!(
        dr.assignment_values().snag(),
        &vec![Fp::from_u64(6), Fp::from_u64(7), Fp::from_u64(42)]
    );

    let mut dr: Driver<Fp, Empty> = Driver::new(3);
    let a = dr.allocate(Empty).unwrap();
    let b = dr.allocate(Empty).unwrap();
    let c = dr.mul(&a, &b).unwrap();
    assert_eq!((a.wire, b.wire, c.wire), (0, 1, 2));
    assert!(dr.enforce_offset(&a, &b, 2).is_ok());
    assert!(matches!(dr.allocate(Empty), Err(Error::CapacityExceeded)));
}

#[test]
fn points_must_lie_on_the_curve() {
    let mut rng = StdRng::seed_from_u64(1);
    let p = random_point(&mut rng);
    let mut dr: Driver<Fp, Always<()>> = Driver::new(12);
    let pt = Point::allocate(&mut dr, Always::<()>::just(|| p)).unwrap();
    assert_eq!((pt.x.wire, pt.y.wire), (0, 1));
    assert_eq!(pt.value().take(), p);
    assert_eq!(pt.duplicate().value().take(), p);
    let v = dr.assignment_values().snag();
    assert_eq!(v[2], p.x.mul(&p.x));
    assert_eq!(v[3], p.x.mul(&p.x).mul(&p.x));
    assert_eq!(v[4], p.y.mul(&p.y));
    assert_eq!(v[4], v[3].add(&Fp::from_u64(5)));

    let r = Point::allocate(&mut dr, Always::<()>::just(|| off_curve()));
    assert!(matches!(r, Err(Error::Unsatisfied)));
    // (2, 3) is not on the curve either, but nothing is checked without values
    let mut dr: Driver<Fp, Empty> = Driver::new(9);
    assert!(Point::allocate(&mut dr, Empty).is_ok());
    assert!(matches!(Point::allocate(&mut dr, Empty), Err(Error::CapacityExceeded)));
    assert_eq!(dr.wire_count(), 5);
}

#[test]
fn stages_are_fed_in_declared_order() {
    let declared = vec![
        StageSpec { rule: StageRule::Bits, count: 3 },
        StageSpec { rule: StageRule::Points, count: 1 },
    ];
    let mut rng = StdRng::seed_from_u64(4);
    let p = random_point(&mut rng);
    let mut dr: Driver<Fp, Always<()>> = Driver::new(100);

    let builder = StageBuilder::new(declared.clone());
    assert_eq!(builder.added_count(), 0);
    assert_eq!(builder.declared_stages(), &declared);
    let guard = builder.add_stage().unwrap();
    let bits = vec![Fp::one(), Fp::zero(), Fp::one()];
    let (builder, out) = guard.enforced(&mut dr, Always::<()>::just(|| bits)).unwrap();
    assert_eq!(out.iter().map(|e| e.wire).collect::<Vec<_>>(), vec![0, 2, 4]);
    assert_eq!(dr.wire_count(), 6);
    assert_eq!(dr.constraint_list().len(), 6);
    assert_eq!(builder.added_count(), 1);

    let guard = builder.add_stage().unwrap();
    let (builder, out) = guard.enforced(&mut dr, Always::<()>::just(|| vec![p.x, p.y])).unwrap();
    assert_eq!(out.iter().map(|e| e.wire).collect::<Vec<_>>(), vec![6, 7]);
    assert_eq!(dr.wire_count(), 11);
    assert_eq!(dr.constraint_list().len(), 10);
    assert_eq!(builder.added_count(), 2);
    assert!(builder.finish().is_ok());

    // a third stage was not declared
    let builder = StageBuilder::new(Vec::new());
    assert!(matches!(builder.add_stage(), Err(Error::StageCount)));
    // a declared stage was not added
    let builder = StageBuilder::new(declared.clone());
    assert!(matches!(builder.finish(), Err(Error::StageCount)));
    let builder = StageBuilder::new(declared.clone());
    let guard = builder.add_stage().unwrap();
    let (builder, _) = guard.unenforced(&mut dr, Always::<()>::just(|| vec![Fp::zero(); 3])).unwrap();
    assert!(matches!(builder.finish(), Err(Error::StageCount)));
}

#[test]
fn stage_feeding_errors() {
    let bits = StageSpec { rule: StageRule::Bits, count: 2 };
    let mut dr: Driver<Fp, Always<()>> = Driver::new(4);

    let guard = StageBuilder::new(vec![bits]).add_stage().unwrap();
    let r = guard.enforced(&mut dr, Always::<()>::just(|| vec![Fp::one()]));
    assert!(matches!(r, Err(Error::StageSize)));
    let guard = StageBuilder::new(vec![bits]).add_stage().unwrap();
    let r = guard.unenforced(&mut dr, Always::<()>::just(|| vec![Fp::one(); 3]));
    assert!(matches!(r, Err(Error::StageSize)));
    assert_eq!(dr.wire_count(), 0);

    // two is no bit
    let guard = StageBuilder::new(vec![bits]).add_stage().unwrap();
    let r = guard.enforced(&mut dr, Always::<()>::just(|| vec![Fp::one(), Fp::from_u64(2)]));
    assert!(matches!(r, Err(Error::Unsatisfied)));
    assert_eq!(dr.wire_count(), 4);
    let mut dr: Driver<Fp, Always<()>> = Driver::new(4);
    let guard = StageBuilder::new(vec![bits]).add_stage().unwrap();
    let r = guard.enforced(&mut dr, Always::<()>::just(|| vec![Fp::from_u64(2), Fp::one()]));
    assert!(matches!(r, Err(Error::Unsatisfied)));
    assert_eq!(dr.wire_count(), 2);
    // but unenforced it is wired in
    let mut dr: Driver<Fp, Always<()>> = Driver::new(4);
    let guard = StageBuilder::new(vec![bits]).add_stage().unwrap();
    let (_, out) = guard
        .unenforced(&mut dr, Always::<()>::just(|| vec![Fp::one(), Fp::from_u64(2)]))
        .unwrap();
    assert_eq!(out.iter().map(|e| e.wire).collect::<Vec<_>>(), vec![0, 1]);
    assert_eq!(*out[1].value.snag(), Fp::from_u64(2));
    assert_eq!(dr.constraint_list().len(), 0);
    assert_eq!(dr.assignment_values().snag(), &vec![Fp::one(), Fp::from_u64(2)]);

    // enforced bits take two wires each
    let mut dr: Driver<Fp, Empty> = Driver::new(3);
    let guard = StageBuilder::new(vec![bits]).add_stage().unwrap();
    assert!(matches!(guard.enforced(&mut dr, Empty), Err(Error::CapacityExceeded)));
    let guard = StageBuilder::new(vec![bits]).add_stage().unwrap();
    assert!(guard.unenforced(&mut dr, Empty).is_ok());
    let mut dr: Driver<Fp, Empty> = Driver::new(1);
    assert!(matches!(allocate_bit(&mut dr, Empty), Err(Error::CapacityExceeded)));
    let huge = StageSpec { rule: StageRule::Points, count: usize::MAX };
    let guard = StageBuilder::new(vec![huge]).add_stage().unwrap();
    assert!(matches!(guard.unenforced(&mut dr, Empty), Err(Error::CapacityExceeded)));
}

#[test]
fn endoscalar_bits_are_little_endian() {
    let bits: Vec<Fp> = endoscalar_bits::<Fp>(0b1011);
    assert_eq!(bits.len(), 128);
    assert_eq!(bits[0], Fp::one());
    assert_eq!(bits[1], Fp::one());
    assert_eq!(bits[2], Fp::zero());
    assert_eq!(bits[3], Fp::one());
    assert!(bits[4..].iter().all(|b| b.is_zero()));
    let bits: Vec<Fp> = endoscalar_bits::<Fp>(1u128 << 127);
    assert_eq!(bits[127], Fp::one());
    assert!(bits[..127].iter().all(|b| b.is_zero()));
}

#[test]
fn mesh_indices_follow_registration() {
    let builder: MeshBuilder<&str> = MeshBuilder::new();
    let builder = builder.register_circuit_object("A");
    assert_eq!(builder.len(), 1);
    let builder = builder.register_circuit_object("B").register_circuit_object("C");
    let mesh = builder.finalize();
    assert_eq!(mesh.len(), 3);
    assert_eq!(mesh.dispatch(0), Ok(&"A"));
    assert_eq!(mesh.dispatch(1), Ok(&"B"));
    assert_eq!(mesh.dispatch(2), Ok(&"C"));
    assert_eq!(mesh.dispatch(3), Err(Error::MeshIndex));

    // the object at index 1 is the same circuit with and without a witness
    let mut rng = StdRng::seed_from_u64(8);
    let circuits = MeshBuilder::new()
        .register_circuit_object(circuit(0))
        .register_circuit_object(circuit(1))
        .register_circuit_object(circuit(2))
        .finalize();
    let picked = circuits.dispatch(1).unwrap();
    assert_eq!(picked.output, 1);
    let instance =
        EndoscalingInstance { input: random_point(&mut rng), output: random_point(&mut rng) };
    let mut with: Driver<Fp, Always<()>> = Driver::new(10);
    let mut without: Driver<Fp, Empty> = Driver::new(10);
    let a = circuits.instance(1, &mut with, Always::<()>::just(|| instance)).unwrap();
    let b = circuits.instance(1, &mut without, Empty).unwrap();
    assert_eq!(a.output.x.wire, b.output.x.wire);
    assert_eq!(a.input.value().take(), instance.input);
    assert_eq!(with.constraint_list(), without.constraint_list());
    assert_eq!(with.wire_count(), 10);

    let witness = WitnessedEndoscalingWitness::<Fp, 4> {
        endoscalar: 3,
        slots: (0..4).map(|_| random_point(&mut rng)).collect(),
        input: instance.input,
        endoscaled_results: (0..5).map(|_| random_point(&mut rng)).collect(),
    };
    let want = witness.endoscaled_results[1];
    let mut proving: Driver<Fp, Always<()>> = Driver::new(200);
    let stages = StageBuilder::new(WitnessedEndoscaling::<4>::stages());
    let (_, aux) =
        circuits.witness(1, &mut proving, stages, Always::<()>::just(|| witness)).unwrap();
    assert_eq!(aux.take(), want);
    let mut keygen: Driver<Fp, Empty> = Driver::new(200);
    let stages = StageBuilder::new(WitnessedEndoscaling::<4>::stages());
    circuits.witness(1, &mut keygen, stages, Empty).unwrap();
    assert_eq!(proving.constraint_list(), keygen.constraint_list());
    let stages = StageBuilder::new(WitnessedEndoscaling::<4>::stages());
    assert!(matches!(circuits.witness(7, &mut keygen, stages, Empty), Err(Error::MeshIndex)));

    let r = circuits.instance(3, &mut with, Always::<()>::just(|| instance));
    assert!(matches!(r, Err(Error::MeshIndex)));
    assert!(matches!(circuits.instance(3, &mut without, Empty), Err(Error::MeshIndex)));
    assert_eq!(with.wire_count(), 10);
}

#[test]
fn nested_circuits_register_at_their_indices() {
    let mesh = register_all(MeshBuilder::new(), 4).finalize();
    assert_eq!(mesh.len(), 7);
    assert_eq!(
        mesh.dispatch(InternalCircuitIndex::EndoscalarStage.index()),
        Ok(&NestedCircuit::EndoscalarStage)
    );
    assert_eq!(
        mesh.dispatch(InternalCircuitIndex::PointsStage.index()),
        Ok(&NestedCircuit::PointsStage)
    );
    assert_eq!(
        mesh.dispatch(InternalCircuitIndex::PointsFinalStaged.index()),
        Ok(&NestedCircuit::PointsFinalStaged)
    );
    for step in 0..4 {
        assert_eq!(
            mesh.dispatch(InternalCircuitIndex::EndoscalingStepStart.index() + step),
            Ok(&NestedCircuit::EndoscalingStep(step))
        );
    }
    let behind = register_all(MeshBuilder::new().register_circuit_object(NestedCircuit::PointsStage), 0);
    assert_eq!(behind.len(), 4);
    assert_eq!(behind.finalize().dispatch(1), Ok(&NestedCircuit::EndoscalarStage));
}
