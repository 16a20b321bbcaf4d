use ff::{Field as _, PrimeField};
use group::{Curve as _, Group, GroupEncoding};
use pasta_curves::arithmetic::CurveAffine;
use ragu::commitment::Generators;
use ragu::curve::{Curve, PallasPoint, VestaPoint};
use ragu::driver::{Driver, Error};
use ragu::field::{Field, Fp, Fq};
use ragu::fuse::{s_prime_rx, Application, Challenges, Proof, SPrimeWitness};
use ragu::perhaps::Always;
use ragu::polynomial::Polynomial;
use rand::rngs::StdRng;
use rand::SeedableRng;

fn vesta(k: u64) -> pasta_curves::vesta::Point {
    pasta_curves::vesta::Point::generator() * pasta_curves::vesta::Scalar::from(k)
}

fn pallas(k: u64) -> pasta_curves::pallas::Point {
    pasta_curves::pallas::Point::generator() * pasta_curves::pallas::Scalar::from(k)
}

fn ours_v(p: pasta_curves::vesta::Point) -> VestaPoint {
    VestaPoint::from_bytes(p.to_bytes()).unwrap()
}

fn ours_p(p: pasta_curves::pallas::Point) -> PallasPoint {
    PallasPoint::from_bytes(p.to_bytes()).unwrap()
}

fn application(host: usize, nested: usize) -> Application {
    Application {
        host_generators: Generators {
            g: (0..host).map(|i| ours_v(vesta(100 + i as u64))).collect(),
            h: ours_v(vesta(7)),
        },
        nested_generators: Generators {
            g: (0..nested).map(|i| ours_p(pallas(200 + i as u64))).collect(),
            h: ours_p(pallas(9)),
        },
    }
}

fn mesh_wx(w: &Fp, x: &Fp) -> Polynomial<Fp> {
    let mut p = Polynomial::new();
    p.coeffs.push(*w);
    p.coeffs.push(*x);
    p.coeffs.push(w.mul(x));
    p.coeffs.push(Fp::one());
    p
}

fn child(x: u64) -> Proof {
    Proof { challenges: Challenges { x: Fp::from_u64(x) } }
}

#[test]
fn points_add_and_multiply_as_the_curve_does() {
    let g = ours_v(vesta(1));
    let two = g.add(&g);
    assert_ne!(two, g);
    assert_eq!(two.to_bytes(), vesta(2).to_bytes());
    assert_eq!(g.mul(&Fp::from_u64(2)), two);
    assert_eq!(g.mul(&Fp::from_u64(5)).to_bytes(), vesta(5).to_bytes());
    assert_ne!(g.mul(&Fp::from_u64(5)), g);
    assert_eq!(ours_v(vesta(3)).add(&ours_v(vesta(4))).to_bytes(), vesta(7).to_bytes());

    let h = ours_p(pallas(1));
    assert_eq!(h.add(&h).to_bytes(), pallas(2).to_bytes());
    assert_ne!(h.add(&h), h);
    assert_eq!(h.mul(&Fq::from_u64(6)).to_bytes(), pallas(6).to_bytes());
    assert_ne!(h.mul(&Fq::from_u64(6)), h);
}

#[test]
fn encodings_decode_only_where_they_are_points() {
    assert!(VestaPoint::from_bytes([0xff; 32]).is_none());
    assert!(PallasPoint::from_bytes([0xff; 32]).is_none());
    // x = 2 is on neither curve: 13 has no root in either field
    let mut two = [0u8; 32];
    two[0] = 2;
    assert_eq!(
        VestaPoint::from_bytes(two).is_some(),
        bool::from(pasta_curves::vesta::Point::from_bytes(&two).is_some())
    );
    assert_eq!(
        PallasPoint::from_bytes(two).is_some(),
        bool::from(pasta_curves::pallas::Point::from_bytes(&two).is_some())
    );
    let g = vesta(11).to_bytes();
    assert_eq!(VestaPoint::from_bytes(g).unwrap().to_bytes(), g);
    // the point at infinity is encoded as zeros and has no coordinates
    let zero = VestaPoint::from_bytes([0; 32]).unwrap();
    assert!(zero.coordinates().is_none());
    assert!(PallasPoint::from_bytes([0; 32]).unwrap().coordinates().is_none());
}

#[test]
fn coordinates_are_those_of_the_curve() {
    let p = vesta(12);
    let want = p.to_affine().coordinates().unwrap();
    let got = ours_v(p).coordinates().unwrap();
    assert_eq!(got.x.to_bytes(), want.x().to_repr());
    assert_eq!(got.y.to_bytes(), want.y().to_repr());
    assert_ne!(got.y.to_bytes(), p.to_bytes());
    // y^2 = x^3 + 5
    assert_eq!(got.y.mul(&got.y), got.x.mul(&got.x).mul(&got.x).add(&Fq::from_u64(5)));

    let q = pallas(13);
    let want = q.to_affine().coordinates().unwrap();
    let got = ours_p(q).coordinates().unwrap();
    assert_eq!(got.x.to_bytes(), want.x().to_repr());
    assert_eq!(got.y.to_bytes(), want.y().to_repr());
    assert_eq!(got.y.mul(&got.y), got.x.mul(&got.x).mul(&got.x).add(&Fp::from_u64(5)));
}

#[test]
fn commitment_is_the_blinded_sum() {
    let app = application(3, 0);
    let coeffs = vec![Fp::from_u64(2), Fp::from_u64(3)];
    let c = app.host_generators.commit(&coeffs, &Fp::from_u64(4)).unwrap();
    // 4 * 7 + 2 * 100 + 3 * 101
    assert_eq!(c.to_bytes(), vesta(28 + 200 + 303).to_bytes());
    let only_blind = app.host_generators.commit(&Vec::new(), &Fp::from_u64(4)).unwrap();
    assert_eq!(only_blind.to_bytes(), vesta(28).to_bytes());
    let long = vec![Fp::one(); 4];
    assert_eq!(app.host_generators.commit(&long, &Fp::one()), Err(Error::Generators));
    assert!(app.host_generators.commit(&vec![Fp::one(); 3], &Fp::one()).is_ok());
}

#[test]
fn stage_values_are_the_wires_of_two_points() {
    let a = ours_v(vesta(21));
    let b = ours_v(vesta(22));
    let rx = s_prime_rx(&SPrimeWitness { mesh_wx0: a, mesh_wx1: b }).unwrap();
    let (ca, cb) = (a.coordinates().unwrap(), b.coordinates().unwrap());
    assert_eq!(
        rx.coeffs,
        vec![
            ca.x,
            ca.y,
            ca.x.mul(&ca.x),
            ca.x.mul(&ca.x).mul(&ca.x),
            ca.y.mul(&ca.y),
            cb.x,
            cb.y,
            cb.x.mul(&cb.x),
            cb.x.mul(&cb.x).mul(&cb.x),
            cb.y.mul(&cb.y),
        ]
    );
    let zero = VestaPoint::from_bytes([0; 32]).unwrap();
    let r = s_prime_rx(&SPrimeWitness { mesh_wx0: a, mesh_wx1: zero });
    assert!(matches!(r, Err(Error::Degenerate)));
}

#[test]
fn fuse_is_fixed_by_the_blinds() {
    let app = application(4, 10);
    let w = Fp::from_u64(17);
    let run = |x0: u64, x1: u64| {
        app.fuse_with_blinds(
            mesh_wx(&w, &Fp::from_u64(x0)),
            mesh_wx(&w, &Fp::from_u64(x1)),
            Fp::from_u64(1001),
            Fp::from_u64(1002),
            Fq::from_u64(1003),
        )
        .unwrap()
    };
    let a = run(5, 6);
    let b = run(5, 6);
    assert_eq!(a.mesh_wx0_commitment, b.mesh_wx0_commitment);
    assert_eq!(a.mesh_wx1_commitment, b.mesh_wx1_commitment);
    assert_eq!(a.nested_s_prime_rx.coeffs, b.nested_s_prime_rx.coeffs);
    assert_eq!(a.nested_s_prime_commitment, b.nested_s_prime_commitment);
    // distinct challenges, distinct commitments
    assert_ne!(a.mesh_wx0_commitment, a.mesh_wx1_commitment);
    assert_ne!(run(5, 7).mesh_wx1_commitment, a.mesh_wx1_commitment);
    assert_eq!(run(5, 7).mesh_wx0_commitment, a.mesh_wx0_commitment);

    // each commitment opens to its polynomial under its blind
    assert_eq!(a.mesh_wx0_poly.coeffs, mesh_wx(&w, &Fp::from_u64(5)).coeffs);
    assert_eq!(
        a.mesh_wx0_commitment,
        app.host_generators.commit(&a.mesh_wx0_poly.coeffs, &a.mesh_wx0_blind).unwrap()
    );
    assert_eq!(
        a.mesh_wx1_commitment,
        app.host_generators.commit(&a.mesh_wx1_poly.coeffs, &Fp::from_u64(1002)).unwrap()
    );
    assert_eq!(a.nested_s_prime_rx.coeffs.len(), 10);
    assert_eq!(a.nested_s_prime_rx.coeffs[0], a.mesh_wx0_commitment.coordinates().unwrap().x);
    assert_eq!(a.nested_s_prime_rx.coeffs[6], a.mesh_wx1_commitment.coordinates().unwrap().y);
    assert_eq!(
        a.nested_s_prime_commitment,
        app.nested_generators.commit(&a.nested_s_prime_rx.coeffs, &Fq::from_u64(1003)).unwrap()
    );
}

#[test]
fn fuse_draws_a_blind_for_each_commitment() {
    let app = application(4, 10);
    let mut dr: Driver<Fp, Always<()>> = Driver::new(1);
    let w = dr.allocate(Always::<()>::just(|| Fp::from_u64(17))).unwrap();

    let mut rng = StdRng::seed_from_u64(42);
    let a = app.compute_s_prime(&mesh_wx, &mut rng, &w, &child(5), &child(6)).unwrap();
    let mut rng = StdRng::seed_from_u64(42);
    let b = app.compute_s_prime(&mesh_wx, &mut rng, &w, &child(5), &child(6)).unwrap();
    assert_eq!(a.mesh_wx0_blind, b.mesh_wx0_blind);
    assert_eq!(a.mesh_wx0_commitment, b.mesh_wx0_commitment);
    assert_eq!(a.nested_s_prime_commitment, b.nested_s_prime_commitment);

    assert_ne!(a.mesh_wx0_blind, a.mesh_wx1_blind);
    assert_ne!(a.mesh_wx0_blind.to_bytes(), a.nested_s_prime_blind.to_bytes());
    assert_ne!(a.mesh_wx1_blind.to_bytes(), a.nested_s_prime_blind.to_bytes());
    assert_ne!(a.mesh_wx0_commitment, a.mesh_wx1_commitment);

    // the blinds are the first three draws, in the order of the commitments
    let mut rng = StdRng::seed_from_u64(42);
    assert_eq!(a.mesh_wx0_blind, Fp::random(&mut rng));
    assert_eq!(a.mesh_wx1_blind, Fp::random(&mut rng));
    assert_eq!(a.nested_s_prime_blind, Fq::random(&mut rng));

    // the same challenge twice, and still two commitments
    let mut rng = StdRng::seed_from_u64(42);
    let c = app.compute_s_prime(&mesh_wx, &mut rng, &w, &child(5), &child(5)).unwrap();
    assert_eq!(c.mesh_wx0_poly.coeffs, c.mesh_wx1_poly.coeffs);
    assert_ne!(c.mesh_wx0_commitment, c.mesh_wx1_commitment);
}

#[test]
fn fuse_needs_enough_generators() {
    let w = Fp::from_u64(17);
    let poly = |x: u64| mesh_wx(&w, &Fp::from_u64(x));
    let blinds = (Fp::from_u64(1), Fp::from_u64(2), Fq::from_u64(3));
    let short = application(3, 10);
    let r = short.fuse_with_blinds(poly(5), poly(6), blinds.0, blinds.1, blinds.2);
    assert!(matches!(r, Err(Error::Generators)));
    let short = application(4, 9);
    let r = short.fuse_with_blinds(poly(5), poly(6), blinds.0, blinds.1, blinds.2);
    assert!(matches!(r, Err(Error::Generators)));
    let enough = application(4, 10);
    assert!(enough.fuse_with_blinds(poly(5), poly(6), blinds.0, blinds.1, blinds.2).is_ok());

    // a commitment that is the point at infinity cannot be allocated:
    // with no coefficients and the blind zero, nothing is left of it
    let r = enough.fuse_with_blinds(Polynomial::new(), poly(6), Fp::zero(), blinds.1, blinds.2);
    assert!(matches!(r, Err(Error::Degenerate)));
}
