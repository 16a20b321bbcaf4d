//! The fuse step: from the challenges of two child proofs, the commitments
//! that the next level of the recursion folds in. Each child's mesh
//! polynomial is committed to on the host curve; the two commitments are the
//! witness of a small stage over the other field, whose wire values are
//! committed to on the nested curve. Every commitment has a blind of its
//! own.

use rand::rngs::StdRng;
use vstd::prelude::*;

use crate::commitment::Generators;
use crate::curve::{Curve, PallasPoint, VestaPoint};
use crate::driver::{numbers, Driver, Element, Error};
use crate::field::{le_value, Field, Fp, Fq};
use crate::perhaps::{Always, Perhaps};
use crate::point::POINT_WIRES;
use crate::polynomial::Polynomial;
use crate::staging::{stage_ok, stage_values, StageBuilder, StageRule, StageSpec};

verus! {

/// The challenges of a proof.
pub struct Challenges {
    /// The challenge at which the mesh polynomial is taken.
    pub x: Fp,
}

/// A proof, as far as the fuse step reads it.
pub struct Proof {
    pub challenges: Challenges,
}

/// What the fuse step commits with.
pub struct Application {
    /// The generators on the host curve, for polynomials over the circuit
    /// field.
    pub host_generators: Generators<VestaPoint>,
    /// The generators on the nested curve, for the values of the stage.
    pub nested_generators: Generators<PallasPoint>,
}

/// The witness of the stage: the two commitments on the host curve.
pub struct SPrimeWitness<C: Curve> {
    pub mesh_wx0: C,
    pub mesh_wx1: C,
}

/// What the fuse step produces. The polynomials and blinds are kept for
/// opening the commitments later.
pub struct SPrime {
    pub mesh_wx0_poly: Polynomial<Fp>,
    pub mesh_wx0_blind: Fp,
    pub mesh_wx0_commitment: VestaPoint,
    pub mesh_wx1_poly: Polynomial<Fp>,
    pub mesh_wx1_blind: Fp,
    pub mesh_wx1_commitment: VestaPoint,
    pub nested_s_prime_rx: Polynomial<Fq>,
    pub nested_s_prime_blind: Fq,
    pub nested_s_prime_commitment: PallasPoint,
}

/// How many wires the stage takes: two points.
pub const S_PRIME_WIRES: usize = 10;

/// The stage: two points.
pub open spec fn s_prime_stage() -> StageSpec {
    StageSpec { rule: StageRule::Points, count: 2 }
}

/// The numbers that the stage is fed for the commitments with the encodings
/// `first` and `second`: their coordinates. There are none where one of the
/// two is the point at infinity.
pub open spec fn s_prime_inputs<C: Curve>(first: Seq<u8>, second: Seq<u8>) -> Option<Seq<nat>> {
    match (C::coordinates_of(first), C::coordinates_of(second)) {
        (Some((x0, y0)), Some((x1, y1))) => Some(
            seq![le_value(x0), le_value(y0), le_value(x1), le_value(y1)],
        ),
        _ => None,
    }
}

/// The numbers `s` as integers.
pub open spec fn as_ints(s: Seq<nat>) -> Seq<int> {
    Seq::new(s.len(), |i: int| s[i] as int)
}

/// The values on the wires of the stage for the commitments with the
/// encodings `first` and `second`, where the stage can be fed with them.
pub open spec fn s_prime_values<C: Curve>(first: Seq<u8>, second: Seq<u8>) -> Option<Seq<int>> {
    match s_prime_inputs::<C>(first, second) {
        Some(inputs) => if stage_ok::<C::Base>(StageRule::Points, inputs, 2) {
            Some(as_ints(stage_values::<C::Base>(StageRule::Points, inputs, 2)))
        } else {
            None
        },
        None => None,
    }
}

/// Runs the stage on `witness` and hands out the values on its wires as a
/// polynomial. Fails with `Degenerate` exactly when one of the commitments
/// is the point at infinity, and else with `Unsatisfied` exactly when the
/// coordinates of one of them do not satisfy the curve equation.
pub fn s_prime_rx<C: Curve>(witness: &SPrimeWitness<C>) -> (r: Result<Polynomial<C::Base>, Error>)
    ensures
        match r {
            Ok(rx) => {
                &&& Some(rx@) == s_prime_values::<C>(
                    witness.mesh_wx0.encoding(),
                    witness.mesh_wx1.encoding(),
                )
                &&& rx@.len() == S_PRIME_WIRES
            },
            Err(e) => {
                &&& s_prime_values::<C>(witness.mesh_wx0.encoding(), witness.mesh_wx1.encoding())
                    is None
                &&& e == if s_prime_inputs::<C>(
                    witness.mesh_wx0.encoding(),
                    witness.mesh_wx1.encoding(),
                ) is None {
                    Error::Degenerate
                } else {
                    Error::Unsatisfied
                }
            },
        },
{
    let first = match witness.mesh_wx0.coordinates() {
        Some(c) => c,
        None => { return Err(Error::Degenerate); },
    };
    let second = match witness.mesh_wx1.coordinates() {
        Some(c) => c,
        None => { return Err(Error::Degenerate); },
    };
    proof {
        first.x.lemma_field();
        first.y.lemma_field();
        second.x.lemma_field();
        second.y.lemma_field();
    }
    let ghost inputs = s_prime_inputs::<C>(
        witness.mesh_wx0.encoding(),
        witness.mesh_wx1.encoding(),
    ).unwrap();
    let mut coords: Vec<C::Base> = Vec::new();
    coords.push(first.x);
    coords.push(first.y);
    coords.push(second.x);
    coords.push(second.y);
    assert(numbers(coords@) =~= inputs);
    let mut declared: Vec<StageSpec> = Vec::new();
    declared.push(StageSpec { rule: StageRule::Points, count: 2 });
    let mut dr: Driver<C::Base, Always<()>> = Driver::new(S_PRIME_WIRES);
    let guard = match StageBuilder::new(declared).add_stage() {
        Ok(g) => g,
        Err(e) => {
            assert(false);
            return Err(e);
        },
    };
    let fed = Always(coords);
    proof {
        dr.lemma_assignment();
        assert(guard.stage() == s_prime_stage());
        assert(crate::staging::unit_wires(StageRule::Points) == POINT_WIRES);
        assert(crate::staging::unit_inputs(StageRule::Points) == 2);
        assert(guard.stage().count == 2);
        assert(guard.stage().wires() == S_PRIME_WIRES);
        assert(guard.stage().inputs() == 4);
        assert(fed.value() == Some(coords));
    }
    let stages = match guard.enforced(&mut dr, fed) {
        Ok((b, _)) => b,
        Err(e) => { return Err(e); },
    };
    match stages.finish() {
        Ok(()) => {},
        Err(e) => {
            assert(false);
            return Err(e);
        },
    }
    let ghost held = dr.assignment().unwrap();
    let coeffs = dr.into_assignment().take();
    let rx = Polynomial { coeffs };
    proof {
        assert(Seq::<nat>::empty() + stage_values::<C::Base>(StageRule::Points, inputs, 2)
            =~= stage_values::<C::Base>(StageRule::Points, inputs, 2));
        assert(rx@ =~= as_ints(held));
        reveal_with_fuel(stage_values, 3);
    }
    Ok(rx)
}

impl Application {
    /// Whether `s` is the outcome of the fuse step for its own polynomials
    /// and blinds: each commitment commits to its polynomial under its
    /// blind, and the values of the stage are those of the two commitments
    /// on the host curve.
    pub open spec fn is_fuse(&self, s: SPrime) -> bool {
        &&& s.mesh_wx0_commitment.encoding() == self.host_generators.commitment(
            s.mesh_wx0_poly.coeffs@,
            s.mesh_wx0_blind,
        )
        &&& s.mesh_wx1_commitment.encoding() == self.host_generators.commitment(
            s.mesh_wx1_poly.coeffs@,
            s.mesh_wx1_blind,
        )
        &&& Some(s.nested_s_prime_rx@) == s_prime_values::<VestaPoint>(
            s.mesh_wx0_commitment.encoding(),
            s.mesh_wx1_commitment.encoding(),
        )
        &&& s.nested_s_prime_commitment.encoding() == self.nested_generators.commitment(
            s.nested_s_prime_rx.coeffs@,
            s.nested_s_prime_blind,
        )
    }

    /// Whether the generators suffice for polynomials of these lengths and
    /// for the values of the stage.
    pub open spec fn suffices(&self, first: nat, second: nat) -> bool {
        first <= self.host_generators.g@.len() && second <= self.host_generators.g@.len()
            && S_PRIME_WIRES <= self.nested_generators.g@.len()
    }

    /// The fuse step for given polynomials and blinds.
    ///
    /// Fails with `Generators`, before anything is committed, exactly when
    /// the generators do not suffice; else with `Degenerate` exactly when a
    /// commitment on the host curve is the point at infinity; else with
    /// `Unsatisfied` exactly when the coordinates of one do not satisfy the
    /// curve equation.
    pub fn fuse_with_blinds(
        &self,
        mesh_wx0_poly: Polynomial<Fp>,
        mesh_wx1_poly: Polynomial<Fp>,
        mesh_wx0_blind: Fp,
        mesh_wx1_blind: Fp,
        nested_s_prime_blind: Fq,
    ) -> (r: Result<SPrime, Error>)
        ensures
            match r {
                Ok(s) => {
                    &&& self.suffices(mesh_wx0_poly.coeffs@.len(), mesh_wx1_poly.coeffs@.len())
                    &&& s.mesh_wx0_poly == mesh_wx0_poly
                    &&& s.mesh_wx1_poly == mesh_wx1_poly
                    &&& s.mesh_wx0_blind == mesh_wx0_blind
                    &&& s.mesh_wx1_blind == mesh_wx1_blind
                    &&& s.nested_s_prime_blind == nested_s_prime_blind
                    &&& self.is_fuse(s)
                },
                Err(e) => if !self.suffices(
                    mesh_wx0_poly.coeffs@.len(),
                    mesh_wx1_poly.coeffs@.len(),
                ) {
                    e == Error::Generators
                } else if s_prime_inputs::<VestaPoint>(
                    self.host_generators.commitment(mesh_wx0_poly.coeffs@, mesh_wx0_blind),
                    self.host_generators.commitment(mesh_wx1_poly.coeffs@, mesh_wx1_blind),
                ) is None {
                    e == Error::Degenerate
                } else {
                    &&& e == Error::Unsatisfied
                    &&& s_prime_values::<VestaPoint>(
                        self.host_generators.commitment(mesh_wx0_poly.coeffs@, mesh_wx0_blind),
                        self.host_generators.commitment(mesh_wx1_poly.coeffs@, mesh_wx1_blind),
                    ) is None
                },
            },
    {
        if mesh_wx0_poly.coeffs.len() > self.host_generators.g.len()
            || mesh_wx1_poly.coeffs.len() > self.host_generators.g.len()
            || self.nested_generators.g.len() < S_PRIME_WIRES {
            return Err(Error::Generators);
        }
        let mesh_wx0_commitment = match self.host_generators.commit(
            &mesh_wx0_poly.coeffs,
            &mesh_wx0_blind,
        ) {
            Ok(c) => c,
            Err(e) => { return Err(e); },
        };
        let mesh_wx1_commitment = match self.host_generators.commit(
            &mesh_wx1_poly.coeffs,
            &mesh_wx1_blind,
        ) {
            Ok(c) => c,
            Err(e) => { return Err(e); },
        };
        let witness = SPrimeWitness {
            mesh_wx0: mesh_wx0_commitment,
            mesh_wx1: mesh_wx1_commitment,
        };
        let nested_s_prime_rx = match s_prime_rx(&witness) {
            Ok(rx) => rx,
            Err(e) => { return Err(e); },
        };
        assert(nested_s_prime_rx.coeffs@.len() == nested_s_prime_rx@.len());
        let nested_s_prime_commitment = match self.nested_generators.commit(
            &nested_s_prime_rx.coeffs,
            &nested_s_prime_blind,
        ) {
            Ok(c) => c,
            Err(e) => { return Err(e); },
        };
        Ok(
            SPrime {
                mesh_wx0_poly,
                mesh_wx0_blind,
                mesh_wx0_commitment,
                mesh_wx1_poly,
                mesh_wx1_blind,
                mesh_wx1_commitment,
                nested_s_prime_rx,
                nested_s_prime_blind,
                nested_s_prime_commitment,
            },
        )
    }

    /// The fuse step. `mesh_wx` gives the mesh polynomial at a shared scalar
    /// and a challenge; it is asked once for each child. Three blinds are
    /// drawn from `rng`, one for each commitment, in the order of the
    /// commitments.
    ///
    /// Whatever is drawn: a success is the outcome of `fuse_with_blinds` for
    /// polynomials that `mesh_wx` gave for `w` and the two challenges and
    /// for the blinds that the outcome holds, and a failure is one of its
    /// failures.
    pub fn compute_s_prime<M: Fn(&Fp, &Fp) -> Polynomial<Fp>>(
        &self,
        mesh_wx: &M,
        rng: &mut StdRng,
        w: &Element<Fp, Always<()>>,
        left: &Proof,
        right: &Proof,
    ) -> (r: Result<SPrime, Error>)
        requires
            mesh_wx.requires((&w.value.0, &left.challenges.x)),
            mesh_wx.requires((&w.value.0, &right.challenges.x)),
        ensures
            match r {
                Ok(s) => {
                    &&& mesh_wx.ensures((&w.value.0, &left.challenges.x), s.mesh_wx0_poly)
                    &&& mesh_wx.ensures((&w.value.0, &right.challenges.x), s.mesh_wx1_poly)
                    &&& self.is_fuse(s)
                },
                Err(e) => e == Error::Generators || e == Error::Degenerate || e
                    == Error::Unsatisfied,
            },
    {
        let w = w.value.snag();
        let x0 = &left.challenges.x;
        let x1 = &right.challenges.x;
        let mesh_wx0_poly = mesh_wx(w, x0);
        let mesh_wx0_blind = Fp::random(rng);
        let mesh_wx1_poly = mesh_wx(w, x1);
        let mesh_wx1_blind = Fp::random(rng);
        let nested_s_prime_blind = Fq::random(rng);
        match self.fuse_with_blinds(
            mesh_wx0_poly,
            mesh_wx1_poly,
            mesh_wx0_blind,
            mesh_wx1_blind,
            nested_s_prime_blind,
        ) {
            Ok(s) => Ok(s),
            Err(e) => Err(e),
        }
    }
}

/// With the polynomials and the blinds fixed, the outcome of the fuse step
/// is fixed: two outcomes for the same polynomials and blinds hold the same
/// commitments and the same stage values.
pub proof fn lemma_fuse_deterministic(app: Application, a: SPrime, b: SPrime)
    requires
        app.is_fuse(a),
        app.is_fuse(b),
        a.mesh_wx0_poly.coeffs@ == b.mesh_wx0_poly.coeffs@,
        a.mesh_wx1_poly.coeffs@ == b.mesh_wx1_poly.coeffs@,
        a.mesh_wx0_blind == b.mesh_wx0_blind,
        a.mesh_wx1_blind == b.mesh_wx1_blind,
        a.nested_s_prime_blind == b.nested_s_prime_blind,
    ensures
        a.mesh_wx0_commitment.encoding() == b.mesh_wx0_commitment.encoding(),
        a.mesh_wx1_commitment.encoding() == b.mesh_wx1_commitment.encoding(),
        a.nested_s_prime_rx@ == b.nested_s_prime_rx@,
        a.nested_s_prime_commitment.encoding() == b.nested_s_prime_commitment.encoding(),
{
    let x = a.nested_s_prime_rx.coeffs@;
    let y = b.nested_s_prime_rx.coeffs@;
    assert(a.nested_s_prime_rx@.len() == x.len());
    assert(b.nested_s_prime_rx@.len() == y.len());
    assert forall|i: int| 0 <= i < x.len() implies x[i].bytes() == y[i].bytes() by {
        x[i].lemma_field();
        y[i].lemma_field();
        assert(a.nested_s_prime_rx@[i] == x[i].value());
        assert(b.nested_s_prime_rx@[i] == y[i].value());
    }
    assert(crate::commitment::scalar_bytes(x) =~= crate::commitment::scalar_bytes(y));
}

} // verus!
