//! Endoscaling whose results are witnessed instead of computed: the circuit
//! allocates the candidate results that the prover supplies and hands out the
//! one that it was configured to. Whoever uses it has to establish elsewhere
//! that the candidate is the endoscaling of the input.

use vstd::arithmetic::power2::pow2;
use vstd::prelude::*;

use crate::circuit::{CircuitShape, StagedCircuit};
use crate::driver::{
    extended, numbers, on_curve, AffinePoint, Constraint, Driver, Error, WitnessKind,
};
use crate::field::Field;
use crate::perhaps::{Perhaps, PerhapsCast, Rebind};
use crate::point::{
    allocate_run, lies_on_curve, point_constraints, point_values, run_constraints, run_fails_at,
    run_on_curve, run_values, wires_of, Point, POINT_WIRES,
};
use crate::staging::{unit_inputs, StageBuilder, StageRule, StageSpec};

verus! {

/// How many bits an endoscalar has.
pub const ENDOSCALAR_BITS: usize = 128;

/// How many candidate results the prover supplies.
pub const RESULTS: usize = 5;

/// Bit `i` of `u`, counted from the least significant.
pub open spec fn bit_of(u: nat, i: nat) -> nat {
    (u / pow2(i)) % 2
}

/// The bits of `endoscalar`, least significant first, as field elements.
pub fn endoscalar_bits<F: Field>(endoscalar: u128) -> (r: Vec<F>)
    ensures
        r@.len() == ENDOSCALAR_BITS,
        forall|i: int| 0 <= i < ENDOSCALAR_BITS ==> (#[trigger] r@[i]).value() == bit_of(
            endoscalar as nat,
            i as nat,
        ),
{
    let mut out: Vec<F> = Vec::new();
    let mut rest: u128 = endoscalar;
    let mut i: usize = 0;
    proof {
        vstd::arithmetic::power2::lemma2_to64();
    }
    while i < ENDOSCALAR_BITS
        invariant
            i <= ENDOSCALAR_BITS,
            out@.len() == i,
            rest == endoscalar as nat / pow2(i as nat),
            forall|t: int| 0 <= t < i ==> (#[trigger] out@[t]).value() == bit_of(
                endoscalar as nat,
                t as nat,
            ),
        decreases ENDOSCALAR_BITS - i,
    {
        let bit: u64 = (rest % 2) as u64;
        let ghost sofar = out@;
        out.push(F::from_u64(bit));
        proof {
            vstd::arithmetic::power2::lemma_pow2_unfold((i + 1) as nat);
            vstd::arithmetic::power2::lemma_pow2_pos(i as nat);
            vstd::arithmetic::div_mod::lemma_div_denominator(
                endoscalar as int,
                pow2(i as nat) as int,
                2,
            );
            assert(pow2(i as nat) * 2 == 2 * pow2(i as nat)) by (nonlinear_arith);
            assert forall|t: int| 0 <= t < i + 1 implies (#[trigger] out@[t]).value() == bit_of(
                endoscalar as nat,
                t as nat,
            ) by {
                if t < i {
                    assert(out@[t] == sofar[t]);
                }
            }
        }
        rest = rest / 2;
        i += 1;
    }
    out
}

/// The coordinates of `points`, `x` before `y`, point after point.
pub fn coordinates<F: Field>(points: &Vec<AffinePoint<F>>) -> (r: Vec<F>)
    ensures
        r@.len() == 2 * points@.len(),
        forall|i: int|
            0 <= i < points@.len() ==> r@[2 * i] == (#[trigger] points@[i]).x && r@[2 * i + 1]
                == points@[i].y,
{
    let mut out: Vec<F> = Vec::new();
    let mut i: usize = 0;
    while i < points.len()
        invariant
            i <= points@.len(),
            out@.len() == 2 * i,
            forall|t: int|
                0 <= t < i ==> out@[2 * t] == (#[trigger] points@[t]).x && out@[2 * t + 1]
                    == points@[t].y,
        decreases points@.len() - i,
    {
        out.push(points[i].x);
        out.push(points[i].y);
        i += 1;
    }
    out
}

/// Where an endoscaling step reads a point from.
#[derive(Clone, Copy, Debug, PartialEq, Eq, Structural)]
pub enum Read {
    /// The input point.
    Input,
    /// The slot of this index.
    Slot(usize),
}

/// The public side of an endoscaling: the point that goes in and the point
/// that comes out.
#[derive(Clone, Copy, Debug, PartialEq, Eq)]
pub struct EndoscalingInstance<F: Field> {
    pub input: AffinePoint<F>,
    pub output: AffinePoint<F>,
}

/// The same two points, allocated in a circuit.
pub struct EndoscalingOutput<F: Field, K: WitnessKind<F>> {
    pub input: Point<F, K>,
    pub output: Point<F, K>,
}

/// What the prover supplies: the endoscalar, the slots, the input, and the
/// candidate results, which the circuit takes on trust.
pub struct WitnessedEndoscalingWitness<F: Field, const NUM_SLOTS: usize> {
    pub endoscalar: u128,
    pub slots: Vec<AffinePoint<F>>,
    pub input: AffinePoint<F>,
    pub endoscaled_results: Vec<AffinePoint<F>>,
}

/// The circuit: five reads, and the index of the candidate result that is
/// the output.
#[derive(Clone, Copy, Debug)]
pub struct WitnessedEndoscaling<const NUM_SLOTS: usize> {
    pub a: Read,
    pub b: Read,
    pub c: Read,
    pub d: Read,
    pub e: Read,
    pub output: usize,
}

/// An instance is taken apart into its two points.
impl<F: Field, K: Rebind<AffinePoint<F>>> PerhapsCast<
    (AffinePoint<F>, AffinePoint<F>),
    K,
> for EndoscalingInstance<F> {
    type Output = (<K as Rebind<AffinePoint<F>>>::Out, <K as Rebind<AffinePoint<F>>>::Out);

    open spec fn is_empty_output(out: Self::Output) -> bool {
        out.0.value() is None && out.1.value() is None
    }

    open spec fn is_cast_output(self, out: Self::Output) -> bool {
        out.0.value() == Some(self.input) && out.1.value() == Some(self.output)
    }

    fn empty() -> (r: Self::Output) {
        (<K as Rebind<AffinePoint<F>>>::empty(), <K as Rebind<AffinePoint<F>>>::empty())
    }

    fn cast(self) -> (r: Self::Output) {
        let a = self.input;
        let b = self.output;
        let first = <K as Rebind<AffinePoint<F>>>::perhaps_just(
            move || -> (x: AffinePoint<F>)
                ensures
                    x == a
                { a },
        );
        let second = <K as Rebind<AffinePoint<F>>>::perhaps_just(
            move || -> (y: AffinePoint<F>)
                ensures
                    y == b
                { b },
        );
        (first, second)
    }
}

/// A witness is taken apart into the bits of the endoscalar, the coordinates
/// of the slots, the input and the candidate results.
impl<
    F: Field,
    const NUM_SLOTS: usize,
    K: Rebind<Vec<F>> + Rebind<AffinePoint<F>> + Rebind<Vec<AffinePoint<F>>>,
> PerhapsCast<
    (Vec<F>, Vec<F>, AffinePoint<F>, Vec<AffinePoint<F>>),
    K,
> for WitnessedEndoscalingWitness<F, NUM_SLOTS> {
    type Output = (
        <K as Rebind<Vec<F>>>::Out,
        <K as Rebind<Vec<F>>>::Out,
        <K as Rebind<AffinePoint<F>>>::Out,
        <K as Rebind<Vec<AffinePoint<F>>>>::Out,
    );

    open spec fn is_empty_output(out: Self::Output) -> bool {
        out.0.value() is None && out.1.value() is None && out.2.value() is None
            && out.3.value() is None
    }

    open spec fn is_cast_output(self, out: Self::Output) -> bool {
        &&& out.0.value() matches Some(bits) && bits@.len() == ENDOSCALAR_BITS && forall|i: int|
            0 <= i < ENDOSCALAR_BITS ==> (#[trigger] bits@[i]).value() == bit_of(
                self.endoscalar as nat,
                i as nat,
            )
        &&& out.1.value() matches Some(coords) && coords@.len() == 2 * self.slots@.len()
            && forall|i: int|
            0 <= i < self.slots@.len() ==> coords@[2 * i] == (#[trigger] self.slots@[i]).x
                && coords@[2 * i + 1] == self.slots@[i].y
        &&& out.2.value() == Some(self.input)
        &&& out.3.value() matches Some(results) && results@ == self.endoscaled_results@
    }

    fn empty() -> (r: Self::Output) {
        (
            <K as Rebind<Vec<F>>>::empty(),
            <K as Rebind<Vec<F>>>::empty(),
            <K as Rebind<AffinePoint<F>>>::empty(),
            <K as Rebind<Vec<AffinePoint<F>>>>::empty(),
        )
    }

    fn cast(self) -> (r: Self::Output) {
        let WitnessedEndoscalingWitness { endoscalar, slots, input, endoscaled_results } = self;
        let bits = <K as Rebind<Vec<F>>>::perhaps_just(
            move || -> (v: Vec<F>)
                ensures
                    v@.len() == ENDOSCALAR_BITS && forall|i: int|
                        0 <= i < ENDOSCALAR_BITS ==> (#[trigger] v@[i]).value() == bit_of(
                            endoscalar as nat,
                            i as nat,
                        )
                { endoscalar_bits::<F>(endoscalar) },
        );
        let ghost held = slots@;
        let coords = <K as Rebind<Vec<F>>>::perhaps_just(
            move || -> (v: Vec<F>)
                ensures
                    v@.len() == 2 * held.len() && forall|i: int|
                        0 <= i < held.len() ==> v@[2 * i] == (#[trigger] held[i]).x && v@[2 * i + 1]
                            == held[i].y
                { coordinates::<F>(&slots) },
        );
        let point = <K as Rebind<AffinePoint<F>>>::perhaps_just(
            move || -> (p: AffinePoint<F>)
                ensures
                    p == input
                { input },
        );
        let ghost candidates = endoscaled_results@;
        let results = <K as Rebind<Vec<AffinePoint<F>>>>::perhaps_just(
            move || -> (v: Vec<AffinePoint<F>>)
                ensures
                    v@ == candidates
                { endoscaled_results },
        );
        (bits, coords, point, results)
    }
}

/// The stages that the circuit declares: the bits of the endoscalar, then
/// the slots.
pub open spec fn declared_stages(num_slots: usize) -> Seq<StageSpec> {
    seq![
        StageSpec { rule: StageRule::Bits, count: ENDOSCALAR_BITS },
        StageSpec { rule: StageRule::Points, count: num_slots },
    ]
}

/// The structure after the instance phase, from the structure before it: two
/// points more.
pub open spec fn instance_shape(before: (nat, Seq<Constraint>)) -> (nat, Seq<Constraint>) {
    ((before.0 + 2 * POINT_WIRES) as nat, before.1 + run_constraints(before.0 as int, 2))
}

/// How many wires the witness phase allocates: the bits, two for each slot,
/// the input and the candidate results.
pub open spec fn witness_wires(num_slots: usize) -> int {
    ENDOSCALAR_BITS + 2 * num_slots + (1 + RESULTS) * POINT_WIRES
}

/// The structure after the witness phase, from the structure before it: the
/// staged values unconstrained, then the input and the candidate results as
/// points.
pub open spec fn witness_shape(before: (nat, Seq<Constraint>), num_slots: usize) -> (
    nat,
    Seq<Constraint>,
) {
    (
        (before.0 + witness_wires(num_slots)) as nat,
        before.1 + run_constraints(
            before.0 + ENDOSCALAR_BITS + 2 * num_slots,
            (1 + RESULTS) as nat,
        ),
    )
}

/// The values on the wires that the witness phase allocates for `w`: the
/// bits of the endoscalar, the coordinates of the slots, and the wires of
/// the input and of the five candidate results as points.
pub open spec fn witness_values<F: Field, const NUM_SLOTS: usize>(
    w: WitnessedEndoscalingWitness<F, NUM_SLOTS>,
) -> Seq<nat> {
    Seq::new(ENDOSCALAR_BITS as nat, |i: int| bit_of(w.endoscalar as nat, i as nat)) + Seq::new(
        2 * w.slots@.len(),
        |j: int|
            if j % 2 == 0 {
                w.slots@[j / 2].x.value()
            } else {
                w.slots@[j / 2].y.value()
            },
    ) + point_values::<F>(w.input.x.value(), w.input.y.value()) + run_values(
        w.endoscaled_results@,
        RESULTS as nat,
    )
}

/// The input point of an instance, where there is an instance.
pub open spec fn input_of<F: Field>(instance: Option<EndoscalingInstance<F>>) -> Option<
    AffinePoint<F>,
> {
    match instance {
        Some(i) => Some(i.input),
        None => None,
    }
}

/// The output point of an instance, where there is an instance.
pub open spec fn output_of<F: Field>(instance: Option<EndoscalingInstance<F>>) -> Option<
    AffinePoint<F>,
> {
    match instance {
        Some(i) => Some(i.output),
        None => None,
    }
}

/// The input point of a witness, where there is a witness.
pub open spec fn witnessed_input<F: Field, const NUM_SLOTS: usize>(
    witness: Option<WitnessedEndoscalingWitness<F, NUM_SLOTS>>,
) -> Option<AffinePoint<F>> {
    match witness {
        Some(w) => Some(w.input),
        None => None,
    }
}

/// The candidate result at `index` of a witness, where there is a witness.
pub open spec fn candidate<F: Field, const NUM_SLOTS: usize>(
    witness: Option<WitnessedEndoscalingWitness<F, NUM_SLOTS>>,
    index: int,
) -> Option<AffinePoint<F>> {
    match witness {
        Some(w) => Some(w.endoscaled_results@[index]),
        None => None,
    }
}

/// Whether the witness has as many slots as the circuit. A witness that is
/// not there has.
pub open spec fn slots_fit<F: Field, const NUM_SLOTS: usize>(
    witness: Option<WitnessedEndoscalingWitness<F, NUM_SLOTS>>,
) -> bool {
    witness matches Some(w) ==> w.slots@.len() == NUM_SLOTS
}

/// Whether the input and the five candidate results of the witness lie on
/// the curve. Those of a witness that is not there do.
pub open spec fn points_lie_on_curve<F: Field, const NUM_SLOTS: usize>(
    witness: Option<WitnessedEndoscalingWitness<F, NUM_SLOTS>>,
) -> bool {
    witness matches Some(w) ==> on_curve::<F>(w.input.x.value(), w.input.y.value())
        && run_on_curve(w.endoscaled_results@, RESULTS as nat)
}

/// Whether candidate `i` of the witness is the first that does not lie on
/// the curve.
pub open spec fn candidate_fails_at<F: Field, const NUM_SLOTS: usize>(
    witness: Option<WitnessedEndoscalingWitness<F, NUM_SLOTS>>,
    i: int,
) -> bool {
    &&& witness matches Some(w) && run_on_curve(w.endoscaled_results@, i as nat)
    &&& !lies_on_curve(candidate(witness, i))
}

/// The values on the wires that the witness phase allocates; none where
/// there is no witness.
pub open spec fn witness_wire_values<F: Field, const NUM_SLOTS: usize>(
    witness: Option<WitnessedEndoscalingWitness<F, NUM_SLOTS>>,
) -> Seq<nat> {
    match witness {
        Some(w) => witness_values(w),
        None => Seq::empty(),
    }
}

/// Whether `stages` is a builder for the stages of the circuit with none of
/// them added yet.
pub open spec fn is_fresh(stages: StageBuilder, num_slots: usize) -> bool {
    stages.declared() == declared_stages(num_slots) && stages.added() == 0
}

impl<const NUM_SLOTS: usize> WitnessedEndoscaling<NUM_SLOTS> {
    /// The stages of the circuit, for the builder that `witness` is handed.
    pub fn stages() -> (r: Vec<StageSpec>)
        ensures
            r@ == declared_stages(NUM_SLOTS),
    {
        let mut r: Vec<StageSpec> = Vec::new();
        r.push(StageSpec { rule: StageRule::Bits, count: ENDOSCALAR_BITS });
        r.push(StageSpec { rule: StageRule::Points, count: NUM_SLOTS });
        assert(r@ =~= declared_stages(NUM_SLOTS));
        r
    }
}

impl<F: Field, const NUM_SLOTS: usize> CircuitShape<F> for WitnessedEndoscaling<NUM_SLOTS> {
    type Instance = EndoscalingInstance<F>;

    type Witness = WitnessedEndoscalingWitness<F, NUM_SLOTS>;

    type Aux = AffinePoint<F>;

    open spec fn instance_shape(&self, before: (nat, Seq<Constraint>)) -> (nat, Seq<Constraint>) {
        instance_shape(before)
    }

    open spec fn witness_shape(&self, before: (nat, Seq<Constraint>)) -> (nat, Seq<Constraint>) {
        witness_shape(before, NUM_SLOTS)
    }

    /// The configured index is that of a candidate, and a witness has its
    /// five candidates.
    open spec fn admits(&self, witness: Option<WitnessedEndoscalingWitness<F, NUM_SLOTS>>) -> bool {
        &&& self.output < RESULTS
        &&& witness matches Some(w) ==> w.endoscaled_results@.len() >= RESULTS
    }
}

impl<
    F: Field,
    K: WitnessKind<F> + Rebind<EndoscalingInstance<F>> + Rebind<
        WitnessedEndoscalingWitness<F, NUM_SLOTS>,
    >,
    const NUM_SLOTS: usize,
> StagedCircuit<F, K> for WitnessedEndoscaling<NUM_SLOTS> {
    type Output = EndoscalingOutput<F, K>;

    /// The instance phase: allocates the input and the output point. Fails,
    /// changing nothing, when fewer than ten wires are left; fails when there
    /// is an instance and one of its points is not on the curve, and then
    /// with the points up to the first such allocated.
    fn instance(
        &self,
        dr: &mut Driver<F, K>,
        instance: <K as Rebind<EndoscalingInstance<F>>>::Out,
    ) -> (r: Result<EndoscalingOutput<F, K>, Error>)
        ensures
            match r {
                Ok(o) => {
                    &&& old(dr).wires() + 2 * POINT_WIRES <= old(dr).capacity()
                    &&& lies_on_curve(input_of(instance.value()))
                    &&& lies_on_curve(output_of(instance.value()))
                    &&& o.input.x.wire == old(dr).wires()
                    &&& o.input.y.wire == o.input.x.wire + 1
                    &&& o.output.x.wire == old(dr).wires() + POINT_WIRES
                    &&& o.output.y.wire == o.output.x.wire + 1
                    &&& o.input.spec_value() == input_of(instance.value())
                    &&& o.output.spec_value() == output_of(instance.value())
                    &&& final(dr).shape() == instance_shape(old(dr).shape())
                    &&& final(dr).assignment() == extended(
                        old(dr).assignment(),
                        wires_of(input_of(instance.value())) + wires_of(
                            output_of(instance.value()),
                        ),
                    )
                },
                Err(e) => if old(dr).wires() + 2 * POINT_WIRES > old(dr).capacity() {
                    &&& e == Error::CapacityExceeded
                    &&& final(dr).shape() == old(dr).shape()
                    &&& final(dr).assignment() == old(dr).assignment()
                } else {
                    &&& e == Error::Unsatisfied
                    &&& !(lies_on_curve(input_of(instance.value())) && lies_on_curve(
                        output_of(instance.value()),
                    ))
                    &&& final(dr).wires() == old(dr).wires() + if lies_on_curve(
                        input_of(instance.value()),
                    ) {
                        2 * POINT_WIRES
                    } else {
                        POINT_WIRES as int
                    }
                },
            },
    {
        proof {
            dr.lemma_assignment();
            instance.presence();
        }
        let ghost base = dr.wires() as int;
        let ghost start = dr.constraints();
        let ghost before = dr.assignment();
        if dr.capacity_limit() - dr.wire_count() < 2 * POINT_WIRES {
            return Err(Error::CapacityExceeded);
        }
        let (first, second) = instance.cast::<(AffinePoint<F>, AffinePoint<F>)>();
        proof {
            first.presence();
            second.presence();
        }
        let input = match Point::allocate(dr, first) {
            Ok(p) => p,
            Err(e) => { return Err(e); },
        };
        let output = match Point::allocate(dr, second) {
            Ok(p) => p,
            Err(e) => { return Err(e); },
        };
        proof {
            reveal_with_fuel(run_constraints, 3);
            assert(dr.constraints() =~= start + run_constraints(base, 2));
            if before is Some {
                assert(dr.assignment().unwrap() =~= before.unwrap() + (wires_of(
                    input_of(instance.value()),
                ) + wires_of(output_of(instance.value()))));
            }
        }
        Ok(EndoscalingOutput { input, output })
    }

    /// The witness phase. The two stages are added and fed without
    /// enforcement; the input and the five candidate results are allocated as
    /// points; the output is the candidate at the configured index, whatever
    /// the others are.
    ///
    /// Fails, changing nothing, when `stages` is not a fresh builder for the
    /// stages of this circuit, or when the wires left are too few. Fails when
    /// there is a witness and its slots are not `NUM_SLOTS`, with the bits
    /// allocated; or when its input or one of the five candidates is not on
    /// the curve, with the points up to the first such allocated.
    fn witness(
        &self,
        dr: &mut Driver<F, K>,
        stages: StageBuilder,
        witness: <K as Rebind<WitnessedEndoscalingWitness<F, NUM_SLOTS>>>::Out,
    ) -> (r: Result<(EndoscalingOutput<F, K>, <K as Rebind<AffinePoint<F>>>::Out), Error>)
        ensures
            match r {
                Ok((o, aux)) => {
                    &&& is_fresh(stages, NUM_SLOTS)
                    &&& old(dr).wires() + witness_wires(NUM_SLOTS) <= old(dr).capacity()
                    &&& slots_fit(witness.value())
                    &&& points_lie_on_curve(witness.value())
                    &&& o.input.x.wire == old(dr).wires() + ENDOSCALAR_BITS + 2 * NUM_SLOTS
                    &&& o.input.y.wire == o.input.x.wire + 1
                    &&& o.output.x.wire == o.input.x.wire + (1 + self.output) * POINT_WIRES
                    &&& o.output.y.wire == o.output.x.wire + 1
                    &&& o.input.spec_value() == witnessed_input(witness.value())
                    &&& o.output.spec_value() == candidate(witness.value(), self.output as int)
                    &&& aux.value() == candidate(witness.value(), self.output as int)
                    &&& final(dr).shape() == witness_shape(old(dr).shape(), NUM_SLOTS)
                    &&& final(dr).assignment() == extended(
                        old(dr).assignment(),
                        witness_wire_values(witness.value()),
                    )
                },
                Err(e) => if !is_fresh(stages, NUM_SLOTS) {
                    &&& e == Error::StageCount
                    &&& final(dr).shape() == old(dr).shape()
                    &&& final(dr).assignment() == old(dr).assignment()
                } else if old(dr).wires() + witness_wires(NUM_SLOTS) > old(dr).capacity() {
                    &&& e == Error::CapacityExceeded
                    &&& final(dr).shape() == old(dr).shape()
                    &&& final(dr).assignment() == old(dr).assignment()
                } else if !slots_fit(witness.value()) {
                    &&& e == Error::StageSize
                    &&& final(dr).wires() == old(dr).wires() + ENDOSCALAR_BITS
                } else if !lies_on_curve(witnessed_input(witness.value())) {
                    &&& e == Error::Unsatisfied
                    &&& final(dr).wires() == old(dr).wires() + ENDOSCALAR_BITS + 2 * NUM_SLOTS
                        + POINT_WIRES
                } else {
                    &&& e == Error::Unsatisfied
                    &&& !points_lie_on_curve(witness.value())
                    &&& exists|i: int|
                        0 <= i < RESULTS && #[trigger] candidate_fails_at(witness.value(), i)
                            && final(dr).wires() == old(dr).wires() + ENDOSCALAR_BITS + 2
                            * NUM_SLOTS + (i + 2) * POINT_WIRES
                },
            },
    {
        proof {
            dr.lemma_assignment();
            witness.presence();
        }
        let ghost base = dr.wires() as int;
        let ghost start = dr.constraints();
        let bits_stage = StageSpec { rule: StageRule::Bits, count: ENDOSCALAR_BITS };
        let slots_stage = StageSpec { rule: StageRule::Points, count: NUM_SLOTS };
        let fresh = {
            let declared = stages.declared_stages();
            stages.added_count() == 0 && declared.len() == 2 && declared[0] == bits_stage
                && declared[1] == slots_stage
        };
        if !fresh {
            proof {
                if stages.declared() == declared_stages(NUM_SLOTS) {
                    assert(stages.declared()[0] == bits_stage);
                    assert(stages.declared()[1] == slots_stage);
                }
            }
            return Err(Error::StageCount);
        }
        assert(stages.declared() =~= declared_stages(NUM_SLOTS));
        let left = dr.capacity_limit() - dr.wire_count();
        let fixed: usize = ENDOSCALAR_BITS + (1 + RESULTS) * POINT_WIRES;
        if left < fixed || (left - fixed) / 2 < NUM_SLOTS {
            return Err(Error::CapacityExceeded);
        }
        let (bits, coords, input_value, results) = witness.cast::<
            (Vec<F>, Vec<F>, AffinePoint<F>, Vec<AffinePoint<F>>),
        >();
        proof {
            bits.presence();
            coords.presence();
            input_value.presence();
            results.presence();
        }
        let ghost before = dr.assignment();
        let ghost bit_values = bits.value();
        let ghost coord_values = coords.value();
        let endoscalar_guard = match stages.add_stage() {
            Ok(g) => g,
            Err(e) => { return Err(e); },
        };
        proof {
            assert(unit_inputs(StageRule::Bits) == 1);
            assert(unit_inputs(StageRule::Points) == 2);
        }
        let stages = match endoscalar_guard.unenforced(dr, bits) {
            Ok((b, _)) => b,
            Err(e) => { return Err(e); },
        };
        let slots_guard = match stages.add_stage() {
            Ok(g) => g,
            Err(e) => { return Err(e); },
        };
        let stages = match slots_guard.unenforced(dr, coords) {
            Ok((b, _)) => b,
            Err(e) => { return Err(e); },
        };
        match stages.finish() {
            Ok(()) => {},
            Err(e) => { return Err(e); },
        }
        let ghost middle = dr.wires() as int;
        let input = match Point::allocate(dr, input_value) {
            Ok(p) => p,
            Err(e) => { return Err(e); },
        };
        let candidates = match allocate_run(dr, &results, RESULTS) {
            Ok(c) => c,
            Err(e) => {
                proof {
                    let i = choose|i: int|
                        0 <= i < RESULTS && #[trigger] run_fails_at(results.value(), i) && dr.wires()
                            == middle + POINT_WIRES + (i + 1) * POINT_WIRES;
                    assert(candidate_fails_at(witness.value(), i));
                }
                return Err(e);
            },
        };
        let output = candidates[self.output].duplicate();
        let output_value = output.value();
        proof {
            if witness.value() is Some {
                let w = witness.value().unwrap();
                let s = before.unwrap();
                let first = numbers(bit_values.unwrap()@);
                let second = numbers(coord_values.unwrap()@);
                let third = point_values::<F>(w.input.x.value(), w.input.y.value());
                let fourth = run_values(w.endoscaled_results@, RESULTS as nat);
                assert(first =~= Seq::new(
                    ENDOSCALAR_BITS as nat,
                    |i: int| bit_of(w.endoscalar as nat, i as nat),
                ));
                assert(second =~= Seq::new(
                    2 * w.slots@.len(),
                    |j: int|
                        if j % 2 == 0 {
                            w.slots@[j / 2].x.value()
                        } else {
                            w.slots@[j / 2].y.value()
                        },
                )) by {
                    let c = coord_values.unwrap()@;
                    assert forall|j: int| 0 <= j < 2 * w.slots@.len() implies #[trigger] c[j]
                        == if j % 2 == 0 {
                        w.slots@[j / 2].x
                    } else {
                        w.slots@[j / 2].y
                    } by {
                        let i = j / 2;
                        assert(c[2 * i] == w.slots@[i].x && c[2 * i + 1] == w.slots@[i].y);
                    }
                }
                assert(dr.assignment().unwrap() =~= s + (first + second + third + fourth));
                assert(s + (first + second + third + fourth) =~= s + witness_values(w));
            }
            assert(middle == base + ENDOSCALAR_BITS + 2 * NUM_SLOTS);
            lemma_run_after_point(middle, RESULTS as nat);
            assert(dr.constraints() =~= start + run_constraints(middle, (1 + RESULTS) as nat));
        }
        Ok((EndoscalingOutput { input, output }, output_value))
    }
}

/// A point and then `k` more are `k + 1` points.
proof fn lemma_run_after_point(base: int, k: nat)
    ensures
        point_constraints(base) + run_constraints(base + POINT_WIRES, k) == run_constraints(
            base,
            k + 1,
        ),
    decreases k,
{
    if k == 0 {
        assert(run_constraints(base, 1) =~= run_constraints(base, 0) + point_constraints(base));
        assert(point_constraints(base) + run_constraints(base + POINT_WIRES, 0)
            =~= point_constraints(base));
        assert(run_constraints(base, 0) + point_constraints(base) =~= point_constraints(base));
    } else {
        lemma_run_after_point(base, (k - 1) as nat);
        let last = point_constraints(base + POINT_WIRES + (k - 1) * POINT_WIRES);
        assert(base + POINT_WIRES + (k - 1) * POINT_WIRES == base + k * POINT_WIRES);
        assert(run_constraints(base + POINT_WIRES, k) == run_constraints(
            base + POINT_WIRES,
            (k - 1) as nat,
        ) + last);
        assert(run_constraints(base, k + 1) == run_constraints(base, k) + last);
        assert(point_constraints(base) + (run_constraints(base + POINT_WIRES, (k - 1) as nat)
            + last) =~= (point_constraints(base) + run_constraints(
            base + POINT_WIRES,
            (k - 1) as nat,
        )) + last);
    }
}

} // verus!
