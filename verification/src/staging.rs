//! Assembling a circuit from stages in a fixed order. A builder declares the
//! stages; adding a stage hands the builder over to a guard, and only
//! consuming the guard, with or without enforcement, hands it back. So no
//! stage can be skipped, fed twice or added out of turn, and a builder cannot
//! be finished while a guard is outstanding.

use vstd::prelude::*;

use crate::driver::{
    extended, held, numbers, on_curve, Constraint, Driver, Element, Error, WitnessKind,
};
use crate::field::Field;
use crate::perhaps::{Perhaps, Rebind, RebindVec};
use crate::point::{point_constraints, point_values, Point, POINT_WIRES};

verus! {

/// What the values of a stage are, and so what its own allocation constrains.
#[derive(Clone, Copy, Debug, PartialEq, Eq, Structural)]
pub enum StageRule {
    /// Each value is a bit: zero or one.
    Bits,
    /// Each two values are the coordinates of a point of the curve.
    Points,
}

/// A stage: a rule, and how many bits or points it holds.
#[derive(Clone, Copy, Debug, PartialEq, Eq, Structural)]
pub struct StageSpec {
    pub rule: StageRule,
    pub count: usize,
}

/// How many wires a bit takes when enforced: the bit and its square.
pub const BIT_WIRES: usize = 2;

/// How many values one bit or point is given as.
pub open spec fn unit_inputs(rule: StageRule) -> int {
    match rule {
        StageRule::Bits => 1,
        StageRule::Points => 2,
    }
}

/// How many wires one bit or point takes when enforced.
pub open spec fn unit_wires(rule: StageRule) -> int {
    match rule {
        StageRule::Bits => BIT_WIRES as int,
        StageRule::Points => POINT_WIRES as int,
    }
}

/// The constraints of an enforced bit whose first wire is `base`: the second
/// wire is its square, and the square is the bit.
pub open spec fn bit_constraints(base: int) -> Seq<Constraint> {
    seq![
        Constraint::Product { left: base as usize, right: base as usize, out: (base + 1) as usize },
        Constraint::Offset { from: (base + 1) as usize, to: base as usize, by: 0 },
    ]
}

/// The constraints of one enforced bit or point whose first wire is `base`.
pub open spec fn unit_constraints(rule: StageRule, base: int) -> Seq<Constraint> {
    match rule {
        StageRule::Bits => bit_constraints(base),
        StageRule::Points => point_constraints(base),
    }
}

/// The values on the wires of one enforced bit or point given as `inputs`.
pub open spec fn unit_values<F: Field>(rule: StageRule, inputs: Seq<nat>) -> Seq<nat> {
    match rule {
        StageRule::Bits => seq![inputs[0], (inputs[0] * inputs[0]) % F::modulus()],
        StageRule::Points => point_values::<F>(inputs[0], inputs[1]),
    }
}

/// Whether the values `inputs` are one bit, or the coordinates of one point
/// of the curve.
pub open spec fn unit_ok<F: Field>(rule: StageRule, inputs: Seq<nat>) -> bool {
    match rule {
        StageRule::Bits => (inputs[0] * inputs[0]) % F::modulus() == inputs[0],
        StageRule::Points => on_curve::<F>(inputs[0], inputs[1]),
    }
}

/// The values that unit `i` of a stage is given as.
pub open spec fn unit_of(rule: StageRule, inputs: Seq<nat>, i: int) -> Seq<nat> {
    inputs.subrange(i * unit_inputs(rule), (i + 1) * unit_inputs(rule))
}

/// The constraints of the first `k` units of an enforced stage whose first
/// wire is `base`.
pub open spec fn stage_constraints(rule: StageRule, base: int, k: nat) -> Seq<Constraint>
    decreases k,
{
    if k == 0 {
        Seq::empty()
    } else {
        stage_constraints(rule, base, (k - 1) as nat) + unit_constraints(
            rule,
            base + (k - 1) * unit_wires(rule),
        )
    }
}

/// The values on the wires of the first `k` units of an enforced stage given
/// the values `inputs`.
pub open spec fn stage_values<F: Field>(rule: StageRule, inputs: Seq<nat>, k: nat) -> Seq<nat>
    decreases k,
{
    if k == 0 {
        Seq::empty()
    } else {
        stage_values::<F>(rule, inputs, (k - 1) as nat) + unit_values::<F>(
            rule,
            unit_of(rule, inputs, k - 1),
        )
    }
}

/// Whether each of the first `k` units of `inputs` is what the rule asks
/// for.
pub open spec fn stage_ok<F: Field>(rule: StageRule, inputs: Seq<nat>, k: nat) -> bool {
    forall|i: int| 0 <= i < k ==> unit_ok::<F>(rule, #[trigger] unit_of(rule, inputs, i))
}

impl StageSpec {
    /// How many values the stage is fed.
    pub open spec fn inputs(&self) -> int {
        self.count * unit_inputs(self.rule)
    }

    /// How many wires the stage takes when enforced.
    pub open spec fn wires(&self) -> int {
        self.count * unit_wires(self.rule)
    }
}

/// The right to add the next of the declared stages.
pub struct StageBuilder {
    declared: Vec<StageSpec>,
    added: usize,
}

/// The right, and the duty, to feed one stage. It holds the builder until it
/// is consumed.
pub struct StageGuard {
    builder: StageBuilder,
    stage: StageSpec,
}

impl StageBuilder {
    /// The stages declared, in order.
    pub closed spec fn declared(&self) -> Seq<StageSpec> {
        self.declared@
    }

    /// How many of them were added and fed.
    pub closed spec fn added(&self) -> nat {
        self.added as nat
    }

    /// No more stages were added than were declared.
    pub closed spec fn wf(&self) -> bool {
        self.added <= self.declared@.len()
    }

    /// Whether this is `before` with one stage more added and fed.
    pub open spec fn follows(&self, before: StageBuilder) -> bool {
        &&& self.wf()
        &&& self.declared() == before.declared()
        &&& self.added() == before.added() + 1
    }

    /// A builder for the stages `declared`, none of them added yet.
    pub fn new(declared: Vec<StageSpec>) -> (r: StageBuilder)
        ensures
            r.wf(),
            r.declared() == declared@,
            r.added() == 0,
    {
        StageBuilder { declared, added: 0 }
    }

    /// The stages declared.
    pub fn declared_stages(&self) -> (r: &Vec<StageSpec>)
        ensures
            r@ == self.declared(),
    {
        &self.declared
    }

    /// How many stages were added and fed.
    pub fn added_count(&self) -> (r: usize)
        ensures
            r == self.added(),
    {
        self.added
    }

    /// Adds the next declared stage and hands the builder to its guard.
    /// Fails exactly when every declared stage was added already.
    pub fn add_stage(self) -> (r: Result<StageGuard, Error>)
        requires
            self.wf(),
        ensures
            match r {
                Ok(g) => {
                    &&& self.added() < self.declared().len()
                    &&& g.wf()
                    &&& g.builder() == self
                    &&& g.stage() == self.declared()[self.added() as int]
                },
                Err(e) => self.added() == self.declared().len() && e == Error::StageCount,
            },
    {
        if self.added < self.declared.len() {
            let stage = self.declared[self.added];
            Ok(StageGuard { builder: self, stage })
        } else {
            Err(Error::StageCount)
        }
    }

    /// Ends the sequence. Fails exactly when a declared stage was not added.
    pub fn finish(self) -> (r: Result<(), Error>)
        requires
            self.wf(),
        ensures
            match r {
                Ok(_) => self.added() == self.declared().len(),
                Err(e) => self.added() < self.declared().len() && e == Error::StageCount,
            },
    {
        if self.added == self.declared.len() {
            Ok(())
        } else {
            Err(Error::StageCount)
        }
    }
}

/// The wire of value `j` of an enforced stage whose first wire is `base`.
pub open spec fn input_wire(rule: StageRule, base: int, j: int) -> int {
    base + (j / unit_inputs(rule)) * unit_wires(rule) + j % unit_inputs(rule)
}

/// Whether `out` are handles to the values of `witness`, one for one.
pub open spec fn carries<F: Field, K: WitnessKind<F>>(
    out: Seq<Element<F, K>>,
    witness: Option<Vec<F>>,
) -> bool {
    forall|j: int|
        0 <= j < out.len() ==> (#[trigger] out[j]).value.value() == match witness {
            Some(v) => Some(v@[j]),
            None => None,
        }
}

/// The numbers that a stage is fed; none where there is no witness.
pub open spec fn fed<F: Field>(witness: Option<Vec<F>>) -> Seq<nat> {
    match witness {
        Some(v) => numbers(v@),
        None => Seq::empty(),
    }
}

/// Whether the witness has as many values as the stage is fed. A witness
/// that is not there has.
pub open spec fn fits<F: Field>(witness: Option<Vec<F>>, stage: StageSpec) -> bool {
    witness matches Some(v) ==> v@.len() == stage.inputs()
}

/// Whether the values of the witness are what the rule of the stage asks
/// for. A witness that is not there is.
pub open spec fn holds<F: Field>(witness: Option<Vec<F>>, stage: StageSpec) -> bool {
    witness is Some ==> stage_ok::<F>(stage.rule, fed(witness), stage.count as nat)
}

/// The values on the wires of the enforced stage; none where there is no
/// witness.
pub open spec fn stage_wires<F: Field>(witness: Option<Vec<F>>, stage: StageSpec) -> Seq<nat> {
    match witness {
        Some(v) => stage_values::<F>(stage.rule, numbers(v@), stage.count as nat),
        None => Seq::empty(),
    }
}

/// Whether unit `i` of the witness is the first that is not what the rule
/// of the stage asks for.
pub open spec fn fails_at<F: Field>(witness: Option<Vec<F>>, stage: StageSpec, i: int) -> bool {
    &&& witness is Some
    &&& stage_ok::<F>(stage.rule, fed(witness), i as nat)
    &&& !unit_ok::<F>(stage.rule, unit_of(stage.rule, fed(witness), i))
}

/// Whether the value is a bit. A value that is not there is.
pub open spec fn is_bit<F: Field>(value: Option<F>) -> bool {
    value matches Some(v) ==> unit_ok::<F>(StageRule::Bits, seq![v.value()])
}

/// The values on the wires of an enforced bit; none where there is no
/// value.
pub open spec fn bit_wires<F: Field>(value: Option<F>) -> Seq<nat> {
    match value {
        Some(v) => unit_values::<F>(StageRule::Bits, seq![v.value()]),
        None => Seq::empty(),
    }
}

/// Allocates `value` and constrains it to be a bit. Fails, changing nothing,
/// when fewer than two wires are left; fails, with the two wires allocated,
/// when there is a value and it is neither zero nor one.
pub fn allocate_bit<F: Field, K: WitnessKind<F>>(
    dr: &mut Driver<F, K>,
    value: <K as Rebind<F>>::Out,
) -> (r: Result<Element<F, K>, Error>)
    requires
        old(dr).wf(),
    ensures
        final(dr).wf(),
        final(dr).capacity() == old(dr).capacity(),
        match r {
            Ok(b) => {
                &&& old(dr).wires() + BIT_WIRES <= old(dr).capacity()
                &&& is_bit(value.value())
                &&& b.wire == old(dr).wires()
                &&& b.value.value() == value.value()
                &&& final(dr).wires() == old(dr).wires() + BIT_WIRES
                &&& final(dr).constraints() == old(dr).constraints() + bit_constraints(
                    old(dr).wires() as int,
                )
                &&& final(dr).assignment() == extended(
                    old(dr).assignment(),
                    bit_wires(value.value()),
                )
            },
            Err(e) => if old(dr).wires() + BIT_WIRES > old(dr).capacity() {
                &&& e == Error::CapacityExceeded
                &&& final(dr).shape() == old(dr).shape()
                &&& final(dr).assignment() == old(dr).assignment()
            } else {
                &&& e == Error::Unsatisfied
                &&& !is_bit(value.value())
                &&& final(dr).wires() == old(dr).wires() + BIT_WIRES
            },
        },
{
    proof {
        dr.lemma_assignment();
        value.presence();
        F::lemma_modulus();
    }
    let ghost base = dr.wires() as int;
    let ghost start = dr.constraints();
    let ghost before = dr.assignment();
    if dr.capacity_limit() - dr.wire_count() < BIT_WIRES {
        return Err(Error::CapacityExceeded);
    }
    let bit = match dr.allocate(value) {
        Ok(e) => e,
        Err(e) => { return Err(e); },
    };
    let square = match dr.mul(&bit, &bit) {
        Ok(e) => e,
        Err(e) => { return Err(e); },
    };
    proof {
        if value.value() is Some {
            let v = value.value().unwrap();
            v.lemma_field();
            let sq = (v.value() * v.value()) % F::modulus();
            vstd::arithmetic::div_mod::lemma_small_mod(sq, F::modulus());
        }
    }
    match dr.enforce_offset(&square, &bit, 0) {
        Ok(()) => {},
        Err(e) => { return Err(e); },
    }
    proof {
        assert(dr.constraints() =~= start + bit_constraints(base));
        if before is Some {
            assert(dr.assignment().unwrap() =~= before.unwrap() + bit_wires(value.value()));
        }
    }
    Ok(bit)
}

/// The values that unit `i` of the witness is given as; none where there is
/// no witness.
pub open spec fn unit_fed<F: Field>(rule: StageRule, witness: Option<Vec<F>>, i: int) -> Seq<nat> {
    match witness {
        Some(v) => unit_of(rule, numbers(v@), i),
        None => Seq::empty(),
    }
}

/// Allocates and constrains unit `i` of a stage: one bit, or one point. The
/// handles to its values are appended to `out`. Fails exactly when there are
/// values and the unit's are not what the rule asks for.
fn feed_unit<F: Field, K: WitnessKind<F>>(
    dr: &mut Driver<F, K>,
    rule: StageRule,
    witness: &<K as Rebind<Vec<F>>>::Out,
    i: usize,
    out: &mut Vec<Element<F, K>>,
) -> (r: Result<(), Error>)
    requires
        old(dr).wf(),
        old(dr).wires() + unit_wires(rule) <= old(dr).capacity(),
        (i + 1) * unit_inputs(rule) <= usize::MAX,
        witness.value() matches Some(v) ==> (i + 1) * unit_inputs(rule) <= v@.len(),
    ensures
        final(dr).wf(),
        final(dr).capacity() == old(dr).capacity(),
        match r {
            Ok(_) => {
                &&& witness.value() is Some ==> unit_ok::<F>(
                    rule,
                    unit_fed(rule, witness.value(), i as int),
                )
                &&& final(dr).wires() == old(dr).wires() + unit_wires(rule)
                &&& final(dr).constraints() == old(dr).constraints() + unit_constraints(
                    rule,
                    old(dr).wires() as int,
                )
                &&& final(dr).assignment() == extended(
                    old(dr).assignment(),
                    if witness.value() is Some {
                        unit_values::<F>(rule, unit_fed(rule, witness.value(), i as int))
                    } else {
                        Seq::empty()
                    },
                )
                &&& final(out)@.len() == old(out)@.len() + unit_inputs(rule)
                &&& forall|t: int| 0 <= t < old(out)@.len() ==> final(out)@[t] == old(out)@[t]
                &&& forall|t: int|
                    0 <= t < unit_inputs(rule) ==> {
                        &&& (#[trigger] final(out)@[old(out)@.len() + t]).wire == old(dr).wires()
                            + t
                        &&& final(out)@[old(out)@.len() + t].value.value()
                            == match witness.value() {
                            Some(v) => Some(v@[i * unit_inputs(rule) + t]),
                            None => None,
                        }
                    }
            },
            Err(e) => {
                &&& e == Error::Unsatisfied
                &&& witness.value() is Some
                &&& !unit_ok::<F>(rule, unit_fed(rule, witness.value(), i as int))
                &&& final(dr).wires() == old(dr).wires() + unit_wires(rule)
            },
        },
{
    proof {
        witness.presence();
        dr.lemma_assignment();
    }
    match rule {
        StageRule::Bits => {
            let value = <K as RebindVec<F>>::nth(witness, i);
            proof {
                if witness.value() is Some {
                    let inputs = numbers(witness.value().unwrap()@);
                    assert(unit_of(rule, inputs, i as int) =~= seq![inputs[i as int]]);
                }
            }
            match allocate_bit(dr, value) {
                Ok(b) => {
                    out.push(b);
                    assert(out@[old(out)@.len() as int + 0] == b);
                    Ok(())
                },
                Err(e) => Err(e),
            }
        },
        StageRule::Points => {
            let x = <K as RebindVec<F>>::nth(witness, 2 * i);
            let y = <K as RebindVec<F>>::nth(witness, 2 * i + 1);
            proof {
                x.presence();
                y.presence();
                if witness.value() is Some {
                    let inputs = numbers(witness.value().unwrap()@);
                    assert(unit_of(rule, inputs, i as int) =~= seq![
                        inputs[2 * i],
                        inputs[2 * i + 1],
                    ]);
                }
            }
            let value = <K as WitnessKind<F>>::pair(&x, &y);
            match Point::allocate(dr, value) {
                Ok(pt) => {
                    proof {
                        pt.x.value.presence();
                        pt.y.value.presence();
                    }
                    let ghost first = pt.x;
                    let ghost second = pt.y;
                    out.push(pt.x);
                    out.push(pt.y);
                    assert(out@[old(out)@.len() as int + 0] == first);
                    assert(out@[old(out)@.len() as int + 1] == second);
                    Ok(())
                },
                Err(e) => Err(e),
            }
        },
    }
}

impl StageGuard {
    /// The builder that this guard holds.
    pub closed spec fn builder(&self) -> StageBuilder {
        self.builder
    }

    /// The stage that this guard is to feed.
    pub closed spec fn stage(&self) -> StageSpec {
        self.stage
    }

    /// The guard's stage is the next of those declared.
    pub closed spec fn wf(&self) -> bool {
        &&& self.builder.added < self.builder.declared@.len()
        &&& self.stage == self.builder.declared@[self.builder.added as int]
    }

    /// The builder with this guard's stage counted as fed.
    fn release(self) -> (r: StageBuilder)
        requires
            self.wf(),
        ensures
            r.follows(self.builder()),
    {
        let StageGuard { builder, stage } = self;
        assert(builder == self.builder);
        let total = builder.declared.len();
        assert(builder.added < total);
        StageBuilder { declared: builder.declared, added: builder.added + 1 }
    }

    /// Feeds the stage without enforcement: a wire is allocated for each
    /// value and nothing is constrained. Fails, changing nothing, when the
    /// wires left are too few, or when there are values and their number is
    /// not the stage's.
    pub fn unenforced<F: Field, K: WitnessKind<F>>(
        self,
        dr: &mut Driver<F, K>,
        witness: <K as Rebind<Vec<F>>>::Out,
    ) -> (r: Result<(StageBuilder, Vec<Element<F, K>>), Error>)
        requires
            self.wf(),
            old(dr).wf(),
        ensures
            final(dr).wf(),
            final(dr).capacity() == old(dr).capacity(),
            final(dr).constraints() == old(dr).constraints(),
            match r {
                Ok((b, out)) => {
                    &&& old(dr).wires() + self.stage().inputs() <= old(dr).capacity()
                    &&& fits(witness.value(), self.stage())
                    &&& b.follows(self.builder())
                    &&& out@.len() == self.stage().inputs()
                    &&& carries(out@, witness.value())
                    &&& forall|j: int|
                        0 <= j < out@.len() ==> (#[trigger] out@[j]).wire == old(dr).wires() + j
                    &&& final(dr).wires() == old(dr).wires() + self.stage().inputs()
                    &&& final(dr).assignment() == extended(
                        old(dr).assignment(),
                        fed(witness.value()),
                    )
                },
                Err(e) => {
                    &&& final(dr).wires() == old(dr).wires()
                    &&& final(dr).assignment() == old(dr).assignment()
                    &&& if old(dr).wires() + self.stage().inputs() > old(dr).capacity() {
                        e == Error::CapacityExceeded
                    } else {
                        e == Error::StageSize && !fits(witness.value(), self.stage())
                    }
                },
            },
    {
        proof {
            dr.lemma_assignment();
            witness.presence();
        }
        let per: usize = match self.stage.rule {
            StageRule::Bits => 1,
            StageRule::Points => 2,
        };
        let left = dr.capacity_limit() - dr.wire_count();
        let n = match self.stage.count.checked_mul(per) {
            Some(n) => n,
            None => { return Err(Error::CapacityExceeded); },
        };
        if n > left {
            return Err(Error::CapacityExceeded);
        }
        if !<K as RebindVec<F>>::has_length(&witness, n) {
            return Err(Error::StageSize);
        }
        let ghost base = dr.wires() as int;
        let ghost before = dr.assignment();
        let ghost given = witness.value();
        let mut out: Vec<Element<F, K>> = Vec::new();
        let mut j: usize = 0;
        proof {
            if before is Some {
                assert(before.unwrap() + fed(given).subrange(0, 0) =~= before.unwrap());
            }
        }
        while j < n
            invariant
                j <= n,
                dr.wf(),
                base + n <= dr.capacity(),
                dr.capacity() == old(dr).capacity(),
                dr.constraints() == old(dr).constraints(),
                dr.wires() == base + j,
                given == witness.value(),
                given matches Some(v) ==> v@.len() == n,
                before.is_some() == given.is_some(),
                out@.len() == j,
                carries(out@, given),
                forall|t: int| 0 <= t < j ==> (#[trigger] out@[t]).wire == base + t,
                dr.assignment() == extended(before, fed(given).subrange(0, j as int)),
            decreases n - j,
        {
            let value = <K as RebindVec<F>>::nth(&witness, j);
            match dr.allocate(value) {
                Ok(e) => {
                    proof {
                        if given is Some {
                            let all = fed(given);
                            assert(all.subrange(0, j as int) + held(value.value())
                                =~= all.subrange(0, j + 1));
                            assert((before.unwrap() + all.subrange(0, j as int)) + held(
                                value.value(),
                            ) =~= before.unwrap() + all.subrange(0, j + 1));
                        }
                    }
                    out.push(e);
                },
                Err(e) => {
                    assert(false);
                    return Err(e);
                },
            }
            j += 1;
        }
        proof {
            if given is Some {
                assert(fed(given).subrange(0, n as int) =~= fed(given));
            }
        }
        Ok((self.release(), out))
    }

    /// Feeds the stage with enforcement: each bit or point is allocated and
    /// constrained as the stage's rule asks. Fails, changing nothing, when the
    /// wires left are too few, or when there are values and their number is
    /// not the stage's; fails when there are values and one of them is not
    /// what the rule asks for, and then with the bits or points up to the
    /// first such allocated.
    pub fn enforced<F: Field, K: WitnessKind<F>>(
        self,
        dr: &mut Driver<F, K>,
        witness: <K as Rebind<Vec<F>>>::Out,
    ) -> (r: Result<(StageBuilder, Vec<Element<F, K>>), Error>)
        requires
            self.wf(),
            old(dr).wf(),
        ensures
            final(dr).wf(),
            final(dr).capacity() == old(dr).capacity(),
            match r {
                Ok((b, out)) => {
                    &&& old(dr).wires() + self.stage().wires() <= old(dr).capacity()
                    &&& fits(witness.value(), self.stage())
                    &&& holds(witness.value(), self.stage())
                    &&& b.follows(self.builder())
                    &&& out@.len() == self.stage().inputs()
                    &&& carries(out@, witness.value())
                    &&& forall|j: int|
                        0 <= j < out@.len() ==> (#[trigger] out@[j]).wire == input_wire(
                            self.stage().rule,
                            old(dr).wires() as int,
                            j,
                        )
                    &&& final(dr).wires() == old(dr).wires() + self.stage().wires()
                    &&& final(dr).constraints() == old(dr).constraints() + stage_constraints(
                        self.stage().rule,
                        old(dr).wires() as int,
                        self.stage().count as nat,
                    )
                    &&& final(dr).assignment() == extended(
                        old(dr).assignment(),
                        stage_wires(witness.value(), self.stage()),
                    )
                },
                Err(e) => if old(dr).wires() + self.stage().wires() > old(dr).capacity() {
                    &&& e == Error::CapacityExceeded
                    &&& final(dr).shape() == old(dr).shape()
                    &&& final(dr).assignment() == old(dr).assignment()
                } else if !fits(witness.value(), self.stage()) {
                    &&& e == Error::StageSize
                    &&& final(dr).shape() == old(dr).shape()
                    &&& final(dr).assignment() == old(dr).assignment()
                } else {
                    &&& e == Error::Unsatisfied
                    &&& !holds(witness.value(), self.stage())
                    &&& exists|i: int|
                        0 <= i < self.stage().count && #[trigger] fails_at(
                            witness.value(),
                            self.stage(),
                            i,
                        ) && final(dr).wires() == old(dr).wires() + (i + 1) * unit_wires(
                            self.stage().rule,
                        )
                },
            },
    {
        proof {
            dr.lemma_assignment();
            witness.presence();
        }
        let rule = self.stage.rule;
        let count = self.stage.count;
        let per: usize = match rule {
            StageRule::Bits => 1,
            StageRule::Points => 2,
        };
        let width: usize = match rule {
            StageRule::Bits => BIT_WIRES,
            StageRule::Points => POINT_WIRES,
        };
        let left = dr.capacity_limit() - dr.wire_count();
        let total = match count.checked_mul(width) {
            Some(total) => total,
            None => { return Err(Error::CapacityExceeded); },
        };
        if total > left {
            return Err(Error::CapacityExceeded);
        }
        assert(count * per <= count * width) by (nonlinear_arith)
            requires
                per <= width,
        ;
        let n = count * per;
        if !<K as RebindVec<F>>::has_length(&witness, n) {
            return Err(Error::StageSize);
        }
        let ghost base = dr.wires() as int;
        let ghost start = dr.constraints();
        let ghost before = dr.assignment();
        let ghost given = witness.value();
        let ghost inputs = fed(given);
        let mut out: Vec<Element<F, K>> = Vec::new();
        let mut i: usize = 0;
        proof {
            assert(start + stage_constraints(rule, base, 0) =~= start);
            if before is Some {
                assert(before.unwrap() + stage_values::<F>(rule, inputs, 0) =~= before.unwrap());
            }
        }
        while i < count
            invariant
                i <= count,
                dr.wf(),
                rule == self.stage().rule,
                count == self.stage().count,
                per == unit_inputs(rule),
                width == unit_wires(rule),
                n == count * per,
                total == count * width,
                base == old(dr).wires(),
                base + total <= dr.capacity(),
                dr.capacity() == old(dr).capacity(),
                dr.wires() == base + i * width,
                dr.constraints() == start + stage_constraints(rule, base, i as nat),
                given == witness.value(),
                inputs == fed(given),
                given matches Some(v) ==> v@.len() == n,
                before.is_some() == given.is_some(),
                given is Some ==> dr.assignment() == Some(
                    before.unwrap() + stage_values::<F>(rule, inputs, i as nat),
                ),
                given is Some ==> stage_ok::<F>(rule, inputs, i as nat),
                given is None ==> dr.assignment() is None,
                out@.len() == i * per,
                carries(out@, given),
                forall|t: int|
                    0 <= t < out@.len() ==> (#[trigger] out@[t]).wire == input_wire(rule, base, t),
            decreases count - i,
        {
            proof {
                assert((i + 1) * width == i * width + width) by (nonlinear_arith);
                assert((i + 1) * per == i * per + per) by (nonlinear_arith);
                assert((i + 1) * width <= count * width) by (nonlinear_arith)
                    requires
                        i + 1 <= count,
                ;
                assert((i + 1) * per <= count * per) by (nonlinear_arith)
                    requires
                        i + 1 <= count,
                ;
                assert(0 <= i * per && 0 <= i * width) by (nonlinear_arith);
            }
            let ghost sofar = out@;
            match feed_unit(dr, rule, &witness, i, &mut out) {
                Ok(()) => {
                    proof {
                        assert(dr.constraints() =~= start + stage_constraints(
                            rule,
                            base,
                            (i + 1) as nat,
                        ));
                        if given is Some {
                            assert(dr.assignment().unwrap() =~= before.unwrap() + stage_values::<F>(
                                rule,
                                inputs,
                                (i + 1) as nat,
                            ));
                        }
                        assert forall|t: int| 0 <= t < out@.len() implies (#[trigger] out@[t]).wire
                            == input_wire(rule, base, t) by {
                            if t >= sofar.len() {
                                let off = t - i * per;
                                assert(out@[sofar.len() + off].wire == base + i * width + off);
                                vstd::arithmetic::div_mod::lemma_fundamental_div_mod_converse(
                                    t,
                                    per as int,
                                    i as int,
                                    off,
                                );
                            } else {
                                assert(out@[t] == sofar[t]);
                            }
                        }
                        assert(carries(out@, given)) by {
                            assert forall|t: int| 0 <= t < out@.len() implies (
                            #[trigger] out@[t]).value.value() == match given {
                                Some(v) => Some(v@[t]),
                                None => None,
                            } by {
                                if t < sofar.len() {
                                    assert(out@[t] == sofar[t]);
                                } else {
                                    let off = t - sofar.len();
                                    assert(out@[sofar.len() + off].wire == base + i * width + off);
                                }
                            }
                        }
                    }
                },
                Err(e) => {
                    proof {
                        assert(!unit_ok::<F>(rule, unit_of(rule, inputs, i as int)));
                        assert(!stage_ok::<F>(rule, inputs, count as nat));
                        assert(fails_at(given, self.stage(), i as int));
                    }
                    return Err(e);
                },
            }
            i += 1;
        }
        Ok((self.release(), out))
    }
}

} // verus!
