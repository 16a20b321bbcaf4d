//! What a staged circuit is: an instance phase over the public input and
//! output, and a witness phase that adds and feeds the circuit's stages and
//! yields the output and an auxiliary value.
//!
//! What a phase does to the structure of the constraint system is a function
//! of the circuit and of the structure before. It is declared apart from the
//! kind of the driver, so a circuit has one such function for drivers with a
//! witness and for drivers without.

use vstd::prelude::*;

use crate::driver::{Constraint, Driver, Error, WitnessKind};
use crate::field::Field;
use crate::perhaps::{Perhaps, Rebind};
use crate::staging::StageBuilder;

verus! {

/// What a circuit does to the structure of a constraint system, whatever the
/// kind of the driver.
pub trait CircuitShape<F: Field>: Sized {
    /// The public input and output.
    type Instance;

    /// What the prover supplies.
    type Witness;

    /// What the witness phase yields beside the output.
    type Aux;

    /// The structure after the instance phase, from the structure before.
    spec fn instance_shape(&self, before: (nat, Seq<Constraint>)) -> (nat, Seq<Constraint>);

    /// The structure after the witness phase, from the structure before.
    spec fn witness_shape(&self, before: (nat, Seq<Constraint>)) -> (nat, Seq<Constraint>);

    /// Whether the witness phase can be asked of this circuit with this
    /// witness.
    spec fn admits(&self, witness: Option<Self::Witness>) -> bool;
}

/// A staged circuit, for drivers of the kind `K`.
pub trait StagedCircuit<F: Field, K: WitnessKind<F>>: CircuitShape<F> where
    K: Rebind<Self::Instance> + Rebind<Self::Witness> + Rebind<Self::Aux>,
 {
    /// The output as allocated in the circuit.
    type Output;

    /// The instance phase. Where it succeeds, the structure is that of
    /// `instance_shape`.
    fn instance(&self, dr: &mut Driver<F, K>, instance: <K as Rebind<Self::Instance>>::Out) -> (r:
        Result<Self::Output, Error>)
        requires
            old(dr).wf(),
        ensures
            final(dr).wf(),
            final(dr).capacity() == old(dr).capacity(),
            r is Ok ==> final(dr).shape() == self.instance_shape(old(dr).shape()),
    ;

    /// The witness phase. Where it succeeds, the structure is that of
    /// `witness_shape`.
    fn witness(
        &self,
        dr: &mut Driver<F, K>,
        stages: StageBuilder,
        witness: <K as Rebind<Self::Witness>>::Out,
    ) -> (r: Result<(Self::Output, <K as Rebind<Self::Aux>>::Out), Error>)
        requires
            old(dr).wf(),
            stages.wf(),
            self.admits(witness.value()),
        ensures
            final(dr).wf(),
            final(dr).capacity() == old(dr).capacity(),
            r is Ok ==> final(dr).shape() == self.witness_shape(old(dr).shape()),
    ;
}

/// Whatever the circuit: from the same structure, a phase run by a driver
/// with a witness and the same phase run by a driver without one arrive, where
/// both succeed, at the same structure.
pub proof fn lemma_kind_equivalence<
    F: Field,
    C: CircuitShape<F>,
    K1: WitnessKind<F>,
    K2: WitnessKind<F>,
>(
    circuit: C,
    with_before: Driver<F, K1>,
    with_after: Driver<F, K1>,
    without_before: Driver<F, K2>,
    without_after: Driver<F, K2>,
)
    requires
        with_before.shape() == without_before.shape(),
    ensures
        with_after.shape() == circuit.instance_shape(with_before.shape()) && without_after.shape()
            == circuit.instance_shape(without_before.shape()) ==> with_after.shape()
            == without_after.shape(),
        with_after.shape() == circuit.witness_shape(with_before.shape()) && without_after.shape()
            == circuit.witness_shape(without_before.shape()) ==> with_after.shape()
            == without_after.shape(),
{
}

} // verus!
