//! The circuit mesh: a registry of circuit objects, each known by the index
//! that the order of registration gave it. A builder takes registrations;
//! the finished mesh only hands objects out.

use vstd::prelude::*;

use crate::circuit::StagedCircuit;
use crate::driver::{Driver, Error, WitnessKind};
use crate::field::Field;
use crate::perhaps::{Perhaps, Rebind};
use crate::staging::StageBuilder;

verus! {

/// A mesh that still takes registrations.
pub struct MeshBuilder<O> {
    objects: Vec<O>,
}

/// A finished mesh.
pub struct Mesh<O> {
    objects: Vec<O>,
}

impl<O> MeshBuilder<O> {
    /// The objects registered, in order of registration.
    pub closed spec fn entries(&self) -> Seq<O> {
        self.objects@
    }

    /// A mesh with nothing registered.
    pub fn new() -> (r: MeshBuilder<O>)
        ensures
            r.entries() == Seq::<O>::empty(),
    {
        MeshBuilder { objects: Vec::new() }
    }

    /// How many objects are registered, which is the index that the next
    /// one gets.
    pub fn len(&self) -> (r: usize)
        ensures
            r == self.entries().len(),
    {
        self.objects.len()
    }

    /// Registers `object` behind those registered before: it gets the next
    /// index, and the others keep theirs.
    pub fn register_circuit_object(self, object: O) -> (r: MeshBuilder<O>)
        ensures
            r.entries() == self.entries().push(object),
    {
        let mut objects = self.objects;
        objects.push(object);
        MeshBuilder { objects }
    }

    /// The mesh of the objects registered. Nothing can be registered after.
    pub fn finalize(self) -> (r: Mesh<O>)
        ensures
            r.entries() == self.entries(),
    {
        Mesh { objects: self.objects }
    }
}

impl<O> Mesh<O> {
    /// The objects of the mesh, each at its index.
    pub closed spec fn entries(&self) -> Seq<O> {
        self.objects@
    }

    /// How many objects the mesh holds.
    pub fn len(&self) -> (r: usize)
        ensures
            r == self.entries().len(),
    {
        self.objects.len()
    }

    /// The object registered at `index`. Fails exactly when nothing is
    /// registered there.
    pub fn dispatch(&self, index: usize) -> (r: Result<&O, Error>)
        ensures
            match r {
                Ok(o) => index < self.entries().len() && *o == self.entries()[index as int],
                Err(e) => index >= self.entries().len() && e == Error::MeshIndex,
            },
    {
        if index < self.objects.len() {
            Ok(&self.objects[index])
        } else {
            Err(Error::MeshIndex)
        }
    }
}

impl<O> Mesh<O> {
    /// Runs the instance phase of the circuit registered at `index`. Fails
    /// with `MeshIndex`, changing nothing, when nothing is registered there;
    /// else it does what that circuit's instance phase does, whatever the
    /// kind of the driver.
    pub fn instance<F: Field, K: WitnessKind<F>>(
        &self,
        index: usize,
        dr: &mut Driver<F, K>,
        instance: <K as Rebind<O::Instance>>::Out,
    ) -> (r: Result<O::Output, Error>) where
        O: StagedCircuit<F, K>,
        K: Rebind<O::Instance> + Rebind<O::Witness> + Rebind<O::Aux>,

        requires
            old(dr).wf(),
        ensures
            final(dr).wf(),
            final(dr).capacity() == old(dr).capacity(),
            match r {
                Ok(_) => {
                    &&& index < self.entries().len()
                    &&& final(dr).shape() == self.entries()[index as int].instance_shape(
                        old(dr).shape(),
                    )
                },
                Err(e) => index >= self.entries().len() ==> {
                    &&& e == Error::MeshIndex
                    &&& final(dr).shape() == old(dr).shape()
                    &&& final(dr).assignment() == old(dr).assignment()
                },
            },
    {
        match self.dispatch(index) {
            Ok(circuit) => circuit.instance(dr, instance),
            Err(e) => Err(e),
        }
    }

    /// Runs the witness phase of the circuit registered at `index`. Fails
    /// with `MeshIndex`, changing nothing, when nothing is registered there;
    /// else it does what that circuit's witness phase does, whatever the
    /// kind of the driver.
    pub fn witness<F: Field, K: WitnessKind<F>>(
        &self,
        index: usize,
        dr: &mut Driver<F, K>,
        stages: StageBuilder,
        witness: <K as Rebind<O::Witness>>::Out,
    ) -> (r: Result<(O::Output, <K as Rebind<O::Aux>>::Out), Error>) where
        O: StagedCircuit<F, K>,
        K: Rebind<O::Instance> + Rebind<O::Witness> + Rebind<O::Aux>,

        requires
            old(dr).wf(),
            stages.wf(),
            index < self.entries().len() ==> self.entries()[index as int].admits(witness.value()),
        ensures
            final(dr).wf(),
            final(dr).capacity() == old(dr).capacity(),
            match r {
                Ok(_) => {
                    &&& index < self.entries().len()
                    &&& final(dr).shape() == self.entries()[index as int].witness_shape(
                        old(dr).shape(),
                    )
                },
                Err(e) => index >= self.entries().len() ==> {
                    &&& e == Error::MeshIndex
                    &&& final(dr).shape() == old(dr).shape()
                    &&& final(dr).assignment() == old(dr).assignment()
                },
            },
    {
        match self.dispatch(index) {
            Ok(circuit) => circuit.witness(dr, stages, witness),
            Err(e) => Err(e),
        }
    }
}

/// The index of an object is its place in the order of registration: with
/// `a`, `b` and `c` registered in this order on an empty mesh, they are found
/// at 0, 1 and 2, and nothing else is found.
pub proof fn lemma_registration_order<O>(
    empty: MeshBuilder<O>,
    first: MeshBuilder<O>,
    second: MeshBuilder<O>,
    third: MeshBuilder<O>,
    mesh: Mesh<O>,
    a: O,
    b: O,
    c: O,
)
    requires
        empty.entries() == Seq::<O>::empty(),
        first.entries() == empty.entries().push(a),
        second.entries() == first.entries().push(b),
        third.entries() == second.entries().push(c),
        mesh.entries() == third.entries(),
    ensures
        mesh.entries().len() == 3,
        mesh.entries()[0] == a,
        mesh.entries()[1] == b,
        mesh.entries()[2] == c,
{
}

/// A registration leaves every earlier index as it was.
pub proof fn lemma_index_stability<O>(
    before: MeshBuilder<O>,
    after: MeshBuilder<O>,
    object: O,
    i: int,
)
    requires
        after.entries() == before.entries().push(object),
        0 <= i < before.entries().len(),
    ensures
        after.entries()[i] == before.entries()[i],
        after.entries()[before.entries().len() as int] == object,
{
}

/// The circuits that the nested side of the scheme registers.
#[derive(Clone, Copy, Debug, PartialEq, Eq, Structural)]
pub enum NestedCircuit {
    /// The stage of the endoscalar.
    EndoscalarStage,
    /// The stage of the points.
    PointsStage,
    /// The points stage as the final stage of a staged circuit.
    PointsFinalStaged,
    /// The endoscaling step of this number.
    EndoscalingStep(usize),
}

/// Where the nested circuits are found in a mesh that registered them first.
#[derive(Clone, Copy, Debug, PartialEq, Eq, Structural)]
pub enum InternalCircuitIndex {
    /// The stage of the endoscalar.
    EndoscalarStage,
    /// The stage of the points.
    PointsStage,
    /// The points stage as the final stage of a staged circuit.
    PointsFinalStaged,
    /// Where the endoscaling steps begin: step `i` is found `i` further on.
    EndoscalingStepStart,
}

impl InternalCircuitIndex {
    /// The index as a number.
    pub open spec fn spec_index(self) -> nat {
        match self {
            InternalCircuitIndex::EndoscalarStage => 0,
            InternalCircuitIndex::PointsStage => 1,
            InternalCircuitIndex::PointsFinalStaged => 2,
            InternalCircuitIndex::EndoscalingStepStart => 3,
        }
    }

    /// The index as a number.
    pub fn index(self) -> (r: usize)
        ensures
            r == self.spec_index(),
    {
        match self {
            InternalCircuitIndex::EndoscalarStage => 0,
            InternalCircuitIndex::PointsStage => 1,
            InternalCircuitIndex::PointsFinalStaged => 2,
            InternalCircuitIndex::EndoscalingStepStart => 3,
        }
    }
}

/// The nested circuits in the order in which they are registered: the two
/// stages, the final staged object, then the steps from 0 up.
pub open spec fn nested_circuits(num_steps: nat) -> Seq<NestedCircuit> {
    Seq::new(
        3 + num_steps,
        |i: int|
            if i == 0 {
                NestedCircuit::EndoscalarStage
            } else if i == 1 {
                NestedCircuit::PointsStage
            } else if i == 2 {
                NestedCircuit::PointsFinalStaged
            } else {
                NestedCircuit::EndoscalingStep((i - 3) as usize)
            },
    )
}

/// Registers the nested circuits behind what `mesh` holds.
pub fn register_all(mesh: MeshBuilder<NestedCircuit>, num_steps: usize) -> (r: MeshBuilder<
    NestedCircuit,
>)
    ensures
        r.entries() == mesh.entries() + nested_circuits(num_steps as nat),
{
    let ghost start = mesh.entries();
    let mut mesh = mesh.register_circuit_object(NestedCircuit::EndoscalarStage);
    mesh = mesh.register_circuit_object(NestedCircuit::PointsStage);
    mesh = mesh.register_circuit_object(NestedCircuit::PointsFinalStaged);
    let mut step: usize = 0;
    assert(mesh.entries() =~= start + nested_circuits(0));
    while step < num_steps
        invariant
            step <= num_steps,
            mesh.entries() == start + nested_circuits(step as nat),
        decreases num_steps - step,
    {
        mesh = mesh.register_circuit_object(NestedCircuit::EndoscalingStep(step));
        assert(mesh.entries() =~= start + nested_circuits((step + 1) as nat));
        step += 1;
    }
    mesh
}

/// In a mesh that registered the nested circuits first, each is found at its
/// internal index, and step `i` is found `i` behind where the steps begin.
pub proof fn lemma_internal_indices(num_steps: nat, step: nat)
    requires
        step < num_steps,
        3 + step <= usize::MAX,
    ensures
        nested_circuits(num_steps)[InternalCircuitIndex::EndoscalarStage.spec_index() as int]
            == NestedCircuit::EndoscalarStage,
        nested_circuits(num_steps)[InternalCircuitIndex::PointsStage.spec_index() as int]
            == NestedCircuit::PointsStage,
        nested_circuits(num_steps)[InternalCircuitIndex::PointsFinalStaged.spec_index() as int]
            == NestedCircuit::PointsFinalStaged,
        nested_circuits(num_steps)[InternalCircuitIndex::EndoscalingStepStart.spec_index() as int
            + step] == NestedCircuit::EndoscalingStep(step as usize),
{
}

} // verus!
