//! The synthesis driver: the context in which a circuit allocates values and
//! appends constraints. What a driver has recorded of a circuit's structure
//! does not depend on whether witness values are present; only the values do.

use vstd::prelude::*;

use crate::field::Field;
use crate::perhaps::{Always, Empty, Perhaps, PerhapsCast, Rebind, RebindVec};

verus! {

/// Why a circuit could not be built.
#[derive(Clone, Copy, Debug, PartialEq, Eq, Structural)]
pub enum Error {
    /// The constraint system is full.
    CapacityExceeded,
    /// A witness value does not satisfy a constraint it was allocated under.
    Unsatisfied,
    /// A stage was added beyond those declared, or the builder was finished
    /// before every declared stage was added.
    StageCount,
    /// A stage was fed a number of values other than the number it declares.
    StageSize,
    /// A mesh was asked for an index at which nothing is registered.
    MeshIndex,
    /// The generators at hand are fewer than the values to commit to.
    Generators,
    /// A commitment came out as the point at infinity, which has no
    /// coordinates to allocate.
    Degenerate,
}

/// A constraint over wires, each named by its index.
#[derive(Clone, Copy, Debug, PartialEq, Eq, Structural)]
pub enum Constraint {
    /// The value of `out` is the product of those of `left` and `right`.
    Product { left: usize, right: usize, out: usize },
    /// The value of `to` is that of `from` plus the constant `by`.
    Offset { from: usize, to: usize, by: u64 },
}

/// A point of a curve over the field `F` other than the point at infinity,
/// by its coordinates.
#[derive(Clone, Copy, Debug, PartialEq, Eq)]
pub struct AffinePoint<F: Field> {
    pub x: F,
    pub y: F,
}

/// The constant of the curve equation `y^2 = x^3 + 5`.
pub const CURVE_CONSTANT: u64 = 5;

/// Whether the numbers `x` and `y` satisfy the curve equation in the field.
pub open spec fn on_curve<F: Field>(x: nat, y: nat) -> bool {
    (y * y) % F::modulus() == ((((x * x) % F::modulus()) * x) % F::modulus() + CURVE_CONSTANT) % (
    F::modulus() as int)
}

/// Whether `z` is the product of `x` and `y` in the field. Where one of them
/// is not there, neither is the product.
pub open spec fn is_product<F: Field>(x: Option<F>, y: Option<F>, z: Option<F>) -> bool {
    match (x, y) {
        (Some(a), Some(b)) => z matches Some(c) && c.value() == (a.value() * b.value())
            % F::modulus(),
        _ => z is None,
    }
}

/// Whether `to` is `from` plus `by` in the field. Values that are not there
/// satisfy everything.
pub open spec fn is_offset<F: Field>(from: Option<F>, to: Option<F>, by: u64) -> bool {
    match (from, to) {
        (Some(a), Some(b)) => b.value() == (a.value() + by) % (F::modulus() as int),
        _ => true,
    }
}

/// The point with the coordinates `x` and `y`, where both are there.
pub open spec fn paired<F: Field>(x: Option<F>, y: Option<F>) -> Option<AffinePoint<F>> {
    match (x, y) {
        (Some(a), Some(b)) => Some(AffinePoint { x: a, y: b }),
        _ => None,
    }
}

/// The number that `x` is, as a run of one; the empty run where there is no
/// value.
pub open spec fn held<F: Field>(x: Option<F>) -> Seq<nat> {
    match x {
        Some(e) => seq![e.value()],
        None => Seq::empty(),
    }
}

/// The assignment `before` with `added` behind it. Where there were no
/// values before, there are none after.
pub open spec fn extended(before: Option<Seq<nat>>, added: Seq<nat>) -> Option<Seq<nat>> {
    match before {
        Some(s) => Some(s + added),
        None => None,
    }
}

/// The operations of a driver that touch witness values, for each kind of
/// optional container.
pub trait WitnessKind<F: Field>: RebindVec<F> + RebindVec<AffinePoint<F>> {
    /// Appends the value, if there is one, to the assignment.
    fn record(
        assignment: &mut <Self as Rebind<Vec<F>>>::Out,
        value: &<Self as Rebind<F>>::Out,
    )
        ensures
            match (old(assignment).value(), value.value()) {
                (Some(v), Some(x)) => final(assignment).value() matches Some(w) && w@ == v@.push(x),
                _ => final(assignment).value() is None,
            },
    ;

    /// The product of two values, if there are any.
    fn product(
        a: &<Self as Rebind<F>>::Out,
        b: &<Self as Rebind<F>>::Out,
    ) -> (r: <Self as Rebind<F>>::Out)
        ensures
            is_product(a.value(), b.value(), r.value()),
    ;

    /// Whether the second value is the first plus `by`. Values that are not
    /// there satisfy everything.
    fn offset_holds(
        from: &<Self as Rebind<F>>::Out,
        to: &<Self as Rebind<F>>::Out,
        by: u64,
    ) -> (ok: bool)
        ensures
            ok == is_offset(from.value(), to.value(), by),
    ;

    /// A second container with the same value.
    fn copy(a: &<Self as Rebind<F>>::Out) -> (r: <Self as Rebind<F>>::Out)
        ensures
            r.value() == a.value(),
    ;

    /// The point with the coordinates `x` and `y`, if there are any.
    fn pair(
        x: &<Self as Rebind<F>>::Out,
        y: &<Self as Rebind<F>>::Out,
    ) -> (r: <Self as Rebind<AffinePoint<F>>>::Out)
        ensures
            r.value() == paired(x.value(), y.value()),
    ;
}

impl<F: Field> WitnessKind<F> for Always<()> {
    fn record(assignment: &mut Always<Vec<F>>, value: &Always<F>) {
        assignment.0.push(value.0);
    }

    fn product(a: &Always<F>, b: &Always<F>) -> (r: Always<F>) {
        Always(a.0.mul(&b.0))
    }

    fn offset_holds(from: &Always<F>, to: &Always<F>, by: u64) -> (ok: bool) {
        let shifted = from.0.add(&F::from_u64(by));
        to.0.equals(&shifted)
    }

    fn copy(a: &Always<F>) -> (r: Always<F>) {
        Always(a.0)
    }

    fn pair(x: &Always<F>, y: &Always<F>) -> (r: Always<AffinePoint<F>>) {
        Always(AffinePoint { x: x.0, y: y.0 })
    }
}

impl<F: Field> WitnessKind<F> for Empty {
    fn record(assignment: &mut Empty, value: &Empty) {
    }

    fn product(a: &Empty, b: &Empty) -> (r: Empty) {
        Empty
    }

    fn offset_holds(from: &Empty, to: &Empty, by: u64) -> (ok: bool) {
        true
    }

    fn copy(a: &Empty) -> (r: Empty) {
        Empty
    }

    fn pair(x: &Empty, y: &Empty) -> (r: Empty) {
        Empty
    }
}

/// A point is taken apart into its two coordinates.
impl<F: Field, K: Rebind<F>> PerhapsCast<(F, F), K> for AffinePoint<F> {
    type Output = (<K as Rebind<F>>::Out, <K as Rebind<F>>::Out);

    open spec fn is_empty_output(out: Self::Output) -> bool {
        out.0.value() is None && out.1.value() is None
    }

    open spec fn is_cast_output(self, out: Self::Output) -> bool {
        out.0.value() == Some(self.x) && out.1.value() == Some(self.y)
    }

    fn empty() -> (r: Self::Output) {
        (<K as Rebind<F>>::empty(), <K as Rebind<F>>::empty())
    }

    fn cast(self) -> (r: Self::Output) {
        let a = self.x;
        let b = self.y;
        let first = <K as Rebind<F>>::perhaps_just(
            move || -> (x: F)
                ensures
                    x == a
                { a },
        );
        let second = <K as Rebind<F>>::perhaps_just(
            move || -> (y: F)
                ensures
                    y == b
                { b },
        );
        (first, second)
    }
}

/// The numbers that the elements of `v` are.
pub open spec fn numbers<F: Field>(v: Seq<F>) -> Seq<nat> {
    Seq::new(v.len(), |i: int| v[i].value())
}

/// A value allocated in a circuit: its wire, and the value itself where
/// there is one.
pub struct Element<F: Field, K: WitnessKind<F>> {
    /// The index of the wire.
    pub wire: usize,
    /// The value on the wire.
    pub value: <K as Rebind<F>>::Out,
}

/// The synthesis context of one circuit.
pub struct Driver<F: Field, K: WitnessKind<F>> {
    capacity: usize,
    wires: usize,
    constraints: Vec<Constraint>,
    assignment: <K as Rebind<Vec<F>>>::Out,
}

impl<F: Field, K: WitnessKind<F>> Driver<F, K> {
    /// How many wires the constraint system can hold.
    pub closed spec fn capacity(&self) -> nat {
        self.capacity as nat
    }

    /// How many wires were allocated.
    pub closed spec fn wires(&self) -> nat {
        self.wires as nat
    }

    /// The constraints appended, in order.
    pub closed spec fn constraints(&self) -> Seq<Constraint> {
        self.constraints@
    }

    /// What the driver has recorded of the circuit's structure: the number
    /// of wires and the constraints. It holds nothing of the witness.
    pub open spec fn shape(&self) -> (nat, Seq<Constraint>) {
        (self.wires(), self.constraints())
    }

    /// The values on the wires, where there are values.
    pub closed spec fn assignment(&self) -> Option<Seq<nat>> {
        match self.assignment.value() {
            Some(v) => Some(numbers(v@)),
            None => None,
        }
    }

    /// No more wires than the capacity, and a value for each wire where
    /// there are values.
    pub closed spec fn wf(&self) -> bool {
        &&& self.wires <= self.capacity
        &&& self.assignment.value() matches Some(v) ==> v@.len() == self.wires
    }

    /// Values are there exactly for a present kind, one for each wire.
    pub proof fn lemma_assignment(&self)
        requires
            self.wf(),
        ensures
            self.assignment().is_some() == K::present(),
            self.assignment() matches Some(a) ==> a.len() == self.wires(),
            self.wires() <= self.capacity(),
    {
        self.assignment.presence();
    }

    /// A driver with nothing allocated, for a constraint system of
    /// `capacity` wires.
    pub fn new(capacity: usize) -> (r: Driver<F, K>)
        ensures
            r.wf(),
            r.capacity() == capacity,
            r.wires() == 0,
            r.constraints() == Seq::<Constraint>::empty(),
            r.assignment() matches Some(a) ==> a == Seq::<nat>::empty(),
    {
        let assignment = <K as Rebind<Vec<F>>>::perhaps_just(
            || -> (v: Vec<F>)
                ensures
                    v@ == Seq::<F>::empty()
                { Vec::new() },
        );
        let r: Driver<F, K> = Driver { capacity, wires: 0, constraints: Vec::new(), assignment };
        proof {
            if r.assignment.value() is Some {
                assert(numbers(r.assignment.value().unwrap()@) =~= Seq::<nat>::empty());
            }
        }
        r
    }

    /// The number of wires that the constraint system can hold.
    pub fn capacity_limit(&self) -> (r: usize)
        ensures
            r == self.capacity(),
    {
        self.capacity
    }

    /// The number of wires allocated.
    pub fn wire_count(&self) -> (r: usize)
        ensures
            r == self.wires(),
    {
        self.wires
    }

    /// The constraints appended so far.
    pub fn constraint_list(&self) -> (r: &Vec<Constraint>)
        ensures
            r@ == self.constraints(),
    {
        &self.constraints
    }

    /// The values on the wires, in a container of the driver's kind.
    pub fn assignment_values(&self) -> (r: &<K as Rebind<Vec<F>>>::Out)
        ensures
            match r.value() {
                Some(v) => self.assignment() == Some(numbers(v@)),
                None => self.assignment() is None,
            },
    {
        &self.assignment
    }

    /// Ends the synthesis and hands out the values on the wires.
    pub fn into_assignment(self) -> (r: <K as Rebind<Vec<F>>>::Out)
        ensures
            match r.value() {
                Some(v) => self.assignment() == Some(numbers(v@)),
                None => self.assignment() is None,
            },
    {
        self.assignment
    }

    /// Allocates a wire for `value`. Fails exactly when the constraint
    /// system is full, and then changes nothing.
    pub fn allocate(&mut self, value: <K as Rebind<F>>::Out) -> (r: Result<Element<F, K>, Error>)
        requires
            old(self).wf(),
        ensures
            final(self).wf(),
            final(self).capacity() == old(self).capacity(),
            final(self).constraints() == old(self).constraints(),
            match r {
                Ok(e) => {
                    &&& old(self).wires() < old(self).capacity()
                    &&& e.wire == old(self).wires()
                    &&& e.value == value
                    &&& final(self).wires() == old(self).wires() + 1
                    &&& final(self).assignment() == extended(
                        old(self).assignment(),
                        held(value.value()),
                    )
                },
                Err(e) => {
                    &&& old(self).wires() == old(self).capacity()
                    &&& e == Error::CapacityExceeded
                    &&& final(self).wires() == old(self).wires()
                    &&& final(self).assignment() == old(self).assignment()
                },
            },
    {
        if self.wires == self.capacity {
            return Err(Error::CapacityExceeded);
        }
        let wire = self.wires;
        let ghost before = self.assignment.value();
        proof {
            self.assignment.presence();
            value.presence();
        }
        <K as WitnessKind<F>>::record(&mut self.assignment, &value);
        self.wires = self.wires + 1;
        proof {
            if before is Some {
                let v = before.unwrap();
                let x = value.value().unwrap();
                let w = self.assignment.value().unwrap();
                assert(numbers(w@) =~= numbers(v@) + held(value.value()));
            }
        }
        Ok(Element { wire, value })
    }

    /// Allocates a wire for the product of `a` and `b` and constrains it to
    /// be that product. Fails exactly when the constraint system is full, and
    /// then changes nothing.
    pub fn mul(&mut self, a: &Element<F, K>, b: &Element<F, K>) -> (r: Result<Element<F, K>, Error>)
        requires
            old(self).wf(),
        ensures
            final(self).wf(),
            final(self).capacity() == old(self).capacity(),
            match r {
                Ok(e) => {
                    &&& old(self).wires() < old(self).capacity()
                    &&& e.wire == old(self).wires()
                    &&& is_product(a.value.value(), b.value.value(), e.value.value())
                    &&& final(self).wires() == old(self).wires() + 1
                    &&& final(self).constraints() == old(self).constraints().push(
                        Constraint::Product { left: a.wire, right: b.wire, out: e.wire },
                    )
                    &&& final(self).assignment() == extended(
                        old(self).assignment(),
                        held(e.value.value()),
                    )
                },
                Err(e) => {
                    &&& old(self).wires() == old(self).capacity()
                    &&& e == Error::CapacityExceeded
                    &&& final(self).shape() == old(self).shape()
                    &&& final(self).assignment() == old(self).assignment()
                },
            },
    {
        if self.wires == self.capacity {
            return Err(Error::CapacityExceeded);
        }
        let value = <K as WitnessKind<F>>::product(&a.value, &b.value);
        let out = self.wires;
        match self.allocate(value) {
            Ok(e) => {
                self.constraints.push(Constraint::Product { left: a.wire, right: b.wire, out });
                Ok(e)
            },
            Err(e) => Err(e),
        }
    }

    /// Constrains the value of `to` to be that of `from` plus `by`. Fails
    /// exactly when there are values and they are not so, and then changes
    /// nothing.
    pub fn enforce_offset(&mut self, from: &Element<F, K>, to: &Element<F, K>, by: u64) -> (r:
        Result<(), Error>)
        requires
            old(self).wf(),
        ensures
            final(self).wf(),
            final(self).capacity() == old(self).capacity(),
            final(self).wires() == old(self).wires(),
            final(self).assignment() == old(self).assignment(),
            match r {
                Ok(_) => {
                    &&& is_offset(from.value.value(), to.value.value(), by)
                    &&& final(self).constraints() == old(self).constraints().push(
                        Constraint::Offset { from: from.wire, to: to.wire, by },
                    )
                },
                Err(e) => {
                    &&& !is_offset(from.value.value(), to.value.value(), by)
                    &&& e == Error::Unsatisfied
                    &&& final(self).constraints() == old(self).constraints()
                },
            },
    {
        if !<K as WitnessKind<F>>::offset_holds(&from.value, &to.value, by) {
            return Err(Error::Unsatisfied);
        }
        self.constraints.push(Constraint::Offset { from: from.wire, to: to.wire, by });
        Ok(())
    }
}

} // verus!
