//! Curve points in a circuit: two wires for the coordinates, constrained to
//! satisfy the curve equation.

use vstd::prelude::*;

use crate::driver::{
    extended, on_curve, paired, AffinePoint, Constraint, Driver, Element, Error, WitnessKind,
    CURVE_CONSTANT,
};
use crate::field::Field;
use crate::perhaps::{Perhaps, Rebind, RebindVec};

verus! {

/// How many wires a point takes: its coordinates, the square and the cube of
/// `x`, and the square of `y`.
pub const POINT_WIRES: usize = 5;

/// The constraints of a point whose first wire is `base`.
pub open spec fn point_constraints(base: int) -> Seq<Constraint> {
    seq![
        Constraint::Product { left: base as usize, right: base as usize, out: (base + 2) as usize },
        Constraint::Product {
            left: (base + 2) as usize,
            right: base as usize,
            out: (base + 3) as usize,
        },
        Constraint::Product {
            left: (base + 1) as usize,
            right: (base + 1) as usize,
            out: (base + 4) as usize,
        },
        Constraint::Offset {
            from: (base + 3) as usize,
            to: (base + 4) as usize,
            by: CURVE_CONSTANT,
        },
    ]
}

/// The values on the wires of a point with the coordinates `x` and `y`.
pub open spec fn point_values<F: Field>(x: nat, y: nat) -> Seq<nat> {
    seq![
        x,
        y,
        (x * x) % F::modulus(),
        (((x * x) % F::modulus()) * x) % F::modulus(),
        (y * y) % F::modulus(),
    ]
}

/// The values on the wires of the point `p`; none where there is no point.
pub open spec fn wires_of<F: Field>(p: Option<AffinePoint<F>>) -> Seq<nat> {
    match p {
        Some(q) => point_values::<F>(q.x.value(), q.y.value()),
        None => Seq::empty(),
    }
}

/// Whether the point lies on the curve. A point that is not there does.
pub open spec fn lies_on_curve<F: Field>(p: Option<AffinePoint<F>>) -> bool {
    p matches Some(q) ==> on_curve::<F>(q.x.value(), q.y.value())
}

/// A point allocated in a circuit.
pub struct Point<F: Field, K: WitnessKind<F>> {
    /// The wire and value of the first coordinate.
    pub x: Element<F, K>,
    /// The wire and value of the second coordinate.
    pub y: Element<F, K>,
}

impl<F: Field, K: WitnessKind<F>> Point<F, K> {
    /// The point that the values of the coordinates make, if there are any.
    pub open spec fn spec_value(&self) -> Option<AffinePoint<F>> {
        paired(self.x.value.value(), self.y.value.value())
    }

    /// Allocates `value` in the circuit and constrains it to lie on the
    /// curve. Fails, changing nothing, when fewer than five wires are left;
    /// fails, with the five wires allocated, when there is a value and it is
    /// not on the curve.
    pub fn allocate(dr: &mut Driver<F, K>, value: <K as Rebind<AffinePoint<F>>>::Out) -> (r:
        Result<Point<F, K>, Error>)
        requires
            old(dr).wf(),
        ensures
            final(dr).wf(),
            final(dr).capacity() == old(dr).capacity(),
            match r {
                Ok(pt) => {
                    &&& old(dr).wires() + POINT_WIRES <= old(dr).capacity()
                    &&& lies_on_curve(value.value())
                    &&& pt.x.wire == old(dr).wires()
                    &&& pt.y.wire == old(dr).wires() + 1
                    &&& pt.spec_value() == value.value()
                    &&& final(dr).wires() == old(dr).wires() + POINT_WIRES
                    &&& final(dr).constraints() == old(dr).constraints() + point_constraints(
                        old(dr).wires() as int,
                    )
                    &&& final(dr).assignment() == extended(
                        old(dr).assignment(),
                        wires_of(value.value()),
                    )
                },
                Err(e) => if old(dr).wires() + POINT_WIRES > old(dr).capacity() {
                    &&& e == Error::CapacityExceeded
                    &&& final(dr).shape() == old(dr).shape()
                    &&& final(dr).assignment() == old(dr).assignment()
                } else {
                    &&& e == Error::Unsatisfied
                    &&& !lies_on_curve(value.value())
                    &&& final(dr).wires() == old(dr).wires() + POINT_WIRES
                },
            },
    {
        proof {
            dr.lemma_assignment();
            value.presence();
        }
        let ghost base = dr.wires() as int;
        let ghost start = dr.constraints();
        let ghost before = dr.assignment();
        if dr.capacity_limit() - dr.wire_count() < POINT_WIRES {
            return Err(Error::CapacityExceeded);
        }
        let (xv, yv) = value.cast::<(F, F)>();
        proof {
            xv.presence();
            yv.presence();
        }
        let x = match dr.allocate(xv) {
            Ok(e) => e,
            Err(e) => { return Err(e); },
        };
        let y = match dr.allocate(yv) {
            Ok(e) => e,
            Err(e) => { return Err(e); },
        };
        let x2 = match dr.mul(&x, &x) {
            Ok(e) => e,
            Err(e) => { return Err(e); },
        };
        let x3 = match dr.mul(&x2, &x) {
            Ok(e) => e,
            Err(e) => { return Err(e); },
        };
        let y2 = match dr.mul(&y, &y) {
            Ok(e) => e,
            Err(e) => { return Err(e); },
        };
        match dr.enforce_offset(&x3, &y2, CURVE_CONSTANT) {
            Ok(()) => {},
            Err(e) => { return Err(e); },
        }
        proof {
            assert(dr.constraints() =~= start + point_constraints(base));
            if before is Some {
                assert(dr.assignment().unwrap() =~= before.unwrap() + wires_of(value.value()));
            }
        }
        Ok(Point { x, y })
    }

    /// The point allocated, in a container of the driver's kind.
    pub fn value(&self) -> (r: <K as Rebind<AffinePoint<F>>>::Out)
        ensures
            r.value() == self.spec_value(),
    {
        <K as WitnessKind<F>>::pair(&self.x.value, &self.y.value)
    }

    /// A second handle to the same wires and values.
    pub fn duplicate(&self) -> (r: Point<F, K>)
        ensures
            r.x.wire == self.x.wire,
            r.y.wire == self.y.wire,
            r.x.value.value() == self.x.value.value(),
            r.y.value.value() == self.y.value.value(),
            r.spec_value() == self.spec_value(),
    {
        Point {
            x: Element { wire: self.x.wire, value: <K as WitnessKind<F>>::copy(&self.x.value) },
            y: Element { wire: self.y.wire, value: <K as WitnessKind<F>>::copy(&self.y.value) },
        }
    }
}

/// The constraints of `k` points allocated one after the other, the first
/// at the wire `base`.
pub open spec fn run_constraints(base: int, k: nat) -> Seq<Constraint>
    decreases k,
{
    if k == 0 {
        Seq::empty()
    } else {
        run_constraints(base, (k - 1) as nat) + point_constraints(base + (k - 1) * POINT_WIRES)
    }
}

/// The values on the wires of the first `k` of `points`, allocated one after
/// the other.
pub open spec fn run_values<F: Field>(points: Seq<AffinePoint<F>>, k: nat) -> Seq<nat>
    decreases k,
{
    if k == 0 {
        Seq::empty()
    } else {
        run_values(points, (k - 1) as nat) + point_values::<F>(
            points[k - 1].x.value(),
            points[k - 1].y.value(),
        )
    }
}

/// Whether the first `k` of `points` lie on the curve.
pub open spec fn run_on_curve<F: Field>(points: Seq<AffinePoint<F>>, k: nat) -> bool {
    forall|i: int|
        0 <= i < k ==> on_curve::<F>((#[trigger] points[i]).x.value(), points[i].y.value())
}

/// The values on the wires of the first `k` of `points`; none where there
/// are no points.
pub open spec fn run_wires<F: Field>(points: Option<Vec<AffinePoint<F>>>, k: nat) -> Seq<nat> {
    match points {
        Some(v) => run_values(v@, k),
        None => Seq::empty(),
    }
}

/// Whether the first `k` of `points` lie on the curve. Points that are not
/// there do.
pub open spec fn run_lies_on_curve<F: Field>(points: Option<Vec<AffinePoint<F>>>, k: nat) -> bool {
    points matches Some(v) ==> run_on_curve(v@, k)
}

/// Point `i` of `points`, where there are points.
pub open spec fn point_at<F: Field>(points: Option<Vec<AffinePoint<F>>>, i: int) -> Option<
    AffinePoint<F>,
> {
    match points {
        Some(v) => Some(v@[i]),
        None => None,
    }
}

/// Whether point `i` of `points` is the first that does not lie on the
/// curve.
pub open spec fn run_fails_at<F: Field>(points: Option<Vec<AffinePoint<F>>>, i: int) -> bool {
    &&& points is Some
    &&& run_lies_on_curve(points, i as nat)
    &&& !lies_on_curve(point_at(points, i))
}

/// Allocates the first `count` of `points`, one after the other. Fails
/// exactly when there are points and one of the first `count` is not on the
/// curve, and then with the points up to the first such allocated.
pub fn allocate_run<F: Field, K: WitnessKind<F>>(
    dr: &mut Driver<F, K>,
    points: &<K as Rebind<Vec<AffinePoint<F>>>>::Out,
    count: usize,
) -> (r: Result<Vec<Point<F, K>>, Error>)
    requires
        old(dr).wf(),
        old(dr).wires() + count * POINT_WIRES <= old(dr).capacity(),
        points.value() matches Some(v) ==> count <= v@.len(),
    ensures
        final(dr).wf(),
        final(dr).capacity() == old(dr).capacity(),
        match r {
            Ok(pts) => {
                &&& run_lies_on_curve(points.value(), count as nat)
                &&& pts@.len() == count
                &&& forall|i: int|
                    0 <= i < count ==> {
                        &&& (#[trigger] pts@[i]).x.wire == old(dr).wires() + i * POINT_WIRES
                        &&& pts@[i].y.wire == pts@[i].x.wire + 1
                        &&& pts@[i].spec_value() == point_at(points.value(), i)
                    }
                &&& final(dr).wires() == old(dr).wires() + count * POINT_WIRES
                &&& final(dr).constraints() == old(dr).constraints() + run_constraints(
                    old(dr).wires() as int,
                    count as nat,
                )
                &&& final(dr).assignment() == extended(
                    old(dr).assignment(),
                    run_wires(points.value(), count as nat),
                )
            },
            Err(e) => {
                &&& e == Error::Unsatisfied
                &&& !run_lies_on_curve(points.value(), count as nat)
                &&& exists|i: int|
                    0 <= i < count && #[trigger] run_fails_at(points.value(), i) && final(dr).wires() == old(dr).wires() + (i + 1) * POINT_WIRES
            },
        },
{
    proof {
        dr.lemma_assignment();
        points.presence();
    }
    let ghost base = dr.wires() as int;
    let ghost start = dr.constraints();
    let ghost before = dr.assignment();
    let ghost given = points.value();
    let mut out: Vec<Point<F, K>> = Vec::new();
    let mut i: usize = 0;
    proof {
        assert(start + run_constraints(base, 0) =~= start);
        if before is Some {
            assert(before.unwrap() + run_wires(given, 0) =~= before.unwrap());
        }
    }
    while i < count
        invariant
            i <= count,
            dr.wf(),
            base == old(dr).wires(),
            base + count * POINT_WIRES <= dr.capacity(),
            dr.capacity() == old(dr).capacity(),
            dr.wires() == base + i * POINT_WIRES,
            dr.constraints() == start + run_constraints(base, i as nat),
            given == points.value(),
            given matches Some(v) ==> count <= v@.len(),
            before.is_some() == given.is_some(),
            dr.assignment() == extended(before, run_wires(given, i as nat)),
            run_lies_on_curve(given, i as nat),
            out@.len() == i,
            forall|t: int|
                0 <= t < i ==> {
                    &&& (#[trigger] out@[t]).x.wire == base + t * POINT_WIRES
                    &&& out@[t].y.wire == out@[t].x.wire + 1
                    &&& out@[t].spec_value() == point_at(given, t)
                },
        decreases count - i,
    {
        let value = <K as RebindVec<AffinePoint<F>>>::nth(points, i);
        let ghost sofar = out@;
        match Point::allocate(dr, value) {
            Ok(pt) => {
                out.push(pt);
                proof {
                    assert(dr.constraints() =~= start + run_constraints(base, (i + 1) as nat));
                    if before is Some {
                        assert(dr.assignment().unwrap() =~= before.unwrap() + run_wires(
                            given,
                            (i + 1) as nat,
                        ));
                    }
                    assert forall|t: int| 0 <= t < i + 1 implies {
                        &&& (#[trigger] out@[t]).x.wire == base + t * POINT_WIRES
                        &&& out@[t].y.wire == out@[t].x.wire + 1
                        &&& out@[t].spec_value() == point_at(given, t)
                    } by {
                        if t < i {
                            assert(out@[t] == sofar[t]);
                        }
                    }
                }
            },
            Err(e) => {
                proof {
                    let v = given.unwrap();
                    assert(!on_curve::<F>(v@[i as int].x.value(), v@[i as int].y.value()));
                    assert(run_fails_at(given, i as int));
                }
                return Err(e);
            },
        }
        i += 1;
    }
    Ok(out)
}

} // verus!
