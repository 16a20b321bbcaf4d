//! Polynomials over the field, held as their coefficients from the constant
//! term up, with as many coefficients as have been written.

use vstd::arithmetic::div_mod::{lemma_add_mod_noop, lemma_mul_mod_noop_right};
use vstd::prelude::*;

use crate::field::Field;

verus! {

/// The value at `x` of the polynomial with the integer coefficients `c`.
pub open spec fn int_eval(c: Seq<int>, x: int) -> int
    decreases c.len(),
{
    if c.len() == 0 {
        0
    } else {
        c[0] + x * int_eval(c.drop_first(), x)
    }
}

/// The number below the prime of `F` that `v` is congruent to.
pub open spec fn reduced<F: Field>(v: int) -> int {
    v % (F::modulus() as int)
}

/// The numbers that the elements of `coeffs` are.
pub open spec fn values<F: Field>(coeffs: Seq<F>) -> Seq<int> {
    Seq::new(coeffs.len(), |i: int| coeffs[i].value() as int)
}

/// The coefficients of the product of the polynomial `p` and `x + w`.
pub open spec fn times_linear(p: Seq<int>, w: int) -> Seq<int> {
    Seq::new(
        p.len() + 1,
        |i: int|
            if i == 0 {
                p[0] * w
            } else if i < p.len() {
                p[i - 1] + p[i] * w
            } else {
                p[i - 1]
            },
    )
}

/// Sums and products keep congruence: with `a` congruent to `b` and `e` to
/// `f`, `a + x * e` is congruent to `b + x * f`.
pub proof fn lemma_congruent_step(a: int, b: int, e: int, f: int, x: int, m: int)
    requires
        0 < m,
        a % m == b % m,
        e % m == f % m,
    ensures
        (a + x * e) % m == (b + x * f) % m,
{
    lemma_mul_mod_noop_right(x, e, m);
    lemma_mul_mod_noop_right(x, f, m);
    lemma_add_mod_noop(a, x * e, m);
    lemma_add_mod_noop(b, x * f, m);
}

/// Polynomials with congruent coefficients have congruent values.
pub proof fn lemma_eval_congruent(a: Seq<int>, b: Seq<int>, x: int, m: int)
    requires
        0 < m,
        a.len() == b.len(),
        forall|i: int| 0 <= i < a.len() ==> a[i] % m == b[i] % m,
    ensures
        int_eval(a, x) % m == int_eval(b, x) % m,
    decreases a.len(),
{
    if a.len() > 0 {
        lemma_eval_congruent(a.drop_first(), b.drop_first(), x, m);
        lemma_congruent_step(
            a[0],
            b[0],
            int_eval(a.drop_first(), x),
            int_eval(b.drop_first(), x),
            x,
            m,
        );
    }
}

/// The value of the product of `p` and `x + w` at `y` is the value of `p`
/// at `y` times `y + w`.
pub proof fn lemma_times_linear(p: Seq<int>, w: int, y: int)
    requires
        p.len() > 0,
    ensures
        int_eval(times_linear(p, w), y) == (y + w) * int_eval(p, y),
    decreases p.len(),
{
    let q = times_linear(p, w);
    let a = p[0];
    let rest = p.drop_first();
    if rest.len() == 0 {
        let tail = q.drop_first();
        assert(tail.drop_first().len() == 0);
        assert(int_eval(tail.drop_first(), y) == 0);
        assert(int_eval(rest, y) == 0);
        assert(tail[0] == a);
        assert(int_eval(tail, y) == tail[0] + y * int_eval(tail.drop_first(), y));
        assert(int_eval(p, y) == a + y * int_eval(rest, y));
        assert(int_eval(q, y) == q[0] + y * int_eval(tail, y));
        assert(a * w + y * (a + y * 0) == (y + w) * (a + y * 0)) by (nonlinear_arith);
    } else {
        lemma_times_linear(rest, w, y);
        let below = times_linear(rest, w);
        let tail = q.drop_first();
        assert(tail.drop_first() =~= below.drop_first());
        assert(tail[0] == a + below[0]);
        let e = int_eval(rest, y);
        let t = int_eval(below.drop_first(), y);
        assert(int_eval(below, y) == below[0] + y * t);
        assert(int_eval(tail, y) == a + below[0] + y * t);
        assert(int_eval(q, y) == a * w + y * int_eval(tail, y));
        assert(int_eval(p, y) == a + y * e);
        assert(below[0] + y * t == (y + w) * e);
        assert(a * w + y * (a + (y + w) * e) == (y + w) * (a + y * e)) by (nonlinear_arith);
    }
}

/// A polynomial over the field.
pub struct Polynomial<F: Field> {
    /// The coefficients, from the constant term up.
    pub coeffs: Vec<F>,
}

impl<F: Field> View for Polynomial<F> {
    type V = Seq<int>;

    /// The coefficients as numbers below the prime.
    open spec fn view(&self) -> Seq<int> {
        values(self.coeffs@)
    }
}

impl<F: Field> Polynomial<F> {
    /// The polynomial without coefficients, which is zero everywhere.
    pub fn new() -> (r: Polynomial<F>)
        ensures
            r@ == Seq::<int>::empty(),
    {
        let r: Polynomial<F> = Polynomial { coeffs: Vec::new() };
        assert(r@ =~= Seq::<int>::empty());
        r
    }

    /// The value of the polynomial at `x`.
    pub fn eval(&self, x: &F) -> (r: F)
        ensures
            r.value() == reduced::<F>(int_eval(self@, x.value() as int)),
    {
        let n = self.coeffs.len();
        let mut acc = F::zero();
        let mut i: usize = n;
        proof {
            F::lemma_modulus();
            assert(self@.subrange(n as int, n as int) =~= Seq::<int>::empty());
        }
        while i > 0
            invariant
                i <= n,
                n == self.coeffs.len(),
                acc.value() == int_eval(self@.subrange(i as int, n as int), x.value() as int) % (
                F::modulus() as int),
            decreases i,
        {
            i -= 1;
            let scaled = acc.mul(x);
            let next = self.coeffs[i].add(&scaled);
            proof {
                x.lemma_field();
                let m = F::modulus() as int;
                let upper = self@.subrange(i + 1, n as int);
                let here = self@.subrange(i as int, n as int);
                assert(here.drop_first() =~= upper);
                assert(here[0] == self.coeffs[i as int].value());
                let e = int_eval(upper, x.value() as int);
                lemma_mul_mod_noop_right(x.value() as int, e, m);
                assert(acc.value() * x.value() == x.value() * (e % m)) by (nonlinear_arith)
                    requires
                        acc.value() == e % m,
                ;
                assert(scaled.value() == (x.value() * e) % m);
                vstd::arithmetic::div_mod::lemma_add_mod_noop_right(here[0], x.value() * e, m);
            }
            acc = next;
        }
        assert(self@.subrange(0, n as int) =~= self@);
        acc
    }
}

} // verus!
