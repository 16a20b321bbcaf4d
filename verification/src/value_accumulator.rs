//! A set of field elements held as the polynomial whose roots they are:
//! a value is in the set exactly when the polynomial vanishes there.

use vstd::arithmetic::div_mod::{
    lemma_add_mod_noop_right, lemma_mod_add_multiples_vanish, lemma_mod_twice, lemma_mul_mod_noop,
    lemma_small_mod,
};
use vstd::prelude::*;

use crate::field::Field;
use crate::polynomial::{
    int_eval, lemma_eval_congruent, lemma_times_linear, reduced, times_linear, Polynomial,
};

verus! {

/// The product of `y - v` over the values `v` of `vs`.
pub open spec fn root_product(vs: Seq<nat>, y: int) -> int
    decreases vs.len(),
{
    if vs.len() == 0 {
        1
    } else {
        root_product(vs.drop_last(), y) * (y - vs.last())
    }
}

/// The number that negates `v` in the field.
pub open spec fn negated<F: Field>(v: nat) -> int {
    (F::modulus() - v) % (F::modulus() as int)
}

/// The product vanishes at each of its values.
pub proof fn lemma_member_is_root(vs: Seq<nat>, i: int)
    requires
        0 <= i < vs.len(),
    ensures
        root_product(vs, vs[i] as int) == 0,
    decreases vs.len(),
{
    let y = vs[i] as int;
    let before = root_product(vs.drop_last(), y);
    if i == vs.len() - 1 {
        assert(before * (y - vs.last()) == 0) by (nonlinear_arith)
            requires
                y - vs.last() == 0,
        ;
    } else {
        lemma_member_is_root(vs.drop_last(), i);
        assert(before * (y - vs.last()) == 0) by (nonlinear_arith)
            requires
                before == 0,
        ;
    }
}

/// An accumulator of field elements.
pub struct ValueAccumulator<F: Field> {
    /// The polynomial whose roots are the values inserted.
    pub polynomial: Polynomial<F>,
    /// How many values were inserted.
    pub current_size: u32,
    /// The values inserted, in order.
    pub inserted: Ghost<Seq<nat>>,
}

impl<F: Field> ValueAccumulator<F> {
    /// The polynomial has one coefficient more than there are values, and
    /// its value anywhere is, modulo the prime, the product over the values.
    pub open spec fn wf(&self) -> bool {
        &&& self.polynomial@.len() == self.inserted@.len() + 1
        &&& self.current_size == self.inserted@.len()
        &&& forall|y: int|
            reduced::<F>(#[trigger] int_eval(self.polynomial@, y)) == reduced::<F>(
                root_product(self.inserted@, y),
            )
    }

    /// The accumulator of no values: the constant polynomial one.
    pub fn new() -> (r: ValueAccumulator<F>)
        ensures
            r.wf(),
            r.inserted@ == Seq::<nat>::empty(),
            r.polynomial@ == seq![1int],
            r.current_size == 0,
    {
        let mut polynomial: Polynomial<F> = Polynomial::new();
        polynomial.coeffs.push(F::one());
        let r: ValueAccumulator<F> = ValueAccumulator {
            polynomial,
            current_size: 0,
            inserted: Ghost(Seq::empty()),
        };
        proof {
            F::lemma_modulus();
            assert(r.polynomial@ =~= seq![1int]);
            assert forall|y: int|
                reduced::<F>(#[trigger] int_eval(r.polynomial@, y)) == reduced::<F>(
                    root_product(r.inserted@, y),
                ) by {
                assert(r.polynomial@.drop_first().len() == 0);
                assert(int_eval(r.polynomial@.drop_first(), y) == 0);
                assert(int_eval(r.polynomial@, y) == 1 + y * 0);
            }
        }
        r
    }

    /// Inserts `value`: the polynomial is multiplied by `x - value`, each
    /// new coefficient being the one below plus the old one times the
    /// negated value.
    pub fn insert_value(&mut self, value: F)
        requires
            old(self).wf(),
            old(self).current_size < u32::MAX,
        ensures
            final(self).wf(),
            final(self).inserted@ == old(self).inserted@.push(value.value()),
            final(self).current_size == old(self).current_size + 1,
            final(self).polynomial@.len() == old(self).polynomial@.len() + 1,
            forall|i: int|
                0 <= i < final(self).polynomial@.len() ==> final(self).polynomial@[i]
                    == reduced::<F>(
                    #[trigger] times_linear(old(self).polynomial@, negated::<F>(value.value()))[i],
                ),
    {
        let ghost before = self.polynomial@;
        let ghost m = F::modulus() as int;
        let neg_value = value.neg();
        let ghost w = neg_value.value() as int;
        let n = self.polynomial.coeffs.len();
        let top = self.polynomial.coeffs[n - 1];
        self.polynomial.coeffs.push(top);
        let ghost target = times_linear(before, w);
        proof {
            top.lemma_field();
            value.lemma_field();
            neg_value.lemma_field();
            lemma_small_mod(top.value(), F::modulus());
        }
        let mut i: usize = n - 1;
        while i > 0
            invariant
                i < n,
                n == before.len(),
                m == F::modulus(),
                m > 1,
                w == neg_value.value(),
                target == times_linear(before, w),
                self.polynomial.coeffs.len() == n + 1,
                self.current_size == old(self).current_size,
                self.inserted == old(self).inserted,
                forall|j: int| 0 <= j <= i ==> self.polynomial@[j] == before[j],
                forall|j: int| i < j <= n ==> self.polynomial@[j] == #[trigger] target[j] % m,
            decreases i,
        {
            let ghost held = self.polynomial@;
            let scaled = self.polynomial.coeffs[i].mul(&neg_value);
            let next = self.polynomial.coeffs[i - 1].add(&scaled);
            proof {
                assert(held[i as int] == before[i as int]);
                assert(held[i - 1] == before[i - 1]);
                lemma_add_mod_noop_right(before[i - 1], before[i as int] * w, m);
            }
            self.polynomial.coeffs.set(i, next);
            proof {
                let now = self.polynomial@;
                assert forall|j: int| 0 <= j <= i - 1 implies now[j] == before[j] by {
                    assert(now[j] == held[j]);
                }
                assert forall|j: int| i - 1 < j <= n implies now[j] == #[trigger] target[j] % m by {
                    if j > i {
                        assert(now[j] == held[j]);
                    }
                }
            }
            i -= 1;
        }
        let ghost held = self.polynomial@;
        let first = self.polynomial.coeffs[0].mul(&neg_value);
        self.polynomial.coeffs.set(0, first);
        self.current_size += 1;
        self.inserted = Ghost(self.inserted@.push(value.value()));
        proof {
            let now = self.polynomial@;
            assert(held[0] == before[0]);
            assert forall|j: int| 0 <= j < now.len() implies now[j] == #[trigger] target[j] % m by {
                if j > 0 {
                    assert(now[j] == held[j]);
                }
            }
            let vs = old(self).inserted@;
            let v = value.value() as int;
            assert(self.inserted@.drop_last() =~= vs);
            assert forall|y: int|
                reduced::<F>(#[trigger] int_eval(now, y)) == reduced::<F>(
                    root_product(self.inserted@, y),
                ) by {
                assert forall|j: int| 0 <= j < now.len() implies now[j] % m == target[j] % m by {
                    lemma_mod_twice(target[j], m);
                }
                lemma_eval_congruent(now, target, y, m);
                lemma_times_linear(before, w, y);
                let e = int_eval(before, y);
                let r = root_product(vs, y);
                assert(e % m == r % m);
                lemma_mod_add_multiples_vanish(y - v, m);
                lemma_add_mod_noop_right(y, m - v, m);
                assert((y + w) % m == (y - v) % m);
                lemma_mul_mod_noop(y + w, e, m);
                lemma_mul_mod_noop(y - v, r, m);
                assert(r * (y - v) == (y - v) * r) by (nonlinear_arith);
            }
        }
    }

    /// Whether `value` was inserted: whether the polynomial vanishes there.
    pub fn check_membership(&self, value: F) -> (r: bool)
        requires
            self.wf(),
        ensures
            r == (reduced::<F>(root_product(self.inserted@, value.value() as int)) == 0),
    {
        self.polynomial.eval(&value).is_zero()
    }

    /// Whether `value` was never inserted: whether the polynomial does not
    /// vanish there.
    pub fn check_non_membership(&self, value: F) -> (r: bool)
        requires
            self.wf(),
        ensures
            r == (reduced::<F>(root_product(self.inserted@, value.value() as int)) != 0),
    {
        !self.polynomial.eval(&value).is_zero()
    }

    /// Every value that was inserted is found: the polynomial vanishes at
    /// each of them, however many others were inserted before or after.
    pub proof fn lemma_inserted_is_member(&self, i: int)
        requires
            self.wf(),
            0 <= i < self.inserted@.len(),
        ensures
            reduced::<F>(root_product(self.inserted@, self.inserted@[i] as int)) == 0,
            reduced::<F>(int_eval(self.polynomial@, self.inserted@[i] as int)) == 0,
    {
        F::lemma_modulus();
        lemma_member_is_root(self.inserted@, i);
    }
}

} // verus!
