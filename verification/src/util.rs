//! Small conversions of optional values, written once for both kinds of
//! container.

use vstd::prelude::*;

use crate::field::Field;
use crate::perhaps::{Perhaps, PerhapsMap, PerhapsView, Rebind};

verus! {

/// A coefficient of a linear combination.
#[derive(Clone, Copy, Debug, PartialEq, Eq)]
pub enum Coeff<F: Field> {
    /// Zero.
    Zero,
    /// One.
    One,
    /// Any element of the field.
    Arbitrary(F),
}

/// The bit as a field element: one for `true`, zero for `false`.
pub fn fe<F: Field, P>(value: &P) -> (r: <P::Kind as Rebind<F>>::Out) where
    P: PerhapsView<bool>,
    P::Kind: Rebind<F>,
    for <'a>P::Kind: Rebind<&'a bool>,
    for <'a><P::Kind as Rebind<&'a bool>>::Out: PerhapsMap<&'a bool, F>,

    ensures
        value.value() matches Some(b) ==> (r.value() matches Some(f) && f.value() == (if b {
            1nat
        } else {
            0nat
        })),
        value.value() is None ==> r.value() is None,
{
    value.view().map(
        |b: &bool| -> (f: F)
            ensures
                f.value() == (if *b {
                    1nat
                } else {
                    0nat
                })
            {
                if *b {
                    F::one()
                } else {
                    F::zero()
                }
            },
    )
}

/// The bit as a coefficient: `One` for `true`, `Zero` for `false`.
pub fn coeff<F: Field, P>(value: &P) -> (r: <P::Kind as Rebind<Coeff<F>>>::Out) where
    P: PerhapsView<bool>,
    P::Kind: Rebind<Coeff<F>>,
    for <'a>P::Kind: Rebind<&'a bool>,
    for <'a><P::Kind as Rebind<&'a bool>>::Out: PerhapsMap<&'a bool, Coeff<F>>,

    ensures
        value.value() matches Some(b) ==> r.value() == Some(
            if b {
                Coeff::<F>::One
            } else {
                Coeff::<F>::Zero
            },
        ),
        value.value() is None ==> r.value() is None,
{
    value.view().map(
        |b: &bool| -> (c: Coeff<F>)
            ensures
                c == (if *b {
                    Coeff::<F>::One
                } else {
                    Coeff::<F>::Zero
                })
            {
                if *b {
                    Coeff::One
                } else {
                    Coeff::Zero
                }
            },
    )
}

/// The field element as a coefficient.
pub fn arbitrary<F: Field, P>(value: &P) -> (r: <P::Kind as Rebind<Coeff<F>>>::Out) where
    P: PerhapsView<F>,
    P::Kind: Rebind<Coeff<F>>,
    for <'a>P::Kind: Rebind<&'a F>,
    for <'a><P::Kind as Rebind<&'a F>>::Out: PerhapsMap<&'a F, Coeff<F>>,

    ensures
        value.value() matches Some(f) ==> r.value() == Some(Coeff::Arbitrary(f)),
        value.value() is None ==> r.value() is None,
{
    value.view().map(
        |f: &F| -> (c: Coeff<F>)
            ensures
                c == Coeff::Arbitrary(*f)
            { Coeff::Arbitrary(*f) },
    )
}

/// The bit negated.
pub fn not<P>(value: &P) -> (r: <P::Kind as Rebind<bool>>::Out) where
    P: PerhapsView<bool>,
    P::Kind: Rebind<bool>,
    for <'a>P::Kind: Rebind<&'a bool>,
    for <'a><P::Kind as Rebind<&'a bool>>::Out: PerhapsMap<&'a bool, bool>,

    ensures
        value.value() matches Some(b) ==> r.value() == Some(!b),
        value.value() is None ==> r.value() is None,
{
    value.view().map(
        |b: &bool| -> (n: bool)
            ensures
                n == !*b
            { !*b },
    )
}

} // verus!
