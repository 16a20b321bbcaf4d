//! Commitments to runs of field elements: each element multiplies a
//! generator of its own, a blind multiplies one more, and the products are
//! summed.

use vstd::prelude::*;

use crate::curve::Curve;
use crate::driver::Error;
use crate::field::Field;

verus! {

/// The generators of a commitment scheme over the curve `C`.
pub struct Generators<C: Curve> {
    /// One generator for each element that can be committed to.
    pub g: Vec<C>,
    /// The generator of the blind.
    pub h: C,
}

/// The encodings of `points`.
pub open spec fn encodings<C: Curve>(points: Seq<C>) -> Seq<Seq<u8>> {
    Seq::new(points.len(), |i: int| points[i].encoding())
}

/// The canonical bytes of `elements`.
pub open spec fn scalar_bytes<F: Field>(elements: Seq<F>) -> Seq<Seq<u8>> {
    Seq::new(elements.len(), |i: int| elements[i].bytes())
}

/// The encoding of the commitment to the first `k` of `coeffs`: the blind's
/// generator `h` times `blind`, and then, one after the other, each
/// generator times its coefficient added on.
pub open spec fn commit_spec<C: Curve>(
    coeffs: Seq<Seq<u8>>,
    g: Seq<Seq<u8>>,
    h: Seq<u8>,
    blind: Seq<u8>,
    k: nat,
) -> Seq<u8>
    decreases k,
{
    if k == 0 {
        C::product_of(h, blind)
    } else {
        C::sum_of(
            commit_spec::<C>(coeffs, g, h, blind, (k - 1) as nat),
            C::product_of(g[k - 1], coeffs[k - 1]),
        )
    }
}

impl<C: Curve> Generators<C> {
    /// The encoding of the commitment to `coeffs` under `blind`.
    pub open spec fn commitment(&self, coeffs: Seq<C::Scalar>, blind: C::Scalar) -> Seq<u8> {
        commit_spec::<C>(
            scalar_bytes(coeffs),
            encodings(self.g@),
            self.h.encoding(),
            blind.bytes(),
            coeffs.len(),
        )
    }

    /// Commits to `coeffs` under `blind`. Fails exactly when there are more
    /// coefficients than generators.
    pub fn commit(&self, coeffs: &Vec<C::Scalar>, blind: &C::Scalar) -> (r: Result<C, Error>)
        ensures
            match r {
                Ok(c) => {
                    &&& coeffs@.len() <= self.g@.len()
                    &&& c.encoding() == self.commitment(coeffs@, *blind)
                },
                Err(e) => coeffs@.len() > self.g@.len() && e == Error::Generators,
            },
    {
        if coeffs.len() > self.g.len() {
            return Err(Error::Generators);
        }
        let mut acc = self.h.mul(blind);
        let mut i: usize = 0;
        while i < coeffs.len()
            invariant
                i <= coeffs@.len(),
                coeffs@.len() <= self.g@.len(),
                acc.encoding() == commit_spec::<C>(
                    scalar_bytes(coeffs@),
                    encodings(self.g@),
                    self.h.encoding(),
                    blind.bytes(),
                    i as nat,
                ),
            decreases coeffs@.len() - i,
        {
            let term = self.g[i].mul(&coeffs[i]);
            acc = acc.add(&term);
            i += 1;
        }
        Ok(acc)
    }
}

} // verus!
