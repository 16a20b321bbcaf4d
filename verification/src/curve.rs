//! The two curves of the Pasta cycle. A point is held as its 32-byte
//! encoding. The group law is that of the `pasta_curves` crate: the sum of
//! two points and the product of a point and a scalar are named here, not
//! computed.

use ff::PrimeField;
use group::GroupEncoding;
use pasta_curves::arithmetic::Coordinates;
use pasta_curves::arithmetic::CurveAffine;
use vstd::prelude::*;

use crate::driver::AffinePoint;
use crate::field::{le_value, pallas_base_modulus, vesta_base_modulus, Field, Fp, Fq};

verus! {

/// Whether `bytes` encode a point of the Pallas curve.
pub uninterp spec fn pallas_is_encoding(bytes: Seq<u8>) -> bool;

/// The encoding of the sum of the points that `a` and `b` encode.
pub uninterp spec fn pallas_sum_of(a: Seq<u8>, b: Seq<u8>) -> Seq<u8>;

/// The encoding of the point that `point` encodes, multiplied by the scalar
/// whose canonical bytes are `scalar`.
pub uninterp spec fn pallas_product_of(point: Seq<u8>, scalar: Seq<u8>) -> Seq<u8>;

/// The canonical bytes of the coordinates of the point that `point` encodes,
/// or nothing for the point at infinity.
pub uninterp spec fn pallas_coordinates_of(point: Seq<u8>) -> Option<(Seq<u8>, Seq<u8>)>;

/// `GroupEncoding::from_bytes` of `pasta_curves::pallas::Point`: whether
/// the bytes decode.
#[verifier::external_body]
fn pallas_decodes(bytes: &[u8; 32]) -> (ok: bool)
    ensures
        ok == pallas_is_encoding(bytes@),
{
    pasta_curves::pallas::Point::from_bytes(bytes).is_some().into()
}

/// Addition of `pasta_curves::pallas::Point`, from encoding to encoding.
/// What `to_bytes` gives decodes again.
#[verifier::external_body]
fn pallas_add(a: &[u8; 32], b: &[u8; 32]) -> (r: [u8; 32])
    requires
        pallas_is_encoding(a@),
        pallas_is_encoding(b@),
    ensures
        r@ == pallas_sum_of(a@, b@),
        pallas_is_encoding(r@),
{
    let x = pasta_curves::pallas::Point::from_bytes(a).unwrap();
    let y = pasta_curves::pallas::Point::from_bytes(b).unwrap();
    (x + y).to_bytes()
}

/// Multiplication of `pasta_curves::pallas::Point` by a scalar, from
/// encoding and canonical bytes to encoding. What `to_bytes` gives decodes
/// again.
#[verifier::external_body]
fn pallas_mul(point: &[u8; 32], scalar: &[u8; 32]) -> (r: [u8; 32])
    requires
        pallas_is_encoding(point@),
        le_value(scalar@) < vesta_base_modulus(),
    ensures
        r@ == pallas_product_of(point@, scalar@),
        pallas_is_encoding(r@),
{
    let p = pasta_curves::pallas::Point::from_bytes(point).unwrap();
    let s = pasta_curves::pallas::Scalar::from_repr(*scalar).unwrap();
    (p * s).to_bytes()
}

/// `CurveAffine::coordinates` of `pasta_curves::pallas::Affine`: the
/// coordinates in canonical bytes, or nothing for the point at infinity.
#[verifier::external_body]
fn pallas_coordinates(point: &[u8; 32]) -> (r: Option<([u8; 32], [u8; 32])>)
    requires
        pallas_is_encoding(point@),
    ensures
        match r {
            Some((x, y)) => pallas_coordinates_of(point@) == Some((x@, y@)) && le_value(x@)
                < pallas_base_modulus() && le_value(y@) < pallas_base_modulus(),
            None => pallas_coordinates_of(point@) is None,
        },
{
    let p = pasta_curves::pallas::Affine::from_bytes(point).unwrap();
    match Option::<Coordinates<pasta_curves::pallas::Affine>>::from(p.coordinates()) {
        Some(c) => Some((c.x().to_repr(), c.y().to_repr())),
        None => None,
    }
}

/// Whether `bytes` encode a point of the Vesta curve.
pub uninterp spec fn vesta_is_encoding(bytes: Seq<u8>) -> bool;

/// The encoding of the sum of the points that `a` and `b` encode.
pub uninterp spec fn vesta_sum_of(a: Seq<u8>, b: Seq<u8>) -> Seq<u8>;

/// The encoding of the point that `point` encodes, multiplied by the scalar
/// whose canonical bytes are `scalar`.
pub uninterp spec fn vesta_product_of(point: Seq<u8>, scalar: Seq<u8>) -> Seq<u8>;

/// The canonical bytes of the coordinates of the point that `point` encodes,
/// or nothing for the point at infinity.
pub uninterp spec fn vesta_coordinates_of(point: Seq<u8>) -> Option<(Seq<u8>, Seq<u8>)>;

/// `GroupEncoding::from_bytes` of `pasta_curves::vesta::Point`: whether
/// the bytes decode.
#[verifier::external_body]
fn vesta_decodes(bytes: &[u8; 32]) -> (ok: bool)
    ensures
        ok == vesta_is_encoding(bytes@),
{
    pasta_curves::vesta::Point::from_bytes(bytes).is_some().into()
}

/// Addition of `pasta_curves::vesta::Point`, from encoding to encoding.
/// What `to_bytes` gives decodes again.
#[verifier::external_body]
fn vesta_add(a: &[u8; 32], b: &[u8; 32]) -> (r: [u8; 32])
    requires
        vesta_is_encoding(a@),
        vesta_is_encoding(b@),
    ensures
        r@ == vesta_sum_of(a@, b@),
        vesta_is_encoding(r@),
{
    let x = pasta_curves::vesta::Point::from_bytes(a).unwrap();
    let y = pasta_curves::vesta::Point::from_bytes(b).unwrap();
    (x + y).to_bytes()
}

/// Multiplication of `pasta_curves::vesta::Point` by a scalar, from
/// encoding and canonical bytes to encoding. What `to_bytes` gives decodes
/// again.
#[verifier::external_body]
fn vesta_mul(point: &[u8; 32], scalar: &[u8; 32]) -> (r: [u8; 32])
    requires
        vesta_is_encoding(point@),
        le_value(scalar@) < pallas_base_modulus(),
    ensures
        r@ == vesta_product_of(point@, scalar@),
        vesta_is_encoding(r@),
{
    let p = pasta_curves::vesta::Point::from_bytes(point).unwrap();
    let s = pasta_curves::vesta::Scalar::from_repr(*scalar).unwrap();
    (p * s).to_bytes()
}

/// `CurveAffine::coordinates` of `pasta_curves::vesta::Affine`: the
/// coordinates in canonical bytes, or nothing for the point at infinity.
#[verifier::external_body]
fn vesta_coordinates(point: &[u8; 32]) -> (r: Option<([u8; 32], [u8; 32])>)
    requires
        vesta_is_encoding(point@),
    ensures
        match r {
            Some((x, y)) => vesta_coordinates_of(point@) == Some((x@, y@)) && le_value(x@)
                < vesta_base_modulus() && le_value(y@) < vesta_base_modulus(),
            None => vesta_coordinates_of(point@) is None,
        },
{
    let p = pasta_curves::vesta::Affine::from_bytes(point).unwrap();
    match Option::<Coordinates<pasta_curves::vesta::Affine>>::from(p.coordinates()) {
        Some(c) => Some((c.x().to_repr(), c.y().to_repr())),
        None => None,
    }
}

/// A curve whose points can be added and multiplied by the elements of a
/// field, and whose coordinates lie in a second field.
pub trait Curve: Sized + Copy {
    /// The field of the scalars.
    type Scalar: Field;

    /// The field of the coordinates.
    type Base: Field;

    /// The encoding of this point.
    spec fn encoding(&self) -> Seq<u8>;

    /// Whether `bytes` encode a point.
    spec fn is_encoding(bytes: Seq<u8>) -> bool;

    /// The encoding of the sum of the points that `a` and `b` encode.
    spec fn sum_of(a: Seq<u8>, b: Seq<u8>) -> Seq<u8>;

    /// The encoding of the product of the point that `point` encodes and the
    /// scalar with the canonical bytes `scalar`.
    spec fn product_of(point: Seq<u8>, scalar: Seq<u8>) -> Seq<u8>;

    /// The canonical bytes of the coordinates of the point that `point`
    /// encodes, or nothing for the point at infinity.
    spec fn coordinates_of(point: Seq<u8>) -> Option<(Seq<u8>, Seq<u8>)>;

    /// The point that `bytes` encode, if they encode one.
    fn from_bytes(bytes: [u8; 32]) -> (r: Option<Self>)
        ensures
            r is Some <==> Self::is_encoding(bytes@),
            r matches Some(p) ==> p.encoding() == bytes@,
    ;

    /// The encoding of this point.
    fn to_bytes(&self) -> (r: [u8; 32])
        ensures
            r@ == self.encoding(),
    ;

    /// The sum of two points.
    fn add(&self, other: &Self) -> (r: Self)
        ensures
            r.encoding() == Self::sum_of(self.encoding(), other.encoding()),
    ;

    /// The product of this point and `scalar`.
    fn mul(&self, scalar: &Self::Scalar) -> (r: Self)
        ensures
            r.encoding() == Self::product_of(self.encoding(), scalar.bytes()),
    ;

    /// The coordinates of this point, or nothing for the point at infinity.
    fn coordinates(&self) -> (r: Option<AffinePoint<Self::Base>>)
        ensures
            match r {
                Some(c) => Self::coordinates_of(self.encoding()) == Some(
                    (c.x.bytes(), c.y.bytes()),
                ),
                None => Self::coordinates_of(self.encoding()) is None,
            },
    ;
}

/// A point of the Pallas curve, held as its encoding.
#[derive(Clone, Copy, Debug, PartialEq, Eq)]
pub struct PallasPoint {
    repr: [u8; 32],
}

impl PallasPoint {
    #[verifier::type_invariant]
    spec fn decodes(self) -> bool {
        pallas_is_encoding(self.repr@)
    }
}

impl Curve for PallasPoint {
    type Scalar = Fq;

    type Base = Fp;

    closed spec fn encoding(&self) -> Seq<u8> {
        self.repr@
    }

    open spec fn is_encoding(bytes: Seq<u8>) -> bool {
        pallas_is_encoding(bytes)
    }

    open spec fn sum_of(a: Seq<u8>, b: Seq<u8>) -> Seq<u8> {
        pallas_sum_of(a, b)
    }

    open spec fn product_of(point: Seq<u8>, scalar: Seq<u8>) -> Seq<u8> {
        pallas_product_of(point, scalar)
    }

    open spec fn coordinates_of(point: Seq<u8>) -> Option<(Seq<u8>, Seq<u8>)> {
        pallas_coordinates_of(point)
    }

    fn from_bytes(bytes: [u8; 32]) -> (r: Option<PallasPoint>) {
        if pallas_decodes(&bytes) {
            Some(PallasPoint { repr: bytes })
        } else {
            None
        }
    }

    fn to_bytes(&self) -> (r: [u8; 32]) {
        self.repr
    }

    fn add(&self, other: &PallasPoint) -> (r: PallasPoint) {
        proof {
            use_type_invariant(self);
            use_type_invariant(other);
        }
        PallasPoint { repr: pallas_add(&self.repr, &other.repr) }
    }

    fn mul(&self, scalar: &Fq) -> (r: PallasPoint) {
        proof {
            use_type_invariant(self);
        }
        let s = scalar.to_bytes();
        proof {
            scalar.lemma_field();
        }
        PallasPoint { repr: pallas_mul(&self.repr, &s) }
    }

    fn coordinates(&self) -> (r: Option<AffinePoint<Fp>>) {
        proof {
            use_type_invariant(self);
        }
        match pallas_coordinates(&self.repr) {
            Some((x, y)) => {
                let x = Fp::from_bytes(x);
                let y = Fp::from_bytes(y);
                match (x, y) {
                    (Some(x), Some(y)) => Some(AffinePoint { x, y }),
                    _ => None,
                }
            },
            None => None,
        }
    }
}

/// A point of the Vesta curve, held as its encoding.
#[derive(Clone, Copy, Debug, PartialEq, Eq)]
pub struct VestaPoint {
    repr: [u8; 32],
}

impl VestaPoint {
    #[verifier::type_invariant]
    spec fn decodes(self) -> bool {
        vesta_is_encoding(self.repr@)
    }
}

impl Curve for VestaPoint {
    type Scalar = Fp;

    type Base = Fq;

    closed spec fn encoding(&self) -> Seq<u8> {
        self.repr@
    }

    open spec fn is_encoding(bytes: Seq<u8>) -> bool {
        vesta_is_encoding(bytes)
    }

    open spec fn sum_of(a: Seq<u8>, b: Seq<u8>) -> Seq<u8> {
        vesta_sum_of(a, b)
    }

    open spec fn product_of(point: Seq<u8>, scalar: Seq<u8>) -> Seq<u8> {
        vesta_product_of(point, scalar)
    }

    open spec fn coordinates_of(point: Seq<u8>) -> Option<(Seq<u8>, Seq<u8>)> {
        vesta_coordinates_of(point)
    }

    fn from_bytes(bytes: [u8; 32]) -> (r: Option<VestaPoint>) {
        if vesta_decodes(&bytes) {
            Some(VestaPoint { repr: bytes })
        } else {
            None
        }
    }

    fn to_bytes(&self) -> (r: [u8; 32]) {
        self.repr
    }

    fn add(&self, other: &VestaPoint) -> (r: VestaPoint) {
        proof {
            use_type_invariant(self);
            use_type_invariant(other);
        }
        VestaPoint { repr: vesta_add(&self.repr, &other.repr) }
    }

    fn mul(&self, scalar: &Fp) -> (r: VestaPoint) {
        proof {
            use_type_invariant(self);
        }
        let s = scalar.to_bytes();
        proof {
            scalar.lemma_field();
        }
        VestaPoint { repr: vesta_mul(&self.repr, &s) }
    }

    fn coordinates(&self) -> (r: Option<AffinePoint<Fq>>) {
        proof {
            use_type_invariant(self);
        }
        match vesta_coordinates(&self.repr) {
            Some((x, y)) => {
                let x = Fq::from_bytes(x);
                let y = Fq::from_bytes(y);
                match (x, y) {
                    (Some(x), Some(y)) => Some(AffinePoint { x, y }),
                    _ => None,
                }
            },
            None => None,
        }
    }
}

} // verus!
