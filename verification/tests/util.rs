use ragu::field::{Field, Fp};
use ragu::perhaps::{Always, Empty, Perhaps};
use ragu::util::{arbitrary, coeff, fe, not, Coeff};

#[test]
fn bits_become_field_elements() {
    let yes = Always::<()>::just(|| true);
    let no = Always::<()>::just(|| false);
    assert_eq!(fe::<Fp, _>(&yes).take(), Fp::one());
    assert_eq!(fe::<Fp, _>(&no).take(), Fp::zero());
    let _absent: Empty = fe::<Fp, Empty>(&Empty);
}

#[test]
fn bits_and_elements_become_coefficients() {
    let yes = Always::<()>::just(|| true);
    let no = Always::<()>::just(|| false);
    assert_eq!(coeff::<Fp, _>(&yes).take(), Coeff::One);
    assert_eq!(coeff::<Fp, _>(&no).take(), Coeff::Zero);
    let seven = Always::<()>::just(|| Fp::from_u64(7));
    assert_eq!(arbitrary(&seven).take(), Coeff::Arbitrary(Fp::from_u64(7)));
    let _absent: Empty = coeff::<Fp, Empty>(&Empty);
    let _absent: Empty = arbitrary::<Fp, Empty>(&Empty);
}

#[test]
fn bits_are_negated() {
    assert!(!not(&Always::<()>::just(|| true)).take());
    assert!(not(&Always::<()>::just(|| false)).take());
    let _absent: Empty = not(&Empty);
}
