//! The two prime fields of the Pallas and Vesta curves. An element is held as
//! its canonical little-endian bytes. The arithmetic is that of the
//! `pasta_curves` crate; what it returns is stated over the integers modulo
//! the field's prime.

use ff::PrimeField;
use rand::rngs::StdRng;
use vstd::arithmetic::div_mod::lemma_small_mod;
use vstd::prelude::*;

verus! {

/// The prime of the base field of the Pallas curve.
pub open spec fn pallas_base_modulus() -> nat {
    0x40000000000000000000000000000000224698fc094cf91b992d30ed00000001nat
}

/// The prime of the base field of the Vesta curve.
pub open spec fn vesta_base_modulus() -> nat {
    0x40000000000000000000000000000000224698fc0994a8dd8c46eb2100000001nat
}

/// The number that `bytes` spell, least significant byte first.
pub open spec fn le_value(bytes: Seq<u8>) -> nat
    decreases bytes.len(),
{
    if bytes.len() == 0 {
        0
    } else {
        bytes[0] as nat + 256 * le_value(bytes.drop_first())
    }
}

/// 256 to the power of `n`.
pub open spec fn pow256(n: nat) -> nat
    decreases n,
{
    if n == 0 {
        1
    } else {
        256 * pow256((n - 1) as nat)
    }
}

/// Bytes that are all zero spell zero.
proof fn lemma_le_value_zeros(bytes: Seq<u8>)
    requires
        forall|i: int| 0 <= i < bytes.len() ==> bytes[i] == 0,
    ensures
        le_value(bytes) == 0,
    decreases bytes.len(),
{
    if bytes.len() > 0 {
        lemma_le_value_zeros(bytes.drop_first());
    }
}

/// Changing the byte at `i` changes the number by the difference of the
/// bytes, `i` places up.
proof fn lemma_le_value_update(bytes: Seq<u8>, i: int, b: u8)
    requires
        0 <= i < bytes.len(),
    ensures
        le_value(bytes.update(i, b)) + bytes[i] * pow256(i as nat) == le_value(bytes) + b * pow256(
            i as nat,
        ),
    decreases i,
{
    if i == 0 {
        assert(bytes.update(0, b).drop_first() =~= bytes.drop_first());
        assert(bytes.update(0, b)[0] == b);
        assert(pow256(0) == 1);
        assert(bytes[0] * 1 == bytes[0] as int);
        assert(b * 1 == b as int);
    } else {
        let rest = bytes.drop_first();
        lemma_le_value_update(rest, i - 1, b);
        assert(bytes.update(i, b).drop_first() =~= rest.update(i - 1, b));
        assert(rest[i - 1] == bytes[i]);
        let p = pow256((i - 1) as nat);
        assert(pow256(i as nat) == 256 * p);
        assert(256 * (bytes[i] * p) == bytes[i] * (256 * p)) by (nonlinear_arith);
        assert(256 * (b * p) == b * (256 * p)) by (nonlinear_arith);
        assert(256 * (le_value(rest.update(i - 1, b)) + bytes[i] * p) == 256 * le_value(
            rest.update(i - 1, b),
        ) + 256 * (bytes[i] * p)) by (nonlinear_arith);
        assert(256 * (le_value(rest) + b * p) == 256 * le_value(rest) + 256 * (b * p))
            by (nonlinear_arith);
        assert(bytes.update(i, b)[0] == bytes[0]);
        assert(le_value(bytes.update(i, b)) == bytes[0] + 256 * le_value(rest.update(i - 1, b)));
        assert(le_value(bytes) == bytes[0] + 256 * le_value(rest));
    }
}

/// Two runs of bytes of one length that spell the same number are the same
/// bytes.
proof fn lemma_le_value_injective(a: Seq<u8>, b: Seq<u8>)
    requires
        a.len() == b.len(),
        le_value(a) == le_value(b),
    ensures
        a == b,
    decreases a.len(),
{
    if a.len() > 0 {
        let x = le_value(a.drop_first());
        let y = le_value(b.drop_first());
        assert(a[0] + 256 * x == b[0] + 256 * y);
        assert(a[0] == b[0] && x == y) by (nonlinear_arith)
            requires
                a[0] + 256 * x == b[0] + 256 * y,
                0 <= a[0] < 256,
                0 <= b[0] < 256,
                0 <= x,
                0 <= y,
        ;
        lemma_le_value_injective(a.drop_first(), b.drop_first());
        assert(a =~= seq![a[0]] + a.drop_first());
        assert(b =~= seq![b[0]] + b.drop_first());
    } else {
        assert(a =~= b);
    }
}

/// The `n` bytes that spell `v`, least significant first. Where `v` does not
/// fit, what is above is cut off.
pub open spec fn le_bytes(v: nat, n: nat) -> Seq<u8>
    decreases n,
{
    if n == 0 {
        Seq::empty()
    } else {
        seq![(v % 256) as u8] + le_bytes(v / 256, (n - 1) as nat)
    }
}

/// `le_bytes` gives as many bytes as asked for.
pub proof fn lemma_le_bytes_len(v: nat, n: nat)
    ensures
        le_bytes(v, n).len() == n,
    decreases n,
{
    if n > 0 {
        lemma_le_bytes_len(v / 256, (n - 1) as nat);
    }
}

/// The bytes of a number that fits spell that number.
pub proof fn lemma_le_bytes_value(v: nat, n: nat)
    requires
        v < pow256(n),
    ensures
        le_value(le_bytes(v, n)) == v,
    decreases n,
{
    if n > 0 {
        let rest = le_bytes(v / 256, (n - 1) as nat);
        let all = le_bytes(v, n);
        assert(pow256(n) == 256 * pow256((n - 1) as nat));
        assert(v / 256 < pow256((n - 1) as nat)) by (nonlinear_arith)
            requires
                v < 256 * pow256((n - 1) as nat),
        ;
        lemma_le_bytes_value(v / 256, (n - 1) as nat);
        assert(all.drop_first() =~= rest);
        assert(all[0] == (v % 256) as u8);
        assert(v == 256 * (v / 256) + v % 256);
    }
}

/// The bytes of the number that `s` spells are `s`.
pub proof fn lemma_le_value_bytes(s: Seq<u8>)
    ensures
        le_bytes(le_value(s), s.len()) == s,
        le_value(s) < pow256(s.len()),
    decreases s.len(),
{
    if s.len() > 0 {
        let rest = s.drop_first();
        lemma_le_value_bytes(rest);
        let v = le_value(s);
        assert(v == s[0] + 256 * le_value(rest));
        assert(v % 256 == s[0] && v / 256 == le_value(rest)) by (nonlinear_arith)
            requires
                v == s[0] + 256 * le_value(rest),
                0 <= s[0] < 256,
                0 <= le_value(rest),
        ;
        assert(le_bytes(v, s.len()) =~= seq![s[0]] + rest);
        assert(seq![s[0]] + rest =~= s);
        assert(pow256(s.len()) == 256 * pow256((s.len() - 1) as nat));
    } else {
        assert(le_bytes(0, 0) =~= s);
    }
}

/// 256 to the power of 32, above which lie no 32 bytes.
pub proof fn lemma_pow256_32()
    ensures
        pow256(32) == 0x1_0000000000000000_0000000000000000_0000000000000000_0000000000000000nat,
{
    reveal_with_fuel(pow256, 33);
}

/// A seedable random number generator of the `rand` crate, carried through
/// to where field elements are drawn.
#[verifier::external_type_specification]
#[verifier::external_body]
pub struct ExStdRng(StdRng);

/// Whether `repr` spells a number below the prime: `PrimeField::from_repr` of
/// `pasta_curves::Fp` accepts exactly those.
#[verifier::external_body]
fn pallas_base_is_canonical(repr: &[u8; 32]) -> (ok: bool)
    ensures
        ok == (le_value(repr@) < pallas_base_modulus()),
{
    pasta_curves::Fp::from_repr(*repr).is_some().into()
}

/// Addition of `pasta_curves::Fp`: the sum modulo the prime, in canonical
/// bytes.
#[verifier::external_body]
fn pallas_base_add(a: &[u8; 32], b: &[u8; 32]) -> (r: [u8; 32])
    requires
        le_value(a@) < pallas_base_modulus(),
        le_value(b@) < pallas_base_modulus(),
    ensures
        le_value(r@) == (le_value(a@) + le_value(b@)) % pallas_base_modulus(),
{
    let x = pasta_curves::Fp::from_repr(*a).unwrap();
    let y = pasta_curves::Fp::from_repr(*b).unwrap();
    (x + y).to_repr()
}

/// Multiplication of `pasta_curves::Fp`: the product modulo the prime, in
/// canonical bytes.
#[verifier::external_body]
fn pallas_base_mul(a: &[u8; 32], b: &[u8; 32]) -> (r: [u8; 32])
    requires
        le_value(a@) < pallas_base_modulus(),
        le_value(b@) < pallas_base_modulus(),
    ensures
        le_value(r@) == (le_value(a@) * le_value(b@)) % pallas_base_modulus(),
{
    let x = pasta_curves::Fp::from_repr(*a).unwrap();
    let y = pasta_curves::Fp::from_repr(*b).unwrap();
    (x * y).to_repr()
}

/// Negation of `pasta_curves::Fp`: the prime less the number, and zero for
/// zero, in canonical bytes.
#[verifier::external_body]
fn pallas_base_neg(a: &[u8; 32]) -> (r: [u8; 32])
    requires
        le_value(a@) < pallas_base_modulus(),
    ensures
        le_value(r@) == (pallas_base_modulus() - le_value(a@)) % (pallas_base_modulus() as int),
{
    let x = pasta_curves::Fp::from_repr(*a).unwrap();
    (-x).to_repr()
}

/// `Field::random` of `pasta_curves::Fp` on `rng`: some element of the
/// field, in canonical bytes. Which one depends on the generator's state.
#[verifier::external_body]
fn pallas_base_random(rng: &mut StdRng) -> (r: [u8; 32])
    ensures
        le_value(r@) < pallas_base_modulus(),
{
    <pasta_curves::Fp as ff::Field>::random(rng).to_repr()
}

/// Whether `repr` spells a number below the prime: `PrimeField::from_repr` of
/// `pasta_curves::Fq` accepts exactly those.
#[verifier::external_body]
fn vesta_base_is_canonical(repr: &[u8; 32]) -> (ok: bool)
    ensures
        ok == (le_value(repr@) < vesta_base_modulus()),
{
    pasta_curves::Fq::from_repr(*repr).is_some().into()
}

/// Addition of `pasta_curves::Fq`: the sum modulo the prime, in canonical
/// bytes.
#[verifier::external_body]
fn vesta_base_add(a: &[u8; 32], b: &[u8; 32]) -> (r: [u8; 32])
    requires
        le_value(a@) < vesta_base_modulus(),
        le_value(b@) < vesta_base_modulus(),
    ensures
        le_value(r@) == (le_value(a@) + le_value(b@)) % vesta_base_modulus(),
{
    let x = pasta_curves::Fq::from_repr(*a).unwrap();
    let y = pasta_curves::Fq::from_repr(*b).unwrap();
    (x + y).to_repr()
}

/// Multiplication of `pasta_curves::Fq`: the product modulo the prime, in
/// canonical bytes.
#[verifier::external_body]
fn vesta_base_mul(a: &[u8; 32], b: &[u8; 32]) -> (r: [u8; 32])
    requires
        le_value(a@) < vesta_base_modulus(),
        le_value(b@) < vesta_base_modulus(),
    ensures
        le_value(r@) == (le_value(a@) * le_value(b@)) % vesta_base_modulus(),
{
    let x = pasta_curves::Fq::from_repr(*a).unwrap();
    let y = pasta_curves::Fq::from_repr(*b).unwrap();
    (x * y).to_repr()
}

/// Negation of `pasta_curves::Fq`: the prime less the number, and zero for
/// zero, in canonical bytes.
#[verifier::external_body]
fn vesta_base_neg(a: &[u8; 32]) -> (r: [u8; 32])
    requires
        le_value(a@) < vesta_base_modulus(),
    ensures
        le_value(r@) == (vesta_base_modulus() - le_value(a@)) % (vesta_base_modulus() as int),
{
    let x = pasta_curves::Fq::from_repr(*a).unwrap();
    (-x).to_repr()
}

/// `Field::random` of `pasta_curves::Fq` on `rng`: some element of the
/// field, in canonical bytes. Which one depends on the generator's state.
#[verifier::external_body]
fn vesta_base_random(rng: &mut StdRng) -> (r: [u8; 32])
    ensures
        le_value(r@) < vesta_base_modulus(),
{
    <pasta_curves::Fq as ff::Field>::random(rng).to_repr()
}

/// The bytes that spell `v`, least significant first.
pub fn bytes_from_u64(v: u64) -> (r: [u8; 32])
    ensures
        le_value(r@) == v,
{
    let mut repr: [u8; 32] = [
        0u8, 0u8, 0u8, 0u8, 0u8, 0u8, 0u8, 0u8, 0u8, 0u8, 0u8, 0u8, 0u8, 0u8, 0u8, 0u8,
        0u8, 0u8, 0u8, 0u8, 0u8, 0u8, 0u8, 0u8, 0u8, 0u8, 0u8, 0u8, 0u8, 0u8, 0u8, 0u8,
    ];
    let mut rest: u64 = v;
    let mut i: usize = 0;
    proof {
        assert(forall|j: int| 0 <= j < 32 ==> repr[j] == 0);
        lemma_le_value_zeros(repr@);
        assert(pow256(0) == 1);
        assert(rest * 1 == rest as int);
    }
    while i < 8
        invariant
            i <= 8,
            forall|j: int| i <= j < 32 ==> repr[j] == 0,
            le_value(repr@) + rest * pow256(i as nat) == v,
        decreases 8 - i,
    {
        let low: u8 = (rest % 256) as u8;
        let ghost held = repr@;
        let ghost whole = rest;
        proof {
            lemma_le_value_update(held, i as int, low);
            let p = pow256(i as nat);
            assert(pow256((i + 1) as nat) == 256 * p);
            assert(held[i as int] == 0);
            assert(held[i as int] * p == 0) by (nonlinear_arith)
                requires
                    held[i as int] == 0,
            ;
            assert(le_value(held.update(i as int, low)) == le_value(held) + low * p);
            assert(whole == 256 * (whole / 256) + low);
            assert((whole / 256) * (256 * p) + low * p == whole * p) by (nonlinear_arith)
                requires
                    whole == 256 * (whole / 256) + low,
            ;
        }
        repr[i] = low;
        rest = rest / 256;
        i += 1;
        proof {
            assert(repr@ =~= held.update(i - 1, low));
            assert(rest * pow256(i as nat) == (whole / 256) * (256 * pow256((i - 1) as nat)));
        }
    }
    proof {
        reveal_with_fuel(pow256, 9);
        assert(pow256(8) == 0x1_0000_0000_0000_0000);
        assert(rest == 0) by (nonlinear_arith)
            requires
                rest * 0x1_0000_0000_0000_0000 <= v,
                v < 0x1_0000_0000_0000_0000,
                rest >= 0,
        ;
    }
    repr
}

/// Whether two runs of 32 bytes spell the same number.
pub fn bytes_equal(a: &[u8; 32], b: &[u8; 32]) -> (r: bool)
    ensures
        r == (le_value(a@) == le_value(b@)),
        r == (a@ == b@),
{
    let mut i: usize = 0;
    while i < 32
        invariant
            i <= 32,
            forall|j: int| 0 <= j < i ==> a[j] == b[j],
        decreases 32 - i,
    {
        if a[i] != b[i] {
            proof {
                if le_value(a@) == le_value(b@) {
                    lemma_le_value_injective(a@, b@);
                }
            }
            return false;
        }
        i += 1;
    }
    assert(a@ =~= b@);
    true
}

/// A prime field whose elements fit in 32 bytes.
pub trait Field: Sized + Copy {
    /// The prime of the field.
    spec fn modulus() -> nat;

    /// The canonical bytes of this element.
    spec fn bytes(&self) -> Seq<u8>;

    /// The number below the prime that this element is.
    spec fn value(&self) -> nat;

    /// The prime is more than one.
    proof fn lemma_modulus()
        ensures
            Self::modulus() > 1,
    ;

    /// An element has 32 bytes, and the number that it is lies below the
    /// prime and is what its bytes spell, reduced.
    proof fn lemma_field(&self)
        ensures
            Self::modulus() > 1,
            self.bytes().len() == 32,
            self.value() < Self::modulus(),
            self.value() == le_value(self.bytes()),
            self.bytes() == le_bytes(self.value(), 32),
    ;

    /// The element that `repr` spells, if it spells one.
    fn from_bytes(repr: [u8; 32]) -> (r: Option<Self>)
        ensures
            r is Some <==> le_value(repr@) < Self::modulus(),
            r matches Some(e) ==> e.bytes() == repr@ && e.value() == le_value(repr@),
    ;

    /// The canonical bytes of this element.
    fn to_bytes(&self) -> (r: [u8; 32])
        ensures
            r@ == self.bytes(),
            le_value(r@) == self.value(),
    ;

    /// The element that is the number `v`.
    fn from_u64(v: u64) -> (r: Self)
        ensures
            r.value() == v,
    ;

    /// The sum of two elements.
    fn add(&self, other: &Self) -> (r: Self)
        ensures
            r.value() == (self.value() + other.value()) % Self::modulus(),
    ;

    /// The product of two elements.
    fn mul(&self, other: &Self) -> (r: Self)
        ensures
            r.value() == (self.value() * other.value()) % Self::modulus(),
    ;

    /// The element that adds to this one to give zero.
    fn neg(&self) -> (r: Self)
        ensures
            r.value() == (Self::modulus() - self.value()) % (Self::modulus() as int),
    ;

    /// Whether two elements are the same number.
    fn equals(&self, other: &Self) -> (r: bool)
        ensures
            r == (self.value() == other.value()),
            r == (self.bytes() == other.bytes()),
    ;

    /// An element drawn from `rng`.
    fn random(rng: &mut StdRng) -> (r: Self)
    ;

    /// The element zero.
    fn zero() -> (r: Self)
        ensures
            r.value() == 0,
    {
        Self::from_u64(0)
    }

    /// The element one.
    fn one() -> (r: Self)
        ensures
            r.value() == 1,
    {
        Self::from_u64(1)
    }

    /// Whether this element is zero.
    fn is_zero(&self) -> (r: bool)
        ensures
            r == (self.value() == 0),
    {
        let zero = Self::zero();
        self.equals(&zero)
    }
}

/// An element of the base field of the Pallas curve, which is the scalar field of the Vesta
/// curve.
#[derive(Clone, Copy, Debug)]
pub struct Fp {
    repr: [u8; 32],
}

impl Fp {
    #[verifier::type_invariant]
    spec fn canonical(self) -> bool {
        le_value(self.repr@) < pallas_base_modulus()
    }
}

impl Field for Fp {
    open spec fn modulus() -> nat {
        pallas_base_modulus()
    }

    closed spec fn bytes(&self) -> Seq<u8> {
        le_bytes(le_value(self.repr@) % pallas_base_modulus(), 32)
    }

    closed spec fn value(&self) -> nat {
        le_value(self.repr@) % pallas_base_modulus()
    }

    proof fn lemma_modulus() {
    }

    proof fn lemma_field(&self) {
        lemma_pow256_32();
        lemma_le_bytes_len(self.value(), 32);
        lemma_le_bytes_value(self.value(), 32);
        lemma_small_mod(self.value(), pallas_base_modulus());
    }

    fn from_bytes(repr: [u8; 32]) -> (r: Option<Fp>) {
        if pallas_base_is_canonical(&repr) {
            proof {
                lemma_small_mod(le_value(repr@), pallas_base_modulus());
                lemma_le_value_bytes(repr@);
            }
            Some(Fp { repr })
        } else {
            None
        }
    }

    fn to_bytes(&self) -> (r: [u8; 32]) {
        proof {
            use_type_invariant(self);
            lemma_small_mod(le_value(self.repr@), pallas_base_modulus());
            lemma_le_value_bytes(self.repr@);
        }
        self.repr
    }

    fn from_u64(v: u64) -> (r: Fp) {
        let repr = bytes_from_u64(v);
        proof {
            lemma_small_mod(v as nat, pallas_base_modulus());
        }
        Fp { repr }
    }

    fn add(&self, other: &Fp) -> (r: Fp) {
        proof {
            use_type_invariant(self);
            use_type_invariant(other);
            lemma_small_mod(le_value(self.repr@), pallas_base_modulus());
            lemma_small_mod(le_value(other.repr@), pallas_base_modulus());
        }
        let repr = pallas_base_add(&self.repr, &other.repr);
        proof {
            lemma_small_mod(le_value(repr@), pallas_base_modulus());
        }
        Fp { repr }
    }

    fn mul(&self, other: &Fp) -> (r: Fp) {
        proof {
            use_type_invariant(self);
            use_type_invariant(other);
            lemma_small_mod(le_value(self.repr@), pallas_base_modulus());
            lemma_small_mod(le_value(other.repr@), pallas_base_modulus());
        }
        let repr = pallas_base_mul(&self.repr, &other.repr);
        proof {
            lemma_small_mod(le_value(repr@), pallas_base_modulus());
        }
        Fp { repr }
    }

    fn neg(&self) -> (r: Fp) {
        proof {
            use_type_invariant(self);
            lemma_small_mod(le_value(self.repr@), pallas_base_modulus());
        }
        let repr = pallas_base_neg(&self.repr);
        proof {
            lemma_small_mod(le_value(repr@), pallas_base_modulus());
        }
        Fp { repr }
    }

    fn equals(&self, other: &Fp) -> (r: bool) {
        proof {
            use_type_invariant(self);
            use_type_invariant(other);
            lemma_small_mod(le_value(self.repr@), pallas_base_modulus());
            lemma_small_mod(le_value(other.repr@), pallas_base_modulus());
            lemma_le_value_bytes(self.repr@);
            lemma_le_value_bytes(other.repr@);
        }
        let same = bytes_equal(&self.repr, &other.repr);
        assert(same == (self.repr@ == other.repr@));
        assert(self.bytes() == self.repr@);
        assert(other.bytes() == other.repr@);
        same
    }

    fn random(rng: &mut StdRng) -> (r: Fp) {
        Fp { repr: pallas_base_random(rng) }
    }
}

impl PartialEq for Fp {
    fn eq(&self, other: &Fp) -> (r: bool) {
        self.equals(other)
    }
}

impl Eq for Fp {

}

impl vstd::std_specs::cmp::PartialEqSpecImpl for Fp {
    open spec fn obeys_eq_spec() -> bool {
        true
    }

    open spec fn eq_spec(&self, other: &Fp) -> bool {
        self.value() == other.value()
    }
}

/// An element of the base field of the Vesta curve, which is the scalar field of the Pallas
/// curve.
#[derive(Clone, Copy, Debug)]
pub struct Fq {
    repr: [u8; 32],
}

impl Fq {
    #[verifier::type_invariant]
    spec fn canonical(self) -> bool {
        le_value(self.repr@) < vesta_base_modulus()
    }
}

impl Field for Fq {
    open spec fn modulus() -> nat {
        vesta_base_modulus()
    }

    closed spec fn bytes(&self) -> Seq<u8> {
        le_bytes(le_value(self.repr@) % vesta_base_modulus(), 32)
    }

    closed spec fn value(&self) -> nat {
        le_value(self.repr@) % vesta_base_modulus()
    }

    proof fn lemma_modulus() {
    }

    proof fn lemma_field(&self) {
        lemma_pow256_32();
        lemma_le_bytes_len(self.value(), 32);
        lemma_le_bytes_value(self.value(), 32);
        lemma_small_mod(self.value(), vesta_base_modulus());
    }

    fn from_bytes(repr: [u8; 32]) -> (r: Option<Fq>) {
        if vesta_base_is_canonical(&repr) {
            proof {
                lemma_small_mod(le_value(repr@), vesta_base_modulus());
                lemma_le_value_bytes(repr@);
            }
            Some(Fq { repr })
        } else {
            None
        }
    }

    fn to_bytes(&self) -> (r: [u8; 32]) {
        proof {
            use_type_invariant(self);
            lemma_small_mod(le_value(self.repr@), vesta_base_modulus());
            lemma_le_value_bytes(self.repr@);
        }
        self.repr
    }

    fn from_u64(v: u64) -> (r: Fq) {
        let repr = bytes_from_u64(v);
        proof {
            lemma_small_mod(v as nat, vesta_base_modulus());
        }
        Fq { repr }
    }

    fn add(&self, other: &Fq) -> (r: Fq) {
        proof {
            use_type_invariant(self);
            use_type_invariant(other);
            lemma_small_mod(le_value(self.repr@), vesta_base_modulus());
            lemma_small_mod(le_value(other.repr@), vesta_base_modulus());
        }
        let repr = vesta_base_add(&self.repr, &other.repr);
        proof {
            lemma_small_mod(le_value(repr@), vesta_base_modulus());
        }
        Fq { repr }
    }

    fn mul(&self, other: &Fq) -> (r: Fq) {
        proof {
            use_type_invariant(self);
            use_type_invariant(other);
            lemma_small_mod(le_value(self.repr@), vesta_base_modulus());
            lemma_small_mod(le_value(other.repr@), vesta_base_modulus());
        }
        let repr = vesta_base_mul(&self.repr, &other.repr);
        proof {
            lemma_small_mod(le_value(repr@), vesta_base_modulus());
        }
        Fq { repr }
    }

    fn neg(&self) -> (r: Fq) {
        proof {
            use_type_invariant(self);
            lemma_small_mod(le_value(self.repr@), vesta_base_modulus());
        }
        let repr = vesta_base_neg(&self.repr);
        proof {
            lemma_small_mod(le_value(repr@), vesta_base_modulus());
        }
        Fq { repr }
    }

    fn equals(&self, other: &Fq) -> (r: bool) {
        proof {
            use_type_invariant(self);
            use_type_invariant(other);
            lemma_small_mod(le_value(self.repr@), vesta_base_modulus());
            lemma_small_mod(le_value(other.repr@), vesta_base_modulus());
            lemma_le_value_bytes(self.repr@);
            lemma_le_value_bytes(other.repr@);
        }
        let same = bytes_equal(&self.repr, &other.repr);
        assert(same == (self.repr@ == other.repr@));
        assert(self.bytes() == self.repr@);
        assert(other.bytes() == other.repr@);
        same
    }

    fn random(rng: &mut StdRng) -> (r: Fq) {
        Fq { repr: vesta_base_random(rng) }
    }
}

impl PartialEq for Fq {
    fn eq(&self, other: &Fq) -> (r: bool) {
        self.equals(other)
    }
}

impl Eq for Fq {

}

impl vstd::std_specs::cmp::PartialEqSpecImpl for Fq {
    open spec fn obeys_eq_spec() -> bool {
        true
    }

    open spec fn eq_spec(&self, other: &Fq) -> bool {
        self.value() == other.value()
    }
}

} // verus!
