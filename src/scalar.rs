//! Elements of the scalar field of Curve25519, the field every proof value lives in.
use vstd::arithmetic::power2::pow2;
use vstd::prelude::*;

verus! {

/// The order of the field: 2^252 + 27742317777372353535851937790883648493.
pub open spec fn field_order() -> int {
    pow2(252) as int + 27742317777372353535851937790883648493
}

/// The integer that a little-endian byte string encodes.
pub open spec fn le_value(b: Seq<u8>) -> int
    decreases b.len(),
{
    if b.len() == 0 {
        0
    } else {
        b[0] as int + 256 * le_value(b.drop_first())
    }
}

/// Relies on curve25519_dalek's `Scalar::from(u64)`: the scalar whose value is `n`.
#[verifier::external_body]
fn dalek_from_u64(n: u64) -> (r: [u8; 32])
    ensures
        le_value(r@) == n as int,
{
    curve25519_dalek::scalar::Scalar::from(n).to_bytes()
}

/// Relies on curve25519_dalek's `Scalar` addition, after `from_bytes_mod_order`:
/// the sum of the two encoded integers, reduced modulo the field order.
#[verifier::external_body]
fn dalek_add(a: [u8; 32], b: [u8; 32]) -> (r: [u8; 32])
    ensures
        le_value(r@) == (le_value(a@) + le_value(b@)) % field_order(),
{
    let x = curve25519_dalek::scalar::Scalar::from_bytes_mod_order(a);
    let y = curve25519_dalek::scalar::Scalar::from_bytes_mod_order(b);
    (x + y).to_bytes()
}

/// Relies on curve25519_dalek's `Scalar` subtraction, after `from_bytes_mod_order`:
/// the difference of the two encoded integers, reduced modulo the field order.
#[verifier::external_body]
fn dalek_sub(a: [u8; 32], b: [u8; 32]) -> (r: [u8; 32])
    ensures
        le_value(r@) == (le_value(a@) - le_value(b@)) % field_order(),
{
    let x = curve25519_dalek::scalar::Scalar::from_bytes_mod_order(a);
    let y = curve25519_dalek::scalar::Scalar::from_bytes_mod_order(b);
    (x - y).to_bytes()
}

/// Relies on curve25519_dalek's `Scalar` multiplication, after `from_bytes_mod_order`:
/// the product of the two encoded integers, reduced modulo the field order.
#[verifier::external_body]
fn dalek_mul(a: [u8; 32], b: [u8; 32]) -> (r: [u8; 32])
    ensures
        le_value(r@) == (le_value(a@) * le_value(b@)) % field_order(),
{
    let x = curve25519_dalek::scalar::Scalar::from_bytes_mod_order(a);
    let y = curve25519_dalek::scalar::Scalar::from_bytes_mod_order(b);
    (x * y).to_bytes()
}

/// A field element, held as the little-endian bytes of its representative.
#[derive(Clone, Copy, Debug)]
pub struct Scalar {
    bytes: [u8; 32],
}

impl View for Scalar {
    type V = int;

    /// The integer that the element stands for.
    closed spec fn view(&self) -> int {
        le_value(self.bytes@)
    }
}

impl Scalar {
    /// The element `n`.
    pub fn from_u64(n: u64) -> (r: Scalar)
        ensures
            r@ == n as int,
    {
        Scalar { bytes: dalek_from_u64(n) }
    }

    /// The additive identity.
    pub fn zero() -> (r: Scalar)
        ensures
            r@ == 0,
    {
        Scalar::from_u64(0)
    }

    /// The multiplicative identity.
    pub fn one() -> (r: Scalar)
        ensures
            r@ == 1,
    {
        Scalar::from_u64(1)
    }

    /// Field addition.
    pub fn add(&self, o: &Scalar) -> (r: Scalar)
        ensures
            r@ == (self@ + o@) % field_order(),
    {
        Scalar { bytes: dalek_add(self.bytes, o.bytes) }
    }

    /// Field subtraction.
    pub fn sub(&self, o: &Scalar) -> (r: Scalar)
        ensures
            r@ == (self@ - o@) % field_order(),
    {
        Scalar { bytes: dalek_sub(self.bytes, o.bytes) }
    }

    /// Field multiplication.
    pub fn mul(&self, o: &Scalar) -> (r: Scalar)
        ensures
            r@ == (self@ * o@) % field_order(),
    {
        Scalar { bytes: dalek_mul(self.bytes, o.bytes) }
    }

    /// The little-endian bytes of the element's representative.
    pub fn to_bytes(&self) -> (r: [u8; 32])
        ensures
            le_value(r@) == self@,
    {
        self.bytes
    }
}

impl PartialEq for Scalar {
    fn eq(&self, o: &Scalar) -> (r: bool) {
        let mut i: usize = 0;
        while i < 32
            invariant
                i <= 32,
                forall|j: int| 0 <= j < i ==> self.bytes@[j] == o.bytes@[j],
            decreases 32 - i,
        {
            if self.bytes[i] != o.bytes[i] {
                return false;
            }
            i = i + 1;
        }
        proof {
            assert(self.bytes@ =~= o.bytes@);
        }
        true
    }
}

impl vstd::std_specs::cmp::PartialEqSpecImpl for Scalar {
    open spec fn obeys_eq_spec() -> bool {
        true
    }

    closed spec fn eq_spec(&self, o: &Scalar) -> bool {
        self.bytes@ == o.bytes@
    }
}

impl Eq for Scalar {
}

} // verus!
