//! Scalars: integers modulo the order of the secp256k1 group.

use crate::bytes::{
    be_nat, copy_bytes, lemma_be_nat_injective, lemma_be_nat_zeros, same_bytes, zeros,
};
use k256::elliptic_curve::generic_array::GenericArray;
use k256::elliptic_curve::ops::Reduce;
use k256::elliptic_curve::PrimeField;
use vstd::prelude::*;

verus! {

/// The order `n` of the secp256k1 group.
pub open spec fn group_order() -> nat {
    0xFFFFFFFFFFFFFFFFFFFFFFFFFFFFFFFEBAAEDCE6AF48A03BBFD25E8CD0364141nat
}

/// Whether `s` is the canonical 32-byte big-endian form of a scalar.
pub open spec fn is_canonical(s: Seq<u8>) -> bool {
    s.len() == 32 && be_nat(s) < group_order()
}

/// An integer modulo the group order, held as 32 big-endian bytes.
#[derive(Debug, PartialEq, Eq)]
pub struct Scalar {
    pub(crate) bytes: Vec<u8>,
}

impl View for Scalar {
    type V = nat;

    /// The integer that the scalar stands for.
    open spec fn view(&self) -> nat {
        be_nat(self.repr())
    }
}

impl Clone for Scalar {
    fn clone(&self) -> (r: Self)
        ensures
            r.repr() == self.repr(),
    {
        proof {
            use_type_invariant(self);
        }
        Scalar { bytes: copy_bytes(&self.bytes) }
    }
}

/// `Scalar::from_repr` of k256: parses 32 big-endian bytes, and accepts them
/// exactly when the number they denote is below the group order. The scalar
/// that comes back holds the bytes that went in.
#[allow(deprecated)]
#[verifier::external_body]
fn scalar_from_repr(bytes: &Vec<u8>) -> (r: Option<Scalar>)
    requires
        bytes@.len() == 32,
    ensures
        r.is_some() <==> be_nat(bytes@) < group_order(),
        r.is_some() ==> r.unwrap().repr() == bytes@,
{
    let parsed = k256::Scalar::from_repr(GenericArray::clone_from_slice(bytes));
    if parsed.is_some().into() {
        Some(Scalar { bytes: parsed.unwrap().to_bytes().to_vec() })
    } else {
        None
    }
}

/// `Reduce::<U256>::reduce_bytes` of k256 on `Scalar`: reads 32 big-endian
/// bytes as a number and reduces it modulo the group order.
#[allow(deprecated)]
#[verifier::external_body]
fn scalar_reduce(bytes: &Vec<u8>) -> (r: Scalar)
    requires
        bytes@.len() == 32,
    ensures
        r.wf(),
        r@ == be_nat(bytes@) % group_order(),
{
    let reduced = <k256::Scalar as Reduce<k256::U256>>::reduce_bytes(GenericArray::from_slice(bytes));
    Scalar { bytes: reduced.to_bytes().to_vec() }
}

/// Addition of k256's `Scalar`: the sum modulo the group order.
#[allow(deprecated)]
#[verifier::external_body]
fn scalar_add(a: &Scalar, b: &Scalar) -> (r: Scalar)
    requires
        a.wf(),
        b.wf(),
    ensures
        r.wf(),
        r@ == (a@ + b@) % group_order(),
{
    let x = k256::Scalar::from_repr(GenericArray::clone_from_slice(&a.bytes)).unwrap();
    let y = k256::Scalar::from_repr(GenericArray::clone_from_slice(&b.bytes)).unwrap();
    Scalar { bytes: (x + y).to_bytes().to_vec() }
}

/// Multiplication of k256's `Scalar`: the product modulo the group order.
#[allow(deprecated)]
#[verifier::external_body]
fn scalar_mul(a: &Scalar, b: &Scalar) -> (r: Scalar)
    requires
        a.wf(),
        b.wf(),
    ensures
        r.wf(),
        r@ == (a@ * b@) % group_order(),
{
    let x = k256::Scalar::from_repr(GenericArray::clone_from_slice(&a.bytes)).unwrap();
    let y = k256::Scalar::from_repr(GenericArray::clone_from_slice(&b.bytes)).unwrap();
    Scalar { bytes: (x * y).to_bytes().to_vec() }
}

impl Scalar {
    /// The 32 big-endian bytes that hold the scalar.
    pub closed spec fn repr(&self) -> Seq<u8> {
        self.bytes@
    }

    /// Every scalar holds canonical bytes.
    #[verifier::type_invariant]
    pub open spec fn wf(&self) -> bool {
        is_canonical(self.repr())
    }

    /// The scalar zero.
    pub fn zero() -> (r: Scalar)
        ensures
            r.wf(),
            r@ == 0,
            r.repr() == zeros(32),
    {
        let mut bytes: Vec<u8> = Vec::new();
        let mut i: usize = 0;
        while i < 32
            invariant
                i <= 32,
                bytes@ == zeros(i as nat),
            decreases 32 - i,
        {
            bytes.push(0u8);
            i += 1;
            assert(bytes@ =~= zeros(i as nat));
        }
        proof {
            lemma_be_nat_zeros(32);
        }
        Scalar { bytes }
    }

    /// Parses the canonical big-endian form of a scalar. Anything but 32
    /// bytes that denote a number below the group order is refused.
    pub fn from_bytes(bytes: &Vec<u8>) -> (r: Option<Scalar>)
        ensures
            r.is_some() <==> is_canonical(bytes@),
            r.is_some() ==> r.unwrap().wf() && r.unwrap().repr() == bytes@,
    {
        if bytes.len() != 32 {
            return None;
        }
        scalar_from_repr(bytes)
    }

    /// Reads 32 big-endian bytes as a number and reduces it modulo the
    /// group order. Every input of that length gives a scalar.
    pub fn from_bytes_reduced(bytes: &Vec<u8>) -> (r: Scalar)
        requires
            bytes@.len() == 32,
        ensures
            r.wf(),
            r@ == be_nat(bytes@) % group_order(),
    {
        scalar_reduce(bytes)
    }

    /// The canonical 32-byte big-endian form.
    pub fn to_bytes(&self) -> (r: Vec<u8>)
        ensures
            r@ == self.repr(),
            is_canonical(r@),
    {
        proof {
            use_type_invariant(self);
        }
        copy_bytes(&self.bytes)
    }

    /// Whether both stand for the same integer.
    pub fn same(&self, other: &Scalar) -> (r: bool)
        ensures
            r == (self@ == other@),
            r == (self.repr() == other.repr()),
    {
        proof {
            use_type_invariant(self);
            use_type_invariant(other);
            if self@ == other@ {
                lemma_be_nat_injective(self.repr(), other.repr());
            }
        }
        same_bytes(&self.bytes, &other.bytes)
    }

    /// The sum modulo the group order.
    pub fn add(&self, other: &Scalar) -> (r: Scalar)
        ensures
            r.wf(),
            r@ == (self@ + other@) % group_order(),
    {
        proof {
            use_type_invariant(self);
            use_type_invariant(other);
        }
        scalar_add(self, other)
    }

    /// The product modulo the group order.
    pub fn mul(&self, other: &Scalar) -> (r: Scalar)
        ensures
            r.wf(),
            r@ == (self@ * other@) % group_order(),
    {
        proof {
            use_type_invariant(self);
            use_type_invariant(other);
        }
        scalar_mul(self, other)
    }
}

} // verus!
