//! Points of the secp256k1 group, held by their SEC1 encoding.

use crate::bytes::{be_nat, copy_bytes, same_bytes, zeros};
use crate::scalar::Scalar;
use k256::elliptic_curve::generic_array::GenericArray;
use k256::elliptic_curve::group::GroupEncoding;
use k256::elliptic_curve::sec1::{FromEncodedPoint, ToEncodedPoint};
use k256::elliptic_curve::PrimeField;
use vstd::prelude::*;

verus! {

/// The prime `p` of the field over which the curve is defined.
pub open spec fn field_prime() -> nat {
    0xFFFFFFFFFFFFFFFFFFFFFFFFFFFFFFFFFFFFFFFFFFFFFFFFFFFFFFFEFFFFFC2Fnat
}

/// Whether `(x, y)` are reduced coordinates that satisfy `y^2 = x^3 + 7`.
pub open spec fn on_curve(x: nat, y: nat) -> bool {
    &&& x < field_prime()
    &&& y < field_prime()
    &&& (y * y) % field_prime() == (x * x * x + 7) % field_prime()
}

/// The encoding of the identity: the single byte zero.
pub open spec fn identity_encoding() -> Seq<u8> {
    seq![0u8]
}

/// Whether `e` is the uncompressed SEC1 encoding of a group element: the
/// identity's single zero byte, or the tag 4 followed by the 32-byte
/// big-endian coordinates of a point on the curve.
pub open spec fn is_point(e: Seq<u8>) -> bool {
    ||| e == identity_encoding()
    ||| {
        &&& e.len() == 65
        &&& e[0] == 4
        &&& on_curve(be_nat(e.subrange(1, 33)), be_nat(e.subrange(33, 65)))
    }
}

/// The fixed-width 33-byte form of a group element given by its
/// uncompressed encoding: 33 zero bytes for the identity, else a tag that
/// tells the parity of `y` (2 for even, 3 for odd) followed by `x`.
pub open spec fn compress(e: Seq<u8>) -> Seq<u8> {
    if e.len() == 65 {
        seq![if e[64] % 2 == 1 { 3u8 } else { 2u8 }] + e.subrange(1, 33)
    } else {
        zeros(33)
    }
}

/// Whether `b` is the 33-byte form of some group element.
pub open spec fn is_compressed_point(b: Seq<u8>) -> bool {
    exists|e: Seq<u8>| #[trigger] is_point(e) && compress(e) == b
}

/// The uncompressed encoding of the standard base point.
pub open spec fn generator_encoding() -> Seq<u8> {
    seq![
        0x04u8, 0x79, 0xbe, 0x66, 0x7e, 0xf9, 0xdc, 0xbb, 0xac, 0x55, 0xa0, 0x62, 0x95, 0xce,
        0x87, 0x0b, 0x07, 0x02, 0x9b, 0xfc, 0xdb, 0x2d, 0xce, 0x28, 0xd9, 0x59, 0xf2, 0x81,
        0x5b, 0x16, 0xf8, 0x17, 0x98, 0x48, 0x3a, 0xda, 0x77, 0x26, 0xa3, 0xc4, 0x65, 0x5d,
        0xa4, 0xfb, 0xfc, 0x0e, 0x11, 0x08, 0xa8, 0xfd, 0x17, 0xb4, 0x48, 0xa6, 0x85, 0x54,
        0x19, 0x9c, 0x47, 0xd0, 0x8f, 0xfb, 0x10, 0xd4, 0xb8,
    ]
}

/// The encoding of the scalar multiple `k * p`, as k256 computes it.
pub uninterp spec fn ec_mul(p: Seq<u8>, k: nat) -> Seq<u8>;

/// The encoding of the sum `p + q`, as k256 computes it.
pub uninterp spec fn ec_add(p: Seq<u8>, q: Seq<u8>) -> Seq<u8>;

/// An element of the group. Two points are the same element exactly when
/// their encodings are equal.
#[derive(Debug, PartialEq, Eq)]
pub struct Point {
    pub(crate) enc: Vec<u8>,
}

impl View for Point {
    type V = Seq<u8>;

    /// The uncompressed SEC1 encoding.
    closed spec fn view(&self) -> Seq<u8> {
        self.enc@
    }
}

impl Clone for Point {
    fn clone(&self) -> (r: Self)
        ensures
            r@ == self@,
    {
        proof {
            use_type_invariant(self);
        }
        Point { enc: copy_bytes(&self.enc) }
    }
}

/// `AffinePoint::GENERATOR` of k256, encoded uncompressed: the base point
/// whose coordinates the curve's definition fixes.
#[verifier::external_body]
fn point_generator() -> (r: Point)
    ensures
        r.wf(),
        r@ == generator_encoding(),
{
    Point { enc: k256::AffinePoint::GENERATOR.to_encoded_point(false).as_bytes().to_vec() }
}

/// Multiplication of k256's `ProjectivePoint` by a `Scalar`. The product is
/// a group element; which one is given a name, not computed here.
#[allow(deprecated)]
#[verifier::external_body]
fn point_mul(p: &Point, k: &Scalar) -> (r: Point)
    requires
        p.wf(),
        k.wf(),
    ensures
        r.wf(),
        r@ == ec_mul(p@, k@),
{
    let e = k256::EncodedPoint::from_bytes(&p.enc).unwrap();
    let a = k256::ProjectivePoint::from_encoded_point(&e).unwrap();
    let s = k256::Scalar::from_repr(GenericArray::clone_from_slice(&k.bytes)).unwrap();
    Point { enc: (a * s).to_encoded_point(false).as_bytes().to_vec() }
}

/// Addition of k256's `ProjectivePoint`. The sum is a group element; which
/// one is given a name, not computed here.
#[verifier::external_body]
fn point_add(p: &Point, q: &Point) -> (r: Point)
    requires
        p.wf(),
        q.wf(),
    ensures
        r.wf(),
        r@ == ec_add(p@, q@),
{
    let e = k256::EncodedPoint::from_bytes(&p.enc).unwrap();
    let f = k256::EncodedPoint::from_bytes(&q.enc).unwrap();
    let a = k256::ProjectivePoint::from_encoded_point(&e).unwrap();
    let b = k256::ProjectivePoint::from_encoded_point(&f).unwrap();
    Point { enc: (a + b).to_encoded_point(false).as_bytes().to_vec() }
}

/// `GroupEncoding::to_bytes` of k256's `ProjectivePoint`: the compressed
/// SEC1 form, with 33 zero bytes standing for the identity.
#[verifier::external_body]
fn point_to_compressed(p: &Point) -> (r: Vec<u8>)
    requires
        p.wf(),
    ensures
        r@ == compress(p@),
{
    let e = k256::EncodedPoint::from_bytes(&p.enc).unwrap();
    let a = k256::ProjectivePoint::from_encoded_point(&e).unwrap();
    a.to_bytes().to_vec()
}

/// `GroupEncoding::from_bytes` of k256's `ProjectivePoint`, kept away from
/// the compact tag 5, which it would also read. What it accepts is a group
/// element whose 33-byte form is the input; and it accepts the 33-byte form
/// of every group element, giving back that very element: no two elements
/// share a form.
#[allow(deprecated)]
#[verifier::external_body]
fn point_from_compressed(b: &Vec<u8>) -> (r: Option<Point>)
    requires
        b@.len() == 33,
        b@[0] != 5,
    ensures
        r.is_some() ==> r.unwrap().wf() && compress(r.unwrap()@) == b@,
        forall|e: Seq<u8>| #[trigger]
            is_point(e) && compress(e) == b@ ==> r.is_some() && r.unwrap()@ == e,
{
    let parsed = k256::ProjectivePoint::from_bytes(GenericArray::from_slice(b));
    if parsed.is_some().into() {
        Some(Point { enc: parsed.unwrap().to_encoded_point(false).as_bytes().to_vec() })
    } else {
        None
    }
}

impl Point {
    /// Every point holds the encoding of a group element.
    #[verifier::type_invariant]
    pub open spec fn wf(&self) -> bool {
        is_point(self@)
    }

    /// The identity of the group.
    pub fn identity() -> (r: Point)
        ensures
            r.wf(),
            r@ == identity_encoding(),
    {
        let mut enc: Vec<u8> = Vec::new();
        enc.push(0u8);
        assert(enc@ =~= identity_encoding());
        Point { enc }
    }

    /// The standard base point of the curve.
    pub fn generator() -> (r: Point)
        ensures
            r.wf(),
            r@ == generator_encoding(),
    {
        point_generator()
    }

    /// The scalar multiple `k * self`.
    pub fn mul(&self, k: &Scalar) -> (r: Point)
        ensures
            r.wf(),
            r@ == ec_mul(self@, k@),
    {
        proof {
            use_type_invariant(self);
            use_type_invariant(k);
        }
        point_mul(self, k)
    }

    /// The sum `self + other`.
    pub fn add(&self, other: &Point) -> (r: Point)
        ensures
            r.wf(),
            r@ == ec_add(self@, other@),
    {
        proof {
            use_type_invariant(self);
            use_type_invariant(other);
        }
        point_add(self, other)
    }

    /// Whether both are the same group element.
    pub fn same(&self, other: &Point) -> (r: bool)
        ensures
            r == (self@ == other@),
    {
        same_bytes(&self.enc, &other.enc)
    }

    /// The uncompressed SEC1 encoding: one zero byte for the identity, else
    /// 65 bytes.
    pub fn to_sec1(&self) -> (r: Vec<u8>)
        ensures
            r@ == self@,
            is_point(r@),
    {
        proof {
            use_type_invariant(self);
        }
        copy_bytes(&self.enc)
    }

    /// The fixed-width 33-byte form.
    pub fn to_bytes(&self) -> (r: Vec<u8>)
        ensures
            r@ == compress(self@),
            r@.len() == 33,
            is_compressed_point(r@),
    {
        proof {
            use_type_invariant(self);
        }
        point_to_compressed(self)
    }

    /// Parses the fixed-width 33-byte form. It is accepted exactly when it
    /// is the form of a group element, and then that element comes back.
    pub fn from_bytes(b: &Vec<u8>) -> (r: Option<Point>)
        ensures
            r.is_some() <==> is_compressed_point(b@),
            r.is_some() ==> r.unwrap().wf() && compress(r.unwrap()@) == b@,
            forall|e: Seq<u8>| #[trigger]
                is_point(e) && compress(e) == b@ ==> r.is_some() && r.unwrap()@ == e,
    {
        if b.len() != 33 {
            return None;
        }
        if b[0] == 5 {
            assert forall|e: Seq<u8>| #[trigger] is_point(e) implies compress(e) != b@ by {
                assert(compress(e)[0] != 5);
            }
            return None;
        }
        point_from_compressed(b)
    }
}

} // verus!
