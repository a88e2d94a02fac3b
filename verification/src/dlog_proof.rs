//! Schnorr proofs of knowledge of a discrete logarithm, made non-interactive
//! by hashing the transcript, and their byte encoding.

use crate::bytes::{append_bytes, be_nat, concat_all, copy_range, zeros};
use crate::common::{generate_random_number, RandomnessFailure};
use crate::hash::{hash_to_scalar, scalar_of_hash, sha256_digest};
use crate::point::{
    compress, ec_add, ec_mul, identity_encoding, is_compressed_point, is_point, Point,
};
use crate::scalar::{group_order, is_canonical, Scalar};
use vstd::arithmetic::div_mod::{lemma_add_mod_noop_right, lemma_mod_bound};
use vstd::bytes::{spec_u32_to_le_bytes, u32_to_le_bytes};
use vstd::prelude::*;
use vstd::slice::slice_to_vec;
use vstd::string::StringSliceAdditionalSpecFns;

verus! {

/// The bytes that are hashed: the session id, the participant id as four
/// little-endian bytes, then the encoding of each point in the given order.
pub open spec fn transcript(sid: Seq<u8>, pid: u32, points: Seq<Seq<u8>>) -> Seq<u8> {
    sid + spec_u32_to_le_bytes(pid) + concat_all(points)
}

/// The challenge that a context and an ordered list of points are bound to.
pub open spec fn challenge(sid: Seq<u8>, pid: u32, points: Seq<Seq<u8>>) -> nat {
    scalar_of_hash(transcript(sid, pid, points))
}

/// The challenge of one proof: the hash of the base point, the public point
/// and the commitment, in that order.
pub open spec fn proof_challenge(
    sid: Seq<u8>,
    pid: u32,
    base: Seq<u8>,
    y: Seq<u8>,
    t: Seq<u8>,
) -> nat {
    challenge(sid, pid, seq![base, y, t])
}

/// The response to challenge `c` for secret `x` under nonce `k`.
pub open spec fn response(k: nat, c: nat, x: nat) -> nat {
    (k + c * x) % group_order()
}

/// The verification equation: `s * base == t + c * y`, with `c` the
/// challenge of the proof.
pub open spec fn accepts(
    t: Seq<u8>,
    s: nat,
    sid: Seq<u8>,
    pid: u32,
    y: Seq<u8>,
    base: Seq<u8>,
) -> bool {
    ec_mul(base, s) == ec_add(t, ec_mul(y, proof_challenge(sid, pid, base, y, t)))
}

/// Whether `(t, s)` is what an honest prover makes of nonce `k`.
pub open spec fn made_with_nonce(
    t: Seq<u8>,
    s: nat,
    sid: Seq<u8>,
    pid: u32,
    x: nat,
    y: Seq<u8>,
    base: Seq<u8>,
    k: nat,
) -> bool {
    &&& k < group_order()
    &&& t == ec_mul(base, k)
    &&& s == response(k, proof_challenge(sid, pid, base, y, t), x)
}

/// Whether `(t, s)` is what an honest prover makes of some nonce.
pub open spec fn honest(
    t: Seq<u8>,
    s: nat,
    sid: Seq<u8>,
    pid: u32,
    x: nat,
    y: Seq<u8>,
    base: Seq<u8>,
) -> bool {
    exists|k: nat| #[trigger] made_with_nonce(t, s, sid, pid, x, y, base, k)
}

/// The encodings of a list of points, in order.
pub open spec fn encodings(points: Seq<Point>) -> Seq<Seq<u8>> {
    points.map_values(|p: Point| p@)
}

/// The encoded proof: the 33-byte form of the commitment, then the 32
/// canonical bytes of the response.
pub open spec fn encoding(t: Seq<u8>, s: Seq<u8>) -> Seq<u8> {
    compress(t) + s
}

/// Whether `b` is the encoding of a proof.
pub open spec fn decodable(b: Seq<u8>) -> bool {
    &&& b.len() == 65
    &&& is_compressed_point(b.subrange(0, 33))
    &&& is_canonical(b.subrange(33, 65))
}

/// Why a byte string is not the encoding of a proof.
#[derive(Debug, Clone, Copy, PartialEq, Eq, Structural)]
pub enum DecodeError {
    /// The first 33 bytes are missing or are not the form of a group element.
    InvalidPointEncoding,
    /// What follows the point is not 32 bytes that denote a number below the
    /// group order.
    InvalidScalarEncoding,
}

/// A proof of knowledge of the discrete logarithm of a public point.
#[derive(Debug, PartialEq, Eq)]
pub struct DLogProof {
    /// The commitment.
    pub t: Point,
    /// The response.
    pub s: Scalar,
}

impl Clone for DLogProof {
    fn clone(&self) -> (r: Self)
        ensures
            r.t@ == self.t@,
            r.s.repr() == self.s.repr(),
    {
        DLogProof { t: self.t.clone(), s: self.s.clone() }
    }
}

impl Default for DLogProof {
    fn default() -> (r: Self)
        ensures
            r.wf(),
            r.t@ == identity_encoding(),
            r.s.repr() == zeros(32),
    {
        DLogProof::new()
    }
}

impl DLogProof {
    /// A proof is well formed when both its parts are.
    pub open spec fn wf(&self) -> bool {
        self.t.wf() && self.s.wf()
    }

    /// The proof whose commitment is the identity and whose response is zero.
    pub fn new() -> (r: Self)
        ensures
            r.wf(),
            r.t@ == identity_encoding(),
            r.s.repr() == zeros(32),
            r.s@ == 0,
    {
        DLogProof { t: Point::identity(), s: Scalar::zero() }
    }

    /// Whether both proofs have the same commitment and the same response.
    pub fn same(&self, other: &DLogProof) -> (r: bool)
        ensures
            r == (self.t@ == other.t@ && self.s@ == other.s@),
    {
        self.t.same(&other.t) && self.s.same(&other.s)
    }

    /// Binds a context and an ordered list of points into a challenge.
    pub fn hash_points(sid: &str, pid: u32, points: &[Point]) -> (c: Scalar)
        ensures
            c.wf(),
            c@ == challenge(sid.spec_bytes(), pid, encodings(points@)),
    {
        let mut buf: Vec<u8> = slice_to_vec(sid.as_bytes());
        let pid_bytes = u32_to_le_bytes(pid);
        append_bytes(&mut buf, &pid_bytes);
        let ghost head = buf@;
        let ghost encs = encodings(points@);
        let mut i: usize = 0;
        while i < points.len()
            invariant
                i <= points@.len(),
                encs == encodings(points@),
                buf@ == head + concat_all(encs.subrange(0, i as int)),
            decreases points@.len() - i,
        {
            let enc = points[i].to_sec1();
            append_bytes(&mut buf, &enc);
            proof {
                let next = encs.subrange(0, i + 1);
                assert(next.drop_last() =~= encs.subrange(0, i as int));
                assert(next.last() == points@[i as int]@);
                assert(buf@ =~= head + concat_all(next));
            }
            i += 1;
        }
        assert(encs.subrange(0, points@.len() as int) =~= encs);
        hash_to_scalar(&buf)
    }

    /// The challenge of a proof with commitment `t`.
    fn challenge_for(sid: &str, pid: u32, base_point: &Point, y: &Point, t: &Point) -> (c: Scalar)
        ensures
            c.wf(),
            c@ == proof_challenge(sid.spec_bytes(), pid, base_point@, y@, t@),
    {
        let mut points: Vec<Point> = Vec::new();
        points.push(base_point.clone());
        points.push(y.clone());
        points.push(t.clone());
        assert(encodings(points@) =~= seq![base_point@, y@, t@]);
        DLogProof::hash_points(sid, pid, points.as_slice())
    }

    /// Makes the proof for secret `x` from the given nonce: commits to
    /// `nonce * base_point`, derives the challenge `c`, and answers with
    /// `nonce + c * x`. A nonce must never serve twice.
    pub fn prove_with_nonce(
        sid: &str,
        pid: u32,
        x: &Scalar,
        y: &Point,
        base_point: &Point,
        nonce: &Scalar,
    ) -> (p: DLogProof)
        ensures
            p.wf(),
            made_with_nonce(p.t@, p.s@, sid.spec_bytes(), pid, x@, y@, base_point@, nonce@),
    {
        let t = base_point.mul(nonce);
        let c = DLogProof::challenge_for(sid, pid, base_point, y, &t);
        let cx = c.mul(x);
        let s = nonce.add(&cx);
        proof {
            use_type_invariant(nonce);
            lemma_add_mod_noop_right(nonce@ as int, (c@ * x@) as int, group_order() as int);
        }
        DLogProof { t, s }
    }

    /// Makes a proof for secret `x` under a freshly drawn nonce. Where no
    /// nonce can be drawn there is no proof: nothing weaker stands in for
    /// the draw.
    pub fn prove(sid: &str, pid: u32, x: &Scalar, y: &Point, base_point: &Point) -> (r: Result<
        DLogProof,
        RandomnessFailure,
    >)
        ensures
            r matches Ok(p) ==> p.wf() && honest(
                p.t@,
                p.s@,
                sid.spec_bytes(),
                pid,
                x@,
                y@,
                base_point@,
            ),
    {
        match generate_random_number() {
            Ok(nonce) => {
                let p = DLogProof::prove_with_nonce(sid, pid, x, y, base_point, &nonce);
                assert(made_with_nonce(
                    p.t@,
                    p.s@,
                    sid.spec_bytes(),
                    pid,
                    x@,
                    y@,
                    base_point@,
                    nonce@,
                ));
                Ok(p)
            },
            Err(e) => Err(e),
        }
    }

    /// Recomputes the challenge and checks the verification equation.
    pub fn verify(&self, sid: &str, pid: u32, y: &Point, base_point: &Point) -> (ok: bool)
        ensures
            ok == accepts(self.t@, self.s@, sid.spec_bytes(), pid, y@, base_point@),
    {
        let c = DLogProof::challenge_for(sid, pid, base_point, y, &self.t);
        let lhs = base_point.mul(&self.s);
        let yc = y.mul(&c);
        let rhs = self.t.add(&yc);
        lhs.same(&rhs)
    }

    /// The 65 bytes that carry the proof.
    pub fn encode(&self) -> (r: Vec<u8>)
        ensures
            r@ == encoding(self.t@, self.s.repr()),
            decodable(r@),
    {
        let mut out = self.t.to_bytes();
        let tail = self.s.to_bytes();
        append_bytes(&mut out, &tail);
        proof {
            use_type_invariant(&self.t);
            use_type_invariant(&self.s);
            lemma_encoding_parts(self.t@, self.s.repr());
        }
        out
    }

    /// Reads a proof back from its bytes. Exactly the encodings of proofs
    /// are accepted, and each gives back the proof it encodes; anything
    /// else is refused with the part that is at fault, the point first.
    pub fn decode(bytes: &Vec<u8>) -> (r: Result<DLogProof, DecodeError>)
        ensures
            r.is_ok() <==> decodable(bytes@),
            match r {
                Ok(p) => p.wf() && encoding(p.t@, p.s.repr()) == bytes@,
                Err(DecodeError::InvalidPointEncoding) => bytes@.len() < 33
                    || !is_compressed_point(bytes@.subrange(0, 33)),
                Err(DecodeError::InvalidScalarEncoding) => bytes@.len() >= 33
                    && is_compressed_point(bytes@.subrange(0, 33)) && !is_canonical(
                    bytes@.subrange(33, bytes@.len() as int),
                ),
            },
            forall|t: Seq<u8>, s: Seq<u8>|
                is_point(t) && is_canonical(s) && #[trigger] encoding(t, s) == bytes@ ==> r.is_ok()
                    && r.unwrap().t@ == t && r.unwrap().s.repr() == s,
    {
        if bytes.len() < 33 {
            return Err(DecodeError::InvalidPointEncoding);
        }
        let head = copy_range(bytes, 0, 33);
        let tail = copy_range(bytes, 33, bytes.len());
        assert forall|t: Seq<u8>, s: Seq<u8>|
            is_point(t) && is_canonical(s) && #[trigger] encoding(t, s) == bytes@ implies compress(
            t,
        ) == head@ && s == tail@ by {
            lemma_encoding_parts(t, s);
        }
        let t = match Point::from_bytes(&head) {
            Some(t) => t,
            None => {
                return Err(DecodeError::InvalidPointEncoding);
            },
        };
        match Scalar::from_bytes(&tail) {
            Some(s) => {
                assert(bytes@ =~= head@ + tail@);
                Ok(DLogProof { t, s })
            },
            None => Err(DecodeError::InvalidScalarEncoding),
        }
    }
}

/// The encoding of a proof is 65 bytes long: its first 33 are the form of
/// the commitment, the rest the bytes of the response.
pub proof fn lemma_encoding_parts(t: Seq<u8>, s: Seq<u8>)
    requires
        is_canonical(s),
    ensures
        encoding(t, s).len() == 65,
        encoding(t, s).subrange(0, 33) == compress(t),
        encoding(t, s).subrange(33, 65) == s,
        is_point(t) ==> decodable(encoding(t, s)),
{
    let e = encoding(t, s);
    assert(compress(t).len() == 33);
    assert(e.subrange(0, 33) =~= compress(t));
    assert(e.subrange(33, 65) =~= s);
}

/// The laws of scalar multiplication along the multiples of `base`:
/// multiplying twice multiplies the scalars, and adding two multiples adds
/// them, both modulo the group order.
pub open spec fn scalar_laws(base: Seq<u8>) -> bool {
    &&& forall|a: nat, b: nat|
        a < group_order() && b < group_order() ==> #[trigger] ec_mul(ec_mul(base, a), b)
            == ec_mul(base, (a * b) % group_order())
    &&& forall|a: nat, b: nat|
        a < group_order() && b < group_order() ==> #[trigger] ec_add(
            ec_mul(base, a),
            ec_mul(base, b),
        ) == ec_mul(base, (a + b) % group_order())
}

/// Completeness. Where the curve arithmetic obeys the laws of scalar
/// multiplication on the multiples of `base`, every proof that an honest
/// prover makes for a secret `x` and the public point `x * base` satisfies
/// the verification equation in the same context. The secret zero, whose
/// public point is the identity, is no exception.
pub proof fn lemma_honest_proof_accepted(
    t: Seq<u8>,
    s: nat,
    sid: Seq<u8>,
    pid: u32,
    x: nat,
    base: Seq<u8>,
)
    requires
        x < group_order(),
    ensures
        scalar_laws(base) && honest(t, s, sid, pid, x, ec_mul(base, x), base) ==> accepts(
            t,
            s,
            sid,
            pid,
            ec_mul(base, x),
            base,
        ),
{
    let n = group_order();
    let y = ec_mul(base, x);
    if scalar_laws(base) && honest(t, s, sid, pid, x, y, base) {
        let k = choose|k: nat| #[trigger] made_with_nonce(t, s, sid, pid, x, y, base, k);
        let c = proof_challenge(sid, pid, base, y, t);
        assert(c < n) by {
            lemma_mod_bound(
                be_nat(sha256_digest(transcript(sid, pid, seq![base, y, t]))) as int,
                n as int,
            );
        }
        let xc = (x * c) % n;
        assert(xc < n) by {
            lemma_mod_bound((x * c) as int, n as int);
        }
        assert(ec_mul(y, c) == ec_mul(base, xc));
        assert(ec_add(t, ec_mul(base, xc)) == ec_mul(base, (k + xc) % n));
        assert((k + xc) % n == (k + c * x) % n) by {
            lemma_add_mod_noop_right(k as int, (x * c) as int, n as int);
            assert(x * c == c * x) by (nonlinear_arith);
        }
    }
}

} // verus!
