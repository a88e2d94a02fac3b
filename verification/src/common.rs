//! The source of nonces: draws from the operating system, kept only where
//! they are scalars.

use crate::scalar::{is_canonical, Scalar};
use rand::RngCore;
use vstd::prelude::*;

verus! {

/// How many draws are made before giving up. A draw from a sound source is
/// refused about once in 2^128 times.
pub const MAX_DRAWS: usize = 4;

/// How many bytes one draw asks for: the length of a scalar.
pub const DRAW_LEN: usize = 32;

/// Why no random scalar could be had.
#[derive(Debug, Clone, Copy, PartialEq, Eq, Structural)]
pub enum RandomnessFailure {
    /// The operating system's source of randomness gave an error.
    SourceUnavailable,
    /// Every draw denoted a number at or above the group order.
    DrawsRejected,
}

/// What follows a draw.
#[derive(Debug, PartialEq, Eq)]
pub enum DrawStep {
    /// The draw is a scalar, and the drawing ends with it.
    Done(Scalar),
    /// The draw is no scalar, and another one is due.
    Again,
    /// The drawing ends without a scalar.
    Failed(RandomnessFailure),
}

/// `OsRng::try_fill_bytes` of rand on a buffer of `len` bytes: the filled
/// buffer, or nothing where the operating system's source gave an error.
/// Nothing is said of the bytes themselves.
#[verifier::external_body]
fn os_random_bytes(len: usize) -> (r: Option<Vec<u8>>)
    ensures
        r.is_some() ==> r.unwrap()@.len() == len,
{
    let mut buf = vec![0u8; len];
    match rand::rngs::OsRng.try_fill_bytes(&mut buf) {
        Ok(()) => Some(buf),
        Err(_) => None,
    }
}

/// The rule of the drawing, for the draw that came after `made` others. A
/// source that gave nothing ends it with `SourceUnavailable`. Canonical
/// bytes end it with the scalar they hold, unaltered. Other bytes call for
/// another draw, unless this was the last of `MAX_DRAWS`: then it ends with
/// `DrawsRejected`. A draw is never reduced, and nothing stands in for one.
pub fn after_draw(made: usize, draw: &Option<Vec<u8>>) -> (r: DrawStep)
    requires
        made < MAX_DRAWS,
        draw.is_some() ==> draw.unwrap()@.len() == DRAW_LEN,
    ensures
        draw.is_none() <==> r == DrawStep::Failed(RandomnessFailure::SourceUnavailable),
        (draw.is_some() && is_canonical(draw.unwrap()@)) <==> (r matches DrawStep::Done(s)
            && s.repr() == draw.unwrap()@),
        (draw.is_some() && !is_canonical(draw.unwrap()@) && made + 1 < MAX_DRAWS) <==> r
            == DrawStep::Again,
        (draw.is_some() && !is_canonical(draw.unwrap()@) && made + 1 == MAX_DRAWS) <==> r
            == DrawStep::Failed(RandomnessFailure::DrawsRejected),
        r matches DrawStep::Done(s) ==> s.wf(),
{
    match draw {
        None => DrawStep::Failed(RandomnessFailure::SourceUnavailable),
        Some(bytes) => match Scalar::from_bytes(bytes) {
            Some(s) => DrawStep::Done(s),
            None => if made + 1 < MAX_DRAWS {
                DrawStep::Again
            } else {
                DrawStep::Failed(RandomnessFailure::DrawsRejected)
            },
        },
    }
}

/// Whether a drawing that saw `draws`, in this order, ends with `end`: the
/// bytes of the scalar it gives, or its failure. Every draw but the last was
/// refused; the last one gave nothing, or is the scalar, or was refused as
/// the last of `MAX_DRAWS`.
pub open spec fn drawing_ends(
    draws: Seq<Option<Seq<u8>>>,
    end: Result<Seq<u8>, RandomnessFailure>,
) -> bool {
    &&& 1 <= draws.len() <= MAX_DRAWS
    &&& forall|i: int|
        0 <= i < draws.len() ==> ((#[trigger] draws[i]) matches Some(b) ==> b.len() == DRAW_LEN)
    &&& forall|i: int|
        0 <= i < draws.len() - 1 ==> (#[trigger] draws[i]).is_some() && !is_canonical(
            draws[i].unwrap(),
        )
    &&& match draws.last() {
        None => end == Err::<Seq<u8>, RandomnessFailure>(RandomnessFailure::SourceUnavailable),
        Some(b) => if is_canonical(b) {
            end == Ok::<Seq<u8>, RandomnessFailure>(b)
        } else {
            draws.len() == MAX_DRAWS && end == Err::<Seq<u8>, RandomnessFailure>(
                RandomnessFailure::DrawsRejected,
            )
        },
    }
}

/// The end of a drawing, with the scalar taken by its bytes.
pub open spec fn end_of(r: Result<Scalar, RandomnessFailure>) -> Result<Seq<u8>, RandomnessFailure> {
    match r {
        Ok(s) => Ok(s.repr()),
        Err(e) => Err(e),
    }
}

/// Draws a scalar uniformly from the operating system's source, by
/// rejection: it asks for `DRAW_LEN` bytes at a time and does with each
/// draw what `after_draw` says. Each call draws anew, so of the value
/// nothing is promised but that it is the one canonical draw of a drawing.
pub fn generate_random_number() -> (r: Result<Scalar, RandomnessFailure>)
    ensures
        r matches Ok(s) ==> s.wf(),
        exists|draws: Seq<Option<Seq<u8>>>| #[trigger] drawing_ends(draws, end_of(r)),
{
    let mut made: usize = 0;
    let ghost mut seen: Seq<Option<Seq<u8>>> = Seq::empty();
    loop
        invariant
            made < MAX_DRAWS,
            seen.len() == made,
            forall|i: int|
                0 <= i < seen.len() ==> (#[trigger] seen[i]).is_some() && seen[i].unwrap().len()
                    == DRAW_LEN && !is_canonical(seen[i].unwrap()),
        decreases MAX_DRAWS - made,
    {
        let draw = os_random_bytes(DRAW_LEN);
        let ghost this = if draw.is_some() {
            Some(draw.unwrap()@)
        } else {
            None
        };
        let ghost all = seen.push(this);
        match after_draw(made, &draw) {
            DrawStep::Done(s) => {
                let r = Ok(s);
                assert(drawing_ends(all, end_of(r)));
                return r;
            },
            DrawStep::Failed(e) => {
                let r = Err(e);
                assert(drawing_ends(all, end_of(r)));
                return r;
            },
            DrawStep::Again => {
                proof {
                    seen = all;
                }
                made += 1;
            },
        }
    }
}

} // verus!
