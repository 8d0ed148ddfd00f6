//! The hole-resolving fold: every contour of a glyph is extruded into its own
//! solid, and the per-contour solids are folded left-to-right with a
//! symmetric-difference operator. A hole contour's solid fully overlaps the
//! outer contour's solid, so the fold removes each hole's volume exactly once,
//! reproducing the even-odd fill rule without classifying contours.
//!
//! The solid type and the symmetric-difference step belong to the solid
//! kernel; the fold is generic over both. The step reports a kernel rejection
//! by returning `None`, which aborts only this glyph's fold.

use vstd::prelude::*;

use crate::errors::GlyphError;

verus! {

/// Folding `rest` from the accumulator `acc` with the step `op` can yield
/// `out`, every step succeeding.
pub open spec fn folds_to<T, F: Fn(T, T) -> Option<T>>(op: F, acc: T, rest: Seq<T>, out: T) -> bool
    decreases rest.len(),
{
    if rest.len() == 0 {
        out == acc
    } else {
        exists|mid: T|
            #[trigger] call_ensures(op, (acc, rest[0]), Some(mid)) && folds_to(
                op,
                mid,
                rest.drop_first(),
                out,
            )
    }
}

/// A successful step after a successful fold extends the fold by one element.
proof fn lemma_folds_to_snoc<T, F: Fn(T, T) -> Option<T>>(
    op: F,
    acc: T,
    rest: Seq<T>,
    out: T,
    next: T,
    out2: T,
)
    requires
        folds_to(op, acc, rest, out),
        call_ensures(op, (out, next), Some(out2)),
    ensures
        folds_to(op, acc, rest.push(next), out2),
    decreases rest.len(),
{
    if rest.len() == 0 {
        assert(rest.push(next).drop_first() =~= Seq::<T>::empty());
        assert(rest.push(next)[0] == next);
        assert(call_ensures(op, (acc, rest.push(next)[0]), Some(out2)));
        assert(folds_to(op, out2, rest.push(next).drop_first(), out2));
    } else {
        let mid = choose|mid: T|
            #[trigger] call_ensures(op, (acc, rest[0]), Some(mid)) && folds_to(
                op,
                mid,
                rest.drop_first(),
                out,
            );
        lemma_folds_to_snoc(op, mid, rest.drop_first(), out, next, out2);
        assert(rest.push(next).drop_first() =~= rest.drop_first().push(next));
    }
}

/// Folds the per-contour solids of one glyph into its net solid.
///
/// With no parts the glyph is empty; with a single part the fold is a no-op
/// and returns that part unchanged, untouched by any boolean step; with more,
/// the parts are combined left-to-right and the first rejected step aborts
/// the fold with `BooleanFailure`.
pub fn fold_solids<T, F: Fn(T, T) -> Option<T>>(parts: Vec<T>, op: F) -> (r: Result<
    T,
    GlyphError,
>)
    requires
        forall|args: (T, T)| #[trigger] call_requires(op, args),
    ensures
        parts@.len() == 0 <==> r == Result::<T, GlyphError>::Err(GlyphError::EmptyGlyph),
        parts@.len() == 1 ==> r == Result::<T, GlyphError>::Ok(parts@[0]),
        r is Err ==> (r == Result::<T, GlyphError>::Err(GlyphError::EmptyGlyph) || r
            == Result::<T, GlyphError>::Err(GlyphError::BooleanFailure)),
        (parts@.len() > 0 && forall|a: T, b: T, out: Option<T>|
            call_ensures(op, (a, b), out) ==> out is Some) ==> r is Ok,
        forall|out: T|
            r == Result::<T, GlyphError>::Ok(out) ==> folds_to(
                op,
                parts@[0],
                parts@.drop_first(),
                out,
            ),
    {
        let ghost s0 = parts@;
        let mut work = parts;
        if work.len() == 0 {
            return Err(GlyphError::EmptyGlyph);
        }
        let mut acc = work.remove(0);
        let ghost mut taken: int = 1;
        while work.len() > 0
            invariant
                forall|args: (T, T)| #[trigger] call_requires(op, args),
                s0 == parts@,
                1 <= taken <= s0.len(),
                work@ =~= s0.subrange(taken, s0.len() as int),
                folds_to(op, s0[0], s0.subrange(1, taken), acc),
            decreases s0.len() - taken,
        {
            let b = work.remove(0);
            proof {
                assert(b == s0[taken]);
            }
            let stepped = op(acc, b);
            match stepped {
                Some(x) => {
                    proof {
                        lemma_folds_to_snoc(op, s0[0], s0.subrange(1, taken), acc, b, x);
                        assert(s0.subrange(1, taken).push(b) =~= s0.subrange(1, taken + 1));
                    }
                    acc = x;
                },
                None => {
                    return Err(GlyphError::BooleanFailure);
                },
            }
            proof {
                taken = taken + 1;
            }
        }
        proof {
            assert(s0.subrange(1, s0.len() as int) =~= s0.drop_first());
        }
        Ok(acc)
    }

} // verus!
