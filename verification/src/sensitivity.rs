//! Recombination of sparse sensitivity maps.

use crate::arithmetic::{Arithmetic, BinaryOp, UnaryOp};
use std::collections::HashMap;
use vstd::prelude::*;

verus! {

broadcast use vstd::std_specs::hash::group_hash_axioms;

/// Applies `coefficient op operand` to every coefficient of `m`.
pub(crate) fn map_each<T: Copy, B: Fn(BinaryOp, T, T) -> T, U: Fn(UnaryOp, T) -> T>(
    m: &HashMap<u64, T>,
    op: BinaryOp,
    operand: T,
    ar: &Arithmetic<T, B, U>,
) -> (out: HashMap<u64, T>)
    requires
        ar.total(),
    ensures
        ar.maps_each(op, m@, operand, out@),
{
    let mut out: HashMap<u64, T> = HashMap::new();
    for (id, coefficient) in it: m.iter()
        invariant
            ar.total(),
            forall|i: int| 0 <= i < it.index() ==> out@.contains_key(*(#[trigger] it.seq()[i]).0),
            forall|k: u64| #[trigger]
                out@.contains_key(k) ==> m@.contains_key(k) && ar.computes(
                    op,
                    m@[k],
                    operand,
                    out@[k],
                ),
    {
        let c = ar.apply(op, *coefficient, operand);
        out.insert(*id, c);
    }
    assert(out@.dom() =~= m@.dom());
    out
}

/// Folds every entry of `terms`, scaled by `factor`, into `acc`: the entry of
/// `acc` under the same identifier, or zero where there is none, combined by
/// `op` with the scaled term.
pub(crate) fn overlay<T: Copy, B: Fn(BinaryOp, T, T) -> T, U: Fn(UnaryOp, T) -> T>(
    acc: HashMap<u64, T>,
    terms: &HashMap<u64, T>,
    factor: T,
    op: BinaryOp,
    ar: &Arithmetic<T, B, U>,
) -> (out: HashMap<u64, T>)
    requires
        ar.total(),
    ensures
        ar.overlays(op, acc@, terms@, factor, out@),
{
    let ghost start = acc@;
    let ghost mut seen: Set<u64> = Set::empty();
    let mut out = acc;
    for (id, term) in it: terms.iter()
        invariant
            ar.total(),
            it.seq().no_duplicates(),
            forall|i: int|
                0 <= i < it.seq().len() ==> terms@.contains_key(*(#[trigger] it.seq()[i]).0)
                    && terms@[*it.seq()[i].0] == *it.seq()[i].1,
            forall|k: u64| #[trigger]
                terms@.contains_key(k) ==> exists|i: int|
                    0 <= i < it.seq().len() && *(#[trigger] it.seq()[i]).0 == k,
            forall|i: int| 0 <= i < it.index() ==> seen.contains(*(#[trigger] it.seq()[i]).0),
            forall|k: u64| #[trigger]
                seen.contains(k) ==> exists|i: int|
                    0 <= i < it.index() && *(#[trigger] it.seq()[i]).0 == k,
            forall|k: u64| #[trigger]
                seen.contains(k) ==> terms@.contains_key(k) && ar.folds(
                    op,
                    start.get(k),
                    terms@[k],
                    factor,
                    out@[k],
                ),
            forall|k: u64| #[trigger]
                out@.contains_key(k) <==> start.contains_key(k) || seen.contains(k),
            forall|k: u64|
                start.contains_key(k) && !seen.contains(k) ==> #[trigger] out@[k] == start[k],
    {
        let scaled = ar.apply(BinaryOp::Mul, *term, factor);
        let base = match out.get(id) {
            Some(b) => *b,
            None => ar.zero,
        };
        let c = ar.apply(op, base, scaled);
        out.insert(*id, c);
        proof {
            seen = seen.insert(*id);
        }
    }
    assert forall|k: u64| #[trigger] terms@.contains_key(k) implies seen.contains(k) by {}
    assert(out@.dom() =~= start.dom().union(terms@.dom()));
    out
}

} // verus!
