//! What the standard deviation of a value is, by the sources it depends on.
//!
//! Where a theorem needs the scalar arithmetic to be exact on particular
//! operands, it says so operand by operand: nothing is assumed of the
//! arithmetic as a whole.

use crate::algebra::ValueModel;
use crate::arithmetic::{Arithmetic, BinaryOp, UnaryOp};
use vstd::prelude::*;

verus! {

/// A value that depends on one source alone, with derivative one, has the
/// standard deviation that the registry holds for that source. So an
/// independent source has its own sigma as standard deviation, in whatever
/// state of the registry it is asked for. This holds in an arithmetic that
/// is exact on its constants and on the sigma and recovers the sigma from
/// its square.
pub proof fn lemma_deviation_of_source<T: Copy, B: Fn(BinaryOp, T, T) -> T, U: Fn(UnaryOp, T) -> T>(
    ar: &Arithmetic<T, B, U>,
    v: ValueModel<T>,
    id: u64,
    sigmas: Map<u64, T>,
    deviation: T,
)
    requires
        sigmas.contains_key(id),
        ar.exact_on_constants(),
        ar.exact_on_scale(sigmas[id]),
        ar.recovers(sigmas[id]),
        v.sensitivities == Map::<u64, T>::empty().insert(id, ar.one),
        ar.is_deviation(v, sigmas, deviation),
    ensures
        deviation == sigmas[id],
{
    assert(v.sensitivities.dom() =~= set![id]);
    lemma_deviation_of_one_source(ar, v, sigmas, id, deviation);
    let (t, variance) = choose|t: T, variance: T|
        ar.is_variance_term(v.sensitivities[id], sigmas[id], t) && #[trigger] ar.computes(
            BinaryOp::Add,
            ar.zero,
            t,
            variance,
        ) && ar.maps(UnaryOp::Sqrt, variance, deviation);
    lemma_variance_term_of_unit(ar, ar.one, sigmas[id], t);
}

/// A value all of whose derivatives are zero has standard deviation zero,
/// in an arithmetic that is exact on its constants and in which zero times
/// each standard deviation involved is zero.
pub proof fn lemma_deviation_without_sensitivity<T: Copy, B: Fn(BinaryOp, T, T) -> T, U: Fn(UnaryOp, T) -> T>(
    ar: &Arithmetic<T, B, U>,
    v: ValueModel<T>,
    sigmas: Map<u64, T>,
    deviation: T,
)
    requires
        ar.exact_on_constants(),
        forall|id: u64| #[trigger] v.sensitivities.contains_key(id) ==> v.sensitivities[id] == ar.zero,
        forall|id: u64|
            v.sensitivities.contains_key(id) && #[trigger] sigmas.contains_key(id)
                ==> ar.computes_only(BinaryOp::Mul, ar.zero, sigmas[id], ar.zero),
        ar.is_deviation(v, sigmas, deviation),
    ensures
        deviation == ar.zero,
{
    let (order, variance) = choose|order: Seq<u64>, variance: T|
        order.no_duplicates() && order.to_set() == v.sensitivities.dom() && ar.sums_variance(
            v.sensitivities,
            sigmas,
            order,
            variance,
        ) && ar.maps(UnaryOp::Sqrt, variance, deviation);
    assert forall|i: int| 0 <= i < order.len() implies v.sensitivities.contains_key(
        #[trigger] order[i],
    ) by {
        assert(order.to_set().contains(order[i]));
    }
    lemma_variance_without_sensitivity(ar, v.sensitivities, sigmas, order, variance);
}

/// Sources that the registry does not know contribute nothing: a value none
/// of whose sources has a standard deviation has the root of zero as its
/// standard deviation.
pub proof fn lemma_unknown_sources_contribute_nothing<T: Copy, B: Fn(BinaryOp, T, T) -> T, U: Fn(UnaryOp, T) -> T>(
    ar: &Arithmetic<T, B, U>,
    v: ValueModel<T>,
    sigmas: Map<u64, T>,
    deviation: T,
)
    requires
        forall|id: u64| #[trigger] v.sensitivities.contains_key(id) ==> !sigmas.contains_key(id),
        ar.is_deviation(v, sigmas, deviation),
    ensures
        ar.maps(UnaryOp::Sqrt, ar.zero, deviation),
{
    let (order, variance) = choose|order: Seq<u64>, variance: T|
        order.no_duplicates() && order.to_set() == v.sensitivities.dom() && ar.sums_variance(
            v.sensitivities,
            sigmas,
            order,
            variance,
        ) && ar.maps(UnaryOp::Sqrt, variance, deviation);
    assert forall|i: int| 0 <= i < order.len() implies !sigmas.contains_key(
        #[trigger] order[i],
    ) by {
        assert(order.to_set().contains(order[i]));
    }
    lemma_variance_of_unknown(ar, v.sensitivities, sigmas, order, variance);
}

/// The standard deviation of a value that depends on one registered source
/// is the root of that source's variance term, added to zero.
pub proof fn lemma_deviation_of_one_source<T: Copy, B: Fn(BinaryOp, T, T) -> T, U: Fn(UnaryOp, T) -> T>(
    ar: &Arithmetic<T, B, U>,
    v: ValueModel<T>,
    sigmas: Map<u64, T>,
    id: u64,
    deviation: T,
)
    requires
        v.sensitivities.dom() == set![id],
        sigmas.contains_key(id),
        ar.is_deviation(v, sigmas, deviation),
    ensures
        exists|t: T, variance: T|
            ar.is_variance_term(v.sensitivities[id], sigmas[id], t) && #[trigger] ar.computes(
                BinaryOp::Add,
                ar.zero,
                t,
                variance,
            ) && ar.maps(UnaryOp::Sqrt, variance, deviation),
{
    let (order, variance) = choose|order: Seq<u64>, variance: T|
        order.no_duplicates() && order.to_set() == v.sensitivities.dom() && ar.sums_variance(
            v.sensitivities,
            sigmas,
            order,
            variance,
        ) && ar.maps(UnaryOp::Sqrt, variance, deviation);
    lemma_order_of_one(order, id);
    assert(order.last() == id);
    assert(order.drop_last() =~= Seq::<u64>::empty());
    let (before, t) = choose|before: T, t: T|
        ar.sums_variance(v.sensitivities, sigmas, order.drop_last(), before)
            && ar.is_variance_term(v.sensitivities[id], sigmas[id], t) && ar.computes(
            BinaryOp::Add,
            before,
            t,
            variance,
        );
    assert(before == ar.zero);
    assert(ar.computes(BinaryOp::Add, ar.zero, t, variance));
}

/// `deviation` is the root of `variance`, which is the sum of the variance
/// terms `ta` and `tb`, added to zero in either order.
pub open spec fn roots_two_terms<T: Copy, B: Fn(BinaryOp, T, T) -> T, U: Fn(UnaryOp, T) -> T>(
    ar: &Arithmetic<T, B, U>,
    ta: T,
    tb: T,
    first: T,
    variance: T,
    deviation: T,
) -> bool {
    &&& (ar.computes(BinaryOp::Add, ar.zero, ta, first) && ar.computes(
        BinaryOp::Add,
        first,
        tb,
        variance,
    )) || (ar.computes(BinaryOp::Add, ar.zero, tb, first) && ar.computes(
        BinaryOp::Add,
        first,
        ta,
        variance,
    ))
    &&& ar.maps(UnaryOp::Sqrt, variance, deviation)
}

/// The standard deviation of a value that depends on two registered sources
/// is the root of the two variance terms, added to zero in either order.
/// Returned are the variance terms of `a` and of `b`, the partial sum and the
/// variance.
pub proof fn lemma_deviation_of_two_sources<T: Copy, B: Fn(BinaryOp, T, T) -> T, U: Fn(UnaryOp, T) -> T>(
    ar: &Arithmetic<T, B, U>,
    v: ValueModel<T>,
    sigmas: Map<u64, T>,
    a: u64,
    b: u64,
    deviation: T,
) -> (w: (T, T, T, T))
    requires
        a != b,
        v.sensitivities.dom() == set![a, b],
        sigmas.contains_key(a),
        sigmas.contains_key(b),
        ar.is_deviation(v, sigmas, deviation),
    ensures
        ar.is_variance_term(v.sensitivities[a], sigmas[a], w.0),
        ar.is_variance_term(v.sensitivities[b], sigmas[b], w.1),
        roots_two_terms(ar, w.0, w.1, w.2, w.3, deviation),
{
    let (order, variance) = choose|order: Seq<u64>, variance: T|
        order.no_duplicates() && order.to_set() == v.sensitivities.dom() && ar.sums_variance(
            v.sensitivities,
            sigmas,
            order,
            variance,
        ) && ar.maps(UnaryOp::Sqrt, variance, deviation);
    lemma_order_of_two(order, a, b);
    let head = order[0];
    let last = order[1];
    assert(order.last() == last);
    assert(order.drop_last() =~= seq![head]);
    let (first, t_last) = choose|first: T, t_last: T|
        ar.sums_variance(v.sensitivities, sigmas, order.drop_last(), first)
            && ar.is_variance_term(v.sensitivities[last], sigmas[last], t_last) && ar.computes(
            BinaryOp::Add,
            first,
            t_last,
            variance,
        );
    assert(seq![head].last() == head);
    assert(seq![head].drop_last() =~= Seq::<u64>::empty());
    let (start, t_head) = choose|start: T, t_head: T|
        ar.sums_variance(v.sensitivities, sigmas, seq![head].drop_last(), start)
            && ar.is_variance_term(v.sensitivities[head], sigmas[head], t_head) && ar.computes(
            BinaryOp::Add,
            start,
            t_head,
            first,
        );
    assert(start == ar.zero);
    if head == a {
        (t_head, t_last, first, variance)
    } else {
        (t_last, t_head, first, variance)
    }
}

/// The variance term of a source of standard deviation `sigma`, seen
/// through a derivative whose square is one, is the square of `sigma`.
pub(crate) proof fn lemma_variance_term_of_unit<T: Copy, B: Fn(BinaryOp, T, T) -> T, U: Fn(UnaryOp, T) -> T>(
    ar: &Arithmetic<T, B, U>,
    d: T,
    sigma: T,
    t: T,
)
    requires
        ar.computes_only(BinaryOp::Mul, d, d, ar.one),
        ar.computes_only(BinaryOp::Mul, ar.one, sigma, sigma),
        ar.is_variance_term(d, sigma, t),
    ensures
        ar.computes(BinaryOp::Mul, sigma, sigma, t),
{
    let (dd, dds) = choose|dd: T, dds: T|
        ar.computes(BinaryOp::Mul, d, d, dd) && ar.computes(BinaryOp::Mul, dd, sigma, dds)
            && ar.computes(BinaryOp::Mul, dds, sigma, t);
    assert(dd == ar.one);
    assert(dds == sigma);
}

/// Summing variance terms over sources whose derivative is zero, or that
/// have no standard deviation, gives zero.
proof fn lemma_variance_without_sensitivity<T: Copy, B: Fn(BinaryOp, T, T) -> T, U: Fn(UnaryOp, T) -> T>(
    ar: &Arithmetic<T, B, U>,
    sensitivities: Map<u64, T>,
    sigmas: Map<u64, T>,
    order: Seq<u64>,
    variance: T,
)
    requires
        ar.computes_only(BinaryOp::Mul, ar.zero, ar.zero, ar.zero),
        ar.computes_only(BinaryOp::Add, ar.zero, ar.zero, ar.zero),
        forall|i: int|
            0 <= i < order.len() && sigmas.contains_key(#[trigger] order[i])
                ==> sensitivities[order[i]] == ar.zero && ar.computes_only(
                BinaryOp::Mul,
                ar.zero,
                sigmas[order[i]],
                ar.zero,
            ),
        ar.sums_variance(sensitivities, sigmas, order, variance),
    ensures
        variance == ar.zero,
    decreases order.len(),
{
    if order.len() > 0 {
        let id = order.last();
        let rest = order.drop_last();
        assert(id == order[order.len() - 1]);
        assert forall|i: int| 0 <= i < rest.len() && sigmas.contains_key(
            #[trigger] rest[i],
        ) implies sensitivities[rest[i]] == ar.zero && ar.computes_only(
            BinaryOp::Mul,
            ar.zero,
            sigmas[rest[i]],
            ar.zero,
        ) by {
            assert(rest[i] == order[i]);
        }
        if sigmas.contains_key(id) {
            let (before, t) = choose|before: T, t: T|
                ar.sums_variance(sensitivities, sigmas, rest, before) && ar.is_variance_term(
                    sensitivities[id],
                    sigmas[id],
                    t,
                ) && ar.computes(BinaryOp::Add, before, t, variance);
            lemma_variance_without_sensitivity(ar, sensitivities, sigmas, rest, before);
            let (dd, dds) = choose|dd: T, dds: T|
                ar.computes(BinaryOp::Mul, ar.zero, ar.zero, dd) && ar.computes(
                    BinaryOp::Mul,
                    dd,
                    sigmas[id],
                    dds,
                ) && ar.computes(BinaryOp::Mul, dds, sigmas[id], t);
            assert(dd == ar.zero);
            assert(dds == ar.zero);
            assert(t == ar.zero);
        } else {
            lemma_variance_without_sensitivity(ar, sensitivities, sigmas, rest, variance);
        }
    }
}

/// Summing variance terms over sources without a standard deviation gives
/// zero.
proof fn lemma_variance_of_unknown<T: Copy, B: Fn(BinaryOp, T, T) -> T, U: Fn(UnaryOp, T) -> T>(
    ar: &Arithmetic<T, B, U>,
    sensitivities: Map<u64, T>,
    sigmas: Map<u64, T>,
    order: Seq<u64>,
    variance: T,
)
    requires
        forall|i: int| 0 <= i < order.len() ==> !sigmas.contains_key(#[trigger] order[i]),
        ar.sums_variance(sensitivities, sigmas, order, variance),
    ensures
        variance == ar.zero,
    decreases order.len(),
{
    if order.len() > 0 {
        let rest = order.drop_last();
        assert(order.last() == order[order.len() - 1]);
        assert forall|i: int| 0 <= i < rest.len() implies !sigmas.contains_key(
            #[trigger] rest[i],
        ) by {
            assert(rest[i] == order[i]);
        }
        lemma_variance_of_unknown(ar, sensitivities, sigmas, rest, variance);
    }
}

/// A sequence without repetitions that holds exactly `id` is `[id]`.
proof fn lemma_order_of_one(order: Seq<u64>, id: u64)
    requires
        order.no_duplicates(),
        order.to_set() == set![id],
    ensures
        order == seq![id],
{
    order.unique_seq_to_set();
    assert(set![id].len() == 1);
    assert(order.to_set().contains(order[0]));
    assert(order =~= seq![id]);
}

/// A sequence without repetitions that holds exactly `a` and `b` is `[a, b]`
/// or `[b, a]`.
proof fn lemma_order_of_two(order: Seq<u64>, a: u64, b: u64)
    requires
        a != b,
        order.no_duplicates(),
        order.to_set() == set![a, b],
    ensures
        order == seq![a, b] || order == seq![b, a],
{
    order.unique_seq_to_set();
    assert(set![a, b].len() == 2);
    assert(order.to_set().contains(order[0]));
    assert(order.to_set().contains(order[1]));
    if order[0] == a {
        assert(order =~= seq![a, b]);
    } else {
        assert(order =~= seq![b, a]);
    }
}

} // verus!
