//! Correlation is kept where it is and nowhere else: values made
//! independently combine as independent, and a value combined with itself
//! cancels.
//!
//! Where a theorem needs the scalar arithmetic to be exact on particular
//! operands, it says so operand by operand: nothing is assumed of the
//! arithmetic as a whole.

use crate::algebra::ValueModel;
use crate::arithmetic::{Arithmetic, BinaryOp, UnaryOp};
use crate::deviation::{
    lemma_deviation_of_source, lemma_deviation_of_two_sources, lemma_deviation_without_sensitivity,
    lemma_variance_term_of_unit, roots_two_terms,
};
use crate::registry::RegistryModel;
use vstd::prelude::*;

verus! {

/// Two sources registered one after the other have distinct identifiers,
/// whatever their nominal values and standard deviations, and the registry
/// holds the standard deviation of each under its own identifier.
pub proof fn lemma_independent_sources_are_distinct<T>(
    registry: RegistryModel<T>,
    first_sigma: T,
    second_sigma: T,
)
    requires
        registry.wf(),
        registry.has_room(2),
    ensures
        ({
            let first = registry.next_id;
            let second = registry.allocate(first_sigma).next_id;
            let after = registry.allocate(first_sigma).allocate(second_sigma);
            &&& first != second
            &&& !registry.sigmas.contains_key(first)
            &&& !registry.sigmas.contains_key(second)
            &&& after.sigmas.contains_key(first) && after.sigmas[first] == first_sigma
            &&& after.sigmas.contains_key(second) && after.sigmas[second] == second_sigma
            &&& after.wf()
        }),
{
}

/// The sum of two independent sources depends on both, with derivative one
/// each, so that its standard deviation is the root of the sum of the two
/// squared standard deviations. This holds in an arithmetic that is exact on
/// its constants and on the two standard deviations.
pub proof fn lemma_sum_of_independent_sources<T: Copy, B: Fn(BinaryOp, T, T) -> T, U: Fn(UnaryOp, T) -> T>(
    ar: &Arithmetic<T, B, U>,
    x: ValueModel<T>,
    x_id: u64,
    y: ValueModel<T>,
    y_id: u64,
    sigmas: Map<u64, T>,
    sum: ValueModel<T>,
    deviation: T,
)
    requires
        x_id != y_id,
        x.sensitivities == Map::<u64, T>::empty().insert(x_id, ar.one),
        y.sensitivities == Map::<u64, T>::empty().insert(y_id, ar.one),
        sigmas.contains_key(x_id),
        sigmas.contains_key(y_id),
        ar.exact_on_constants(),
        ar.exact_on_scale(sigmas[x_id]),
        ar.exact_on_scale(sigmas[y_id]),
        ar.is_sum(x, y, sum),
        ar.is_deviation(sum, sigmas, deviation),
    ensures
        sum.sensitivities == Map::<u64, T>::empty().insert(x_id, ar.one).insert(y_id, ar.one),
        ar.is_root_sum_of_squares(sigmas[x_id], sigmas[y_id], deviation),
{
    assert(y.sensitivities.contains_key(y_id));
    assert(x.sensitivities.contains_key(x_id) && !y.sensitivities.contains_key(x_id));
    assert(sum.sensitivities[x_id] == ar.one);
    assert(ar.folds(
        BinaryOp::Add,
        x.sensitivities.get(y_id),
        ar.one,
        ar.one,
        sum.sensitivities[y_id],
    ));
    assert(sum.sensitivities[y_id] == ar.one);
    assert(sum.sensitivities =~= Map::<u64, T>::empty().insert(x_id, ar.one).insert(
        y_id,
        ar.one,
    ));
    assert(sum.sensitivities.dom() =~= set![x_id, y_id]);
    let w = lemma_deviation_of_two_sources(ar, sum, sigmas, x_id, y_id, deviation);
    lemma_variance_term_of_unit(ar, ar.one, sigmas[x_id], w.0);
    lemma_variance_term_of_unit(ar, ar.one, sigmas[y_id], w.1);
    lemma_root_of_two_squares(ar, sigmas[x_id], sigmas[y_id], w.0, w.1, w.2, w.3, deviation);
}

/// The difference of two independent sources depends on the first with
/// derivative one and on the second with derivative minus one, so that its
/// standard deviation is that of their sum. This holds in an arithmetic that
/// is exact on its constants and on the two standard deviations.
pub proof fn lemma_difference_of_independent_sources<T: Copy, B: Fn(BinaryOp, T, T) -> T, U: Fn(UnaryOp, T) -> T>(
    ar: &Arithmetic<T, B, U>,
    x: ValueModel<T>,
    x_id: u64,
    y: ValueModel<T>,
    y_id: u64,
    sigmas: Map<u64, T>,
    difference: ValueModel<T>,
    deviation: T,
)
    requires
        x_id != y_id,
        x.sensitivities == Map::<u64, T>::empty().insert(x_id, ar.one),
        y.sensitivities == Map::<u64, T>::empty().insert(y_id, ar.one),
        sigmas.contains_key(x_id),
        sigmas.contains_key(y_id),
        ar.exact_on_constants(),
        ar.exact_on_scale(sigmas[x_id]),
        ar.exact_on_scale(sigmas[y_id]),
        ar.is_difference(x, y, difference),
        ar.is_deviation(difference, sigmas, deviation),
    ensures
        difference.sensitivities == Map::<u64, T>::empty().insert(x_id, ar.one).insert(
            y_id,
            ar.minus_one,
        ),
        ar.is_root_sum_of_squares(sigmas[x_id], sigmas[y_id], deviation),
{
    assert(y.sensitivities.contains_key(y_id));
    assert(x.sensitivities.contains_key(x_id) && !y.sensitivities.contains_key(x_id));
    assert(difference.sensitivities[x_id] == ar.one);
    assert(ar.folds(
        BinaryOp::Add,
        x.sensitivities.get(y_id),
        ar.one,
        ar.minus_one,
        difference.sensitivities[y_id],
    ));
    assert(difference.sensitivities[y_id] == ar.minus_one);
    assert(difference.sensitivities =~= Map::<u64, T>::empty().insert(x_id, ar.one).insert(
        y_id,
        ar.minus_one,
    ));
    assert(difference.sensitivities.dom() =~= set![x_id, y_id]);
    let w = lemma_deviation_of_two_sources(ar, difference, sigmas, x_id, y_id, deviation);
    lemma_variance_term_of_unit(ar, ar.one, sigmas[x_id], w.0);
    lemma_variance_term_of_unit(ar, ar.minus_one, sigmas[y_id], w.1);
    lemma_root_of_two_squares(ar, sigmas[x_id], sigmas[y_id], w.0, w.1, w.2, w.3, deviation);
}

/// Two sources made one after the other from the same nominal value and the
/// same standard deviation are still two sources: their identifiers differ,
/// their sum depends on both, and its standard deviation is the root of the
/// squared standard deviation added to itself, as for any two independent
/// sources. The last holds in an arithmetic that is exact on its constants
/// and on the standard deviation.
pub proof fn lemma_equal_pairs_are_independent<T: Copy, B: Fn(BinaryOp, T, T) -> T, U: Fn(UnaryOp, T) -> T>(
    ar: &Arithmetic<T, B, U>,
    registry: RegistryModel<T>,
    nominal: T,
    sigma: T,
    sum: ValueModel<T>,
    deviation: T,
)
    requires
        registry.wf(),
        registry.has_room(2),
        ar.exact_on_constants(),
        ar.exact_on_scale(sigma),
        ar.is_sum(
            ValueModel::source(registry.next_id, nominal, ar.one),
            ValueModel::source(registry.allocate(sigma).next_id, nominal, ar.one),
            sum,
        ),
        ar.is_deviation(sum, registry.allocate(sigma).allocate(sigma).sigmas, deviation),
    ensures
        registry.next_id != registry.allocate(sigma).next_id,
        sum.sensitivities.dom() == set![registry.next_id, registry.allocate(sigma).next_id],
        ar.is_root_sum_of_squares(sigma, sigma, deviation),
{
    let a = registry.next_id;
    let b = registry.allocate(sigma).next_id;
    lemma_independent_sources_are_distinct(registry, sigma, sigma);
    lemma_sum_of_independent_sources(
        ar,
        ValueModel::source(a, nominal, ar.one),
        a,
        ValueModel::source(b, nominal, ar.one),
        b,
        registry.allocate(sigma).allocate(sigma).sigmas,
        sum,
        deviation,
    );
    assert(sum.sensitivities.dom() =~= set![a, b]);
}

/// The difference of an independent source with itself does not depend on
/// the source any more: its one derivative is zero, and so is its standard
/// deviation. This holds in an arithmetic that is exact on its constants and
/// in which zero times the source's standard deviation is zero.
pub proof fn lemma_difference_with_itself<T: Copy, B: Fn(BinaryOp, T, T) -> T, U: Fn(UnaryOp, T) -> T>(
    ar: &Arithmetic<T, B, U>,
    x: ValueModel<T>,
    id: u64,
    sigmas: Map<u64, T>,
    difference: ValueModel<T>,
    deviation: T,
)
    requires
        x.sensitivities == Map::<u64, T>::empty().insert(id, ar.one),
        ar.exact_on_constants(),
        sigmas.contains_key(id) ==> ar.computes_only(BinaryOp::Mul, ar.zero, sigmas[id], ar.zero),
        ar.is_difference(x, x, difference),
        ar.is_deviation(difference, sigmas, deviation),
    ensures
        difference.sensitivities == Map::<u64, T>::empty().insert(id, ar.zero),
        deviation == ar.zero,
{
    assert(x.sensitivities.contains_key(id));
    assert(ar.folds(
        BinaryOp::Add,
        x.sensitivities.get(id),
        ar.one,
        ar.minus_one,
        difference.sensitivities[id],
    ));
    assert(difference.sensitivities[id] == ar.zero);
    assert(difference.sensitivities =~= Map::<u64, T>::empty().insert(id, ar.zero));
    lemma_deviation_without_sensitivity(ar, difference, sigmas, deviation);
}

/// The quotient of an independent source by itself does not depend on the
/// source any more: its one derivative is zero, and so is its standard
/// deviation. This holds in an arithmetic that is exact on its constants and
/// in which one times the nominal value is the nominal value, the nominal
/// value less itself is zero, zero over its square is zero, and zero times
/// the source's standard deviation is zero.
pub proof fn lemma_quotient_with_itself<T: Copy, B: Fn(BinaryOp, T, T) -> T, U: Fn(UnaryOp, T) -> T>(
    ar: &Arithmetic<T, B, U>,
    x: ValueModel<T>,
    id: u64,
    sigmas: Map<u64, T>,
    quotient: ValueModel<T>,
    deviation: T,
)
    requires
        x.sensitivities == Map::<u64, T>::empty().insert(id, ar.one),
        ar.exact_on_constants(),
        sigmas.contains_key(id) ==> ar.computes_only(BinaryOp::Mul, ar.zero, sigmas[id], ar.zero),
        ar.computes_only(BinaryOp::Mul, ar.one, x.nominal, x.nominal),
        ar.computes_only(BinaryOp::Sub, x.nominal, x.nominal, ar.zero),
        forall|square: T| #[trigger]
            ar.computes(BinaryOp::Mul, x.nominal, x.nominal, square) ==> ar.computes_only(
                BinaryOp::Div,
                ar.zero,
                square,
                ar.zero,
            ),
        ar.is_quotient(x, x, quotient),
        ar.is_deviation(quotient, sigmas, deviation),
    ensures
        quotient.sensitivities == Map::<u64, T>::empty().insert(id, ar.zero),
        deviation == ar.zero,
{
    assert(x.sensitivities.get(id) == Some(ar.one));
    assert(quotient.sensitivities.dom() =~= set![id]);
    assert(quotient.sensitivities.contains_key(id));
    let square = choose|square: T|
        ar.computes(BinaryOp::Mul, x.nominal, x.nominal, square) && forall|id: u64| #[trigger]
            quotient.sensitivities.contains_key(id) ==> exists|n: T|
                ar.crosses(
                    BinaryOp::Sub,
                    x.sensitivities.get(id),
                    x.nominal,
                    x.sensitivities.get(id),
                    x.nominal,
                    n,
                ) && ar.computes(BinaryOp::Div, n, square, quotient.sensitivities[id]);
    let n = choose|n: T|
        ar.crosses(BinaryOp::Sub, Some(ar.one), x.nominal, Some(ar.one), x.nominal, n)
            && ar.computes(BinaryOp::Div, n, square, quotient.sensitivities[id]);
    let left = choose|left: T| #[trigger]
        ar.computes(BinaryOp::Mul, ar.one, x.nominal, left) && ar.folds(
            BinaryOp::Sub,
            Some(left),
            ar.one,
            x.nominal,
            n,
        );
    assert(left == x.nominal);
    assert(n == ar.zero);
    assert(quotient.sensitivities[id] == ar.zero);
    assert(quotient.sensitivities =~= Map::<u64, T>::empty().insert(id, ar.zero));
    lemma_deviation_without_sensitivity(ar, quotient, sigmas, deviation);
}

/// Reading back a batch gives what went in: the nominal values of sources
/// made from `nominals` and `sigmas` are `nominals`, and their standard
/// deviations, taken once all of them are registered, are `sigmas`. The
/// second holds in an arithmetic that is exact on its constants and on each
/// sigma and recovers each sigma from its square.
pub proof fn lemma_batch_round_trip<T: Copy, B: Fn(BinaryOp, T, T) -> T, U: Fn(UnaryOp, T) -> T>(
    ar: &Arithmetic<T, B, U>,
    registry: RegistryModel<T>,
    nominals: Seq<T>,
    sigmas: Seq<T>,
    values: Seq<ValueModel<T>>,
    nominals_read: Seq<T>,
    deviations_read: Seq<T>,
)
    requires
        registry.wf(),
        registry.has_room(nominals.len()),
        nominals.len() == sigmas.len(),
        values.len() == nominals.len(),
        forall|i: int|
            0 <= i < values.len() ==> #[trigger] values[i] == ValueModel::source(
                (registry.next_id + i) as u64,
                nominals[i],
                ar.one,
            ),
        nominals_read.len() == values.len(),
        forall|i: int| 0 <= i < values.len() ==> #[trigger] nominals_read[i] == values[i].nominal,
        deviations_read.len() == values.len(),
        forall|i: int|
            0 <= i < values.len() ==> ar.is_deviation(
                values[i],
                registry.allocate_all(sigmas).sigmas,
                #[trigger] deviations_read[i],
            ),
        ar.exact_on_constants(),
        forall|i: int|
            0 <= i < sigmas.len() ==> ar.exact_on_scale(#[trigger] sigmas[i]) && ar.recovers(
                sigmas[i],
            ),
    ensures
        nominals_read == nominals,
        deviations_read == sigmas,
{
    assert(nominals_read =~= nominals);
    let after = registry.allocate_all(sigmas).sigmas;
    assert forall|i: int| 0 <= i < sigmas.len() implies deviations_read[i] == sigmas[i] by {
        let id = (registry.next_id + i) as u64;
        assert(after.contains_key(id) && after[id] == sigmas[i]);
        lemma_deviation_of_source(ar, values[i], id, after, deviations_read[i]);
    }
    assert(deviations_read =~= sigmas);
}

/// Two squares, added to zero in either order and rooted, are a root sum of
/// squares.
proof fn lemma_root_of_two_squares<T: Copy, B: Fn(BinaryOp, T, T) -> T, U: Fn(UnaryOp, T) -> T>(
    ar: &Arithmetic<T, B, U>,
    a: T,
    b: T,
    aa: T,
    bb: T,
    first: T,
    variance: T,
    deviation: T,
)
    requires
        ar.exact_on_scale(a),
        ar.exact_on_scale(b),
        ar.computes(BinaryOp::Mul, a, a, aa),
        ar.computes(BinaryOp::Mul, b, b, bb),
        roots_two_terms(ar, aa, bb, first, variance, deviation),
    ensures
        ar.is_root_sum_of_squares(a, b, deviation),
{
    if ar.computes(BinaryOp::Add, ar.zero, aa, first) && ar.computes(
        BinaryOp::Add,
        first,
        bb,
        variance,
    ) {
        assert(first == aa);
    } else {
        assert(first == bb);
    }
    assert(ar.computes(BinaryOp::Mul, a, a, aa) && ar.computes(BinaryOp::Mul, b, b, bb) && (
    ar.computes(BinaryOp::Add, aa, bb, variance) || ar.computes(BinaryOp::Add, bb, aa, variance))
        && ar.maps(UnaryOp::Sqrt, variance, deviation));
}

} // verus!
