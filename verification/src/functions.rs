//! The operations as free functions, and their forms on whole sequences.

use crate::algebra::ValueModel;
use crate::arithmetic::{Arithmetic, BinaryOp, UnaryOp};
use crate::registry::{lemma_allocate_all_step, lemma_allocate_none, Registry};
use crate::value::UncertainValue;
use std::collections::HashMap;
use vstd::prelude::*;

verus! {

/// A new independent source of uncertainty: `nominal` with standard deviation
/// `sigma`, registered in `registry`.
pub fn uval<T: Copy, B: Fn(BinaryOp, T, T) -> T, U: Fn(UnaryOp, T) -> T>(
    nominal: T,
    sigma: T,
    registry: &mut Registry<T>,
    ar: &Arithmetic<T, B, U>,
) -> (v: UncertainValue<T>)
    requires
        old(registry)@.wf(),
        old(registry)@.has_room(1),
    ensures
        v@ == ValueModel::source(old(registry)@.next_id, nominal, ar.one),
        !old(registry)@.sigmas.contains_key(old(registry)@.next_id),
        final(registry)@ == old(registry)@.allocate(sigma),
        final(registry)@.wf(),
{
    UncertainValue::new(nominal, sigma, registry, ar)
}

/// The nominal value of `v`.
pub fn nominal<T: Copy>(v: &UncertainValue<T>) -> (n: T)
    ensures
        n == v@.nominal,
{
    v.nominal()
}

/// The standard deviation of `v`, from the standard deviations in `registry`.
pub fn stddev<T: Copy, B: Fn(BinaryOp, T, T) -> T, U: Fn(UnaryOp, T) -> T>(
    v: &UncertainValue<T>,
    registry: &Registry<T>,
    ar: &Arithmetic<T, B, U>,
) -> (deviation: T)
    requires
        ar.total(),
    ensures
        ar.is_deviation(v@, registry@.sigmas, deviation),
{
    v.stddev(registry, ar)
}

/// The sine of `v`.
pub fn sin<T: Copy, B: Fn(BinaryOp, T, T) -> T, U: Fn(UnaryOp, T) -> T>(
    v: &UncertainValue<T>,
    ar: &Arithmetic<T, B, U>,
) -> (out: UncertainValue<T>)
    requires
        ar.total(),
    ensures
        ar.is_sine(v@, out@),
{
    v.sin(ar)
}

/// The cosine of `v`.
pub fn cos<T: Copy, B: Fn(BinaryOp, T, T) -> T, U: Fn(UnaryOp, T) -> T>(
    v: &UncertainValue<T>,
    ar: &Arithmetic<T, B, U>,
) -> (out: UncertainValue<T>)
    requires
        ar.total(),
    ensures
        ar.is_cosine(v@, out@),
{
    v.cos(ar)
}

/// The exponential of `v`.
pub fn exp<T: Copy, B: Fn(BinaryOp, T, T) -> T, U: Fn(UnaryOp, T) -> T>(
    v: &UncertainValue<T>,
    ar: &Arithmetic<T, B, U>,
) -> (out: UncertainValue<T>)
    requires
        ar.total(),
    ensures
        ar.is_exponential(v@, out@),
{
    v.exp(ar)
}

/// The natural logarithm of `v`.
pub fn ln<T: Copy, B: Fn(BinaryOp, T, T) -> T, U: Fn(UnaryOp, T) -> T>(
    v: &UncertainValue<T>,
    ar: &Arithmetic<T, B, U>,
) -> (out: UncertainValue<T>)
    requires
        ar.total(),
    ensures
        ar.is_logarithm(v@, out@),
{
    v.ln(ar)
}

/// The square root of `v`.
pub fn sqrt<T: Copy, B: Fn(BinaryOp, T, T) -> T, U: Fn(UnaryOp, T) -> T>(
    v: &UncertainValue<T>,
    ar: &Arithmetic<T, B, U>,
) -> (out: UncertainValue<T>)
    requires
        ar.total(),
    ensures
        ar.is_square_root(v@, out@),
{
    v.sqrt(ar)
}

/// A value with the given nominal value and sensitivities, taken as they are.
pub fn from_parts<T: Copy>(nominal: T, derivatives: HashMap<u64, T>) -> (v: UncertainValue<T>)
    ensures
        v@ == (ValueModel { nominal, sensitivities: derivatives@ }),
{
    UncertainValue::from_parts(nominal, derivatives)
}

/// One new independent source for each pair `(nominals[i], sigmas[i])`, in
/// order.
pub fn uvals<T: Copy, B: Fn(BinaryOp, T, T) -> T, U: Fn(UnaryOp, T) -> T>(
    nominals: Vec<T>,
    sigmas: Vec<T>,
    registry: &mut Registry<T>,
    ar: &Arithmetic<T, B, U>,
) -> (values: Vec<UncertainValue<T>>)
    requires
        nominals.len() == sigmas.len(),
        old(registry)@.wf(),
        old(registry)@.has_room(nominals.len() as nat),
    ensures
        values.len() == nominals.len(),
        forall|i: int|
            0 <= i < values.len() ==> (#[trigger] values[i])@ == ValueModel::source(
                (old(registry)@.next_id + i) as u64,
                nominals[i],
                ar.one,
            ),
        final(registry)@ == old(registry)@.allocate_all(sigmas@),
        final(registry)@.wf(),
{
    let ghost start = registry@;
    let mut values: Vec<UncertainValue<T>> = Vec::new();
    let count: usize = nominals.len();
    let mut i: usize = 0;
    proof {
        assert(sigmas@.take(0) =~= Seq::empty());
        lemma_allocate_none(start);
    }
    while i < count
        invariant
            count == nominals.len(),
            count == sigmas.len(),
            i <= count,
            start.wf(),
            start.has_room(count as nat),
            values.len() == i,
            forall|j: int|
                0 <= j < i ==> (#[trigger] values[j])@ == ValueModel::source(
                    (start.next_id + j) as u64,
                    nominals[j],
                    ar.one,
                ),
            registry@ == start.allocate_all(sigmas@.take(i as int)),
            registry@.wf(),
        decreases count - i,
    {
        let v = UncertainValue::new(nominals[i], sigmas[i], registry, ar);
        values.push(v);
        proof {
            assert(sigmas@.take(i + 1) =~= sigmas@.take(i as int).push(sigmas[i as int]));
            lemma_allocate_all_step(start, sigmas@.take(i as int), sigmas[i as int]);
        }
        i = i + 1;
    }
    assert(sigmas@.take(count as int) =~= sigmas@);
    values
}

/// The nominal value of every value of `values`, in order.
pub fn nominals<T: Copy>(values: Vec<UncertainValue<T>>) -> (out: Vec<T>)
    ensures
        out.len() == values.len(),
        forall|i: int| 0 <= i < out.len() ==> #[trigger] out[i] == values[i]@.nominal,
{
    let mut out: Vec<T> = Vec::new();
    let mut i: usize = 0;
    while i < values.len()
        invariant
            i <= values.len(),
            out.len() == i,
            forall|j: int| 0 <= j < i ==> #[trigger] out[j] == values[j]@.nominal,
        decreases values.len() - i,
    {
        out.push(values[i].nominal());
        i = i + 1;
    }
    out
}

/// The standard deviation of every value of `values`, in order, from the
/// standard deviations in `registry`.
pub fn stddevs<T: Copy, B: Fn(BinaryOp, T, T) -> T, U: Fn(UnaryOp, T) -> T>(
    values: Vec<UncertainValue<T>>,
    registry: &Registry<T>,
    ar: &Arithmetic<T, B, U>,
) -> (out: Vec<T>)
    requires
        ar.total(),
    ensures
        out.len() == values.len(),
        forall|i: int|
            0 <= i < out.len() ==> ar.is_deviation(
                values[i]@,
                registry@.sigmas,
                #[trigger] out[i],
            ),
{
    let mut out: Vec<T> = Vec::new();
    let mut i: usize = 0;
    while i < values.len()
        invariant
            ar.total(),
            i <= values.len(),
            out.len() == i,
            forall|j: int|
                0 <= j < i ==> ar.is_deviation(values[j]@, registry@.sigmas, #[trigger] out[j]),
        decreases values.len() - i,
    {
        out.push(values[i].stddev(registry, ar));
        i = i + 1;
    }
    out
}

} // verus!
