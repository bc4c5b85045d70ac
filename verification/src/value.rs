//! Values that carry their uncertainty with them.

use crate::algebra::ValueModel;
use crate::arithmetic::{Arithmetic, BinaryOp, UnaryOp};
use crate::registry::Registry;
use crate::sensitivity::{map_each, overlay};
use std::collections::HashMap;
use vstd::prelude::*;

verus! {

broadcast use vstd::std_specs::hash::group_hash_axioms;

/// A nominal value together with its partial derivatives with respect to the
/// independent sources of uncertainty it was computed from.
///
/// A value is never changed once made: every operation returns a new value.
pub struct UncertainValue<T> {
    nominal: T,
    derivatives: HashMap<u64, T>,
}

impl<T> View for UncertainValue<T> {
    type V = ValueModel<T>;

    closed spec fn view(&self) -> ValueModel<T> {
        ValueModel { nominal: self.nominal, sensitivities: self.derivatives@ }
    }
}

impl<T: Copy> Clone for UncertainValue<T> {
    /// A copy holds what the value holds. Copying registers nothing.
    fn clone(&self) -> (copy: Self)
        ensures
            copy@ == self@,
    {
        UncertainValue { nominal: self.nominal, derivatives: self.derivatives.clone() }
    }
}

impl<T: Copy> UncertainValue<T> {
    /// A new independent source of uncertainty: `nominal` with standard
    /// deviation `sigma`. The source is given the next identifier of
    /// `registry`, which records `sigma` for it.
    pub fn new<B: Fn(BinaryOp, T, T) -> T, U: Fn(UnaryOp, T) -> T>(
        nominal: T,
        sigma: T,
        registry: &mut Registry<T>,
        ar: &Arithmetic<T, B, U>,
    ) -> (v: Self)
        requires
            old(registry)@.wf(),
            old(registry)@.has_room(1),
        ensures
            v@ == ValueModel::source(old(registry)@.next_id, nominal, ar.one),
            !old(registry)@.sigmas.contains_key(old(registry)@.next_id),
            final(registry)@ == old(registry)@.allocate(sigma),
            final(registry)@.wf(),
    {
        let id: u64 = registry.allocate(sigma);
        let mut derivatives: HashMap<u64, T> = HashMap::new();
        derivatives.insert(id, ar.one);
        UncertainValue { nominal, derivatives }
    }

    /// A value with the given nominal value and sensitivities, taken as they
    /// are: no identifier is issued and none is looked up.
    pub fn from_parts(nominal: T, derivatives: HashMap<u64, T>) -> (v: Self)
        ensures
            v@ == (ValueModel { nominal, sensitivities: derivatives@ }),
    {
        UncertainValue { nominal, derivatives }
    }

    /// The nominal value.
    pub fn nominal(&self) -> (n: T)
        ensures
            n == self@.nominal,
    {
        self.nominal
    }

    /// A copy of the sensitivities, by identifier of the source.
    pub fn derivatives(&self) -> (d: HashMap<u64, T>)
        ensures
            d@ == self@.sensitivities,
    {
        self.derivatives.clone()
    }

    /// The sum `self + other`.
    pub fn add<B: Fn(BinaryOp, T, T) -> T, U: Fn(UnaryOp, T) -> T>(
        &self,
        other: &UncertainValue<T>,
        ar: &Arithmetic<T, B, U>,
    ) -> (out: UncertainValue<T>)
        requires
            ar.total(),
        ensures
            ar.is_sum(self@, other@, out@),
    {
        UncertainValue {
            nominal: ar.apply(BinaryOp::Add, self.nominal, other.nominal),
            derivatives: combine(&self.derivatives, &other.derivatives, ar.one, ar),
        }
    }

    /// The difference `self - other`.
    pub fn sub<B: Fn(BinaryOp, T, T) -> T, U: Fn(UnaryOp, T) -> T>(
        &self,
        other: &UncertainValue<T>,
        ar: &Arithmetic<T, B, U>,
    ) -> (out: UncertainValue<T>)
        requires
            ar.total(),
        ensures
            ar.is_difference(self@, other@, out@),
    {
        UncertainValue {
            nominal: ar.apply(BinaryOp::Sub, self.nominal, other.nominal),
            derivatives: combine(&self.derivatives, &other.derivatives, ar.minus_one, ar),
        }
    }

    /// The product `self * other`.
    pub fn mul<B: Fn(BinaryOp, T, T) -> T, U: Fn(UnaryOp, T) -> T>(
        &self,
        other: &UncertainValue<T>,
        ar: &Arithmetic<T, B, U>,
    ) -> (out: UncertainValue<T>)
        requires
            ar.total(),
        ensures
            ar.is_product(self@, other@, out@),
    {
        let left = map_each(&self.derivatives, BinaryOp::Mul, other.nominal, ar);
        let derivatives = overlay(left, &other.derivatives, self.nominal, BinaryOp::Add, ar);
        let nominal = ar.apply(BinaryOp::Mul, self.nominal, other.nominal);
        let out = UncertainValue { nominal, derivatives };
        proof {
            lemma_crosses(ar, BinaryOp::Add, self@, other@, left@, out@.sensitivities);
        }
        out
    }

    /// The quotient `self / other`.
    pub fn div<B: Fn(BinaryOp, T, T) -> T, U: Fn(UnaryOp, T) -> T>(
        &self,
        other: &UncertainValue<T>,
        ar: &Arithmetic<T, B, U>,
    ) -> (out: UncertainValue<T>)
        requires
            ar.total(),
        ensures
            ar.is_quotient(self@, other@, out@),
    {
        let left = map_each(&self.derivatives, BinaryOp::Mul, other.nominal, ar);
        let numerators = overlay(left, &other.derivatives, self.nominal, BinaryOp::Sub, ar);
        let denominator = ar.apply(BinaryOp::Mul, other.nominal, other.nominal);
        let derivatives = map_each(&numerators, BinaryOp::Div, denominator, ar);
        let nominal = ar.apply(BinaryOp::Div, self.nominal, other.nominal);
        let out = UncertainValue { nominal, derivatives };
        proof {
            lemma_crosses(ar, BinaryOp::Sub, self@, other@, left@, numerators@);
            assert(out@.sensitivities.dom() =~= self@.sensitivities.dom().union(
                other@.sensitivities.dom(),
            ));
            assert forall|id: u64| #[trigger] out@.sensitivities.contains_key(id) implies exists|
                n: T,
            |
                ar.crosses(
                    BinaryOp::Sub,
                    self@.sensitivities.get(id),
                    self@.nominal,
                    other@.sensitivities.get(id),
                    other@.nominal,
                    n,
                ) && ar.computes(BinaryOp::Div, n, denominator, out@.sensitivities[id]) by {
                assert(numerators@.contains_key(id));
            }
        }
        out
    }

    /// The sine of this value.
    pub fn sin<B: Fn(BinaryOp, T, T) -> T, U: Fn(UnaryOp, T) -> T>(
        &self,
        ar: &Arithmetic<T, B, U>,
    ) -> (out: UncertainValue<T>)
        requires
            ar.total(),
        ensures
            ar.is_sine(self@, out@),
    {
        let nominal = ar.apply_unary(UnaryOp::Sin, self.nominal);
        let factor = ar.apply_unary(UnaryOp::Cos, self.nominal);
        let derivatives = map_each(&self.derivatives, BinaryOp::Mul, factor, ar);
        let out = UncertainValue { nominal, derivatives };
        assert(ar.is_image(UnaryOp::Sin, self@, factor, out@));
        out
    }

    /// The cosine of this value.
    pub fn cos<B: Fn(BinaryOp, T, T) -> T, U: Fn(UnaryOp, T) -> T>(
        &self,
        ar: &Arithmetic<T, B, U>,
    ) -> (out: UncertainValue<T>)
        requires
            ar.total(),
        ensures
            ar.is_cosine(self@, out@),
    {
        let nominal = ar.apply_unary(UnaryOp::Cos, self.nominal);
        let sine = ar.apply_unary(UnaryOp::Sin, self.nominal);
        let factor = ar.apply_unary(UnaryOp::Neg, sine);
        let derivatives = map_each(&self.derivatives, BinaryOp::Mul, factor, ar);
        let out = UncertainValue { nominal, derivatives };
        assert(ar.maps(UnaryOp::Sin, self@.nominal, sine) && ar.maps(UnaryOp::Neg, sine, factor)
            && ar.is_image(UnaryOp::Cos, self@, factor, out@));
        out
    }

    /// The exponential of this value.
    pub fn exp<B: Fn(BinaryOp, T, T) -> T, U: Fn(UnaryOp, T) -> T>(
        &self,
        ar: &Arithmetic<T, B, U>,
    ) -> (out: UncertainValue<T>)
        requires
            ar.total(),
        ensures
            ar.is_exponential(self@, out@),
    {
        let nominal = ar.apply_unary(UnaryOp::Exp, self.nominal);
        let derivatives = map_each(&self.derivatives, BinaryOp::Mul, nominal, ar);
        UncertainValue { nominal, derivatives }
    }

    /// The natural logarithm of this value.
    pub fn ln<B: Fn(BinaryOp, T, T) -> T, U: Fn(UnaryOp, T) -> T>(
        &self,
        ar: &Arithmetic<T, B, U>,
    ) -> (out: UncertainValue<T>)
        requires
            ar.total(),
        ensures
            ar.is_logarithm(self@, out@),
    {
        let nominal = ar.apply_unary(UnaryOp::Ln, self.nominal);
        let factor = ar.apply(BinaryOp::Div, ar.one, self.nominal);
        let derivatives = map_each(&self.derivatives, BinaryOp::Mul, factor, ar);
        let out = UncertainValue { nominal, derivatives };
        assert(ar.is_image(UnaryOp::Ln, self@, factor, out@));
        out
    }

    /// The square root of this value.
    pub fn sqrt<B: Fn(BinaryOp, T, T) -> T, U: Fn(UnaryOp, T) -> T>(
        &self,
        ar: &Arithmetic<T, B, U>,
    ) -> (out: UncertainValue<T>)
        requires
            ar.total(),
        ensures
            ar.is_square_root(self@, out@),
    {
        let nominal = ar.apply_unary(UnaryOp::Sqrt, self.nominal);
        let factor = ar.apply(BinaryOp::Div, ar.half, nominal);
        let derivatives = map_each(&self.derivatives, BinaryOp::Mul, factor, ar);
        let out = UncertainValue { nominal, derivatives };
        assert(ar.is_image(UnaryOp::Sqrt, self@, factor, out@));
        out
    }

    /// The standard deviation of this value: the square root of the sum,
    /// over its sources, of the squared derivative times the squared standard
    /// deviation that `registry` holds for the source. A source that
    /// `registry` does not know contributes nothing.
    pub fn stddev<B: Fn(BinaryOp, T, T) -> T, U: Fn(UnaryOp, T) -> T>(
        &self,
        registry: &Registry<T>,
        ar: &Arithmetic<T, B, U>,
    ) -> (deviation: T)
        requires
            ar.total(),
        ensures
            ar.is_deviation(self@, registry@.sigmas, deviation),
    {
        let ghost sensitivities = self@.sensitivities;
        let ghost sigmas = registry@.sigmas;
        let ghost mut order: Seq<u64> = Seq::empty();
        let mut variance = ar.zero;
        for (id, derivative) in it: self.derivatives.iter()
            invariant
                ar.total(),
                sensitivities == self.derivatives@,
                sigmas == registry@.sigmas,
                it.seq().no_duplicates(),
                forall|i: int|
                    0 <= i < it.seq().len() ==> sensitivities.contains_key(
                        *(#[trigger] it.seq()[i]).0,
                    ) && sensitivities[*it.seq()[i].0] == *it.seq()[i].1,
                forall|k: u64| #[trigger]
                    sensitivities.contains_key(k) ==> exists|i: int|
                        0 <= i < it.seq().len() && *(#[trigger] it.seq()[i]).0 == k,
                order.len() == it.index(),
                forall|i: int| 0 <= i < it.index() ==> #[trigger] order[i] == *it.seq()[i].0,
                forall|i: int| 0 <= i < it.index() ==> order.contains(*(#[trigger] it.seq()[i]).0),
                forall|i: int|
                    0 <= i < order.len() ==> sensitivities.contains_key(#[trigger] order[i]),
                order.no_duplicates(),
                ar.sums_variance(sensitivities, sigmas, order, variance),
        {
            let ghost before = order;
            proof {
                order = order.push(*id);
                assert(order.drop_last() == before);
                assert(order.last() == *id);
            }
            match registry.lookup(*id) {
                Some(sigma) => {
                    let squared = ar.apply(BinaryOp::Mul, *derivative, *derivative);
                    let scaled = ar.apply(BinaryOp::Mul, squared, sigma);
                    let term = ar.apply(BinaryOp::Mul, scaled, sigma);
                    let sum = ar.apply(BinaryOp::Add, variance, term);
                    assert(ar.is_variance_term(sensitivities[*id], sigmas[*id], term));
                    assert(ar.sums_variance(sensitivities, sigmas, order, sum));
                    variance = sum;
                },
                None => {},
            }
        }
        assert forall|k: u64| #[trigger] sensitivities.contains_key(k) implies order.contains(
            k,
        ) by {}
        assert(order.to_set() =~= sensitivities.dom());
        ar.apply_unary(UnaryOp::Sqrt, variance)
    }
}

/// The sensitivities of `left + sign * right`: `left`'s entries, with each
/// entry of `right`, scaled by `sign`, added to the entry under the same
/// identifier.
fn combine<T: Copy, B: Fn(BinaryOp, T, T) -> T, U: Fn(UnaryOp, T) -> T>(
    left: &HashMap<u64, T>,
    right: &HashMap<u64, T>,
    sign: T,
    ar: &Arithmetic<T, B, U>,
) -> (out: HashMap<u64, T>)
    requires
        ar.total(),
    ensures
        ar.overlays(BinaryOp::Add, left@, right@, sign, out@),
{
    overlay(left.clone(), right, sign, BinaryOp::Add, ar)
}

/// Scaling the left operand's sensitivities by the right nominal value and
/// overlaying the right operand's, scaled by the left nominal value, gives
/// the cross terms of every source of either operand.
proof fn lemma_crosses<T: Copy, B: Fn(BinaryOp, T, T) -> T, U: Fn(UnaryOp, T) -> T>(
    ar: &Arithmetic<T, B, U>,
    op: BinaryOp,
    a: ValueModel<T>,
    b: ValueModel<T>,
    left: Map<u64, T>,
    out: Map<u64, T>,
)
    requires
        ar.maps_each(BinaryOp::Mul, a.sensitivities, b.nominal, left),
        ar.overlays(op, left, b.sensitivities, a.nominal, out),
    ensures
        out.dom() == a.sensitivities.dom().union(b.sensitivities.dom()),
        forall|id: u64| #[trigger]
            out.contains_key(id) ==> ar.crosses(
                op,
                a.sensitivities.get(id),
                a.nominal,
                b.sensitivities.get(id),
                b.nominal,
                out[id],
            ),
{
    assert forall|id: u64| #[trigger] out.contains_key(id) implies ar.crosses(
        op,
        a.sensitivities.get(id),
        a.nominal,
        b.sensitivities.get(id),
        b.nominal,
        out[id],
    ) by {
        let l = a.sensitivities.get(id);
        let r = b.sensitivities.get(id);
        assert(left.contains_key(id) == a.sensitivities.contains_key(id));
        assert(out.dom().contains(id));
        if b.sensitivities.contains_key(id) {
            assert(ar.folds(op, left.get(id), b.sensitivities[id], a.nominal, out[id]));
            if a.sensitivities.contains_key(id) {
                assert(ar.computes(BinaryOp::Mul, a.sensitivities[id], b.nominal, left[id]));
                assert(ar.folds(op, Some(left[id]), b.sensitivities[id], a.nominal, out[id]));
            }
            assert(ar.crosses(op, l, a.nominal, r, b.nominal, out[id]));
        } else {
            assert(out[id] == left[id]);
            assert(ar.computes(BinaryOp::Mul, a.sensitivities[id], b.nominal, left[id]));
            assert(ar.crosses(op, l, a.nominal, r, b.nominal, out[id]));
        }
    }
}

} // verus!
