//! The chain rule, stated as relations between values.
//!
//! Each relation says that a value is an outcome of an operation of the
//! derivative algebra on given operands, in a given [`Arithmetic`]. The
//! operations of [`UncertainValue`](crate::UncertainValue) promise these
//! relations of their results.

use crate::arithmetic::{Arithmetic, BinaryOp, UnaryOp};
use vstd::prelude::*;

verus! {

/// What an uncertain value holds: its nominal value and, for each independent
/// source it depends on, the partial derivative of the nominal value with
/// respect to that source. A source that is not in the map has derivative
/// zero.
pub struct ValueModel<T> {
    pub nominal: T,
    pub sensitivities: Map<u64, T>,
}

impl<T> ValueModel<T> {
    /// The independent source `id` itself: it depends on `id` alone, with
    /// derivative `one`.
    pub open spec fn source(id: u64, nominal: T, one: T) -> Self {
        ValueModel { nominal, sensitivities: Map::empty().insert(id, one) }
    }
}

impl<T: Copy, B: Fn(BinaryOp, T, T) -> T, U: Fn(UnaryOp, T) -> T> Arithmetic<T, B, U> {
    /// The coefficient that an absent entry stands for.
    pub open spec fn or_zero(&self, coefficient: Option<T>) -> T {
        match coefficient {
            Some(c) => c,
            None => self.zero,
        }
    }

    /// `c` is an outcome of `base op (term * factor)`, an absent `base` read
    /// as zero.
    pub open spec fn folds(&self, op: BinaryOp, base: Option<T>, term: T, factor: T, c: T) -> bool {
        exists|q: T| #[trigger]
            self.computes(BinaryOp::Mul, term, factor, q) && self.computes(
                op,
                self.or_zero(base),
                q,
                c,
            )
    }

    /// `out` has the entries of `m`, each coefficient replaced by an outcome
    /// of `coefficient op operand`.
    pub open spec fn maps_each(
        &self,
        op: BinaryOp,
        m: Map<u64, T>,
        operand: T,
        out: Map<u64, T>,
    ) -> bool {
        &&& out.dom() == m.dom()
        &&& forall|id: u64| #[trigger]
            m.contains_key(id) ==> self.computes(op, m[id], operand, out[id])
    }

    /// `out` is `acc` overlaid with `terms`: an entry of `acc` that `terms`
    /// lacks is kept, and every entry of `terms` is folded into the entry of
    /// `acc` under the same identifier.
    pub open spec fn overlays(
        &self,
        op: BinaryOp,
        acc: Map<u64, T>,
        terms: Map<u64, T>,
        factor: T,
        out: Map<u64, T>,
    ) -> bool {
        &&& out.dom() == acc.dom().union(terms.dom())
        &&& forall|id: u64|
            acc.contains_key(id) && !terms.contains_key(id) ==> #[trigger] out[id] == acc[id]
        &&& forall|id: u64| #[trigger]
            terms.contains_key(id) ==> self.folds(op, acc.get(id), terms[id], factor, out[id])
    }

    /// `n` is an outcome of `l * rn op r * ln`, the cross terms of the
    /// product and quotient rules for one source: `l` and `r` are the
    /// operands' coefficients for that source, `ln` and `rn` their nominal
    /// values. Where the right operand lacks the source, `n` is the left term
    /// alone; where the left operand lacks it, the right term is folded into
    /// zero.
    pub open spec fn crosses(
        &self,
        op: BinaryOp,
        l: Option<T>,
        ln: T,
        r: Option<T>,
        rn: T,
        n: T,
    ) -> bool {
        match r {
            None => match l {
                Some(lv) => self.computes(BinaryOp::Mul, lv, rn, n),
                None => false,
            },
            Some(rv) => match l {
                Some(lv) => exists|p: T| #[trigger]
                    self.computes(BinaryOp::Mul, lv, rn, p) && self.folds(op, Some(p), rv, ln, n),
                None => self.folds(op, None, rv, ln, n),
            },
        }
    }

    /// `out` is a sum `a + b`: the nominal values are added, and `b`'s
    /// sensitivities, scaled by one, are overlaid on `a`'s.
    pub open spec fn is_sum(&self, a: ValueModel<T>, b: ValueModel<T>, out: ValueModel<T>) -> bool {
        &&& self.computes(BinaryOp::Add, a.nominal, b.nominal, out.nominal)
        &&& self.overlays(
            BinaryOp::Add,
            a.sensitivities,
            b.sensitivities,
            self.one,
            out.sensitivities,
        )
    }

    /// `out` is a difference `a - b`: the nominal values are subtracted, and
    /// `b`'s sensitivities, scaled by minus one, are overlaid on `a`'s.
    pub open spec fn is_difference(
        &self,
        a: ValueModel<T>,
        b: ValueModel<T>,
        out: ValueModel<T>,
    ) -> bool {
        &&& self.computes(BinaryOp::Sub, a.nominal, b.nominal, out.nominal)
        &&& self.overlays(
            BinaryOp::Add,
            a.sensitivities,
            b.sensitivities,
            self.minus_one,
            out.sensitivities,
        )
    }

    /// `out` is a product `a * b` by the product rule: for every source of
    /// either operand, the coefficient is `a[id] * b.nominal + b[id] *
    /// a.nominal`.
    pub open spec fn is_product(
        &self,
        a: ValueModel<T>,
        b: ValueModel<T>,
        out: ValueModel<T>,
    ) -> bool {
        &&& self.computes(BinaryOp::Mul, a.nominal, b.nominal, out.nominal)
        &&& out.sensitivities.dom() == a.sensitivities.dom().union(b.sensitivities.dom())
        &&& forall|id: u64| #[trigger]
            out.sensitivities.contains_key(id) ==> self.crosses(
                BinaryOp::Add,
                a.sensitivities.get(id),
                a.nominal,
                b.sensitivities.get(id),
                b.nominal,
                out.sensitivities[id],
            )
    }

    /// `out` is a quotient `a / b` by the quotient rule: for every source of
    /// either operand, the coefficient is `(a[id] * b.nominal - b[id] *
    /// a.nominal) / d`, with `d` one outcome of `b.nominal * b.nominal` shared
    /// by all sources.
    pub open spec fn is_quotient(
        &self,
        a: ValueModel<T>,
        b: ValueModel<T>,
        out: ValueModel<T>,
    ) -> bool {
        &&& self.computes(BinaryOp::Div, a.nominal, b.nominal, out.nominal)
        &&& out.sensitivities.dom() == a.sensitivities.dom().union(b.sensitivities.dom())
        &&& exists|d: T|
            self.computes(BinaryOp::Mul, b.nominal, b.nominal, d) && forall|id: u64| #[trigger]
                out.sensitivities.contains_key(id) ==> exists|n: T|
                    self.crosses(
                        BinaryOp::Sub,
                        a.sensitivities.get(id),
                        a.nominal,
                        b.sensitivities.get(id),
                        b.nominal,
                        n,
                    ) && self.computes(BinaryOp::Div, n, d, out.sensitivities[id])
    }

    /// `out` is `function(x)` with derivative `factor` at `x`: every
    /// sensitivity of `x` is scaled by `factor`.
    pub open spec fn is_image(
        &self,
        function: UnaryOp,
        x: ValueModel<T>,
        factor: T,
        out: ValueModel<T>,
    ) -> bool {
        &&& self.maps(function, x.nominal, out.nominal)
        &&& self.maps_each(BinaryOp::Mul, x.sensitivities, factor, out.sensitivities)
    }

    /// `out` is `sin(x)`, with derivative `cos(x)`.
    pub open spec fn is_sine(&self, x: ValueModel<T>, out: ValueModel<T>) -> bool {
        exists|factor: T|
            self.maps(UnaryOp::Cos, x.nominal, factor) && self.is_image(
                UnaryOp::Sin,
                x,
                factor,
                out,
            )
    }

    /// `out` is `cos(x)`, with derivative `-sin(x)`.
    pub open spec fn is_cosine(&self, x: ValueModel<T>, out: ValueModel<T>) -> bool {
        exists|sine: T, factor: T|
            self.maps(UnaryOp::Sin, x.nominal, sine) && self.maps(UnaryOp::Neg, sine, factor)
                && self.is_image(UnaryOp::Cos, x, factor, out)
    }

    /// `out` is the square root of `x`, with derivative one half over the
    /// root.
    pub open spec fn is_square_root(&self, x: ValueModel<T>, out: ValueModel<T>) -> bool {
        exists|factor: T|
            self.computes(BinaryOp::Div, self.half, out.nominal, factor) && self.is_image(
                UnaryOp::Sqrt,
                x,
                factor,
                out,
            )
    }

    /// `out` is `exp(x)`, whose derivative is the result itself.
    pub open spec fn is_exponential(&self, x: ValueModel<T>, out: ValueModel<T>) -> bool {
        self.is_image(UnaryOp::Exp, x, out.nominal, out)
    }

    /// `out` is the natural logarithm of `x`, with derivative `1 / x`.
    pub open spec fn is_logarithm(&self, x: ValueModel<T>, out: ValueModel<T>) -> bool {
        exists|factor: T|
            self.computes(BinaryOp::Div, self.one, x.nominal, factor) && self.is_image(
                UnaryOp::Ln,
                x,
                factor,
                out,
            )
    }

    /// `t` is an outcome of `d * d * sigma * sigma`, multiplied from the
    /// left: the share of variance that a source of standard deviation
    /// `sigma` contributes through the derivative `d`.
    pub open spec fn is_variance_term(&self, d: T, sigma: T, t: T) -> bool {
        exists|dd: T, dds: T|
            self.computes(BinaryOp::Mul, d, d, dd) && self.computes(BinaryOp::Mul, dd, sigma, dds)
                && self.computes(BinaryOp::Mul, dds, sigma, t)
    }

    /// `variance` is an outcome of adding up, from zero and in the order of
    /// `order`, the variance terms of the sources in `order`. A source
    /// without a standard deviation in `sigmas` contributes nothing.
    pub open spec fn sums_variance(
        &self,
        sensitivities: Map<u64, T>,
        sigmas: Map<u64, T>,
        order: Seq<u64>,
        variance: T,
    ) -> bool
        decreases order.len(),
    {
        if order.len() == 0 {
            variance == self.zero
        } else if sigmas.contains_key(order.last()) {
            exists|before: T, t: T|
                self.sums_variance(sensitivities, sigmas, order.drop_last(), before)
                    && self.is_variance_term(
                    sensitivities[order.last()],
                    sigmas[order.last()],
                    t,
                ) && self.computes(BinaryOp::Add, before, t, variance)
        } else {
            self.sums_variance(sensitivities, sigmas, order.drop_last(), variance)
        }
    }

    /// `deviation` is a standard deviation of `v`: the square root of the
    /// variance terms of all its sources, added up in some order.
    pub open spec fn is_deviation(&self, v: ValueModel<T>, sigmas: Map<u64, T>, deviation: T) -> bool {
        exists|order: Seq<u64>, variance: T|
            order.no_duplicates() && order.to_set() == v.sensitivities.dom() && self.sums_variance(
                v.sensitivities,
                sigmas,
                order,
                variance,
            ) && self.maps(UnaryOp::Sqrt, variance, deviation)
    }

    /// `r` is an outcome of the square root of `a * a + b * b`, the squares
    /// added in either order.
    pub open spec fn is_root_sum_of_squares(&self, a: T, b: T, r: T) -> bool {
        exists|aa: T, bb: T, sum: T|
            #![trigger self.computes(BinaryOp::Mul, a, a, aa), self.computes(BinaryOp::Mul, b, b, bb), self.maps(UnaryOp::Sqrt, sum, r)]
            self.computes(BinaryOp::Mul, a, a, aa) && self.computes(BinaryOp::Mul, b, b, bb) && (
            self.computes(BinaryOp::Add, aa, bb, sum) || self.computes(BinaryOp::Add, bb, aa, sum))
                && self.maps(UnaryOp::Sqrt, sum, r)
    }
}

} // verus!
