//! The contracts of the operations leave nothing open: in an arithmetic
//! whose operations have one outcome each, every operation on uncertain
//! values has one result.

use crate::algebra::ValueModel;
use crate::arithmetic::{Arithmetic, BinaryOp, UnaryOp};
use vstd::prelude::*;

verus! {

/// In a deterministic arithmetic the four operations on two values have one
/// result each: the contracts of `add`, `sub`, `mul` and `div` leave nothing
/// of their results open.
pub proof fn lemma_binary_results_are_determined<T: Copy, B: Fn(BinaryOp, T, T) -> T, U: Fn(UnaryOp, T) -> T>(
    ar: &Arithmetic<T, B, U>,
    a: ValueModel<T>,
    b: ValueModel<T>,
    out1: ValueModel<T>,
    out2: ValueModel<T>,
)
    requires
        ar.deterministic(),
    ensures
        ar.is_sum(a, b, out1) && ar.is_sum(a, b, out2) ==> out1 == out2,
        ar.is_difference(a, b, out1) && ar.is_difference(a, b, out2) ==> out1 == out2,
        ar.is_product(a, b, out1) && ar.is_product(a, b, out2) ==> out1 == out2,
        ar.is_quotient(a, b, out1) && ar.is_quotient(a, b, out2) ==> out1 == out2,
{
    if ar.is_sum(a, b, out1) && ar.is_sum(a, b, out2) {
        lemma_overlays_is_determined(
            ar,
            BinaryOp::Add,
            a.sensitivities,
            b.sensitivities,
            ar.one,
            out1.sensitivities,
            out2.sensitivities,
        );
    }
    if ar.is_difference(a, b, out1) && ar.is_difference(a, b, out2) {
        lemma_overlays_is_determined(
            ar,
            BinaryOp::Add,
            a.sensitivities,
            b.sensitivities,
            ar.minus_one,
            out1.sensitivities,
            out2.sensitivities,
        );
    }
    if ar.is_product(a, b, out1) && ar.is_product(a, b, out2) {
        assert forall|id: u64| out1.sensitivities.contains_key(id) implies out1.sensitivities[id]
            == out2.sensitivities[id] by {
            assert(out2.sensitivities.contains_key(id));
            lemma_crosses_is_determined(
                ar,
                BinaryOp::Add,
                a.sensitivities.get(id),
                a.nominal,
                b.sensitivities.get(id),
                b.nominal,
                out1.sensitivities[id],
                out2.sensitivities[id],
            );
        }
        assert(out1.sensitivities =~= out2.sensitivities);
    }
    if ar.is_quotient(a, b, out1) && ar.is_quotient(a, b, out2) {
        let d1 = choose|d: T|
            ar.computes(BinaryOp::Mul, b.nominal, b.nominal, d) && forall|id: u64| #[trigger]
                out1.sensitivities.contains_key(id) ==> exists|n: T|
                    ar.crosses(
                        BinaryOp::Sub,
                        a.sensitivities.get(id),
                        a.nominal,
                        b.sensitivities.get(id),
                        b.nominal,
                        n,
                    ) && ar.computes(BinaryOp::Div, n, d, out1.sensitivities[id]);
        let d2 = choose|d: T|
            ar.computes(BinaryOp::Mul, b.nominal, b.nominal, d) && forall|id: u64| #[trigger]
                out2.sensitivities.contains_key(id) ==> exists|n: T|
                    ar.crosses(
                        BinaryOp::Sub,
                        a.sensitivities.get(id),
                        a.nominal,
                        b.sensitivities.get(id),
                        b.nominal,
                        n,
                    ) && ar.computes(BinaryOp::Div, n, d, out2.sensitivities[id]);
        assert(d1 == d2);
        assert forall|id: u64| out1.sensitivities.contains_key(id) implies out1.sensitivities[id]
            == out2.sensitivities[id] by {
            assert(out2.sensitivities.contains_key(id));
            let n1 = choose|n: T|
                ar.crosses(
                    BinaryOp::Sub,
                    a.sensitivities.get(id),
                    a.nominal,
                    b.sensitivities.get(id),
                    b.nominal,
                    n,
                ) && ar.computes(BinaryOp::Div, n, d1, out1.sensitivities[id]);
            let n2 = choose|n: T|
                ar.crosses(
                    BinaryOp::Sub,
                    a.sensitivities.get(id),
                    a.nominal,
                    b.sensitivities.get(id),
                    b.nominal,
                    n,
                ) && ar.computes(BinaryOp::Div, n, d2, out2.sensitivities[id]);
            lemma_crosses_is_determined(
                ar,
                BinaryOp::Sub,
                a.sensitivities.get(id),
                a.nominal,
                b.sensitivities.get(id),
                b.nominal,
                n1,
                n2,
            );
        }
        assert(out1.sensitivities =~= out2.sensitivities);
    }
}

/// In a deterministic arithmetic the five elementary functions of a value
/// have one result each: the contracts of `sin`, `cos`, `sqrt`, `exp` and
/// `ln` leave nothing of their results open.
pub proof fn lemma_unary_results_are_determined<T: Copy, B: Fn(BinaryOp, T, T) -> T, U: Fn(UnaryOp, T) -> T>(
    ar: &Arithmetic<T, B, U>,
    x: ValueModel<T>,
    out1: ValueModel<T>,
    out2: ValueModel<T>,
)
    requires
        ar.deterministic(),
    ensures
        ar.is_sine(x, out1) && ar.is_sine(x, out2) ==> out1 == out2,
        ar.is_cosine(x, out1) && ar.is_cosine(x, out2) ==> out1 == out2,
        ar.is_square_root(x, out1) && ar.is_square_root(x, out2) ==> out1 == out2,
        ar.is_exponential(x, out1) && ar.is_exponential(x, out2) ==> out1 == out2,
        ar.is_logarithm(x, out1) && ar.is_logarithm(x, out2) ==> out1 == out2,
{
    if ar.is_sine(x, out1) && ar.is_sine(x, out2) {
        let f1 = choose|f: T|
            ar.maps(UnaryOp::Cos, x.nominal, f) && ar.is_image(UnaryOp::Sin, x, f, out1);
        let f2 = choose|f: T|
            ar.maps(UnaryOp::Cos, x.nominal, f) && ar.is_image(UnaryOp::Sin, x, f, out2);
        lemma_image_is_determined(ar, UnaryOp::Sin, x, f1, f2, out1, out2);
    }
    if ar.is_cosine(x, out1) && ar.is_cosine(x, out2) {
        let (s1, f1) = choose|s: T, f: T|
            ar.maps(UnaryOp::Sin, x.nominal, s) && ar.maps(UnaryOp::Neg, s, f) && ar.is_image(
                UnaryOp::Cos,
                x,
                f,
                out1,
            );
        let (s2, f2) = choose|s: T, f: T|
            ar.maps(UnaryOp::Sin, x.nominal, s) && ar.maps(UnaryOp::Neg, s, f) && ar.is_image(
                UnaryOp::Cos,
                x,
                f,
                out2,
            );
        assert(s1 == s2);
        lemma_image_is_determined(ar, UnaryOp::Cos, x, f1, f2, out1, out2);
    }
    if ar.is_square_root(x, out1) && ar.is_square_root(x, out2) {
        let f1 = choose|f: T|
            ar.computes(BinaryOp::Div, ar.half, out1.nominal, f) && ar.is_image(
                UnaryOp::Sqrt,
                x,
                f,
                out1,
            );
        let f2 = choose|f: T|
            ar.computes(BinaryOp::Div, ar.half, out2.nominal, f) && ar.is_image(
                UnaryOp::Sqrt,
                x,
                f,
                out2,
            );
        assert(out1.nominal == out2.nominal);
        lemma_image_is_determined(ar, UnaryOp::Sqrt, x, f1, f2, out1, out2);
    }
    if ar.is_exponential(x, out1) && ar.is_exponential(x, out2) {
        assert(out1.nominal == out2.nominal);
        lemma_image_is_determined(ar, UnaryOp::Exp, x, out1.nominal, out2.nominal, out1, out2);
    }
    if ar.is_logarithm(x, out1) && ar.is_logarithm(x, out2) {
        let f1 = choose|f: T|
            ar.computes(BinaryOp::Div, ar.one, x.nominal, f) && ar.is_image(
                UnaryOp::Ln,
                x,
                f,
                out1,
            );
        let f2 = choose|f: T|
            ar.computes(BinaryOp::Div, ar.one, x.nominal, f) && ar.is_image(
                UnaryOp::Ln,
                x,
                f,
                out2,
            );
        lemma_image_is_determined(ar, UnaryOp::Ln, x, f1, f2, out1, out2);
    }
}

/// In a deterministic arithmetic the image of a value under a function,
/// with a derivative that is itself determined, is determined.
proof fn lemma_image_is_determined<T: Copy, B: Fn(BinaryOp, T, T) -> T, U: Fn(UnaryOp, T) -> T>(
    ar: &Arithmetic<T, B, U>,
    function: UnaryOp,
    x: ValueModel<T>,
    f1: T,
    f2: T,
    out1: ValueModel<T>,
    out2: ValueModel<T>,
)
    requires
        ar.deterministic(),
        f1 == f2,
        ar.is_image(function, x, f1, out1),
        ar.is_image(function, x, f2, out2),
    ensures
        out1 == out2,
{
    lemma_maps_each_is_determined(
        ar,
        BinaryOp::Mul,
        x.sensitivities,
        f1,
        out1.sensitivities,
        out2.sensitivities,
    );
}

/// In a deterministic arithmetic an overlay has one outcome.
proof fn lemma_overlays_is_determined<T: Copy, B: Fn(BinaryOp, T, T) -> T, U: Fn(UnaryOp, T) -> T>(
    ar: &Arithmetic<T, B, U>,
    op: BinaryOp,
    acc: Map<u64, T>,
    terms: Map<u64, T>,
    factor: T,
    out1: Map<u64, T>,
    out2: Map<u64, T>,
)
    requires
        ar.deterministic(),
        ar.overlays(op, acc, terms, factor, out1),
        ar.overlays(op, acc, terms, factor, out2),
    ensures
        out1 == out2,
{
    assert forall|id: u64| out1.contains_key(id) implies out1[id] == out2[id] by {
        if terms.contains_key(id) {
            lemma_folds_is_determined(ar, op, acc.get(id), terms[id], factor, out1[id], out2[id]);
        }
    }
    assert(out1 =~= out2);
}

/// In a deterministic arithmetic the sensitivities scaled by a factor are
/// determined.
proof fn lemma_maps_each_is_determined<T: Copy, B: Fn(BinaryOp, T, T) -> T, U: Fn(UnaryOp, T) -> T>(
    ar: &Arithmetic<T, B, U>,
    op: BinaryOp,
    m: Map<u64, T>,
    operand: T,
    out1: Map<u64, T>,
    out2: Map<u64, T>,
)
    requires
        ar.deterministic(),
        ar.maps_each(op, m, operand, out1),
        ar.maps_each(op, m, operand, out2),
    ensures
        out1 == out2,
{
    assert forall|id: u64| out1.contains_key(id) implies out1[id] == out2[id] by {
        assert(m.contains_key(id));
    }
    assert(out1 =~= out2);
}

/// In a deterministic arithmetic the cross terms of a source have one
/// outcome.
proof fn lemma_crosses_is_determined<T: Copy, B: Fn(BinaryOp, T, T) -> T, U: Fn(UnaryOp, T) -> T>(
    ar: &Arithmetic<T, B, U>,
    op: BinaryOp,
    l: Option<T>,
    ln: T,
    r: Option<T>,
    rn: T,
    n1: T,
    n2: T,
)
    requires
        ar.deterministic(),
        ar.crosses(op, l, ln, r, rn, n1),
        ar.crosses(op, l, ln, r, rn, n2),
    ensures
        n1 == n2,
{
    match r {
        None => {},
        Some(rv) => match l {
            Some(lv) => {
                let first_left = choose|p: T| #[trigger]
                    ar.computes(BinaryOp::Mul, lv, rn, p) && ar.folds(op, Some(p), rv, ln, n1);
                let second_left = choose|p: T| #[trigger]
                    ar.computes(BinaryOp::Mul, lv, rn, p) && ar.folds(op, Some(p), rv, ln, n2);
                assert(first_left == second_left);
                lemma_folds_is_determined(ar, op, Some(first_left), rv, ln, n1, n2);
            },
            None => {
                lemma_folds_is_determined(ar, op, None, rv, ln, n1, n2);
            },
        },
    }
}

/// In a deterministic arithmetic a fold has one outcome.
proof fn lemma_folds_is_determined<T: Copy, B: Fn(BinaryOp, T, T) -> T, U: Fn(UnaryOp, T) -> T>(
    ar: &Arithmetic<T, B, U>,
    op: BinaryOp,
    base: Option<T>,
    term: T,
    factor: T,
    c1: T,
    c2: T,
)
    requires
        ar.deterministic(),
        ar.folds(op, base, term, factor, c1),
        ar.folds(op, base, term, factor, c2),
    ensures
        c1 == c2,
{
    let q1 = choose|q: T| #[trigger]
        ar.computes(BinaryOp::Mul, term, factor, q) && ar.computes(op, ar.or_zero(base), q, c1);
    let q2 = choose|q: T| #[trigger]
        ar.computes(BinaryOp::Mul, term, factor, q) && ar.computes(op, ar.or_zero(base), q, c2);
    assert(q1 == q2);
}

} // verus!
