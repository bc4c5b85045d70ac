use properr::{Arithmetic, BinaryOp, Registry, UnaryOp, UncertainValue};
use std::collections::HashMap;

type Binary = fn(BinaryOp, f64, f64) -> f64;
type Unary = fn(UnaryOp, f64) -> f64;
type Ieee = Arithmetic<f64, Binary, Unary>;

fn binary(op: BinaryOp, a: f64, b: f64) -> f64 {
    match op {
        BinaryOp::Add => a + b,
        BinaryOp::Sub => a - b,
        BinaryOp::Mul => a * b,
        BinaryOp::Div => a / b,
    }
}

fn unary(op: UnaryOp, a: f64) -> f64 {
    match op {
        UnaryOp::Neg => -a,
        UnaryOp::Sin => a.sin(),
        UnaryOp::Cos => a.cos(),
        UnaryOp::Sqrt => a.sqrt(),
        UnaryOp::Exp => a.exp(),
        UnaryOp::Ln => a.ln(),
    }
}

fn ieee() -> Ieee {
    Arithmetic::new(0.0, 1.0, -1.0, 0.5, binary as Binary, unary as Unary)
}

#[test]
fn basic_arithmetic() {
    let ar = ieee();
    let mut reg = Registry::new();
    let x = UncertainValue::new(3.0, 1.0, &mut reg, &ar);
    let y = UncertainValue::new(1.0, 0.5, &mut reg, &ar);
    let z = x.sub(&y, &ar);
    assert_eq!(z.nominal(), 2.0);
}

#[test]
fn division_cancels_uncertainty() {
    let ar = ieee();
    let mut reg = Registry::new();
    let x = UncertainValue::new(3.0, 1.0, &mut reg, &ar);
    let y = x.div(&x, &ar);
    assert_eq!(y.nominal(), 1.0);
    assert_eq!(y.stddev(&reg, &ar), 0.0);
}

#[test]
fn sine_propagates_uncertainty() {
    let ar = ieee();
    let mut reg = Registry::new();
    let x = UncertainValue::new(0.0, 1.0, &mut reg, &ar);
    let y = x.sin(&ar);
    assert_eq!(y.nominal(), 0.0);
    assert_eq!(y.stddev(&reg, &ar), 1.0);
}

#[test]
fn cosine_propagates_uncertainty() {
    let ar = ieee();
    let mut reg = Registry::new();
    let x = UncertainValue::new(0.0, 1.0, &mut reg, &ar);
    let y = x.cos(&ar);
    assert_eq!(y.nominal(), 1.0);
    assert_eq!(y.stddev(&reg, &ar), 0.0);
}

#[test]
fn sqrt_propagates_uncertainty() {
    let ar = ieee();
    let mut reg = Registry::new();
    let x = UncertainValue::new(4.0, 0.5, &mut reg, &ar);
    let y = x.sqrt(&ar);
    assert_eq!(y.nominal(), 2.0);
    // derivative 1/(2*sqrt(4)) = 1/4 -> variance = (0.5^2) * (1/4)^2 = 0.015625
    assert!((y.stddev(&reg, &ar) - 0.125).abs() < 1e-12);
}

#[test]
fn exp_propagates_uncertainty() {
    let ar = ieee();
    let mut reg = Registry::new();
    let x = UncertainValue::new(1.0, 0.1, &mut reg, &ar);
    let y = x.exp(&ar);
    assert!((y.nominal() - 2.718281828459045).abs() < 1e-12);
    assert!((y.stddev(&reg, &ar) - 0.27182818284590454).abs() < 1e-12);
}

#[test]
fn ln_propagates_uncertainty() {
    let ar = ieee();
    let mut reg = Registry::new();
    let x = UncertainValue::new(2.718281828459045, 0.1, &mut reg, &ar);
    let y = x.ln(&ar);
    assert!((y.nominal() - 1.0).abs() < 1e-12);
    assert!((y.stddev(&reg, &ar) - (0.1 / 2.718281828459045)).abs() < 1e-12);
}

#[test]
fn array_creation() {
    let ar = ieee();
    let mut reg = Registry::new();
    let arr = properr::uvals(vec![1.0, 2.0], vec![0.1, 0.2], &mut reg, &ar);
    let noms = properr::nominals(arr.clone());
    let sigs = properr::stddevs(arr, &reg, &ar);
    assert_eq!(noms, vec![1.0, 2.0]);
    assert_eq!(sigs, vec![0.1, 0.2]);
}

#[test]
fn difference_with_itself_has_no_uncertainty() {
    let ar = ieee();
    let mut reg = Registry::new();
    let x = UncertainValue::new(3.0, 1.0, &mut reg, &ar);
    let d = x.sub(&x, &ar);
    assert_eq!(d.nominal(), 0.0);
    let derivatives = d.derivatives();
    assert_eq!(derivatives.len(), 1);
    assert_eq!(derivatives[&0], 0.0);
    assert_eq!(d.stddev(&reg, &ar), 0.0);
}

#[test]
fn quotient_with_itself_has_zero_derivative() {
    let ar = ieee();
    let mut reg = Registry::new();
    let x = UncertainValue::new(7.5, 0.25, &mut reg, &ar);
    let q = x.div(&x, &ar);
    let derivatives = q.derivatives();
    assert_eq!(derivatives.len(), 1);
    assert_eq!(derivatives[&0], 0.0);
    assert_eq!(q.stddev(&reg, &ar), 0.0);
}

#[test]
fn sum_of_independent_values_adds_variances() {
    let ar = ieee();
    let mut reg = Registry::new();
    let x = UncertainValue::new(10.0, 3.0, &mut reg, &ar);
    let y = UncertainValue::new(20.0, 4.0, &mut reg, &ar);
    let z = x.add(&y, &ar);
    assert_eq!(z.nominal(), 30.0);
    assert_eq!(z.stddev(&reg, &ar), 5.0);
    let derivatives = z.derivatives();
    assert_eq!(derivatives.len(), 2);
    assert_eq!(derivatives[&0], 1.0);
    assert_eq!(derivatives[&1], 1.0);
}

#[test]
fn difference_of_independent_values_adds_variances() {
    let ar = ieee();
    let mut reg = Registry::new();
    let x = UncertainValue::new(10.0, 3.0, &mut reg, &ar);
    let y = UncertainValue::new(20.0, 4.0, &mut reg, &ar);
    let z = x.sub(&y, &ar);
    assert_eq!(z.nominal(), -10.0);
    assert_eq!(z.stddev(&reg, &ar), 5.0);
    let derivatives = z.derivatives();
    assert_eq!(derivatives[&0], 1.0);
    assert_eq!(derivatives[&1], -1.0);
}

#[test]
fn nominal_follows_plain_arithmetic() {
    let ar = ieee();
    let mut reg = Registry::new();
    let a = UncertainValue::new(6.5, 0.3, &mut reg, &ar);
    let b = UncertainValue::new(-2.0, 0.7, &mut reg, &ar);
    assert_eq!(a.add(&b, &ar).nominal(), 6.5 + -2.0);
    assert_eq!(a.sub(&b, &ar).nominal(), 6.5 - -2.0);
    assert_eq!(a.mul(&b, &ar).nominal(), 6.5 * -2.0);
    assert_eq!(a.div(&b, &ar).nominal(), 6.5 / -2.0);
}

#[test]
fn identical_pairs_are_independent() {
    let ar = ieee();
    let mut reg = Registry::new();
    let x = UncertainValue::new(1.0, 3.0, &mut reg, &ar);
    let y = UncertainValue::new(1.0, 3.0, &mut reg, &ar);
    let x_ids: Vec<u64> = x.derivatives().keys().copied().collect();
    let y_ids: Vec<u64> = y.derivatives().keys().copied().collect();
    assert_eq!(x_ids.len(), 1);
    assert_eq!(y_ids.len(), 1);
    assert_ne!(x_ids[0], y_ids[0]);
    let z = x.add(&y, &ar);
    // variance 9 + 9, not (2 * 3)^2
    assert_eq!(z.stddev(&reg, &ar), 18.0_f64.sqrt());
    assert_ne!(z.stddev(&reg, &ar), 6.0);
}

#[test]
fn sum_with_itself_is_fully_correlated() {
    let ar = ieee();
    let mut reg = Registry::new();
    let x = UncertainValue::new(1.0, 3.0, &mut reg, &ar);
    let z = x.add(&x, &ar);
    assert_eq!(z.nominal(), 2.0);
    assert_eq!(z.derivatives()[&0], 2.0);
    assert_eq!(z.stddev(&reg, &ar), 6.0);
}

#[test]
fn product_rule_coefficients() {
    let ar = ieee();
    let mut reg = Registry::new();
    let x = UncertainValue::new(2.0, 0.5, &mut reg, &ar);
    let y = UncertainValue::new(3.0, 0.25, &mut reg, &ar);
    let z = x.mul(&y, &ar);
    assert_eq!(z.nominal(), 6.0);
    let derivatives = z.derivatives();
    assert_eq!(derivatives.len(), 2);
    assert_eq!(derivatives[&0], 3.0);
    assert_eq!(derivatives[&1], 2.0);
    // sqrt(3^2 * 0.5^2 + 2^2 * 0.25^2) = sqrt(2.25 + 0.25)
    assert_eq!(z.stddev(&reg, &ar), 2.5_f64.sqrt());
}

#[test]
fn product_with_itself_doubles_the_derivative() {
    let ar = ieee();
    let mut reg = Registry::new();
    let x = UncertainValue::new(5.0, 0.5, &mut reg, &ar);
    let z = x.mul(&x, &ar);
    assert_eq!(z.nominal(), 25.0);
    assert_eq!(z.derivatives()[&0], 10.0);
    assert_eq!(z.stddev(&reg, &ar), 5.0);
}

#[test]
fn quotient_rule_coefficients() {
    let ar = ieee();
    let mut reg = Registry::new();
    let x = UncertainValue::new(6.0, 0.5, &mut reg, &ar);
    let y = UncertainValue::new(2.0, 0.25, &mut reg, &ar);
    let z = x.div(&y, &ar);
    assert_eq!(z.nominal(), 3.0);
    let derivatives = z.derivatives();
    assert_eq!(derivatives.len(), 2);
    // (1 * 2) / 2^2 and (0 - 1 * 6) / 2^2
    assert_eq!(derivatives[&0], 0.5);
    assert_eq!(derivatives[&1], -1.5);
    // sqrt(0.5^2 * 0.5^2 + 1.5^2 * 0.25^2) = sqrt(0.0625 + 0.140625)
    assert_eq!(z.stddev(&reg, &ar), 0.203125_f64.sqrt());
}

#[test]
fn chain_rule_factors() {
    let ar = ieee();
    let mut reg = Registry::new();
    let x = UncertainValue::new(0.5, 0.1, &mut reg, &ar);
    assert_eq!(x.sin(&ar).derivatives()[&0], 0.5_f64.cos());
    assert_eq!(x.cos(&ar).derivatives()[&0], -(0.5_f64.sin()));
    assert_eq!(x.exp(&ar).derivatives()[&0], 0.5_f64.exp());
    assert_eq!(x.ln(&ar).derivatives()[&0], 2.0);
    assert_eq!(x.sqrt(&ar).derivatives()[&0], 0.5 / 0.5_f64.sqrt());
    assert_eq!(x.sin(&ar).nominal(), 0.5_f64.sin());
    assert_eq!(x.cos(&ar).nominal(), 0.5_f64.cos());
    assert_eq!(x.exp(&ar).nominal(), 0.5_f64.exp());
    assert_eq!(x.ln(&ar).nominal(), 0.5_f64.ln());
    assert_eq!(x.sqrt(&ar).nominal(), 0.5_f64.sqrt());
}

#[test]
fn functions_keep_correlation() {
    let ar = ieee();
    let mut reg = Registry::new();
    let x = UncertainValue::new(0.3, 0.2, &mut reg, &ar);
    let e = x.exp(&ar);
    let z = e.div(&e, &ar);
    assert_eq!(z.nominal(), 1.0);
    assert_eq!(z.stddev(&reg, &ar), 0.0);
}

#[test]
fn out_of_domain_inputs_propagate_silently() {
    let ar = ieee();
    let mut reg = Registry::new();
    let negative = UncertainValue::new(-1.0, 0.1, &mut reg, &ar);
    let root = negative.sqrt(&ar);
    assert!(root.nominal().is_nan());
    assert!(root.stddev(&reg, &ar).is_nan());
    let log = negative.ln(&ar);
    assert!(log.nominal().is_nan());
    let zero = UncertainValue::new(0.0, 0.1, &mut reg, &ar);
    assert_eq!(zero.ln(&ar).nominal(), f64::NEG_INFINITY);
    assert_eq!(zero.ln(&ar).derivatives()[&1], f64::INFINITY);
    let quotient = negative.div(&zero, &ar);
    assert_eq!(quotient.nominal(), f64::NEG_INFINITY);
}

#[test]
fn from_parts_takes_the_map_as_it_is() {
    let ar = ieee();
    let mut reg = Registry::new();
    let x = UncertainValue::new(1.0, 0.5, &mut reg, &ar);
    let mut sensitivities = HashMap::new();
    sensitivities.insert(0, 4.0);
    sensitivities.insert(77, 9.0);
    let v = UncertainValue::from_parts(12.0, sensitivities.clone());
    assert_eq!(v.nominal(), 12.0);
    assert_eq!(v.derivatives(), sensitivities);
    // no identifier was issued for it
    let y = UncertainValue::new(1.0, 0.5, &mut reg, &ar);
    assert_eq!(y.derivatives()[&1], 1.0);
    // source 77 is unknown and contributes nothing: sqrt(4^2 * 0.5^2)
    assert_eq!(v.stddev(&reg, &ar), 2.0);
    assert_eq!(x.stddev(&reg, &ar), 0.5);
}

#[test]
fn unknown_sources_contribute_nothing() {
    let ar = ieee();
    let reg = Registry::new();
    let mut sensitivities = HashMap::new();
    sensitivities.insert(5, 3.0);
    sensitivities.insert(6, 4.0);
    let v = properr::from_parts(1.0, sensitivities);
    assert_eq!(v.stddev(&reg, &ar), 0.0);
    let constant = properr::from_parts(2.0, HashMap::new());
    assert_eq!(constant.stddev(&reg, &ar), 0.0);
}

#[test]
fn missing_entries_read_as_zero() {
    let ar = ieee();
    let mut reg = Registry::new();
    let x = UncertainValue::new(2.0, 0.5, &mut reg, &ar);
    let constant = UncertainValue::from_parts(10.0, HashMap::new());
    let sum = constant.add(&x, &ar);
    assert_eq!(sum.nominal(), 12.0);
    assert_eq!(sum.derivatives()[&0], 1.0);
    let difference = constant.sub(&x, &ar);
    assert_eq!(difference.derivatives()[&0], -1.0);
    let product = constant.mul(&x, &ar);
    assert_eq!(product.derivatives()[&0], 10.0);
    let quotient = constant.div(&x, &ar);
    assert_eq!(quotient.derivatives()[&0], -2.5);
    assert_eq!(quotient.stddev(&reg, &ar), 1.25);
}

#[test]
fn operations_leave_their_operands_alone() {
    let ar = ieee();
    let mut reg = Registry::new();
    let x = UncertainValue::new(2.0, 0.5, &mut reg, &ar);
    let y = UncertainValue::new(4.0, 0.25, &mut reg, &ar);
    let before = reg.lookup(0);
    let _ = x.add(&y, &ar);
    let _ = x.mul(&y, &ar);
    let _ = x.div(&y, &ar);
    let _ = x.sqrt(&ar);
    assert_eq!(x.nominal(), 2.0);
    assert_eq!(x.derivatives().len(), 1);
    assert_eq!(x.derivatives()[&0], 1.0);
    assert_eq!(y.derivatives()[&1], 1.0);
    assert_eq!(reg.lookup(0), before);
    assert_eq!(reg.lookup(2), None);
    let copy = x.clone();
    assert_eq!(copy.nominal(), 2.0);
    assert_eq!(copy.derivatives()[&0], 1.0);
    assert_eq!(reg.lookup(2), None);
}

#[test]
fn free_functions_agree_with_methods() {
    let ar = ieee();
    let mut reg = Registry::new();
    let x = properr::uval(0.25, 0.5, &mut reg, &ar);
    assert_eq!(properr::nominal(&x), 0.25);
    assert_eq!(properr::stddev(&x, &reg, &ar), 0.5);
    assert_eq!(properr::sin(&x, &ar).nominal(), x.sin(&ar).nominal());
    assert_eq!(properr::cos(&x, &ar).nominal(), x.cos(&ar).nominal());
    assert_eq!(properr::exp(&x, &ar).nominal(), x.exp(&ar).nominal());
    assert_eq!(properr::ln(&x, &ar).nominal(), x.ln(&ar).nominal());
    assert_eq!(properr::sqrt(&x, &ar).nominal(), 0.5);
    assert_eq!(properr::sqrt(&x, &ar).derivatives()[&0], 1.0);
    assert_eq!(
        properr::sin(&x, &ar).stddev(&reg, &ar),
        x.sin(&ar).stddev(&reg, &ar)
    );
}

#[test]
fn batch_round_trip() {
    let ar = ieee();
    let mut reg = Registry::new();
    let _ = UncertainValue::new(9.0, 9.0, &mut reg, &ar);
    let nominals = vec![1.5, -2.0, 0.0, 1e10];
    let sigmas = vec![0.1, 0.2, 0.0, 3.0];
    let values = properr::uvals(nominals.clone(), sigmas.clone(), &mut reg, &ar);
    assert_eq!(values.len(), 4);
    for (i, v) in values.iter().enumerate() {
        let derivatives = v.derivatives();
        assert_eq!(derivatives.len(), 1);
        assert_eq!(derivatives[&(i as u64 + 1)], 1.0);
    }
    assert_eq!(properr::nominals(values.clone()), nominals);
    assert_eq!(properr::stddevs(values, &reg, &ar), sigmas);
    let none = properr::uvals(Vec::new(), Vec::new(), &mut reg, &ar);
    assert!(none.is_empty());
    assert!(properr::nominals(none.clone()).is_empty());
    assert!(properr::stddevs(none, &reg, &ar).is_empty());
}

#[test]
fn arithmetic_carries_out_its_operations() {
    let ar = ieee();
    assert_eq!(ar.apply(BinaryOp::Add, 2.0, 3.0), 5.0);
    assert_eq!(ar.apply(BinaryOp::Sub, 2.0, 3.0), -1.0);
    assert_eq!(ar.apply(BinaryOp::Mul, 2.0, 3.0), 6.0);
    assert_eq!(ar.apply(BinaryOp::Div, 3.0, 2.0), 1.5);
    assert_eq!(ar.apply_unary(UnaryOp::Neg, 2.0), -2.0);
    assert_eq!(ar.apply_unary(UnaryOp::Sqrt, 9.0), 3.0);
    assert_eq!(ar.apply_unary(UnaryOp::Exp, 0.0), 1.0);
    assert_eq!(ar.apply_unary(UnaryOp::Ln, 1.0), 0.0);
    assert_eq!(ar.apply_unary(UnaryOp::Sin, 0.0), 0.0);
    assert_eq!(ar.apply_unary(UnaryOp::Cos, 0.0), 1.0);
    assert_eq!((ar.zero, ar.one, ar.minus_one, ar.half), (0.0, 1.0, -1.0, 0.5));
}
