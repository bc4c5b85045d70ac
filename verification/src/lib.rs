//! Linear (first-order) propagation of uncertainty.
//!
//! A quantity carries a nominal value and, for every independent source of
//! uncertainty it depends on, the partial derivative of the nominal value
//! with respect to that source. Arithmetic and elementary functions recombine
//! these derivatives by the chain rule, so that quantities sharing a source
//! stay correlated, and the standard deviation of any derived quantity can be
//! read off from its derivatives and the sources' own standard deviations.
//!
//! The engine is generic over the scalar type: the caller supplies the scalar
//! arithmetic as an [`Arithmetic`], and every contract states its result as an
//! outcome of that arithmetic.

pub mod algebra;
pub mod arithmetic;
pub mod correlation;
pub mod determinacy;
pub mod deviation;
pub mod dispatch;
pub mod functions;
pub mod registry;
mod sensitivity;
pub mod value;

pub use algebra::ValueModel;
pub use arithmetic::{Arithmetic, BinaryOp, UnaryOp};
pub use dispatch::{is_plain_call, ufunc_operation, Operation};
pub use functions::{
    cos, exp, from_parts, ln, nominal, nominals, sin, sqrt, stddev, stddevs, uval, uvals,
};
pub use registry::{Registry, RegistryModel};
pub use value::UncertainValue;
