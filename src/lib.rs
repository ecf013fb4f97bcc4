//! Evaluation of compiled postfix expressions over graph elements.
//!
//! An `Evaluator` holds a decoded instruction sequence and computes one dynamically typed
//! `Value` per call, resolving variables through a `Context`. Every outcome, errors
//! included, is stated by the spec function `eval::eval_spec` and proved.

pub mod error;
pub mod value;
pub mod operator;
pub mod apply;
pub mod context;
pub mod eval;
pub mod compiled;
pub mod laws;

pub use compiled::{Const, ExprOpr, Literal, OprItem, SuffixExpr, Variable};
pub use context::{Context, Element, ElementList, NoneContext};
pub use error::{ExprError, OperatorDesc, ParseError};
pub use eval::Evaluator;
pub use operator::{Arithmetic, InnerOpr, Logical, NameOrId, PropKey, describe};
pub use value::Value;
