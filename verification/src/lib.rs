//! Attribute-macro logic for fixture based tests: test and fixture rendering,
//! parametrized case expansion and argument tracing, all proved against
//! contracts over the token text they produce.

pub mod input;
pub mod model;
pub mod modifiers;
pub mod parametrize;
pub mod render;
pub mod resolver;
pub mod syntax;
pub mod text;

pub use model::{
    CaseArg, FnArg, FnItem, Modifiers, ParametrizeData, ParametrizeInfo, Pat, ReturnType,
    RsTestAttribute, TestCase,
};
pub use parametrize::{add_parametrize_cases, errors_in_parametrize, format_case_name, rstest_parametrize};
pub use render::{fixture, render_fixture, render_fn_test, rstest};
pub use resolver::Resolver;
