//! The values the macros work on: a test or fixture function, its arguments,
//! the attribute modifiers and the parametrized cases. Every piece of Rust
//! syntax is held as its token text.

use vstd::prelude::*;

verus! {

/// One modifier given in a macro attribute: a bare word (`trace`) or a word
/// tagging a list of argument names (`notrace(a, b)`).
#[derive(Debug)]
pub enum RsTestAttribute {
    Attr(String),
    Tagged(String, Vec<String>),
}

/// The modifiers given to a macro attribute, in the order written.
#[derive(Debug)]
pub struct Modifiers {
    pub modifiers: Vec<RsTestAttribute>,
}

impl Default for Modifiers {
    fn default() -> (m: Self)
        ensures
            m.modifiers@.len() == 0,
    {
        Modifiers { modifiers: Vec::new() }
    }
}

/// An argument value of a parametrized case: the token text of an expression.
#[derive(Debug, PartialEq, Eq)]
pub struct CaseArg {
    pub tokens: String,
}

impl CaseArg {
    pub fn new(tokens: String) -> (c: Self)
        ensures
            c.tokens == tokens,
    {
        CaseArg { tokens }
    }
}

/// One case of a parametrized test: its argument values and an optional
/// description (an identifier).
#[derive(Debug)]
pub struct TestCase {
    pub args: Vec<CaseArg>,
    pub description: Option<String>,
}

/// The parameter names of a parametrized test and its cases.
#[derive(Debug)]
pub struct ParametrizeData {
    pub args: Vec<String>,
    pub cases: Vec<TestCase>,
}

/// Parametrized data with the modifiers given alongside it.
#[derive(Debug)]
pub struct ParametrizeInfo {
    pub data: ParametrizeData,
    pub modifier: Modifiers,
}

/// The pattern of a typed function argument.
#[derive(Debug)]
pub enum Pat {
    /// A plain binding such as `fix` or `mut fix`: the bound name.
    Ident(String),
    /// Any other pattern.
    Other,
}

/// A function argument with its token text (`mut fix: String`).
#[derive(Debug)]
pub enum FnArg {
    /// A typed argument `pattern: Type`.
    Captured { pat: Pat, tokens: String },
    /// Any other argument (`self`, `&self`, ...).
    Other { tokens: String },
}

/// The return type of a function.
#[derive(Debug)]
pub enum ReturnType {
    /// No return type written.
    Default,
    /// `-> T`, holding the token text of `T`.
    Type(String),
}

/// A function item: the pieces the macros read, each as token text, and the
/// token text of the whole item.
#[derive(Debug)]
pub struct FnItem {
    pub attrs: Vec<String>,
    pub vis: String,
    pub ident: String,
    pub inputs: Vec<FnArg>,
    pub output: ReturnType,
    pub tokens: String,
}

/// The text of an optional string, by view.
pub open spec fn opt_view(o: Option<String>) -> Option<Seq<char>> {
    match o {
        Some(s) => Some(s@),
        None => None,
    }
}

/// The texts of a vector of strings.
pub open spec fn views(v: Seq<String>) -> Seq<Seq<char>> {
    v.map_values(|s: String| s@)
}

} // verus!
