//! Reading the annotated function from the macro's input tokens with `syn`.
//!
//! The text of each piece is the token printing of `proc_macro2`, which
//! differs between running within the compiler and running outside it; so the
//! wrappers here state nothing of what they return, and the entry points state
//! what holds whatever the parser made of the input.

use vstd::prelude::*;

use crate::model::{FnArg, FnItem, Modifiers, ParametrizeInfo, Pat, ReturnType};
use crate::parametrize::{parametrize_expansion, rstest_parametrize};
use crate::render::{fixture, fixture_text, rstest, test_fn_text};

verus! {

#[verifier::external_type_specification]
#[verifier::external_body]
pub struct ExTokenStream(proc_macro2::TokenStream);

#[verifier::external_type_specification]
#[verifier::external_body]
pub struct ExSynItemFn(syn::ItemFn);

#[verifier::external_type_specification]
#[verifier::external_body]
pub struct ExSynError(syn::Error);

/// Why the macro input could not be read.
pub enum InputError {
    /// The input is not a function item; `syn`'s error, with its span.
    Syntax(syn::Error),
}

/// Calls `syn::parse2::<syn::ItemFn>` on the input tokens. Nothing is stated
/// of the outcome.
#[verifier::external_body]
fn parse_item_fn(tokens: proc_macro2::TokenStream) -> Result<syn::ItemFn, syn::Error> {
    syn::parse2::<syn::ItemFn>(tokens)
}

/// The name of the function (`Ident::to_string`). Nothing is stated of it.
#[verifier::external_body]
fn item_ident(item: &syn::ItemFn) -> String {
    item.ident.to_string()
}

/// The token text of the function's visibility (`ToTokens` printing). Nothing
/// is stated of it.
#[verifier::external_body]
fn item_vis(item: &syn::ItemFn) -> String {
    quote::ToTokens::into_token_stream(&item.vis).to_string()
}

/// The token text of the whole function (`ToTokens` printing). Nothing is
/// stated of it.
#[verifier::external_body]
fn item_tokens(item: &syn::ItemFn) -> String {
    quote::ToTokens::into_token_stream(item).to_string()
}

/// The number of attributes of the function. Nothing is stated of it.
#[verifier::external_body]
fn item_attr_count(item: &syn::ItemFn) -> usize {
    item.attrs.len()
}

/// The token text of attribute `i`, if there is one. Nothing is stated of it.
#[verifier::external_body]
fn item_attr(item: &syn::ItemFn, i: usize) -> Option<String> {
    item.attrs.get(i).map(|a| quote::ToTokens::into_token_stream(a).to_string())
}

/// The number of arguments of the function (`Punctuated::len`). Nothing is
/// stated of it.
#[verifier::external_body]
fn item_input_count(item: &syn::ItemFn) -> usize {
    item.decl.inputs.len()
}

/// Argument `i` of the function, if there is one: a typed argument with its
/// pattern told apart as a plain binding or not, or another argument, each
/// with its token text. Nothing is stated of it.
#[verifier::external_body]
fn item_input(item: &syn::ItemFn, i: usize) -> Option<FnArg> {
    item.decl.inputs.iter().nth(i).map(|arg| {
        let tokens = quote::ToTokens::into_token_stream(arg).to_string();
        match arg {
            syn::FnArg::Captured(c) => match &c.pat {
                syn::Pat::Ident(p) => FnArg::Captured { pat: Pat::Ident(p.ident.to_string()), tokens },
                _ => FnArg::Captured { pat: Pat::Other, tokens },
            },
            _ => FnArg::Other { tokens },
        }
    })
}

/// The return type of the function, with the token text of the type. Nothing
/// is stated of it.
#[verifier::external_body]
fn item_output(item: &syn::ItemFn) -> ReturnType {
    match &item.decl.output {
        syn::ReturnType::Default => ReturnType::Default,
        syn::ReturnType::Type(_, t) => ReturnType::Type(quote::ToTokens::into_token_stream(t).to_string()),
    }
}

/// The function as the library sees it: its attributes and arguments in
/// order, its visibility, name, return type and whole token text.
fn item_fn_model(item: &syn::ItemFn) -> FnItem {
    let mut attrs: Vec<String> = Vec::new();
    let n_attrs = item_attr_count(item);
    let mut i: usize = 0;
    while i < n_attrs
        decreases n_attrs - i,
    {
        if let Some(a) = item_attr(item, i) {
            attrs.push(a);
        }
        i = i + 1;
    }
    let mut inputs: Vec<FnArg> = Vec::new();
    let n_inputs = item_input_count(item);
    let mut k: usize = 0;
    while k < n_inputs
        decreases n_inputs - k,
    {
        if let Some(a) = item_input(item, k) {
            inputs.push(a);
        }
        k = k + 1;
    }
    FnItem {
        attrs,
        vis: item_vis(item),
        ident: item_ident(item),
        inputs,
        output: item_output(item),
        tokens: item_tokens(item),
    }
}

/// Reads the annotated function from the macro's input.
fn read_item_fn(input: proc_macro2::TokenStream) -> Result<FnItem, InputError> {
    match parse_item_fn(input) {
        Ok(item) => Ok(item_fn_model(&item)),
        Err(e) => Err(InputError::Syntax(e)),
    }
}

/// The expansion of `#[rstest]` on the input tokens: the test function that
/// `rstest` renders for the function read from them, or why they could not
/// be read.
pub fn rstest_tokens(modifiers: &Modifiers, input: proc_macro2::TokenStream) -> (r: Result<String, InputError>)
    ensures
        r matches Ok(t) ==> exists|f: FnItem|
            t@ == #[trigger] test_fn_text(f.ident@, f, Map::empty(), modifiers.modifiers@, true),
{
    match read_item_fn(input) {
        Ok(f) => {
            let t = rstest(modifiers, &f);
            assert(t@ == test_fn_text(f.ident@, f, Map::empty(), modifiers.modifiers@, true));
            Ok(t)
        },
        Err(e) => Err(e),
    }
}

/// The expansion of `#[fixture]` on the input tokens: the fixture that
/// `fixture` renders for the function read from them, or why they could not
/// be read.
pub fn fixture_tokens(modifiers: &Modifiers, input: proc_macro2::TokenStream) -> (r: Result<String, InputError>)
    ensures
        r matches Ok(t) ==> exists|f: FnItem| t@ == #[trigger] fixture_text(f, Map::empty()),
{
    match read_item_fn(input) {
        Ok(f) => {
            let t = fixture(modifiers, &f);
            assert(t@ == fixture_text(f, Map::empty()));
            Ok(t)
        },
        Err(e) => Err(e),
    }
}

/// The expansion of `#[rstest_parametrize]` on the input tokens: what
/// `rstest_parametrize` renders for `params` and the function read from them,
/// or why they could not be read.
pub fn rstest_parametrize_tokens(params: &ParametrizeInfo, input: proc_macro2::TokenStream) -> (r: Result<String, InputError>)
    ensures
        r matches Ok(t) ==> exists|f: FnItem|
            t@ == #[trigger] parametrize_expansion(f, params.data, params.modifier.modifiers@),
{
    match read_item_fn(input) {
        Ok(f) => {
            let t = rstest_parametrize(params, &f);
            assert(t@ == parametrize_expansion(f, params.data, params.modifier.modifiers@));
            Ok(t)
        },
        Err(e) => Err(e),
    }
}

} // verus!
