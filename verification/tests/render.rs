use quote::ToTokens;
use rstest::{
    add_parametrize_cases, render_fixture, render_fn_test, CaseArg, FnArg, FnItem, Modifiers,
    ParametrizeData, ParametrizeInfo, Pat, Resolver, ReturnType, TestCase,
};
use rstest::render::{arg_2_fixture, fn_arg_ident};
use syn::parse::{Parse, ParseStream, Result};
use syn::visit::Visit;
use syn::{parse_str, ItemImpl, ItemMod, ItemStruct, Stmt};

fn tokens<T: ToTokens>(t: &T) -> String {
    t.into_token_stream().to_string()
}

fn model(item: &syn::ItemFn) -> FnItem {
    FnItem {
        attrs: item.attrs.iter().map(tokens).collect(),
        vis: tokens(&item.vis),
        ident: item.ident.to_string(),
        inputs: item
            .decl
            .inputs
            .iter()
            .map(|arg| match arg {
                syn::FnArg::Captured(c) => FnArg::Captured {
                    pat: match &c.pat {
                        syn::Pat::Ident(p) => Pat::Ident(p.ident.to_string()),
                        _ => Pat::Other,
                    },
                    tokens: tokens(arg),
                },
                _ => FnArg::Other { tokens: tokens(arg) },
            })
            .collect(),
        output: match &item.decl.output {
            syn::ReturnType::Default => ReturnType::Default,
            syn::ReturnType::Type(_, t) => ReturnType::Type(tokens(t)),
        },
        tokens: tokens(item),
    }
}

fn parse_model(code: &str) -> FnItem {
    model(&parse_str::<syn::ItemFn>(code).unwrap())
}

fn first_arg_ident(ast: &FnItem) -> String {
    fn_arg_ident(&ast.inputs[0]).unwrap().clone()
}

fn assert_statement_eq(expected: &str, text: String) {
    assert_eq!(parse_str::<Stmt>(expected).unwrap(), parse_str::<Stmt>(&text).unwrap());
}

fn case_arg(s: &str) -> CaseArg {
    CaseArg::new(tokens(&parse_str::<syn::Expr>(s).unwrap()))
}

#[test]
fn extract_fixture_call_arg() {
    let ast = parse_model("fn foo(mut fix: String) {}");
    let arg = first_arg_ident(&ast);
    let resolver = Resolver::default();

    let line = arg_2_fixture(&arg, &resolver);

    assert_statement_eq("let fix = fix();", line);
}

#[test]
fn extract_fixture_should_not_add_mut() {
    let ast = parse_model("fn foo(mut fix: String) {}");
    let arg = first_arg_ident(&ast);
    let resolver = Resolver::default();

    let line = arg_2_fixture(&arg, &resolver);

    assert_statement_eq("let fix = fix();", line);
}

#[test]
fn arg_2_fixture_str_should_use_passed_fixture_if_any() {
    let ast = parse_model("fn foo(mut fix: String) {}");
    let arg = first_arg_ident(&ast);
    let call = case_arg("bar()");
    let mut resolver = Resolver::default();
    resolver.add(&"fix".to_string(), &call);

    let line = arg_2_fixture(&arg, &resolver);

    assert_statement_eq("let fix = bar();", line);
}

#[test]
fn resolver_should_return_the_given_expression() {
    let ast = parse_model("fn function(mut foo: String) {}");
    let arg = first_arg_ident(&ast);
    let expected = case_arg("bar()");
    let mut resolver = Resolver::default();

    resolver.add(&"foo".to_string(), &expected);

    assert_eq!(&expected, resolver.resolve(&arg).unwrap())
}

#[test]
fn resolver_should_return_none_for_unknown_argument() {
    let ast = parse_model("fn function(mut fix: String) {}");
    let arg = first_arg_ident(&ast);
    let resolver = Resolver::default();

    assert!(resolver.resolve(&arg).is_none())
}

#[test]
fn add_return_type_if_any() {
    let code = "fn function(mut fix: String) -> Result<i32, String> { Ok(42) }";
    let ast: syn::ItemFn = parse_str(code).unwrap();

    let text = render_fn_test(
        &"new_name".to_string(),
        &model(&ast),
        &Resolver::default(),
        &Modifiers::default(),
        false,
    );

    let result: syn::ItemFn = parse_str(&text).unwrap();

    assert_eq!(result.ident.to_string(), "new_name");
    assert_eq!(result.decl.output, ast.decl.output);
}

struct ParametrizeOutput {
    orig: syn::ItemFn,
    module: ItemMod,
}

impl Parse for ParametrizeOutput {
    fn parse(input: ParseStream) -> Result<Self> {
        Ok(Self { orig: input.parse()?, module: input.parse()? })
    }
}

impl ParametrizeOutput {
    fn from(text: String) -> Self {
        parse_str::<ParametrizeOutput>(&text).unwrap()
    }

    fn get_test_functions(&self) -> Vec<syn::ItemFn> {
        let mut f = TestFunctions(vec![]);
        f.visit_item_mod(&self.module);
        f.0
    }
}

struct TestFunctions(Vec<syn::ItemFn>);

impl TestFunctions {
    fn is_test_fn(item_fn: &syn::ItemFn) -> bool {
        item_fn.attrs.iter().any(|a| a.path == parse_str::<syn::Path>("test").unwrap())
    }
}

impl<'ast> Visit<'ast> for TestFunctions {
    fn visit_item_fn(&mut self, item_fn: &'ast syn::ItemFn) {
        if Self::is_test_fn(item_fn) {
            self.0.push(item_fn.clone())
        }
    }
}

fn info_of(item_fn: &FnItem) -> ParametrizeInfo {
    ParametrizeInfo {
        data: ParametrizeData { args: rstest::render::fn_args_idents(item_fn), cases: vec![] },
        modifier: Modifiers::default(),
    }
}

fn simple_case() -> TestCase {
    TestCase { args: vec![case_arg(r#"String::from("3")"#)], description: None }
}

fn one_simple_case() -> (FnItem, ParametrizeInfo) {
    let item_fn = parse_model(r#"fn test(mut fix: String) { println!("user code") }"#);
    let mut info = info_of(&item_fn);
    info.data.cases.push(simple_case());
    (item_fn, info)
}

fn some_simple_cases(cases: i32) -> (FnItem, ParametrizeInfo) {
    let item_fn = parse_model(r#"fn test(mut fix: String) { println!("user code") }"#);
    let mut info = info_of(&item_fn);
    info.data.cases.extend((0..cases).map(|_| simple_case()));
    (item_fn, info)
}

#[test]
fn should_create_a_module_named_as_test_function() {
    let item_fn = parse_model("fn should_be_the_module_name(mut fix: String) {}");
    let info = info_of(&item_fn);
    let text = add_parametrize_cases(&item_fn, &info);

    let output = ParametrizeOutput::from(text);

    assert_eq!(output.module.ident, "should_be_the_module_name");
}

#[test]
fn should_copy_user_function() {
    let ast = parse_str::<syn::ItemFn>(
        r#"fn should_be_the_module_name(mut fix: String) { println!("user code") }"#,
    )
    .unwrap();
    let item_fn = model(&ast);
    let info = info_of(&item_fn);
    let text = add_parametrize_cases(&item_fn, &info);

    let mut output = ParametrizeOutput::from(text);

    output.orig.attrs = vec![];
    assert_eq!(output.orig, ast);
}

#[test]
fn should_mark_user_function_as_test() {
    let item_fn =
        parse_model(r#"fn should_be_the_module_name(mut fix: String) { println!("user code") }"#);
    let info = info_of(&item_fn);
    let text = add_parametrize_cases(&item_fn, &info);

    let output = ParametrizeOutput::from(text);

    let expected = parse_str::<syn::ItemFn>("#[cfg(test)] fn some() {}").unwrap().attrs;

    assert_eq!(expected, output.orig.attrs);
}

#[test]
fn should_mark_module_as_test() {
    let item_fn =
        parse_model(r#"fn should_be_the_module_name(mut fix: String) { println!("user code") }"#);
    let info = info_of(&item_fn);
    let text = add_parametrize_cases(&item_fn, &info);

    let output = ParametrizeOutput::from(text);

    let expected = parse_str::<ItemMod>("#[cfg(test)] mod some {}").unwrap().attrs;

    assert_eq!(expected, output.module.attrs);
}

#[test]
fn should_add_a_test_case() {
    let (item_fn, info) = one_simple_case();

    let text = add_parametrize_cases(&item_fn, &info);

    let tests = ParametrizeOutput::from(text).get_test_functions();

    assert_eq!(1, tests.len());
    assert!(&tests[0].ident.to_string().starts_with("case_"))
}

#[test]
fn case_number_should_starts_from_1() {
    let (item_fn, info) = one_simple_case();

    let text = add_parametrize_cases(&item_fn, &info);

    let tests = ParametrizeOutput::from(text).get_test_functions();

    assert!(&tests[0].ident.to_string().starts_with("case_1"))
}

#[test]
fn should_add_all_test_cases() {
    let (item_fn, info) = some_simple_cases(5);

    let text = add_parametrize_cases(&item_fn, &info);

    let tests = ParametrizeOutput::from(text).get_test_functions();

    let valid_names = tests.iter().filter(|it| it.ident.to_string().starts_with("case_"));
    assert_eq!(5, valid_names.count())
}

#[test]
fn should_left_pad_case_number_by_zeros() {
    let (item_fn, info) = some_simple_cases(1000);

    let text = add_parametrize_cases(&item_fn, &info);

    let tests = ParametrizeOutput::from(text).get_test_functions();

    let first_name = tests[0].ident.to_string();
    let last_name = tests[999].ident.to_string();

    assert!(first_name.ends_with("_0001"));
    assert!(last_name.ends_with("_1000"));

    let valid_names = tests.iter().filter(|it| it.ident.to_string().len() == first_name.len());
    assert_eq!(1000, valid_names.count())
}

#[test]
fn should_use_description_if_any() {
    let (item_fn, mut info) = one_simple_case();
    let description = "show_this_description";
    info.data.cases[0].description = Some(parse_str::<syn::Ident>(description).unwrap().to_string());

    let text = add_parametrize_cases(&item_fn, &info);

    let tests = ParametrizeOutput::from(text).get_test_functions();

    assert!(tests[0].ident.to_string().ends_with(&format!("_{}", description)));
}

struct FixtureOutput {
    orig: syn::ItemFn,
    fixture: ItemStruct,
    core_impl: ItemImpl,
    default_impl: ItemImpl,
}

impl Parse for FixtureOutput {
    fn parse(input: ParseStream) -> Result<Self> {
        Ok(FixtureOutput {
            fixture: input.parse()?,
            core_impl: input.parse()?,
            default_impl: input.parse()?,
            orig: input.parse()?,
        })
    }
}

fn test_maintains_function_visibility(code: &str) {
    let ast = parse_str::<syn::ItemFn>(code).unwrap();
    let expected_visibility = ast.vis.clone();

    let text = render_fixture(&model(&ast), &Resolver::default(), &Modifiers::default());

    let out: FixtureOutput = parse_str(&text).unwrap();

    assert_eq!(expected_visibility, out.fixture.vis);
    assert_eq!(expected_visibility, out.orig.vis);
    assert_eq!(out.core_impl.items.len(), 2);
    assert!(out.default_impl.trait_.is_some());
}

#[test]
fn should_maintains_pub_visibility() {
    test_maintains_function_visibility(r#"pub fn test() { }"#);
}

#[test]
fn should_maintains_no_pub_visibility() {
    test_maintains_function_visibility(r#"fn test() { }"#);
}
