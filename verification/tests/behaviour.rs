use rstest::input::{fixture_tokens, rstest_parametrize_tokens, rstest_tokens, InputError};
use rstest::syntax::is_plain_ident_string;
use rstest::modifiers::{NOTRACE_VARIABLE_ATTR, TRACE_VARIABLE_ATTR};
use rstest::parametrize::error_statement;
use rstest::render::{
    arg_2_fixture, arg_2_fixture_dump, arg_2_fixture_dump_str, convert_output_type, trace_arguments,
};
use rstest::text::{decimal_string, join_string, lines_string, zero_padded};
use rstest::{
    errors_in_parametrize, fixture, format_case_name, rstest, rstest_parametrize, CaseArg, FnArg,
    FnItem, Modifiers, ParametrizeData, ParametrizeInfo, Pat, Resolver, ReturnType,
    RsTestAttribute, TestCase,
};
use syn::parse_str;

fn s(x: &str) -> String {
    x.to_string()
}

fn arg(name: &str, ty: &str) -> FnArg {
    FnArg::Captured { pat: Pat::Ident(s(name)), tokens: format!("{}: {}", name, ty) }
}

fn item(vis: &str, name: &str, args: Vec<FnArg>, output: ReturnType, tokens: &str) -> FnItem {
    FnItem { attrs: vec![], vis: s(vis), ident: s(name), inputs: args, output, tokens: s(tokens) }
}

fn cases(n: usize, descriptions: Vec<Option<&str>>) -> ParametrizeData {
    ParametrizeData {
        args: vec![s("x")],
        cases: (0..n)
            .map(|i| TestCase {
                args: vec![CaseArg::new(i.to_string())],
                description: descriptions.get(i).cloned().flatten().map(s),
            })
            .collect(),
    }
}

fn trace() -> RsTestAttribute {
    RsTestAttribute::Attr(s(TRACE_VARIABLE_ATTR))
}

fn notrace(names: &[&str]) -> RsTestAttribute {
    RsTestAttribute::Tagged(s(NOTRACE_VARIABLE_ATTR), names.iter().map(|n| s(n)).collect())
}

#[test]
fn decimal_numerals() {
    assert_eq!(decimal_string(0), "0");
    assert_eq!(decimal_string(7), "7");
    assert_eq!(decimal_string(10), "10");
    assert_eq!(decimal_string(1000), "1000");
    assert_eq!(decimal_string(907), "907");
}

#[test]
fn zero_padding() {
    assert_eq!(zero_padded(&s("7"), 3), "007");
    assert_eq!(zero_padded(&s("1234"), 2), "1234");
    assert_eq!(zero_padded(&s("12"), 2), "12");
    assert_eq!(zero_padded(&s(""), 0), "");
}

#[test]
fn joining_and_lines() {
    assert_eq!(join_string(&vec![s("a"), s("b"), s("c")], ", "), "a, b, c");
    assert_eq!(join_string(&vec![s("a")], ", "), "a");
    assert_eq!(join_string(&vec![], ", "), "");
    assert_eq!(lines_string(&vec![s("a;"), s("b;")]), "a;\nb;\n");
    assert_eq!(lines_string(&vec![]), "");
}

#[test]
fn case_names_are_exact() {
    let three = cases(3, vec![]);
    assert_eq!(format_case_name(&three, 0), "case_1");
    assert_eq!(format_case_name(&three, 2), "case_3");
    let ten = cases(10, vec![Some("first")]);
    assert_eq!(format_case_name(&ten, 0), "case_01_first");
    assert_eq!(format_case_name(&ten, 9), "case_10");
    let thousand = cases(1000, vec![]);
    assert_eq!(format_case_name(&thousand, 0), "case_0001");
    assert_eq!(format_case_name(&thousand, 99), "case_0100");
    assert_eq!(format_case_name(&thousand, 999), "case_1000");
}

#[test]
fn case_names_are_distinct_and_equally_long() {
    let data = cases(120, vec![Some("a"), None, Some("b")]);
    let names: Vec<String> = (0..120).map(|i| format_case_name(&data, i)).collect();
    for i in 0..120 {
        for j in 0..120 {
            if i != j {
                assert_ne!(names[i], names[j]);
            }
        }
    }
    let plain = cases(120, vec![]);
    let len = format_case_name(&plain, 0).len();
    assert!((0..120).all(|i| format_case_name(&plain, i).len() == len));
}

#[test]
fn trace_modifiers() {
    let none = Modifiers::default();
    assert!(!none.should_trace());
    assert!(!none.trace_me(&s("a")));

    let traced = Modifiers { modifiers: vec![trace()] };
    assert!(traced.should_trace());
    assert!(traced.trace_me(&s("a")));

    let partly = Modifiers { modifiers: vec![notrace(&["b", "c"]), trace()] };
    assert!(partly.should_trace());
    assert!(partly.trace_me(&s("a")));
    assert!(!partly.trace_me(&s("b")));
    assert!(!partly.trace_me(&s("c")));

    let only_notrace = Modifiers { modifiers: vec![notrace(&["a"])] };
    assert!(!only_notrace.should_trace());
    assert!(!only_notrace.trace_me(&s("b")));
}

#[test]
fn single_modifier_checks() {
    assert!(Modifiers::is_trace(&trace()));
    assert!(!Modifiers::is_trace(&RsTestAttribute::Attr(s("other"))));
    assert!(!Modifiers::is_trace(&notrace(&["trace"])));
    assert!(Modifiers::is_notrace(&s("a"), &notrace(&["b", "a"])));
    assert!(!Modifiers::is_notrace(&s("a"), &notrace(&["b"])));
    assert!(!Modifiers::is_notrace(&s("a"), &RsTestAttribute::Tagged(s("other"), vec![s("a")])));
    assert!(!Modifiers::is_notrace(&s("notrace"), &RsTestAttribute::Attr(s("notrace"))));
}

#[test]
fn dump_statement_text() {
    assert_eq!(arg_2_fixture_dump_str(&s("fix")), r#"println!("fix = {:?}", fix);"#);
}

#[test]
fn dump_only_traced_and_parsable_arguments() {
    let traced = Modifiers { modifiers: vec![trace(), notrace(&["b"])] };
    assert_eq!(arg_2_fixture_dump(&s("a"), &traced), Some(s(r#"println!("a = {:?}", a);"#)));
    assert_eq!(arg_2_fixture_dump(&s("b"), &traced), None);
    assert_eq!(arg_2_fixture_dump(&s("a"), &Modifiers::default()), None);
    // A name that is not a plain identifier is not printed.
    assert_eq!(arg_2_fixture_dump(&s("données"), &traced), None);
    assert_eq!(arg_2_fixture_dump(&s("a b"), &traced), None);
}

#[test]
fn plain_identifiers() {
    assert!(is_plain_ident_string(&s("fix")));
    assert!(is_plain_ident_string(&s("_x1")));
    assert!(is_plain_ident_string(&s("_")));
    assert!(!is_plain_ident_string(&s("")));
    assert!(!is_plain_ident_string(&s("1x")));
    assert!(!is_plain_ident_string(&s("a b")));
    assert!(!is_plain_ident_string(&s("données")));
}

#[test]
fn case_names_sort_in_case_order() {
    let plain = cases(1000, vec![]);
    let names: Vec<String> = (0..1000).map(|i| format_case_name(&plain, i)).collect();
    let mut sorted = names.clone();
    sorted.sort();
    assert_eq!(names, sorted);
}

#[test]
fn tracing_ignores_modifier_order_and_survives_additions() {
    let a = Modifiers { modifiers: vec![notrace(&["b"]), trace()] };
    let b = Modifiers { modifiers: vec![trace(), notrace(&["b"])] };
    for name in ["a", "b", "c"] {
        assert_eq!(a.trace_me(&s(name)), b.trace_me(&s(name)));
    }
    assert_eq!(a.should_trace(), b.should_trace());
    let more = Modifiers { modifiers: vec![trace(), RsTestAttribute::Attr(s("other")), notrace(&["x"])] };
    assert!(more.should_trace());
}

#[test]
fn trace_block_lists_traced_arguments() {
    let traced = Modifiers { modifiers: vec![trace(), notrace(&["b"])] };
    let block = trace_arguments(&vec![s("a"), s("b"), s("c")], &traced).unwrap();
    assert_eq!(
        block,
        "println!(\"{:-^40}\", \" TEST ARGUMENTS \");\nprintln!(\"a = {:?}\", a);\nprintln!(\"c = {:?}\", c);\n"
    );
    assert_eq!(trace_arguments(&vec![s("a")], &Modifiers::default()), None);
    assert_eq!(trace_arguments(&vec![s("b")], &traced), None);
    assert_eq!(trace_arguments(&vec![s("données")], &traced), None);
    assert_eq!(trace_arguments(&vec![], &traced), None);
}

#[test]
fn fixture_statement_text() {
    let value = CaseArg::new(s("42"));
    let mut resolver = Resolver::default();
    resolver.add(&s("a"), &value);
    assert_eq!(arg_2_fixture(&s("a"), &resolver), "let a = 42;");
    assert_eq!(arg_2_fixture(&s("b"), &resolver), "let b = b();");
}

#[test]
fn resolver_from_case_keeps_last_and_stops_at_shortest() {
    let case = TestCase {
        args: vec![CaseArg::new(s("1")), CaseArg::new(s("2"))],
        description: None,
    };
    let resolver = Resolver::new(&vec![s("a"), s("a"), s("c")], &case);
    assert_eq!(resolver.resolve(&s("a")), Some(&case.args[1]));
    assert_eq!(resolver.resolve(&s("c")), None);
    assert_eq!(resolver.resolve(&s("z")), None);

    let mut later = Resolver::default();
    let first = CaseArg::new(s("1"));
    let second = CaseArg::new(s("2"));
    later.add(&s("x"), &first);
    later.add(&s("x"), &second);
    assert_eq!(later.resolve(&s("x")), Some(&second));
}

#[test]
fn output_type_conversion() {
    let (store, generics) = convert_output_type(&ReturnType::Type(s("u32")));
    assert_eq!(store, "u32");
    assert_eq!(generics, "");
    let (store, _) = convert_output_type(&ReturnType::Default);
    assert_eq!(store, "");
}

#[test]
fn rstest_renders_an_inline_test() {
    let test = item(
        "",
        "my_test",
        vec![arg("fix", "u32")],
        ReturnType::Default,
        "fn my_test(fix: u32) { assert!(fix > 0) }",
    );
    let modifiers = Modifiers { modifiers: vec![trace()] };
    let text = rstest(&modifiers, &test);
    assert_eq!(
        text,
        "#[test]\nfn my_test()  {\nfn my_test(fix: u32) { assert!(fix > 0) }\nlet fix = fix();\n\
         println!(\"{:-^40}\", \" TEST ARGUMENTS \");\nprintln!(\"fix = {:?}\", fix);\n\
         println!(\"{:-^40}\", \" TEST START \");\nmy_test(fix)\n}\n"
    );
    let parsed = parse_str::<syn::ItemFn>(&text).unwrap();
    assert_eq!(parsed.ident, "my_test");
    assert_eq!(parsed.attrs.len(), 1);
}

#[test]
fn fixture_resolves_its_own_arguments() {
    let fx = item(
        "pub",
        "sum",
        vec![arg("a", "u32"), arg("b", "u32")],
        ReturnType::Type(s("u32")),
        "pub fn sum(a: u32, b: u32) -> u32 { a + b }",
    );
    let text = fixture(&Modifiers::default(), &fx);
    assert!(text.contains("pub struct sum {\ndata: Option< u32 >\n}"));
    assert!(text.contains("pub fn new(a: u32, b: u32) -> Self {"));
    assert!(text.contains("let a = a();\nlet b = b();\nSelf::new(a, b)"));
    assert!(text.contains("pub fn sum() -> u32 {\npub fn sum(a: u32, b: u32) -> u32 { a + b }\nlet a = a();\nlet b = b();\nsum(a, b)\n}\n"));
    let file = parse_str::<syn::File>(&text).unwrap();
    assert_eq!(file.items.len(), 4);
}

#[test]
fn missing_parameters_are_reported() {
    let test = item("", "t", vec![arg("x", "u32")], ReturnType::Default, "fn t(x: u32) {}");
    let ok = ParametrizeData { args: vec![s("x")], cases: vec![] };
    assert_eq!(errors_in_parametrize(&test, &ok), None);
    let bad = ParametrizeData { args: vec![s("y"), s("x"), s("z")], cases: vec![] };
    assert_eq!(
        errors_in_parametrize(&test, &bad),
        Some(s("compile_error!(\"Missed argument: 'y' should be a test function argument.\");\n\
                compile_error!(\"Missed argument: 'z' should be a test function argument.\");\n"))
    );
    let info = ParametrizeInfo { data: bad, modifier: Modifiers::default() };
    assert_eq!(rstest_parametrize(&info, &test), errors_in_parametrize(&test, &info.data).unwrap());
}

#[test]
fn error_statement_text() {
    assert_eq!(error_statement(&s("boom")), "compile_error!(\"boom\");");
    let tricky = s("say \"hi\" \\ then\nstop\r");
    let stmt = error_statement(&tricky);
    assert_eq!(stmt, "compile_error!(\"say \\\"hi\\\" \\\\ then\\nstop\\r\");");
    let parsed = parse_str::<syn::Macro>(stmt.trim_end_matches(';')).unwrap();
    let lit = syn::parse2::<syn::LitStr>(parsed.tts).unwrap();
    assert_eq!(lit.value(), tricky);
}

#[test]
fn entry_points_read_the_input_tokens() {
    let input = "fn my_test(fix: u32) { assert!(fix > 0) }".parse::<proc_macro2::TokenStream>().unwrap();
    let text = rstest_tokens(&Modifiers::default(), input).ok().unwrap();
    let parsed = parse_str::<syn::ItemFn>(&text).unwrap();
    assert_eq!(parsed.ident, "my_test");
    assert!(text.contains("let fix = fix();"));

    let fx = "pub fn val() -> u32 { 42 }".parse::<proc_macro2::TokenStream>().unwrap();
    let text = fixture_tokens(&Modifiers::default(), fx).ok().unwrap();
    assert_eq!(parse_str::<syn::File>(&text).unwrap().items.len(), 4);

    let params = ParametrizeInfo {
        data: ParametrizeData {
            args: vec![s("fix")],
            cases: vec![TestCase { args: vec![CaseArg::new(s("3"))], description: None }],
        },
        modifier: Modifiers::default(),
    };
    let input = "fn t(fix: u32) {}".parse::<proc_macro2::TokenStream>().unwrap();
    let text = rstest_parametrize_tokens(&params, input).ok().unwrap();
    assert!(text.contains("fn case_1()"));
    assert!(text.contains("let fix = 3;"));

    let not_fn = "struct S;".parse::<proc_macro2::TokenStream>().unwrap();
    assert!(matches!(rstest_tokens(&Modifiers::default(), not_fn), Err(InputError::Syntax(_))));
}

#[test]
fn wrong_case_signature_is_an_error_in_place_of_the_case() {
    let test = item("", "t", vec![arg("x", "u32")], ReturnType::Default, "fn t(x: u32) {}");
    let data = ParametrizeData {
        args: vec![s("x")],
        cases: vec![
            TestCase { args: vec![CaseArg::new(s("1"))], description: None },
            TestCase { args: vec![CaseArg::new(s("1")), CaseArg::new(s("2"))], description: None },
        ],
    };
    let info = ParametrizeInfo { data, modifier: Modifiers::default() };
    let text = rstest_parametrize(&info, &test);
    assert!(text.starts_with("#[cfg(test)]\nfn t(x: u32) {}\n#[cfg(test)]\nmod t {\nuse super::*;\n"));
    assert!(text.contains("fn case_1()"));
    assert!(text.contains("let x = 1;"));
    assert!(!text.contains("case_2"));
    assert!(text.ends_with(
        "compile_error!(\"Wrong case signature: should match the given parameters list.\");\n}\n"
    ));
    let file = parse_str::<syn::File>(&text).unwrap();
    assert_eq!(file.items.len(), 2);
}
