//! Rendering of test functions and fixtures as token text.

use vstd::prelude::*;

use crate::model::{opt_view, views, CaseArg, FnArg, FnItem, Modifiers, Pat, ReturnType, RsTestAttribute};
use crate::modifiers::traces_arg;
use crate::resolver::Resolver;
use crate::syntax::{is_plain_ident, is_plain_ident_string, stmt_parses};
use crate::text::{
    contains_text, join, join_string, lemma_contains_middle, lemma_contains_transitive,
    lemma_lines_contains, lines, lines_string,
};

verus! {

/// The name bound by a function argument, when it is a plain binding.
pub open spec fn arg_ident(arg: FnArg) -> Option<Seq<char>> {
    match arg {
        FnArg::Captured { pat: Pat::Ident(i), .. } => Some(i@),
        _ => None,
    }
}

/// The names bound by the plain-binding arguments among `inputs`, in order.
pub open spec fn arg_names(inputs: Seq<FnArg>) -> Seq<Seq<char>>
    decreases inputs.len(),
{
    if inputs.len() == 0 {
        Seq::empty()
    } else {
        match arg_ident(inputs.last()) {
            Some(i) => arg_names(inputs.drop_last()).push(i),
            None => arg_names(inputs.drop_last()),
        }
    }
}

/// The token text of every argument among `inputs`.
pub open spec fn arg_tokens(inputs: Seq<FnArg>) -> Seq<Seq<char>> {
    inputs.map_values(
        |a: FnArg|
            match a {
                FnArg::Captured { tokens, .. } => tokens@,
                FnArg::Other { tokens } => tokens@,
            },
    )
}

/// The expression that provides `ident`: the resolved one, else a call of the
/// fixture function of the same name.
pub open spec fn fixture_expr(resolved: Map<Seq<char>, CaseArg>, ident: Seq<char>) -> Seq<char> {
    if resolved.dom().contains(ident) {
        resolved[ident].tokens@
    } else {
        ident + "()"@
    }
}

/// The statement that binds `ident` to its fixture value.
pub open spec fn fixture_stmt(resolved: Map<Seq<char>, CaseArg>, ident: Seq<char>) -> Seq<char> {
    "let "@ + ident + " = "@ + fixture_expr(resolved, ident) + ";"@
}

/// The statements that bind every name of `args` to its fixture value.
pub open spec fn fixture_stmts(resolved: Map<Seq<char>, CaseArg>, args: Seq<Seq<char>>) -> Seq<Seq<char>> {
    args.map_values(|a: Seq<char>| fixture_stmt(resolved, a))
}

/// The statement that prints the value of `ident`.
pub open spec fn dump_stmt(ident: Seq<char>) -> Seq<char> {
    "println!(\""@ + ident + " = {:?}\", "@ + ident + ");"@
}

/// The print statement of `ident` when `mods` trace it and it is a plain
/// identifier.
pub open spec fn dump_choice(mods: Seq<RsTestAttribute>, ident: Seq<char>) -> Option<Seq<char>> {
    if traces_arg(mods, ident) && is_plain_ident(ident) {
        Some(dump_stmt(ident))
    } else {
        None
    }
}

/// The print statements of the traced names among `args`, in order.
pub open spec fn dump_stmts(mods: Seq<RsTestAttribute>, args: Seq<Seq<char>>) -> Seq<Seq<char>>
    decreases args.len(),
{
    if args.len() == 0 {
        Seq::empty()
    } else {
        let rest = dump_stmts(mods, args.drop_last());
        match dump_choice(mods, args.last()) {
            Some(d) => rest.push(d),
            None => rest,
        }
    }
}

/// The banner printed before the traced arguments.
pub open spec fn args_banner() -> Seq<char> {
    "println!(\"{:-^40}\", \" TEST ARGUMENTS \");\n"@
}

/// The tracing block of a test: none when no argument is traced.
pub open spec fn trace_block(mods: Seq<RsTestAttribute>, args: Seq<Seq<char>>) -> Option<Seq<char>> {
    let dumps = dump_stmts(mods, args);
    if dumps.len() == 0 {
        None
    } else {
        Some(args_banner() + lines(dumps))
    }
}

/// The tracing block as text, empty when there is none.
pub open spec fn trace_text(mods: Seq<RsTestAttribute>, args: Seq<Seq<char>>) -> Seq<char> {
    match trace_block(mods, args) {
        Some(t) => t,
        None => Seq::empty(),
    }
}

/// The `-> T` of a return type, empty when there is none.
pub open spec fn output_text(output: ReturnType) -> Seq<char> {
    match output {
        ReturnType::Default => Seq::empty(),
        ReturnType::Type(t) => "-> "@ + t@,
    }
}

/// The type a fixture stores: its return type, empty when there is none.
pub open spec fn store_type(output: ReturnType) -> Seq<char> {
    match output {
        ReturnType::Default => Seq::empty(),
        ReturnType::Type(t) => t@,
    }
}

/// The test function `name` that provides every argument of `test` and calls it.
pub open spec fn test_fn_text(
    name: Seq<char>,
    test: FnItem,
    resolved: Map<Seq<char>, CaseArg>,
    mods: Seq<RsTestAttribute>,
    inline_impl: bool,
) -> Seq<char> {
    let args = arg_names(test.inputs@);
    "#[test]\n"@ + lines(views(test.attrs@)) + "fn "@ + name + "() "@ + output_text(test.output)
        + " {\n"@ + (if inline_impl { test.tokens@ + "\n"@ } else { Seq::empty() })
        + lines(fixture_stmts(resolved, args)) + trace_text(mods, args)
        + "println!(\"{:-^40}\", \" TEST START \");\n"@ + test.ident@ + "("@ + join(args, ", "@)
        + ")\n}\n"@
}

/// The fixture `fixture` rendered as a struct holding its value, the struct's
/// constructors, and a function of no arguments that resolves the fixture's
/// own arguments and calls it.
pub open spec fn fixture_text(fixture: FnItem, resolved: Map<Seq<char>, CaseArg>) -> Seq<char> {
    fixture_struct_text(fixture) + "impl "@ + fixture.ident@ + " {\n"@ + fixture_new_text(fixture)
        + fixture_take_text(fixture) + "}\n"@ + fixture_default_text(fixture, resolved)
        + fixture_fn_text(fixture, resolved)
}

/// The struct of a fixture, which stores the fixture's value.
pub open spec fn fixture_struct_text(fixture: FnItem) -> Seq<char> {
    "#[allow(non_camel_case_types)]\n"@ + fixture.vis@ + " struct "@ + fixture.ident@ + " {\ndata: Option< "@
        + store_type(fixture.output) + " >\n}\n"@
}

/// The constructor of a fixture's struct: it takes the fixture's arguments and
/// stores the fixture function's value on them.
pub open spec fn fixture_new_text(fixture: FnItem) -> Seq<char> {
    "pub fn new("@ + join(arg_tokens(fixture.inputs@), ", "@) + ") -> Self {\n"@ + fixture.tokens@
        + "\nSelf { data: Some("@ + fixture.ident@ + "("@ + join(arg_names(fixture.inputs@), ", "@)
        + ")) }\n}\n"@
}

/// The method that hands out the value a fixture's struct stores.
pub open spec fn fixture_take_text(fixture: FnItem) -> Seq<char> {
    "pub fn take(&mut self) "@ + output_text(fixture.output) + " {\nself.data.take().unwrap()\n}\n"@
}

/// The `Default` of a fixture's struct: it provides the fixture's arguments and
/// builds the struct with them.
pub open spec fn fixture_default_text(fixture: FnItem, resolved: Map<Seq<char>, CaseArg>) -> Seq<char> {
    "impl std::default::Default for "@ + fixture.ident@ + " {\nfn default() -> Self {\n"@
        + lines(fixture_stmts(resolved, arg_names(fixture.inputs@))) + "Self::new("@
        + join(arg_names(fixture.inputs@), ", "@) + ")\n}\n}\n"@
}

/// The fixture as a function of no arguments: it holds the user's function,
/// provides its arguments and returns its value on them.
pub open spec fn fixture_fn_text(fixture: FnItem, resolved: Map<Seq<char>, CaseArg>) -> Seq<char> {
    lines(views(fixture.attrs@)) + fixture.vis@ + " fn "@ + fixture.ident@ + "() "@ + output_text(fixture.output)
        + " {\n"@ + fixture.tokens@ + "\n"@ + lines(fixture_stmts(resolved, arg_names(fixture.inputs@)))
        + fixture.ident@ + "("@ + join(arg_names(fixture.inputs@), ", "@) + ")\n}\n"@
}

/// The arguments of a function.
pub fn fn_args(item_fn: &FnItem) -> (r: &Vec<FnArg>)
    ensures
        r@ == item_fn.inputs@,
{
    &item_fn.inputs
}

/// The name an argument binds, when it is a plain binding.
pub fn fn_arg_ident(arg: &FnArg) -> (r: Option<&String>)
    ensures
        arg_ident(*arg) == match r {
            Some(i) => Some(i@),
            None => None::<Seq<char>>,
        },
{
    match arg {
        FnArg::Captured { pat: Pat::Ident(ident), .. } => Some(ident),
        _ => None,
    }
}

/// The names bound by the plain-binding arguments of `test`, in order.
pub fn fn_args_idents(test: &FnItem) -> (r: Vec<String>)
    ensures
        views(r@) == arg_names(test.inputs@),
{
    let inputs = fn_args(test);
    let mut r: Vec<String> = Vec::new();
    let mut i: usize = 0;
    while i < inputs.len()
        invariant
            inputs@ == test.inputs@,
            i <= inputs@.len(),
            views(r@) =~= arg_names(inputs@.take(i as int)),
        decreases inputs@.len() - i,
    {
        assert(inputs@.take(i + 1).drop_last() =~= inputs@.take(i as int));
        match fn_arg_ident(&inputs[i]) {
            Some(ident) => {
                r.push(ident.clone());
            },
            None => {},
        }
        i = i + 1;
    }
    assert(inputs@.take(inputs@.len() as int) =~= inputs@);
    r
}

/// The token text of every argument of `item_fn`.
fn fn_args_tokens(item_fn: &FnItem) -> (r: Vec<String>)
    ensures
        views(r@) == arg_tokens(item_fn.inputs@),
{
    let inputs = fn_args(item_fn);
    let mut r: Vec<String> = Vec::new();
    let mut i: usize = 0;
    while i < inputs.len()
        invariant
            inputs@ == item_fn.inputs@,
            i <= inputs@.len(),
            r@.len() == i,
            views(r@) =~= arg_tokens(inputs@).take(i as int),
        decreases inputs@.len() - i,
    {
        let ghost prev = r@;
        match &inputs[i] {
            FnArg::Captured { tokens, .. } => r.push(tokens.clone()),
            FnArg::Other { tokens } => r.push(tokens.clone()),
        }
        assert(views(r@) =~= views(prev).push(arg_tokens(inputs@)[i as int]));
        i = i + 1;
    }
    r
}

/// A call of the fixture function named `ident`.
pub fn default_fixture_resolve(ident: &String) -> (r: CaseArg)
    ensures
        r.tokens@ == ident@ + "()"@,
{
    let mut tokens = ident.clone();
    tokens.append("()");
    CaseArg::new(tokens)
}

/// The statement binding `ident` to the value that provides it.
pub fn arg_2_fixture(ident: &String, resolver: &Resolver) -> (r: String)
    ensures
        r@ == fixture_stmt(resolver@, ident@),
{
    let default = default_fixture_resolve(ident);
    let fixture = match resolver.resolve(ident) {
        Some(e) => e,
        None => &default,
    };
    let mut r = String::from_str("let ");
    r.append(ident.as_str());
    r.append(" = ");
    r.append(fixture.tokens.as_str());
    r.append(";");
    r
}

/// The statements binding every name of `args`, in order.
fn args_2_fixtures(args: &Vec<String>, resolver: &Resolver) -> (r: Vec<String>)
    ensures
        views(r@) == fixture_stmts(resolver@, views(args@)),
{
    let mut r: Vec<String> = Vec::new();
    let mut i: usize = 0;
    while i < args.len()
        invariant
            i <= args@.len(),
            r@.len() == i,
            views(r@) =~= fixture_stmts(resolver@, views(args@)).take(i as int),
        decreases args@.len() - i,
    {
        let ghost prev = r@;
        r.push(arg_2_fixture(&args[i], resolver));
        assert(views(r@) =~= views(prev).push(fixture_stmts(resolver@, views(args@))[i as int]));
        i = i + 1;
    }
    r
}

/// The text of the statement printing the value of `ident`.
pub fn arg_2_fixture_dump_str(ident: &String) -> (r: String)
    ensures
        r@ == dump_stmt(ident@),
{
    let mut r = String::from_str("println!(\"");
    r.append(ident.as_str());
    r.append(" = {:?}\", ");
    r.append(ident.as_str());
    r.append(");");
    r
}

/// The statement printing the value of `ident`, when `modifiers` trace it and
/// it is a plain identifier. The statement is checked with the parser, which
/// accepts it; the parser is not asked about other names, whose statements are
/// not known to lex alike within and outside the compiler, and they are not
/// printed.
pub fn arg_2_fixture_dump(ident: &String, modifiers: &Modifiers) -> (r: Option<String>)
    ensures
        opt_view(r) == dump_choice(modifiers.modifiers@, ident@),
{
    if modifiers.trace_me(ident) {
        let stmt = arg_2_fixture_dump_str(ident);
        if is_plain_ident_string(ident) && stmt_parses(&stmt) {
            Some(stmt)
        } else {
            None
        }
    } else {
        None
    }
}

/// The block printing the traced arguments among `args`, if any is traced.
pub fn trace_arguments(args: &Vec<String>, modifiers: &Modifiers) -> (r: Option<String>)
    ensures
        opt_view(r) == trace_block(modifiers.modifiers@, views(args@)),
{
    let ghost names = views(args@);
    let mut dumps: Vec<String> = Vec::new();
    let mut i: usize = 0;
    while i < args.len()
        invariant
            i <= args@.len(),
            names == views(args@),
            views(dumps@) =~= dump_stmts(modifiers.modifiers@, names.take(i as int)),
        decreases args@.len() - i,
    {
        assert(names.take(i + 1).drop_last() =~= names.take(i as int));
        let ghost prev = dumps@;
        match arg_2_fixture_dump(&args[i], modifiers) {
            Some(d) => {
                dumps.push(d);
                assert(views(dumps@) =~= views(prev).push(dump_stmt(names[i as int])));
            },
            None => {},
        }
        i = i + 1;
    }
    assert(names.take(args@.len() as int) =~= names);
    if dumps.len() == 0 {
        None
    } else {
        let mut block = String::from_str("println!(\"{:-^40}\", \" TEST ARGUMENTS \");\n");
        block.append(lines_string(&dumps).as_str());
        Some(block)
    }
}

/// The store type of a fixture and the generics it adds (none).
pub fn convert_output_type(output: &ReturnType) -> (r: (String, String))
    ensures
        r.0@ == store_type(*output),
        r.1@ == Seq::<char>::empty(),
{
    let store = match output {
        ReturnType::Default => String::new(),
        ReturnType::Type(t) => t.clone(),
    };
    (store, String::new())
}

/// The `-> T` of a return type.
fn output_string(output: &ReturnType) -> (r: String)
    ensures
        r@ == output_text(*output),
{
    match output {
        ReturnType::Default => String::new(),
        ReturnType::Type(t) => {
            let mut r = String::from_str("-> ");
            r.append(t.as_str());
            r
        },
    }
}

/// The test function `name`: it provides every argument of `testfn` from
/// `resolver` or from the fixture of the same name, prints the traced ones,
/// and calls `testfn`, which it holds itself when `inline_impl` is set.
pub fn render_fn_test(
    name: &String,
    testfn: &FnItem,
    resolver: &Resolver,
    modifiers: &Modifiers,
    inline_impl: bool,
) -> (r: String)
    ensures
        r@ == test_fn_text(name@, *testfn, resolver@, modifiers.modifiers@, inline_impl),
{
    let args = fn_args_idents(testfn);
    let fixtures = args_2_fixtures(&args, resolver);
    let trace = match trace_arguments(&args, modifiers) {
        Some(t) => t,
        None => String::new(),
    };
    let mut test_impl = String::new();
    if inline_impl {
        test_impl.append(testfn.tokens.as_str());
        test_impl.append("\n");
    }
    let mut r = String::from_str("#[test]\n");
    r.append(lines_string(&testfn.attrs).as_str());
    r.append("fn ");
    r.append(name.as_str());
    r.append("() ");
    r.append(output_string(&testfn.output).as_str());
    r.append(" {\n");
    r.append(test_impl.as_str());
    r.append(lines_string(&fixtures).as_str());
    r.append(trace.as_str());
    r.append("println!(\"{:-^40}\", \" TEST START \");\n");
    r.append(testfn.ident.as_str());
    r.append("(");
    r.append(join_string(&args, ", ").as_str());
    r.append(")\n}\n");
    r
}

/// The fixture `fixture` rendered as a struct that stores its value, the
/// struct's constructors, and a function of no arguments that provides the
/// fixture's own arguments from `resolver` or their fixtures and calls it.
pub fn render_fixture(fixture: &FnItem, resolver: &Resolver, _modifiers: &Modifiers) -> (r: String)
    ensures
        r@ == fixture_text(*fixture, resolver@),
{
    let name = fixture.ident.as_str();
    let visibility = fixture.vis.as_str();
    let vargs = fn_args_idents(fixture);
    let args = join_string(&vargs, ", ");
    let orig_args = join_string(&fn_args_tokens(fixture), ", ");
    let output = output_string(&fixture.output);
    let (store_type, _generics) = convert_output_type(&fixture.output);
    let resolve_args = lines_string(&args_2_fixtures(&vargs, resolver));
    let mut structure = String::from_str("#[allow(non_camel_case_types)]\n");
    structure.append(visibility);
    structure.append(" struct ");
    structure.append(name);
    structure.append(" {\ndata: Option< ");
    structure.append(store_type.as_str());
    structure.append(" >\n}\n");
    let mut new = String::from_str("pub fn new(");
    new.append(orig_args.as_str());
    new.append(") -> Self {\n");
    new.append(fixture.tokens.as_str());
    new.append("\nSelf { data: Some(");
    new.append(name);
    new.append("(");
    new.append(args.as_str());
    new.append(")) }\n}\n");
    let mut take = String::from_str("pub fn take(&mut self) ");
    take.append(output.as_str());
    take.append(" {\nself.data.take().unwrap()\n}\n");
    let mut default = String::from_str("impl std::default::Default for ");
    default.append(name);
    default.append(" {\nfn default() -> Self {\n");
    default.append(resolve_args.as_str());
    default.append("Self::new(");
    default.append(args.as_str());
    default.append(")\n}\n}\n");
    let mut function = lines_string(&fixture.attrs);
    function.append(visibility);
    function.append(" fn ");
    function.append(name);
    function.append("() ");
    function.append(output.as_str());
    function.append(" {\n");
    function.append(fixture.tokens.as_str());
    function.append("\n");
    function.append(resolve_args.as_str());
    function.append(name);
    function.append("(");
    function.append(args.as_str());
    function.append(")\n}\n");
    let mut r = structure;
    r.append("impl ");
    r.append(name);
    r.append(" {\n");
    r.append(new.as_str());
    r.append(take.as_str());
    r.append("}\n");
    r.append(default.as_str());
    r.append(function.as_str());
    r
}

/// The expansion of a test: a test function named as `test` that holds it,
/// provides each of its arguments from the fixture of the same name, and
/// calls it.
pub fn rstest(modifiers: &Modifiers, test: &FnItem) -> (r: String)
    ensures
        r@ == test_fn_text(test.ident@, *test, Map::empty(), modifiers.modifiers@, true),
{
    let resolver = Resolver::default();
    render_fn_test(&test.ident, test, &resolver, modifiers, true)
}

/// The expansion of a fixture function.
pub fn fixture(modifiers: &Modifiers, item: &FnItem) -> (r: String)
    ensures
        r@ == fixture_text(*item, Map::empty()),
{
    render_fixture(item, &Resolver::default(), modifiers)
}

/// Without the `trace` modifier no argument is printed.
pub proof fn no_trace_without_trace_modifier(mods: Seq<RsTestAttribute>, args: Seq<Seq<char>>)
    requires
        !crate::modifiers::traces(mods),
    ensures
        trace_block(mods, args) is None,
    decreases args.len(),
{
    if args.len() > 0 {
        no_trace_without_trace_modifier(mods, args.drop_last());
    }
}

/// The print statement of a traced argument is among the print statements.
proof fn lemma_dump_stmts_has(mods: Seq<RsTestAttribute>, args: Seq<Seq<char>>, j: int)
    requires
        0 <= j < args.len(),
        traces_arg(mods, args[j]),
        is_plain_ident(args[j]),
    ensures
        exists|k: int|
            0 <= k < dump_stmts(mods, args).len() && #[trigger] dump_stmts(mods, args)[k] == dump_stmt(args[j]),
    decreases args.len(),
{
    let init = args.drop_last();
    if j == args.len() - 1 {
        let d = dump_stmts(mods, args);
        assert(d[d.len() - 1] == dump_stmt(args[j]));
    } else {
        lemma_dump_stmts_has(mods, init, j);
        assert(init[j] == args[j]);
        let k = choose|k: int|
            0 <= k < dump_stmts(mods, init).len() && #[trigger] dump_stmts(mods, init)[k] == dump_stmt(init[j]);
        let d = dump_stmts(mods, args);
        assert(d[k] == dump_stmts(mods, init)[k]);
    }
}

/// A rendered test function starts with `#[test]`, then every attribute of
/// the user's function on a line of its own and in order, then the header of
/// a function of no arguments named `name`.
pub proof fn test_fn_keeps_attributes(
    name: Seq<char>,
    test: FnItem,
    resolved: Map<Seq<char>, CaseArg>,
    mods: Seq<RsTestAttribute>,
    inline_impl: bool,
)
    ensures
        exists|rest: Seq<char>|
            test_fn_text(name, test, resolved, mods, inline_impl) == "#[test]\n"@ + lines(views(test.attrs@))
                + "fn "@ + name + "() "@ + rest,
{
    let args = arg_names(test.inputs@);
    let rest = output_text(test.output) + " {\n"@ + (if inline_impl { test.tokens@ + "\n"@ } else { Seq::empty() })
        + lines(fixture_stmts(resolved, args)) + trace_text(mods, args)
        + "println!(\"{:-^40}\", \" TEST START \");\n"@ + test.ident@ + "("@ + join(args, ", "@)
        + ")\n}\n"@;
    assert(test_fn_text(name, test, resolved, mods, inline_impl) =~= "#[test]\n"@ + lines(views(test.attrs@))
        + "fn "@ + name + "() "@ + rest);
}

/// A rendered test function binds every plain-binding argument of the user's
/// function, on a line of its own: to the expression that `resolved` gives
/// the name, or else to a call of the fixture of the same name.
pub proof fn test_fn_binds_each_argument(
    name: Seq<char>,
    test: FnItem,
    resolved: Map<Seq<char>, CaseArg>,
    mods: Seq<RsTestAttribute>,
    inline_impl: bool,
    j: int,
)
    requires
        0 <= j < arg_names(test.inputs@).len(),
    ensures
        contains_text(
            test_fn_text(name, test, resolved, mods, inline_impl),
            "let "@ + arg_names(test.inputs@)[j] + " = "@ + (if resolved.dom().contains(arg_names(test.inputs@)[j]) {
                resolved[arg_names(test.inputs@)[j]].tokens@
            } else {
                arg_names(test.inputs@)[j] + "()"@
            }) + ";\n"@,
        ),
{
    let args = arg_names(test.inputs@);
    let stmts = fixture_stmts(resolved, args);
    let before = "#[test]\n"@ + lines(views(test.attrs@)) + "fn "@ + name + "() "@ + output_text(test.output)
        + " {\n"@ + (if inline_impl { test.tokens@ + "\n"@ } else { Seq::empty() });
    let after = trace_text(mods, args) + "println!(\"{:-^40}\", \" TEST START \");\n"@ + test.ident@ + "("@
        + join(args, ", "@) + ")\n}\n"@;
    let text = test_fn_text(name, test, resolved, mods, inline_impl);
    assert(text =~= before + lines(stmts) + after);
    lemma_contains_middle(before, lines(stmts), after);
    lemma_lines_contains(stmts, j);
    lemma_contains_transitive(text, lines(stmts), stmts[j] + "\n"@);
    reveal_strlit(";");
    reveal_strlit("\n");
    reveal_strlit(";\n");
    assert(stmts[j] + "\n"@ =~= "let "@ + args[j] + " = "@ + (if resolved.dom().contains(args[j]) {
        resolved[args[j]].tokens@
    } else {
        args[j] + "()"@
    }) + ";\n"@);
}

proof fn lemma_dump_line(a: Seq<char>)
    ensures
        dump_stmt(a) + "\n"@ =~= "println!(\""@ + a + " = {:?}\", "@ + a + ");\n"@,
{
    reveal_strlit(");");
    reveal_strlit("\n");
    reveal_strlit(");\n");
}

/// The trace block holds the banner and the line of every traced
/// plain-identifier argument.
proof fn lemma_trace_text_holds(mods: Seq<RsTestAttribute>, args: Seq<Seq<char>>, j: int)
    requires
        0 <= j < args.len(),
        traces_arg(mods, args[j]),
        is_plain_ident(args[j]),
    ensures
        contains_text(trace_text(mods, args), args_banner()),
        contains_text(trace_text(mods, args), dump_stmt(args[j]) + "\n"@),
{
    let dumps = dump_stmts(mods, args);
    lemma_dump_stmts_has(mods, args, j);
    let k = choose|k: int| 0 <= k < dumps.len() && #[trigger] dumps[k] == dump_stmt(args[j]);
    let tt = trace_text(mods, args);
    assert(tt == args_banner() + lines(dumps));
    lemma_contains_middle(Seq::empty(), args_banner(), lines(dumps));
    assert(Seq::<char>::empty() + args_banner() + lines(dumps) =~= tt);
    lemma_contains_middle(args_banner(), lines(dumps), Seq::empty());
    assert(args_banner() + lines(dumps) + Seq::<char>::empty() =~= tt);
    lemma_lines_contains(dumps, k);
    lemma_contains_transitive(tt, lines(dumps), dumps[k] + "\n"@);
}

/// A rendered test function prints, before the test starts, the banner of the
/// traced arguments and the value of every plain-identifier argument that
/// `mods` trace.
pub proof fn test_fn_traces_argument(
    name: Seq<char>,
    test: FnItem,
    resolved: Map<Seq<char>, CaseArg>,
    mods: Seq<RsTestAttribute>,
    inline_impl: bool,
    j: int,
)
    requires
        0 <= j < arg_names(test.inputs@).len(),
        traces_arg(mods, arg_names(test.inputs@)[j]),
        is_plain_ident(arg_names(test.inputs@)[j]),
    ensures
        contains_text(
            test_fn_text(name, test, resolved, mods, inline_impl),
            "println!(\"{:-^40}\", \" TEST ARGUMENTS \");\n"@,
        ),
        contains_text(
            test_fn_text(name, test, resolved, mods, inline_impl),
            "println!(\""@ + arg_names(test.inputs@)[j] + " = {:?}\", "@ + arg_names(test.inputs@)[j] + ");\n"@,
        ),
{
    let args = arg_names(test.inputs@);
    let tt = trace_text(mods, args);
    let text = test_fn_text(name, test, resolved, mods, inline_impl);
    let before = "#[test]\n"@ + lines(views(test.attrs@)) + "fn "@ + name + "() "@ + output_text(test.output)
        + " {\n"@ + (if inline_impl { test.tokens@ + "\n"@ } else { Seq::empty() })
        + lines(fixture_stmts(resolved, args));
    let after = "println!(\"{:-^40}\", \" TEST START \");\n"@ + test.ident@ + "("@ + join(args, ", "@)
        + ")\n}\n"@;
    assert(text =~= before + tt + after);
    lemma_contains_middle(before, tt, after);
    lemma_trace_text_holds(mods, args, j);
    lemma_contains_transitive(text, tt, args_banner());
    lemma_contains_transitive(text, tt, dump_stmt(args[j]) + "\n"@);
    lemma_dump_line(args[j]);
}

/// The constructor `new` of a rendered fixture takes the fixture's own
/// arguments and stores the fixture function's value on exactly those
/// arguments, in order; right after it, `take` hands that value out.
pub proof fn fixture_new_stores_the_value(fixture: FnItem, resolved: Map<Seq<char>, CaseArg>)
    ensures
        contains_text(
            fixture_text(fixture, resolved),
            "pub fn new("@ + join(arg_tokens(fixture.inputs@), ", "@) + ") -> Self {\n"@ + fixture.tokens@
                + "\nSelf { data: Some("@ + fixture.ident@ + "("@ + join(arg_names(fixture.inputs@), ", "@)
                + ")) }\n}\n"@ + "pub fn take(&mut self) "@ + output_text(fixture.output)
                + " {\nself.data.take().unwrap()\n}\n"@,
        ),
{
    let before = fixture_struct_text(fixture) + "impl "@ + fixture.ident@ + " {\n"@;
    let piece = fixture_new_text(fixture) + fixture_take_text(fixture);
    let after = "}\n"@ + fixture_default_text(fixture, resolved) + fixture_fn_text(fixture, resolved);
    assert(fixture_text(fixture, resolved) =~= before + piece + after);
    lemma_contains_middle(before, piece, after);
    assert(piece =~= "pub fn new("@ + join(arg_tokens(fixture.inputs@), ", "@) + ") -> Self {\n"@
        + fixture.tokens@ + "\nSelf { data: Some("@ + fixture.ident@ + "("@
        + join(arg_names(fixture.inputs@), ", "@) + ")) }\n}\n"@ + "pub fn take(&mut self) "@
        + output_text(fixture.output) + " {\nself.data.take().unwrap()\n}\n"@);
}

/// The `Default` of a rendered fixture binds every argument of the fixture,
/// each on a line of its own, to the expression `resolved` gives it or else to
/// a call of the fixture of the same name, then builds the struct with `new`
/// on those arguments in order.
pub proof fn fixture_default_resolves_arguments(fixture: FnItem, resolved: Map<Seq<char>, CaseArg>)
    ensures
        contains_text(
            fixture_text(fixture, resolved),
            "impl std::default::Default for "@ + fixture.ident@ + " {\nfn default() -> Self {\n"@
                + lines(arg_names(fixture.inputs@).map_values(|a: Seq<char>|
                    "let "@ + a + " = "@ + (if resolved.dom().contains(a) { resolved[a].tokens@ } else { a + "()"@ })
                        + ";"@))
                + "Self::new("@ + join(arg_names(fixture.inputs@), ", "@) + ")\n}\n}\n"@,
        ),
{
    let before = fixture_struct_text(fixture) + "impl "@ + fixture.ident@ + " {\n"@ + fixture_new_text(fixture)
        + fixture_take_text(fixture) + "}\n"@;
    let piece = fixture_default_text(fixture, resolved);
    let after = fixture_fn_text(fixture, resolved);
    assert(fixture_text(fixture, resolved) =~= before + piece + after);
    lemma_contains_middle(before, piece, after);
    let names = arg_names(fixture.inputs@);
    assert(fixture_stmts(resolved, names) =~= names.map_values(|a: Seq<char>|
        "let "@ + a + " = "@ + (if resolved.dom().contains(a) { resolved[a].tokens@ } else { a + "()"@ }) + ";"@));
}

/// A rendered fixture ends with the fixture as a function of no arguments,
/// with the user's attributes, visibility, name and return type: it holds the
/// user's function, binds its arguments and returns its value on them.
pub proof fn fixture_fn_calls_the_fixture(fixture: FnItem, resolved: Map<Seq<char>, CaseArg>)
    ensures
        exists|prefix: Seq<char>|
            fixture_text(fixture, resolved) == prefix + lines(views(fixture.attrs@)) + fixture.vis@ + " fn "@
                + fixture.ident@ + "() "@ + output_text(fixture.output) + " {\n"@ + fixture.tokens@ + "\n"@
                + lines(fixture_stmts(resolved, arg_names(fixture.inputs@))) + fixture.ident@ + "("@
                + join(arg_names(fixture.inputs@), ", "@) + ")\n}\n"@,
{
    let prefix = fixture_struct_text(fixture) + "impl "@ + fixture.ident@ + " {\n"@ + fixture_new_text(fixture)
        + fixture_take_text(fixture) + "}\n"@ + fixture_default_text(fixture, resolved);
    assert(fixture_text(fixture, resolved) =~= prefix + lines(views(fixture.attrs@)) + fixture.vis@ + " fn "@
        + fixture.ident@ + "() "@ + output_text(fixture.output) + " {\n"@ + fixture.tokens@ + "\n"@
        + lines(fixture_stmts(resolved, arg_names(fixture.inputs@))) + fixture.ident@ + "("@
        + join(arg_names(fixture.inputs@), ", "@) + ")\n}\n"@);
}

/// A rendered test function ends by announcing the start of the test and
/// calling the user's function with every plain-binding argument, in order.
pub proof fn test_fn_calls_the_user_function(
    name: Seq<char>,
    test: FnItem,
    resolved: Map<Seq<char>, CaseArg>,
    mods: Seq<RsTestAttribute>,
    inline_impl: bool,
)
    ensures
        ({
            let ending = "println!(\"{:-^40}\", \" TEST START \");\n"@ + test.ident@ + "("@
                + join(arg_names(test.inputs@), ", "@) + ")\n}\n"@;
            let text = test_fn_text(name, test, resolved, mods, inline_impl);
            ending.len() <= text.len() && text.subrange(text.len() - ending.len(), text.len() as int) == ending
        }),
{
    let args = arg_names(test.inputs@);
    let ending = "println!(\"{:-^40}\", \" TEST START \");\n"@ + test.ident@ + "("@ + join(args, ", "@)
        + ")\n}\n"@;
    let start = "#[test]\n"@ + lines(views(test.attrs@)) + "fn "@ + name + "() "@ + output_text(test.output)
        + " {\n"@ + (if inline_impl { test.tokens@ + "\n"@ } else { Seq::empty() })
        + lines(fixture_stmts(resolved, args)) + trace_text(mods, args);
    let text = test_fn_text(name, test, resolved, mods, inline_impl);
    assert(text =~= start + ending);
    assert(text.subrange(text.len() - ending.len(), text.len() as int) =~= ending);
}

/// A test function rendered with `inline_impl` holds the user's function.
pub proof fn inline_test_fn_holds_the_user_function(
    name: Seq<char>,
    test: FnItem,
    resolved: Map<Seq<char>, CaseArg>,
    mods: Seq<RsTestAttribute>,
)
    ensures
        contains_text(test_fn_text(name, test, resolved, mods, true), test.tokens@),
{
    let args = arg_names(test.inputs@);
    let before = "#[test]\n"@ + lines(views(test.attrs@)) + "fn "@ + name + "() "@ + output_text(test.output)
        + " {\n"@;
    let after = "\n"@ + lines(fixture_stmts(resolved, args)) + trace_text(mods, args)
        + "println!(\"{:-^40}\", \" TEST START \");\n"@ + test.ident@ + "("@ + join(args, ", "@) + ")\n}\n"@;
    assert(test_fn_text(name, test, resolved, mods, true) =~= before + test.tokens@ + after);
    lemma_contains_middle(before, test.tokens@, after);
}

} // verus!
