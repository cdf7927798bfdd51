//! Expansion of a parametrized test into one test function per case.

use vstd::prelude::*;

use crate::model::{opt_view, views, FnItem, Modifiers, ParametrizeData, ParametrizeInfo, RsTestAttribute};
use crate::modifiers::traces_arg;
use crate::render::{
    arg_names, fn_args_idents, render_fn_test, test_fn_binds_each_argument, test_fn_keeps_attributes,
    test_fn_text, test_fn_traces_argument,
};
use crate::resolver::{entries_map, resolver_gives_case_values, zip_entries, Resolver};
use crate::syntax::is_plain_ident;
use crate::text::{
    contains_text, escape_string, escaped, lemma_contains_middle, lemma_contains_transitive, lines,
    lines_string, decimal, decimal_string, lemma_decimal_len_monotonic, lemma_numeral_order,
    lemma_padded_decimal_is_numeral, lemma_zero_pad, text_lt, zero_pad, zero_padded, is_numeral,
    numeral_value, lemma_lines_contains,
};

verus! {

/// The name of the test function of case `index` (counted from zero) out of
/// `case_count` cases: `case_`, the case number counted from one and
/// left-padded with zeros to the width of `case_count`, then `_` and the
/// description when there is one.
pub open spec fn case_name(case_count: nat, index: nat, description: Option<Seq<char>>) -> Seq<char> {
    "case_"@ + zero_pad(decimal(index + 1), decimal(case_count).len()) + match description {
        Some(d) => "_"@ + d,
        None => Seq::<char>::empty(),
    }
}

/// The name of the test function generated for case `index` of `params`.
pub fn format_case_name(params: &ParametrizeData, index: usize) -> (name: String)
    requires
        index < params.cases@.len(),
    ensures
        name@ == case_name(
            params.cases@.len() as nat,
            index as nat,
            opt_view(params.cases@[index as int].description),
        ),
{
    let len_max = decimal_string(params.cases.len()).as_str().unicode_len();
    let number = zero_padded(&decimal_string(index + 1), len_max);
    let mut name = String::from_str("case_");
    name.append(number.as_str());
    match &params.cases[index].description {
        Some(d) => {
            name.append("_");
            name.append(d.as_str());
        },
        None => {},
    }
    name
}

/// The message for a case whose values do not match the parameter list.
pub const WRONG_CASE_SIGNATURE: &'static str = "Wrong case signature: should match the given parameters list.";

/// The expansion of a parametrized test: the errors for parameters that
/// `test` does not take, or else its cases.
pub open spec fn parametrize_expansion(test: FnItem, data: ParametrizeData, mods: Seq<RsTestAttribute>) -> Seq<char> {
    match param_errors(test, data) {
        Some(errors) => errors,
        None => parametrized_text(test, data, mods),
    }
}

/// A statement that makes compilation fail with `message`.
pub open spec fn error_stmt(message: Seq<char>) -> Seq<char> {
    "compile_error!(\""@ + escaped(message) + "\");"@
}

/// The message for a parameter that is not an argument of the test function.
pub open spec fn missed_arg_message(param: Seq<char>) -> Seq<char> {
    "Missed argument: '"@ + param + "' should be a test function argument."@
}

/// The parameters among `params` that are not in `fn_args`, in order.
pub open spec fn missed_args(fn_args: Seq<Seq<char>>, params: Seq<Seq<char>>) -> Seq<Seq<char>>
    decreases params.len(),
{
    if params.len() == 0 {
        Seq::empty()
    } else if fn_args.contains(params.last()) {
        missed_args(fn_args, params.drop_last())
    } else {
        missed_args(fn_args, params.drop_last()).push(params.last())
    }
}

/// The error statements for the parameters that `test` does not take.
pub open spec fn param_errors(test: FnItem, data: ParametrizeData) -> Option<Seq<char>> {
    let missed = missed_args(arg_names(test.inputs@), views(data.args@));
    if missed.len() == 0 {
        None
    } else {
        Some(lines(missed.map_values(|p: Seq<char>| error_stmt(missed_arg_message(p)))))
    }
}

/// The text rendered for case `n` of `data`: its test function, or an error
/// when it does not give one value per parameter.
pub open spec fn case_text(test: FnItem, data: ParametrizeData, mods: Seq<RsTestAttribute>, n: int) -> Seq<char> {
    let case = data.cases@[n];
    if case.args@.len() != data.args@.len() {
        error_stmt(WRONG_CASE_SIGNATURE@) + "\n"@
    } else {
        test_fn_text(
            case_name(data.cases@.len() as nat, n as nat, opt_view(case.description)),
            test,
            entries_map(zip_entries(views(data.args@), case.args@)),
            mods,
            false,
        )
    }
}

/// The texts of the first `k` cases of `data`, one after the other.
pub open spec fn cases_text(test: FnItem, data: ParametrizeData, mods: Seq<RsTestAttribute>, k: nat) -> Seq<char>
    decreases k,
{
    if k == 0 {
        Seq::empty()
    } else {
        cases_text(test, data, mods, (k - 1) as nat) + case_text(test, data, mods, k - 1)
    }
}

/// The test function kept as it is, then a module named after it holding one
/// test function per case; both compiled only for tests.
pub open spec fn parametrized_text(test: FnItem, data: ParametrizeData, mods: Seq<RsTestAttribute>) -> Seq<char> {
    "#[cfg(test)]\n"@ + test.tokens@ + "\n#[cfg(test)]\nmod "@ + test.ident@ + " {\nuse super::*;\n"@
        + cases_text(test, data, mods, data.cases@.len()) + "}\n"@
}

/// A statement that makes compilation fail with `message`.
pub fn error_statement(message: &String) -> (r: String)
    ensures
        r@ == error_stmt(message@),
{
    let mut r = String::from_str("compile_error!(\"");
    r.append(escape_string(message).as_str());
    r.append("\");");
    r
}

/// Whether `test` takes an argument named `ident`.
pub fn fn_args_has_ident(fn_decl: &FnItem, ident: &String) -> (r: bool)
    ensures
        r == arg_names(fn_decl.inputs@).contains(ident@),
{
    let names = fn_args_idents(fn_decl);
    let mut i: usize = 0;
    while i < names.len()
        invariant
            i <= names@.len(),
            views(names@) == arg_names(fn_decl.inputs@),
            forall|j: int| 0 <= j < i ==> #[trigger] views(names@)[j] != ident@,
        decreases names@.len() - i,
    {
        if names[i] == *ident {
            assert(views(names@)[i as int] == ident@);
            return true;
        }
        i = i + 1;
    }
    false
}

/// The compile errors for the parameters of `params` that `test` does not
/// take as arguments; none when it takes them all.
pub fn errors_in_parametrize(test: &FnItem, params: &ParametrizeData) -> (r: Option<String>)
    ensures
        opt_view(r) == param_errors(*test, *params),
{
    let ghost fn_args = arg_names(test.inputs@);
    let ghost ps = views(params.args@);
    let mut errors: Vec<String> = Vec::new();
    let mut i: usize = 0;
    while i < params.args.len()
        invariant
            i <= params.args@.len(),
            fn_args == arg_names(test.inputs@),
            ps == views(params.args@),
            views(errors@) =~= missed_args(fn_args, ps.take(i as int)).map_values(
                |p: Seq<char>| error_stmt(missed_arg_message(p)),
            ),
        decreases params.args@.len() - i,
    {
        assert(ps.take(i + 1).drop_last() =~= ps.take(i as int));
        let missed = &params.args[i];
        if !fn_args_has_ident(test, missed) {
            let mut message = String::from_str("Missed argument: '");
            message.append(missed.as_str());
            message.append("' should be a test function argument.");
            let ghost prev = errors@;
            errors.push(error_statement(&message));
            assert(views(errors@) =~= views(prev).push(error_stmt(missed_arg_message(ps[i as int]))));
        }
        i = i + 1;
    }
    assert(ps.take(params.args@.len() as int) =~= ps);
    if errors.len() == 0 {
        None
    } else {
        Some(lines_string(&errors))
    }
}

/// The test function kept for tests only, and a module named after it that
/// holds, for each case in order, its test function or, when its values do not
/// match the parameters, a compile error.
pub fn add_parametrize_cases(test: &FnItem, params: &ParametrizeInfo) -> (r: String)
    ensures
        r@ == parametrized_text(*test, params.data, params.modifier.modifiers@),
{
    let data = &params.data;
    let modifier = &params.modifier;
    let ghost mods = modifier.modifiers@;
    let mut cases = String::new();
    let mut n: usize = 0;
    while n < data.cases.len()
        invariant
            n <= data.cases@.len(),
            mods == modifier.modifiers@,
            cases@ == cases_text(*test, *data, mods, n as nat),
        decreases data.cases@.len() - n,
    {
        let case = &data.cases[n];
        if case.args.len() != data.args.len() {
            let message = String::from_str(WRONG_CASE_SIGNATURE);
            let mut error = error_statement(&message);
            error.append("\n");
            cases.append(error.as_str());
        } else {
            let resolver = Resolver::new(&data.args, case);
            let name = format_case_name(data, n);
            let rendered = render_fn_test(&name, test, &resolver, modifier, false);
            cases.append(rendered.as_str());
        }
        n = n + 1;
    }
    let mut r = String::from_str("#[cfg(test)]\n");
    r.append(test.tokens.as_str());
    r.append("\n#[cfg(test)]\nmod ");
    r.append(test.ident.as_str());
    r.append(" {\nuse super::*;\n");
    r.append(cases.as_str());
    r.append("}\n");
    r
}

/// The expansion of a parametrized test: the errors for parameters that the
/// test function does not take when there are any, else its cases.
pub fn rstest_parametrize(params: &ParametrizeInfo, test: &FnItem) -> (r: String)
    ensures
        r@ == parametrize_expansion(*test, params.data, params.modifier.modifiers@),
{
    match errors_in_parametrize(test, &params.data) {
        Some(tokens) => tokens,
        None => add_parametrize_cases(test, params),
    }
}

proof fn lemma_missed_args_empty(fn_args: Seq<Seq<char>>, params: Seq<Seq<char>>)
    ensures
        missed_args(fn_args, params).len() == 0 <==> forall|k: int|
            0 <= k < params.len() ==> fn_args.contains(#[trigger] params[k]),
    decreases params.len(),
{
    if params.len() > 0 {
        let init = params.drop_last();
        lemma_missed_args_empty(fn_args, init);
        if fn_args.contains(params.last()) {
            if forall|k: int| 0 <= k < init.len() ==> fn_args.contains(#[trigger] init[k]) {
                assert forall|k: int| 0 <= k < params.len() implies fn_args.contains(#[trigger] params[k]) by {
                    if k < init.len() {
                        assert(init[k] == params[k]);
                    }
                }
            }
            if forall|k: int| 0 <= k < params.len() ==> fn_args.contains(#[trigger] params[k]) {
                assert forall|k: int| 0 <= k < init.len() implies fn_args.contains(#[trigger] init[k]) by {
                    assert(init[k] == params[k]);
                }
            }
        } else {
            assert(!fn_args.contains(params[params.len() - 1]));
        }
    }
}

/// A parametrization is refused exactly when one of its parameters is not an
/// argument of the test function.
pub proof fn parametrize_refused_iff_missed_argument(test: FnItem, data: ParametrizeData)
    ensures
        param_errors(test, data) is None <==> forall|k: int|
            0 <= k < data.args@.len() ==> arg_names(test.inputs@).contains(#[trigger] data.args@[k]@),
{
    let ps = views(data.args@);
    lemma_missed_args_empty(arg_names(test.inputs@), ps);
    assert(missed_args(arg_names(test.inputs@), ps).map_values(
        |p: Seq<char>| error_stmt(missed_arg_message(p)),
    ).len() == missed_args(arg_names(test.inputs@), ps).len());
    assert forall|k: int| 0 <= k < data.args@.len() implies #[trigger] data.args@[k]@ == ps[k] by {}
}

/// The case number of every case of a parametrization is padded to the same
/// width: the number of digits of the count of cases.
pub proof fn lemma_case_number_width(case_count: nat, index: nat)
    requires
        index < case_count,
    ensures
        zero_pad(decimal(index + 1), decimal(case_count).len()).len() == decimal(case_count).len(),
{
    lemma_decimal_len_monotonic(index + 1, case_count);
    lemma_zero_pad(index + 1, decimal(case_count).len());
}

/// Two different cases of one parametrization never get the same test
/// function name, whatever their descriptions.
pub proof fn case_names_are_distinct(
    case_count: nat,
    i: nat,
    j: nat,
    di: Option<Seq<char>>,
    dj: Option<Seq<char>>,
)
    requires
        i < case_count,
        j < case_count,
        i != j,
    ensures
        case_name(case_count, i, di) != case_name(case_count, j, dj),
{
    let width = decimal(case_count).len();
    let pi = zero_pad(decimal(i + 1), width);
    let pj = zero_pad(decimal(j + 1), width);
    lemma_case_number_width(case_count, i);
    lemma_case_number_width(case_count, j);
    lemma_decimal_len_monotonic(i + 1, case_count);
    lemma_decimal_len_monotonic(j + 1, case_count);
    lemma_zero_pad(i + 1, width);
    lemma_zero_pad(j + 1, width);
    let k = "case_"@.len();
    let ni = case_name(case_count, i, di);
    let nj = case_name(case_count, j, dj);
    assert(ni.subrange(k as int, (k + width) as int) =~= pi);
    assert(nj.subrange(k as int, (k + width) as int) =~= pj);
}

/// Without descriptions, the test function names of a parametrization sort in
/// the order of their cases, since the case numbers are zero-padded.
pub proof fn case_names_sort_in_case_order(case_count: nat, i: nat, j: nat)
    requires
        i < j < case_count,
    ensures
        text_lt(case_name(case_count, i, None), case_name(case_count, j, None)),
{
    let width = decimal(case_count).len();
    let pi = zero_pad(decimal(i + 1), width);
    let pj = zero_pad(decimal(j + 1), width);
    lemma_case_number_width(case_count, i);
    lemma_case_number_width(case_count, j);
    lemma_decimal_len_monotonic(i + 1, case_count);
    lemma_decimal_len_monotonic(j + 1, case_count);
    lemma_zero_pad(i + 1, width);
    lemma_zero_pad(j + 1, width);
    lemma_padded_decimal_is_numeral(i + 1, width);
    lemma_padded_decimal_is_numeral(j + 1, width);
    lemma_numeral_order(pi, pj);
    let k = choose|k: int| 0 <= k < pi.len() && pi.take(k) == pj.take(k) && (#[trigger] pi[k] as int) < (pj[k] as int);
    let c = "case_"@.len();
    let ni = case_name(case_count, i, None);
    let nj = case_name(case_count, j, None);
    assert(ni =~= "case_"@ + pi);
    assert(nj =~= "case_"@ + pj);
    assert(ni.take(c + k) =~= nj.take(c + k)) by {
        assert forall|t: int| 0 <= t < c + k implies #[trigger] ni.take(c + k)[t] == nj.take(c + k)[t] by {
            if t >= c {
                assert(pi.take(k)[t - c] == pj.take(k)[t - c]);
            }
        }
    }
    assert(ni[c + k] == pi[k] && nj[c + k] == pj[k]);
}

/// Without descriptions, all the test function names of one parametrization
/// have the same length.
pub proof fn case_names_have_equal_length(case_count: nat, i: nat, j: nat)
    requires
        i < case_count,
        j < case_count,
    ensures
        case_name(case_count, i, None).len() == case_name(case_count, j, None).len(),
{
    lemma_case_number_width(case_count, i);
    lemma_case_number_width(case_count, j);
}

/// The first `k` cases' texts hold the text of every case before `k`.
proof fn lemma_cases_text_holds(test: FnItem, data: ParametrizeData, mods: Seq<RsTestAttribute>, k: nat, n: int)
    requires
        0 <= n < k,
    ensures
        contains_text(cases_text(test, data, mods, k), case_text(test, data, mods, n)),
    decreases k,
{
    let init = cases_text(test, data, mods, (k - 1) as nat);
    let last = case_text(test, data, mods, k - 1);
    if n == k - 1 {
        lemma_contains_middle(init, last, Seq::empty());
        assert(init + last + Seq::<char>::empty() =~= cases_text(test, data, mods, k));
    } else {
        lemma_cases_text_holds(test, data, mods, (k - 1) as nat, n);
        lemma_contains_middle(Seq::empty(), init, last);
        assert(Seq::<char>::empty() + init + last =~= cases_text(test, data, mods, k));
        lemma_contains_transitive(cases_text(test, data, mods, k), init, case_text(test, data, mods, n));
    }
}

/// Every case's text stands in the expansion of a parametrized test.
pub proof fn every_case_is_rendered(test: FnItem, data: ParametrizeData, mods: Seq<RsTestAttribute>, n: int)
    requires
        0 <= n < data.cases@.len(),
    ensures
        contains_text(parametrized_text(test, data, mods), case_text(test, data, mods, n)),
{
    let all = cases_text(test, data, mods, data.cases@.len());
    lemma_cases_text_holds(test, data, mods, data.cases@.len(), n);
    let before = "#[cfg(test)]\n"@ + test.tokens@ + "\n#[cfg(test)]\nmod "@ + test.ident@ + " {\nuse super::*;\n"@;
    lemma_contains_middle(before, all, "}\n"@);
    assert(parametrized_text(test, data, mods) =~= before + all + "}\n"@);
    lemma_contains_transitive(parametrized_text(test, data, mods), all, case_text(test, data, mods, n));
}

/// A case that gives one value per parameter is rendered as a test function:
/// `#[test]`, the user's attributes in order, then a function of no arguments
/// named after the case.
pub proof fn matching_case_is_a_test_function(test: FnItem, data: ParametrizeData, mods: Seq<RsTestAttribute>, n: int)
    requires
        0 <= n < data.cases@.len(),
        data.cases@[n].args@.len() == data.args@.len(),
    ensures
        ({
            let head = "#[test]\n"@ + lines(views(test.attrs@)) + "fn "@ + case_name(
                data.cases@.len() as nat,
                n as nat,
                opt_view(data.cases@[n].description),
            ) + "() "@;
            head.len() <= case_text(test, data, mods, n).len() && case_text(test, data, mods, n).subrange(
                0,
                head.len() as int,
            ) == head
        }),
{
    let case = data.cases@[n];
    let name = case_name(data.cases@.len() as nat, n as nat, opt_view(case.description));
    let resolved = entries_map(zip_entries(views(data.args@), case.args@));
    test_fn_keeps_attributes(name, test, resolved, mods, false);
    let rest = choose|rest: Seq<char>|
        test_fn_text(name, test, resolved, mods, false) == "#[test]\n"@ + lines(views(test.attrs@)) + "fn "@
            + name + "() "@ + rest;
    let head = "#[test]\n"@ + lines(views(test.attrs@)) + "fn "@ + name + "() "@;
    assert(case_text(test, data, mods, n).subrange(0, head.len() as int) =~= head);
}

/// In the test function of a case that gives one value per parameter, each
/// parameter that is an argument of the test function is bound to the value
/// that this same case gives at the parameter's position (its last position,
/// when a name is listed twice).
pub proof fn case_binds_its_own_values(
    test: FnItem,
    data: ParametrizeData,
    mods: Seq<RsTestAttribute>,
    n: int,
    i: int,
)
    requires
        0 <= n < data.cases@.len(),
        data.cases@[n].args@.len() == data.args@.len(),
        0 <= i < data.args@.len(),
        arg_names(test.inputs@).contains(data.args@[i]@),
        forall|k: int| i < k < data.args@.len() ==> #[trigger] data.args@[k]@ != data.args@[i]@,
    ensures
        contains_text(
            case_text(test, data, mods, n),
            "let "@ + data.args@[i]@ + " = "@ + data.cases@[n].args@[i].tokens@ + ";\n"@,
        ),
{
    let case = data.cases@[n];
    let names = views(data.args@);
    let resolved = entries_map(zip_entries(names, case.args@));
    assert forall|k: int| i < k < names.len() && k < case.args@.len() implies #[trigger] names[k] != names[i] by {
        assert(data.args@[k]@ != data.args@[i]@);
    }
    resolver_gives_case_values(names, case.args@, i);
    let a = data.args@[i]@;
    let fa = arg_names(test.inputs@);
    let j = choose|j: int| 0 <= j < fa.len() && fa[j] == a;
    let name = case_name(data.cases@.len() as nat, n as nat, opt_view(case.description));
    test_fn_binds_each_argument(name, test, resolved, mods, false, j);
}

/// In the test function of every case that gives one value per parameter, the
/// trace modifiers given with the parameters print the banner and the value of
/// every traced plain-identifier argument.
pub proof fn case_traces_arguments(
    test: FnItem,
    data: ParametrizeData,
    mods: Seq<RsTestAttribute>,
    n: int,
    j: int,
)
    requires
        0 <= n < data.cases@.len(),
        data.cases@[n].args@.len() == data.args@.len(),
        0 <= j < arg_names(test.inputs@).len(),
        traces_arg(mods, arg_names(test.inputs@)[j]),
        is_plain_ident(arg_names(test.inputs@)[j]),
    ensures
        contains_text(case_text(test, data, mods, n), "println!(\"{:-^40}\", \" TEST ARGUMENTS \");\n"@),
        contains_text(
            case_text(test, data, mods, n),
            "println!(\""@ + arg_names(test.inputs@)[j] + " = {:?}\", "@ + arg_names(test.inputs@)[j] + ");\n"@,
        ),
{
    let case = data.cases@[n];
    test_fn_traces_argument(
        case_name(data.cases@.len() as nat, n as nat, opt_view(case.description)),
        test,
        entries_map(zip_entries(views(data.args@), case.args@)),
        mods,
        false,
        j,
    );
}

/// A case that does not give exactly one value per parameter, whether fewer or
/// more, is rendered as the wrong-signature compile error alone.
pub proof fn wrong_case_signature_is_an_error(
    test: FnItem,
    data: ParametrizeData,
    mods: Seq<RsTestAttribute>,
    n: int,
)
    requires
        0 <= n < data.cases@.len(),
        data.cases@[n].args@.len() != data.args@.len(),
    ensures
        case_text(test, data, mods, n) == "compile_error!(\""@ + escaped(WRONG_CASE_SIGNATURE@) + "\");"@ + "\n"@,
{
}

/// The expansion of a parametrized test keeps the user's function, compiled
/// for tests only, then opens a module of tests named after the function that
/// sees the enclosing items; the module closes the text.
pub proof fn parametrized_keeps_function_and_opens_module(
    test: FnItem,
    data: ParametrizeData,
    mods: Seq<RsTestAttribute>,
)
    ensures
        ({
            let text = parametrized_text(test, data, mods);
            let head = "#[cfg(test)]\n"@ + test.tokens@ + "\n#[cfg(test)]\nmod "@ + test.ident@
                + " {\nuse super::*;\n"@;
            &&& head.len() + 2 <= text.len()
            &&& text.subrange(0, head.len() as int) == head
            &&& text.subrange(text.len() - 2, text.len() as int) == "}\n"@
        }),
{
    let text = parametrized_text(test, data, mods);
    let head = "#[cfg(test)]\n"@ + test.tokens@ + "\n#[cfg(test)]\nmod "@ + test.ident@ + " {\nuse super::*;\n"@;
    let all = cases_text(test, data, mods, data.cases@.len());
    reveal_strlit("}\n");
    assert(text =~= head + all + "}\n"@);
    assert(text.subrange(0, head.len() as int) =~= head);
    assert(text.subrange(text.len() - 2, text.len() as int) =~= "}\n"@);
}

/// The name of case `index` is `case_`, then a numeral as wide as the count of
/// cases that reads as the case number counted from one, then `_` and the
/// description when there is one.
pub proof fn case_name_reads_as_case_number(case_count: nat, index: nat, description: Option<Seq<char>>)
    requires
        index < case_count,
    ensures
        ({
            let name = case_name(case_count, index, description);
            let width = decimal(case_count).len();
            let number = name.subrange(5, 5 + width as int);
            &&& 5 + width <= name.len()
            &&& name.subrange(0, 5) == seq!['c', 'a', 's', 'e', '_']
            &&& is_numeral(number)
            &&& numeral_value(number) == index + 1
            &&& name.subrange(5 + width as int, name.len() as int) == match description {
                Some(d) => seq!['_'] + d,
                None => Seq::<char>::empty(),
            }
        }),
{
    let width = decimal(case_count).len();
    let padded = zero_pad(decimal(index + 1), width);
    lemma_case_number_width(case_count, index);
    lemma_decimal_len_monotonic(index + 1, case_count);
    lemma_zero_pad(index + 1, width);
    lemma_padded_decimal_is_numeral(index + 1, width);
    reveal_strlit("case_");
    reveal_strlit("_");
    let name = case_name(case_count, index, description);
    let tail = match description {
        Some(d) => "_"@ + d,
        None => Seq::<char>::empty(),
    };
    assert(name == "case_"@ + padded + tail);
    assert(name.subrange(0, 5) =~= seq!['c', 'a', 's', 'e', '_']);
    assert(name.subrange(5, 5 + width as int) =~= padded);
    assert(name.subrange(5 + width as int, name.len() as int) =~= match description {
        Some(d) => seq!['_'] + d,
        None => Seq::<char>::empty(),
    });
}

/// Every parameter that the test function does not take is reported, each by
/// a compile error naming it on a line of its own.
pub proof fn missed_parameters_are_reported(test: FnItem, data: ParametrizeData, i: int)
    requires
        0 <= i < data.args@.len(),
        !arg_names(test.inputs@).contains(data.args@[i]@),
    ensures
        param_errors(test, data) is Some,
        contains_text(
            param_errors(test, data).unwrap(),
            "compile_error!(\""@ + escaped(
                "Missed argument: '"@ + data.args@[i]@ + "' should be a test function argument."@,
            ) + "\");\n"@,
        ),
{
    let fa = arg_names(test.inputs@);
    let ps = views(data.args@);
    lemma_missed_args_has(fa, ps, i);
    let missed = missed_args(fa, ps);
    let k = choose|k: int| 0 <= k < missed.len() && #[trigger] missed[k] == ps[i];
    let stmts = missed.map_values(|p: Seq<char>| error_stmt(missed_arg_message(p)));
    lemma_lines_contains(stmts, k);
    reveal_strlit("\");");
    reveal_strlit("\n");
    reveal_strlit("\");\n");
    assert(stmts[k] + "\n"@ =~= "compile_error!(\""@ + escaped(
        "Missed argument: '"@ + data.args@[i]@ + "' should be a test function argument."@,
    ) + "\");\n"@);
}

proof fn lemma_missed_args_has(fn_args: Seq<Seq<char>>, params: Seq<Seq<char>>, i: int)
    requires
        0 <= i < params.len(),
        !fn_args.contains(params[i]),
    ensures
        exists|k: int| 0 <= k < missed_args(fn_args, params).len() && #[trigger] missed_args(fn_args, params)[k] == params[i],
    decreases params.len(),
{
    let init = params.drop_last();
    if i == params.len() - 1 {
        let m = missed_args(fn_args, params);
        assert(m[m.len() - 1] == params[i]);
    } else {
        assert(init[i] == params[i]);
        lemma_missed_args_has(fn_args, init, i);
        let k = choose|k: int| 0 <= k < missed_args(fn_args, init).len() && #[trigger] missed_args(fn_args, init)[k] == init[i];
        let m = missed_args(fn_args, params);
        assert(m[k] == missed_args(fn_args, init)[k]);
    }
}

} // verus!
