//! Which test arguments are traced, as the modifiers of an attribute decide.

use vstd::prelude::*;

use crate::model::{Modifiers, RsTestAttribute};

verus! {

/// The modifier that turns tracing of the test arguments on.
pub const TRACE_VARIABLE_ATTR: &'static str = "trace";

/// The modifier that excludes the listed arguments from tracing.
pub const NOTRACE_VARIABLE_ATTR: &'static str = "notrace";

/// `m` is the bare word `trace`.
pub open spec fn is_trace_attr(m: RsTestAttribute) -> bool {
    m matches RsTestAttribute::Attr(i) && i@ == TRACE_VARIABLE_ATTR@
}

/// `m` is `notrace(..)` and lists `ident`.
pub open spec fn is_notrace_attr(ident: Seq<char>, m: RsTestAttribute) -> bool {
    match m {
        RsTestAttribute::Tagged(i, args) => i@ == NOTRACE_VARIABLE_ATTR@ && lists(args@, ident),
        RsTestAttribute::Attr(_) => false,
    }
}

/// `ident` is one of the names in `names`.
pub open spec fn lists(names: Seq<String>, ident: Seq<char>) -> bool {
    exists|k: int| 0 <= k < names.len() && #[trigger] names[k]@ == ident
}

/// Some modifier in `mods` is `trace`.
pub open spec fn traces(mods: Seq<RsTestAttribute>) -> bool {
    exists|i: int| 0 <= i < mods.len() && #[trigger] is_trace_attr(mods[i])
}

/// The argument `ident` is traced: tracing is on and no `notrace` lists it.
pub open spec fn traces_arg(mods: Seq<RsTestAttribute>, ident: Seq<char>) -> bool {
    traces(mods) && forall|i: int| 0 <= i < mods.len() ==> !#[trigger] is_notrace_attr(ident, mods[i])
}

/// An argument that a `notrace` modifier lists is never traced, whatever the
/// other modifiers say.
pub proof fn notrace_excludes_argument(mods: Seq<RsTestAttribute>, ident: Seq<char>, i: int)
    requires
        0 <= i < mods.len(),
        is_notrace_attr(ident, mods[i]),
    ensures
        !traces_arg(mods, ident),
{
}

/// A modifier found in one list of modifiers is found in any list with the
/// same modifiers.
proof fn lemma_same_modifiers_contain(mods: Seq<RsTestAttribute>, other: Seq<RsTestAttribute>, i: int)
    requires
        mods.to_multiset() == other.to_multiset(),
        0 <= i < mods.len(),
    ensures
        exists|j: int| 0 <= j < other.len() && #[trigger] other[j] == mods[i],
{
    broadcast use vstd::seq_lib::group_to_multiset_ensures;

    assert(mods.contains(mods[i]));
    assert(mods.to_multiset().count(mods[i]) > 0);
    assert(other.to_multiset().count(mods[i]) > 0);
    assert(other.contains(mods[i]));
}

/// Whether an argument is traced does not depend on the order in which the
/// modifiers are written.
pub proof fn tracing_ignores_modifier_order(
    mods: Seq<RsTestAttribute>,
    other: Seq<RsTestAttribute>,
    ident: Seq<char>,
)
    requires
        mods.to_multiset() == other.to_multiset(),
    ensures
        traces(mods) == traces(other),
        traces_arg(mods, ident) == traces_arg(other, ident),
{
    if traces(mods) {
        let i = choose|i: int| 0 <= i < mods.len() && #[trigger] is_trace_attr(mods[i]);
        lemma_same_modifiers_contain(mods, other, i);
        let j = choose|j: int| 0 <= j < other.len() && #[trigger] other[j] == mods[i];
        assert(is_trace_attr(other[j]));
    }
    if traces(other) {
        let i = choose|i: int| 0 <= i < other.len() && #[trigger] is_trace_attr(other[i]);
        lemma_same_modifiers_contain(other, mods, i);
        let j = choose|j: int| 0 <= j < mods.len() && #[trigger] mods[j] == other[i];
        assert(is_trace_attr(mods[j]));
    }
    assert forall|i: int| 0 <= i < mods.len() && #[trigger] is_notrace_attr(ident, mods[i]) implies !traces_arg(
        other,
        ident,
    ) by {
        lemma_same_modifiers_contain(mods, other, i);
        let j = choose|j: int| 0 <= j < other.len() && #[trigger] other[j] == mods[i];
        assert(is_notrace_attr(ident, other[j]));
    }
    assert forall|i: int| 0 <= i < other.len() && #[trigger] is_notrace_attr(ident, other[i]) implies !traces_arg(
        mods,
        ident,
    ) by {
        lemma_same_modifiers_contain(other, mods, i);
        let j = choose|j: int| 0 <= j < mods.len() && #[trigger] mods[j] == other[i];
        assert(is_notrace_attr(ident, mods[j]));
    }
}

/// Adding modifiers never turns tracing off.
pub proof fn added_modifiers_keep_tracing(mods: Seq<RsTestAttribute>, extra: Seq<RsTestAttribute>)
    requires
        traces(mods),
    ensures
        traces(mods + extra),
{
    let i = choose|i: int| 0 <= i < mods.len() && #[trigger] is_trace_attr(mods[i]);
    assert((mods + extra)[i] == mods[i]);
}

impl Modifiers {
    /// Whether the value of the argument `ident` is printed before the test runs.
    pub fn trace_me(&self, ident: &String) -> (r: bool)
        ensures
            r == traces_arg(self.modifiers@, ident@),
    {
        if self.should_trace() {
            let n = self.modifiers.len();
            let mut i: usize = 0;
            while i < n
                invariant
                    n == self.modifiers@.len(),
                    i <= n,
                    forall|j: int| 0 <= j < i ==> !#[trigger] is_notrace_attr(ident@, self.modifiers@[j]),
                decreases n - i,
            {
                if Modifiers::is_notrace(ident, &self.modifiers[i]) {
                    return false;
                }
                i = i + 1;
            }
            true
        } else {
            false
        }
    }

    /// Whether `m` is a `notrace` modifier that lists `ident`.
    pub fn is_notrace(ident: &String, m: &RsTestAttribute) -> (r: bool)
        ensures
            r == is_notrace_attr(ident@, *m),
    {
        match m {
            RsTestAttribute::Tagged(i, args) => {
                if *i != String::from_str(NOTRACE_VARIABLE_ATTR) {
                    return false;
                }
                let n = args.len();
                let mut k: usize = 0;
                while k < n
                    invariant
                        n == args@.len(),
                        k <= n,
                        i@ == NOTRACE_VARIABLE_ATTR@,
                        *m == RsTestAttribute::Tagged(*i, *args),
                        forall|j: int| 0 <= j < k ==> #[trigger] args@[j]@ != ident@,
                    decreases n - k,
                {
                    if args[k] == *ident {
                        assert(args@[k as int]@ == ident@);
                        return true;
                    }
                    k = k + 1;
                }
                false
            },
            RsTestAttribute::Attr(_) => false,
        }
    }

    /// Whether some modifier turns tracing on.
    pub fn should_trace(&self) -> (r: bool)
        ensures
            r == traces(self.modifiers@),
    {
        let n = self.modifiers.len();
        let mut i: usize = 0;
        while i < n
            invariant
                n == self.modifiers@.len(),
                i <= n,
                forall|j: int| 0 <= j < i ==> !#[trigger] is_trace_attr(self.modifiers@[j]),
            decreases n - i,
        {
            if Modifiers::is_trace(&self.modifiers[i]) {
                return true;
            }
            i = i + 1;
        }
        false
    }

    /// Whether `m` is the `trace` modifier.
    pub fn is_trace(m: &RsTestAttribute) -> (r: bool)
        ensures
            r == is_trace_attr(*m),
    {
        match m {
            RsTestAttribute::Attr(i) => *i == String::from_str(TRACE_VARIABLE_ATTR),
            RsTestAttribute::Tagged(_, _) => false,
        }
    }
}

} // verus!
