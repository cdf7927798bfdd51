//! Which expression stands in for a test argument: the value a case gives it.

use vstd::prelude::*;

use crate::model::{views, CaseArg, TestCase};

verus! {

/// The map that inserting `entries` in order builds: a later entry for a name
/// replaces an earlier one.
pub open spec fn entries_map(entries: Seq<(Seq<char>, CaseArg)>) -> Map<Seq<char>, CaseArg>
    decreases entries.len(),
{
    if entries.len() == 0 {
        Map::empty()
    } else {
        entries_map(entries.drop_last()).insert(entries.last().0, entries.last().1)
    }
}

/// The pairs of a name and a value at the same position, as far as both lists go.
pub open spec fn zip_entries(names: Seq<Seq<char>>, values: Seq<CaseArg>) -> Seq<(Seq<char>, CaseArg)> {
    Seq::new(
        if names.len() <= values.len() { names.len() } else { values.len() },
        |i: int| (names[i], values[i]),
    )
}

/// Maps argument names to the expressions that resolve them.
pub struct Resolver<'a> {
    entries: Vec<(String, &'a CaseArg)>,
}

impl<'a> Resolver<'a> {
    /// The entries in insertion order, by value.
    pub closed spec fn entries(&self) -> Seq<(Seq<char>, CaseArg)> {
        self.entries@.map_values(|e: (String, &'a CaseArg)| (e.0@, *e.1))
    }
}

impl<'a> View for Resolver<'a> {
    type V = Map<Seq<char>, CaseArg>;

    closed spec fn view(&self) -> Map<Seq<char>, CaseArg> {
        entries_map(self.entries())
    }
}

/// Entries after position `i` that name another key leave its value as the
/// first `i` entries set it.
proof fn lemma_entries_map_prefix(s: Seq<(Seq<char>, CaseArg)>, i: int, key: Seq<char>)
    requires
        0 <= i <= s.len(),
        forall|j: int| i <= j < s.len() ==> #[trigger] s[j].0 != key,
    ensures
        entries_map(s).dom().contains(key) == entries_map(s.take(i)).dom().contains(key),
        entries_map(s)[key] == entries_map(s.take(i))[key],
    decreases s.len(),
{
    if s.len() > i {
        lemma_entries_map_prefix(s.drop_last(), i, key);
        assert(s.drop_last().take(i) =~= s.take(i));
    } else {
        assert(s.take(i) =~= s);
    }
}

/// The last entry for a name decides what the name maps to.
pub proof fn lemma_entries_map_last(s: Seq<(Seq<char>, CaseArg)>, j: int)
    requires
        0 <= j < s.len(),
        forall|k: int| j < k < s.len() ==> #[trigger] s[k].0 != s[j].0,
    ensures
        entries_map(s).dom().contains(s[j].0),
        entries_map(s)[s[j].0] == s[j].1,
{
    lemma_entries_map_prefix(s, j + 1, s[j].0);
    assert(s.take(j + 1).drop_last() =~= s.take(j));
}

/// A name that no entry carries is not mapped.
pub proof fn lemma_entries_map_absent(s: Seq<(Seq<char>, CaseArg)>, key: Seq<char>)
    requires
        forall|k: int| 0 <= k < s.len() ==> #[trigger] s[k].0 != key,
    ensures
        !entries_map(s).dom().contains(key),
{
    lemma_entries_map_prefix(s, 0, key);
    assert(s.take(0) =~= Seq::<(Seq<char>, CaseArg)>::empty());
}

/// A resolver built from parameter names and a case resolves each name to the
/// case's value at the name's last position within both lists.
pub proof fn resolver_gives_case_values(names: Seq<Seq<char>>, values: Seq<CaseArg>, i: int)
    requires
        0 <= i < names.len(),
        i < values.len(),
        forall|k: int| i < k < names.len() && k < values.len() ==> #[trigger] names[k] != names[i],
    ensures
        entries_map(zip_entries(names, values)).dom().contains(names[i]),
        entries_map(zip_entries(names, values))[names[i]] == values[i],
{
    let s = zip_entries(names, values);
    assert forall|k: int| i < k < s.len() implies #[trigger] s[k].0 != s[i].0 by {
        assert(names[k] != names[i]);
    }
    lemma_entries_map_last(s, i);
}

/// A resolver built from parameter names and a case resolves no other name.
pub proof fn resolver_ignores_other_names(names: Seq<Seq<char>>, values: Seq<CaseArg>, key: Seq<char>)
    requires
        forall|k: int| 0 <= k < names.len() ==> #[trigger] names[k] != key,
    ensures
        !entries_map(zip_entries(names, values)).dom().contains(key),
{
    let s = zip_entries(names, values);
    assert forall|k: int| 0 <= k < s.len() implies #[trigger] s[k].0 != key by {
        assert(names[k] != key);
    }
    lemma_entries_map_absent(s, key);
}

impl<'a> Resolver<'a> {
    /// A resolver that resolves nothing.
    pub fn default() -> (r: Self)
        ensures
            r@ == Map::<Seq<char>, CaseArg>::empty(),
            r.entries().len() == 0,
    {
        let r = Resolver { entries: Vec::new() };
        assert(r.entries() =~= Seq::<(Seq<char>, CaseArg)>::empty());
        r
    }

    /// Resolves each parameter name to the value that `case` gives at the same
    /// position.
    pub fn new(args: &Vec<String>, case: &'a TestCase) -> (r: Self)
        ensures
            r@ == entries_map(zip_entries(views(args@), case.args@)),
    {
        let mut r = Resolver::default();
        let n = if args.len() <= case.args.len() { args.len() } else { case.args.len() };
        let ghost all = zip_entries(views(args@), case.args@);
        let mut i: usize = 0;
        while i < n
            invariant
                n <= args@.len(),
                n <= case.args@.len(),
                i <= n,
                all == zip_entries(views(args@), case.args@),
                all.len() == n,
                r.entries() =~= all.take(i as int),
            decreases n - i,
        {
            r.add(&args[i], &case.args[i]);
            assert(all.take(i + 1) =~= all.take(i as int).push(all[i as int]));
            i = i + 1;
        }
        assert(all.take(n as int) =~= all);
        r
    }

    /// Resolves `ident` to `expr`, replacing what it resolved to before.
    pub fn add(&mut self, ident: &String, expr: &'a CaseArg)
        ensures
            final(self)@ == old(self)@.insert(ident@, *expr),
            final(self).entries() == old(self).entries().push((ident@, *expr)),
    {
        self.entries.push((ident.clone(), expr));
        assert(self.entries() =~= old(self).entries().push((ident@, *expr)));
        assert(self.entries().drop_last() =~= old(self).entries());
    }

    /// The expression that resolves `ident`, if any.
    pub fn resolve(&self, ident: &String) -> (r: Option<&'a CaseArg>)
        ensures
            r is Some <==> self@.dom().contains(ident@),
            r matches Some(v) ==> *v == self@[ident@],
    {
        let ghost s = self.entries();
        let mut i = self.entries.len();
        while i > 0
            invariant
                i <= self.entries@.len(),
                s == self.entries(),
                forall|j: int| i <= j < s.len() ==> #[trigger] s[j].0 != ident@,
            decreases i,
        {
            i = i - 1;
            if self.entries[i].0 == *ident {
                proof {
                    lemma_entries_map_last(s, i as int);
                }
                return Some(self.entries[i].1);
            }
            assert(s[i as int].0 != ident@);
        }
        proof {
            lemma_entries_map_absent(s, ident@);
        }
        None
    }
}

} // verus!
