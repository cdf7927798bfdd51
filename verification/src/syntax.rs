//! The `syn` parser's verdict on the print statement of an argument.

use vstd::prelude::*;

use crate::render::dump_stmt;

verus! {

/// `c` is an ASCII letter, an ASCII digit or `_`.
pub open spec fn is_ident_char(c: char) -> bool {
    let u = c as u32;
    (97 <= u <= 122) || (65 <= u <= 90) || (48 <= u <= 57) || u == 95
}

/// `s` is a plain identifier: one or more ASCII letters, digits and `_`, the
/// first not a digit.
pub open spec fn is_plain_ident(s: Seq<char>) -> bool {
    &&& s.len() > 0
    &&& !(48 <= (s[0] as u32) <= 57)
    &&& forall|i: int| 0 <= i < s.len() ==> #[trigger] is_ident_char(s[i])
}

/// `text` is the print statement of a plain identifier.
pub open spec fn is_plain_dump(text: Seq<char>) -> bool {
    exists|ident: Seq<char>| is_plain_ident(ident) && text == #[trigger] dump_stmt(ident)
}

/// Whether `s` is a plain identifier.
pub fn is_plain_ident_string(s: &String) -> (r: bool)
    ensures
        r == is_plain_ident(s@),
{
    let t = s.as_str();
    let n = t.unicode_len();
    if n == 0 {
        return false;
    }
    let first = t.get_char(0) as u32;
    if 48 <= first && first <= 57 {
        return false;
    }
    let mut i: usize = 0;
    while i < n
        invariant
            n == s@.len(),
            t@ == s@,
            i <= n,
            forall|j: int| 0 <= j < i ==> #[trigger] is_ident_char(s@[j]),
        decreases n - i,
    {
        let u = t.get_char(i) as u32;
        if !((97 <= u && u <= 122) || (65 <= u && u <= 90) || (48 <= u && u <= 57) || u == 95) {
            assert(!is_ident_char(s@[i as int]));
            return false;
        }
        i = i + 1;
    }
    true
}

/// Calls `syn::parse_str::<syn::Stmt>` on the print statement of a plain
/// identifier and reports whether it parsed. Trusted to succeed: the text
/// `println!("x = {:?}", x);` with `x` made of ASCII letters, digits and `_`
/// lexes into balanced tokens under both the fallback lexer of `proc_macro2`
/// and the compiler's, and `syn` reads it as a macro statement.
#[verifier::external_body]
pub(crate) fn stmt_parses(text: &String) -> (r: bool)
    requires
        is_plain_dump(text@),
    ensures
        r,
{
    syn::parse_str::<syn::Stmt>(text.as_str()).is_ok()
}

} // verus!
