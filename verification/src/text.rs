//! Text building blocks: decimal numerals, zero padding and joining.

use vstd::prelude::*;

verus! {

/// The character of a decimal digit `d` (`0 <= d < 10`).
pub open spec fn digit_char(d: int) -> char {
    seq!['0', '1', '2', '3', '4', '5', '6', '7', '8', '9'][d]
}

/// The decimal numeral of `n`, without leading zeros.
pub open spec fn decimal(n: nat) -> Seq<char>
    decreases n,
{
    if n < 10 {
        seq![digit_char(n as int)]
    } else {
        decimal(n / 10) + seq![digit_char((n % 10) as int)]
    }
}

/// `s` left-padded with `'0'` up to `width` characters.
pub open spec fn zero_pad(s: Seq<char>, width: nat) -> Seq<char> {
    if s.len() < width {
        Seq::new((width - s.len()) as nat, |i: int| '0') + s
    } else {
        s
    }
}

/// Each of `parts` followed by a line break, one after the other.
pub open spec fn lines(parts: Seq<Seq<char>>) -> Seq<char>
    decreases parts.len(),
{
    if parts.len() == 0 {
        Seq::empty()
    } else {
        lines(parts.drop_last()) + parts.last() + "\n"@
    }
}

/// `parts` with `sep` between each two neighbours.
pub open spec fn join(parts: Seq<Seq<char>>, sep: Seq<char>) -> Seq<char>
    decreases parts.len(),
{
    if parts.len() == 0 {
        Seq::empty()
    } else if parts.len() == 1 {
        parts[0]
    } else {
        join(parts.drop_last(), sep) + sep + parts.last()
    }
}

/// `needle` occurs in `hay` as a contiguous piece.
pub open spec fn contains_text(hay: Seq<char>, needle: Seq<char>) -> bool {
    exists|k: int|
        0 <= k && k + needle.len() <= hay.len() && #[trigger] hay.subrange(k, k + needle.len()) == needle
}

/// A piece between a prefix and a suffix occurs in the whole.
pub proof fn lemma_contains_middle(before: Seq<char>, piece: Seq<char>, after: Seq<char>)
    ensures
        contains_text(before + piece + after, piece),
{
    let h = before + piece + after;
    assert(h.subrange(before.len() as int, (before.len() + piece.len()) as int) =~= piece);
}

/// What occurs in a piece occurs in whatever the piece occurs in.
pub proof fn lemma_contains_transitive(a: Seq<char>, b: Seq<char>, c: Seq<char>)
    requires
        contains_text(a, b),
        contains_text(b, c),
    ensures
        contains_text(a, c),
{
    let i = choose|k: int| 0 <= k && k + b.len() <= a.len() && #[trigger] a.subrange(k, k + b.len()) == b;
    let j = choose|k: int| 0 <= k && k + c.len() <= b.len() && #[trigger] b.subrange(k, k + c.len()) == c;
    assert(a.subrange(i + j, i + j + c.len()) =~= c) by {
        assert forall|t: int| 0 <= t < c.len() implies #[trigger] a.subrange(i + j, i + j + c.len())[t] == c[t] by {
            assert(b.subrange(j, j + c.len())[t] == b[j + t]);
            assert(a.subrange(i, i + b.len())[j + t] == a[i + j + t]);
        }
    }
}

/// Every part, with its line break, occurs in the lines of the parts.
pub proof fn lemma_lines_contains(parts: Seq<Seq<char>>, j: int)
    requires
        0 <= j < parts.len(),
    ensures
        contains_text(lines(parts), parts[j] + "\n"@),
    decreases parts.len(),
{
    let init = parts.drop_last();
    if j == parts.len() - 1 {
        lemma_contains_middle(lines(init), parts[j] + "\n"@, Seq::empty());
        assert(lines(init) + (parts[j] + "\n"@) + Seq::<char>::empty() =~= lines(parts));
    } else {
        lemma_lines_contains(init, j);
        assert(init[j] == parts[j]);
        lemma_contains_middle(Seq::empty(), lines(init), parts.last() + "\n"@);
        assert(Seq::<char>::empty() + lines(init) + (parts.last() + "\n"@) =~= lines(parts));
        lemma_contains_transitive(lines(parts), lines(init), parts[j] + "\n"@);
    }
}

/// `c` as it stands inside a string literal: a double quote, a backslash, line feed and
/// carriage return escaped with a backslash, any other character as it is.
pub open spec fn escape_char(c: char) -> Seq<char> {
    if c == '"' {
        seq!['\\', '"']
    } else if c == '\\' {
        seq!['\\', '\\']
    } else if c == '\n' {
        seq!['\\', 'n']
    } else if c == '\r' {
        seq!['\\', 'r']
    } else {
        seq![c]
    }
}

/// `s` with every character escaped for a string literal.
pub open spec fn escaped(s: Seq<char>) -> Seq<char>
    decreases s.len(),
{
    if s.len() == 0 {
        Seq::empty()
    } else {
        escaped(s.drop_last()) + escape_char(s.last())
    }
}

/// The value of the decimal digit character `c` (zero for a non-digit).
pub open spec fn digit_value(c: char) -> int {
    if c == '1' { 1 }
    else if c == '2' { 2 }
    else if c == '3' { 3 }
    else if c == '4' { 4 }
    else if c == '5' { 5 }
    else if c == '6' { 6 }
    else if c == '7' { 7 }
    else if c == '8' { 8 }
    else if c == '9' { 9 }
    else { 0 }
}

/// The number that the digit string `s` reads as, most significant digit first.
pub open spec fn numeral_value(s: Seq<char>) -> int
    decreases s.len(),
{
    if s.len() == 0 {
        0
    } else {
        numeral_value(s.drop_last()) * 10 + digit_value(s.last())
    }
}

proof fn lemma_digit_value(d: int)
    requires
        0 <= d < 10,
    ensures
        digit_value(digit_char(d)) == d,
{
    assert(seq!['0', '1', '2', '3', '4', '5', '6', '7', '8', '9'][d] == digit_char(d));
}

/// A numeral reads as the number it was written from.
pub proof fn lemma_decimal_value(n: nat)
    ensures
        numeral_value(decimal(n)) == n,
        decimal(n).len() >= 1,
    decreases n,
{
    if n < 10 {
        lemma_digit_value(n as int);
        assert(decimal(n).drop_last() =~= Seq::<char>::empty());
        assert(numeral_value(Seq::<char>::empty()) == 0);
    } else {
        lemma_decimal_value(n / 10);
        lemma_digit_value((n % 10) as int);
        assert(decimal(n).drop_last() =~= decimal(n / 10));
        assert(decimal(n).last() == digit_char((n % 10) as int));
        assert((n / 10) * 10 + n % 10 == n);
    }
}

/// A longer number never has a shorter numeral.
pub proof fn lemma_decimal_len_monotonic(a: nat, b: nat)
    requires
        a <= b,
    ensures
        decimal(a).len() <= decimal(b).len(),
    decreases b,
{
    lemma_decimal_value(a);
    lemma_decimal_value(b);
    if b >= 10 && a >= 10 {
        lemma_decimal_len_monotonic(a / 10, b / 10);
    }
}

/// Leading zeros do not change the value of a numeral.
pub proof fn lemma_leading_zeros_value(k: nat, s: Seq<char>)
    ensures
        numeral_value(Seq::new(k, |i: int| '0') + s) == numeral_value(s),
    decreases s.len(), k,
{
    let z = Seq::new(k, |i: int| '0');
    if s.len() == 0 {
        assert(z + s =~= z);
        if k > 0 {
            assert(z.drop_last() =~= Seq::new((k - 1) as nat, |i: int| '0'));
            lemma_leading_zeros_value((k - 1) as nat, s);
            assert(Seq::new((k - 1) as nat, |i: int| '0') + s =~= Seq::new((k - 1) as nat, |i: int| '0'));
        }
    } else {
        assert((z + s).drop_last() =~= z + s.drop_last());
        lemma_leading_zeros_value(k, s.drop_last());
    }
}

/// A numeral padded to a width at least its length has exactly that width
/// and still reads as the same number.
pub proof fn lemma_zero_pad(n: nat, width: nat)
    requires
        decimal(n).len() <= width,
    ensures
        zero_pad(decimal(n), width).len() == width,
        numeral_value(zero_pad(decimal(n), width)) == n,
{
    lemma_decimal_value(n);
    if decimal(n).len() < width {
        lemma_leading_zeros_value((width - decimal(n).len()) as nat, decimal(n));
    }
}

/// `a` sorts before `b` as text: at their first difference `a` has the smaller
/// character, or `a` is a proper prefix of `b`.
pub open spec fn text_lt(a: Seq<char>, b: Seq<char>) -> bool {
    ||| exists|k: int|
        0 <= k < a.len() && k < b.len() && a.take(k) == b.take(k) && (#[trigger] a[k] as int) < (
        b[k] as int)
    ||| a.len() < b.len() && a == b.take(a.len() as int)
}

/// Every character of `s` is a decimal digit.
pub open spec fn is_numeral(s: Seq<char>) -> bool {
    forall|i: int| 0 <= i < s.len() ==> #[trigger] s[i] == digit_char(digit_value(s[i]))
}

proof fn lemma_digit_char_code(d: int)
    requires
        0 <= d < 10,
    ensures
        digit_char(d) as int == 48 + d,
{
    let t = seq!['0', '1', '2', '3', '4', '5', '6', '7', '8', '9'];
    assert(t[0] as int == 48);
    assert(t[1] as int == 49);
    assert(t[2] as int == 50);
    assert(t[3] as int == 51);
    assert(t[4] as int == 52);
    assert(t[5] as int == 53);
    assert(t[6] as int == 54);
    assert(t[7] as int == 55);
    assert(t[8] as int == 56);
    assert(t[9] as int == 57);
}

proof fn lemma_digit_value_range(c: char)
    ensures
        0 <= digit_value(c) < 10,
{
}

/// Numerals are made of digits, also when padded with zeros.
pub proof fn lemma_padded_decimal_is_numeral(n: nat, width: nat)
    ensures
        is_numeral(decimal(n)),
        is_numeral(zero_pad(decimal(n), width)),
    decreases n,
{
    if n < 10 {
        lemma_digit_value(n as int);
    } else {
        lemma_padded_decimal_is_numeral(n / 10, 0);
        lemma_digit_value((n % 10) as int);
        let s = decimal(n);
        assert forall|i: int| 0 <= i < s.len() implies #[trigger] s[i] == digit_char(digit_value(s[i])) by {
            if i < s.len() - 1 {
                assert(s[i] == decimal(n / 10)[i]);
            }
        }
    }
    lemma_digit_value(0);
    let p = zero_pad(decimal(n), width);
    assert forall|i: int| 0 <= i < p.len() implies #[trigger] p[i] == digit_char(digit_value(p[i])) by {
        if decimal(n).len() < width && i < width - decimal(n).len() {
            assert(p[i] == '0');
        } else if decimal(n).len() < width {
            assert(p[i] == decimal(n)[i - (width - decimal(n).len())]);
        }
    }
}

/// Two numerals of one length that read as the same number are the same text.
proof fn lemma_numeral_injective(a: Seq<char>, b: Seq<char>)
    requires
        a.len() == b.len(),
        is_numeral(a),
        is_numeral(b),
        numeral_value(a) == numeral_value(b),
    ensures
        a == b,
    decreases a.len(),
{
    if a.len() > 0 {
        let (ia, ib) = (a.drop_last(), b.drop_last());
        assert(is_numeral(ia)) by {
            assert forall|i: int| 0 <= i < ia.len() implies #[trigger] ia[i] == digit_char(digit_value(ia[i])) by {
                assert(ia[i] == a[i]);
            }
        }
        assert(is_numeral(ib)) by {
            assert forall|i: int| 0 <= i < ib.len() implies #[trigger] ib[i] == digit_char(digit_value(ib[i])) by {
                assert(ib[i] == b[i]);
            }
        }
        lemma_digit_value_range(a.last());
        lemma_digit_value_range(b.last());
        assert(numeral_value(ia) == numeral_value(ib));
        lemma_numeral_injective(ia, ib);
        assert(a[a.len() - 1] == digit_char(digit_value(a[a.len() - 1])));
        assert(b[b.len() - 1] == digit_char(digit_value(b[b.len() - 1])));
        assert(a =~= ia.push(a.last()));
        assert(b =~= ib.push(b.last()));
    }
}

/// Of two numerals of one length, the smaller number sorts first as text.
pub proof fn lemma_numeral_order(a: Seq<char>, b: Seq<char>)
    requires
        a.len() == b.len(),
        is_numeral(a),
        is_numeral(b),
        numeral_value(a) < numeral_value(b),
    ensures
        exists|k: int|
            0 <= k < a.len() && a.take(k) == b.take(k) && (#[trigger] a[k] as int) < (b[k] as int),
    decreases a.len(),
{
    let (ia, ib) = (a.drop_last(), b.drop_last());
    assert(a.len() > 0);
    assert(is_numeral(ia)) by {
        assert forall|i: int| 0 <= i < ia.len() implies #[trigger] ia[i] == digit_char(digit_value(ia[i])) by {
            assert(ia[i] == a[i]);
        }
    }
    assert(is_numeral(ib)) by {
        assert forall|i: int| 0 <= i < ib.len() implies #[trigger] ib[i] == digit_char(digit_value(ib[i])) by {
            assert(ib[i] == b[i]);
        }
    }
    lemma_digit_value_range(a.last());
    lemma_digit_value_range(b.last());
    if numeral_value(ia) < numeral_value(ib) {
        lemma_numeral_order(ia, ib);
        let k = choose|k: int|
            0 <= k < ia.len() && ia.take(k) == ib.take(k) && (#[trigger] ia[k] as int) < (ib[k] as int);
        assert(a.take(k) =~= ia.take(k));
        assert(b.take(k) =~= ib.take(k));
        assert(a[k] == ia[k] && b[k] == ib[k]);
    } else {
        assert(numeral_value(ia) == numeral_value(ib));
        lemma_numeral_injective(ia, ib);
        let k = a.len() - 1;
        assert(a.take(k) =~= ia);
        assert(b.take(k) =~= ib);
        assert(a[k] == digit_char(digit_value(a[k])));
        assert(b[k] == digit_char(digit_value(b[k])));
        lemma_digit_char_code(digit_value(a[k]));
        lemma_digit_char_code(digit_value(b[k]));
        assert((a[k] as int) < (b[k] as int));
    }
}

/// The one-character string of the decimal digit `d`.
fn digit_str(d: usize) -> (s: &'static str)
    requires
        d < 10,
    ensures
        s@ == seq![digit_char(d as int)],
{
    let digits = "0123456789";
    proof {
        reveal_strlit("0123456789");
    }
    let s = digits.substring_char(d, d + 1);
    assert(s@ =~= seq![digit_char(d as int)]);
    s
}

/// The decimal numeral of `n`.
pub fn decimal_string(n: usize) -> (s: String)
    ensures
        s@ == decimal(n as nat),
    decreases n,
{
    if n < 10 {
        String::from_str(digit_str(n))
    } else {
        let mut s = decimal_string(n / 10);
        s.append(digit_str(n % 10));
        s
    }
}

/// `s` left-padded with zeros up to `width` characters.
pub fn zero_padded(s: &String, width: usize) -> (r: String)
    ensures
        r@ == zero_pad(s@, width as nat),
{
    let len = s.as_str().unicode_len();
    let mut r = String::new();
    if len < width {
        let mut i: usize = 0;
        while i < width - len
            invariant
                i <= width - len,
                r@ =~= Seq::new(i as nat, |j: int| '0'),
            decreases width - len - i,
        {
            proof {
                reveal_strlit("0");
            }
            r.append("0");
            i = i + 1;
        }
    }
    r.append(s.as_str());
    r
}

/// Each of `parts` followed by a line break.
pub fn lines_string(parts: &Vec<String>) -> (r: String)
    ensures
        r@ == lines(crate::model::views(parts@)),
{
    let ghost all = crate::model::views(parts@);
    let mut r = String::new();
    let mut i: usize = 0;
    while i < parts.len()
        invariant
            i <= parts@.len(),
            all == crate::model::views(parts@),
            r@ == lines(all.take(i as int)),
        decreases parts@.len() - i,
    {
        r.append(parts[i].as_str());
        r.append("\n");
        assert(all.take(i + 1).drop_last() =~= all.take(i as int));
        i = i + 1;
    }
    assert(all.take(parts@.len() as int) =~= all);
    r
}

/// `parts` separated by `sep`.
pub fn join_string(parts: &Vec<String>, sep: &str) -> (r: String)
    ensures
        r@ == join(crate::model::views(parts@), sep@),
{
    let ghost all = crate::model::views(parts@);
    let mut r = String::new();
    let mut i: usize = 0;
    while i < parts.len()
        invariant
            i <= parts@.len(),
            all == crate::model::views(parts@),
            r@ == join(all.take(i as int), sep@),
        decreases parts@.len() - i,
    {
        if i != 0 {
            r.append(sep);
        }
        r.append(parts[i].as_str());
        assert(all.take(i + 1).drop_last() =~= all.take(i as int));
        if i == 0 {
            assert(r@ =~= join(all.take(1), sep@));
        }
        i = i + 1;
    }
    assert(all.take(parts@.len() as int) =~= all);
    r
}

/// `s` with every character escaped for a string literal.
pub fn escape_string(s: &String) -> (r: String)
    ensures
        r@ == escaped(s@),
{
    let t = s.as_str();
    let n = t.unicode_len();
    let mut r = String::new();
    let mut i: usize = 0;
    while i < n
        invariant
            n == s@.len(),
            t@ == s@,
            i <= n,
            r@ == escaped(s@.take(i as int)),
        decreases n - i,
    {
        let c = t.get_char(i);
        proof {
            reveal_strlit("\\\"");
            reveal_strlit("\\\\");
            reveal_strlit("\\n");
            reveal_strlit("\\r");
        }
        if c == '"' {
            r.append("\\\"");
        } else if c == '\\' {
            r.append("\\\\");
        } else if c == '\n' {
            r.append("\\n");
        } else if c == '\r' {
            r.append("\\r");
        } else {
            let one = t.substring_char(i, i + 1);
            assert(one@ =~= seq![c]);
            r.append(one);
        }
        assert(s@.take(i + 1).drop_last() =~= s@.take(i as int));
        assert(r@ =~= escaped(s@.take(i + 1)));
        i = i + 1;
    }
    assert(s@.take(n as int) =~= s@);
    r
}

} // verus!
