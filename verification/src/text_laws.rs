//! What holds of the operations on text, for every text.

use vstd::prelude::*;

use crate::text::{
    after, ascii_lowered, before, begins_with, contains, decimal, digit_value, digits_value,
    find_from, lemma_digits_grow, lemma_find_from, lemma_first_index, occurs_at, replaced,
    trim_end, trim_start, trimmed, unsigned_value, white_space, without_plus,
};

verus! {

// Whitespace
/// All the characters are whitespace.
pub open spec fn blank(s: Seq<char>) -> bool {
    forall|i: int| 0 <= i < s.len() ==> white_space(#[trigger] s[i])
}

/// The text neither begins nor ends with whitespace.
pub open spec fn tight(s: Seq<char>) -> bool {
    s.len() > 0 ==> !white_space(s[0]) && !white_space(s[s.len() - 1])
}

proof fn lemma_trim_start(w: Seq<char>, s: Seq<char>)
    requires
        blank(w),
        s.len() > 0 ==> !white_space(s[0]),
    ensures
        trim_start(w + s) == s,
    decreases w.len(),
{
    if w.len() > 0 {
        assert(white_space(w[0]));
        assert((w + s).drop_first() =~= w.drop_first() + s);
        lemma_trim_start(w.drop_first(), s);
    } else {
        assert(w + s =~= s);
    }
}

proof fn lemma_trim_end(s: Seq<char>, w: Seq<char>)
    requires
        blank(w),
        s.len() > 0 ==> !white_space(s[s.len() - 1]),
    ensures
        trim_end(s + w) == s,
    decreases w.len(),
{
    if w.len() > 0 {
        assert(white_space(w[w.len() - 1]));
        assert((s + w).drop_last() =~= s + w.drop_last());
        lemma_trim_end(s, w.drop_last());
    } else {
        assert(s + w =~= s);
    }
}

/// Trimming takes away the whitespace on both sides, all of it, and nothing else.
pub proof fn law_trimming(left: Seq<char>, core: Seq<char>, right: Seq<char>)
    requires
        blank(left),
        blank(right),
        tight(core),
    ensures
        trimmed(left + core + right) == core,
{
    if core.len() == 0 {
        let all = left + core + right;
        assert(blank(all)) by {
            assert forall|i: int| 0 <= i < all.len() implies white_space(#[trigger] all[i]) by {
                if i < left.len() {
                    assert(all[i] == left[i]);
                } else {
                    assert(all[i] == right[i - left.len()]);
                }
            }
        }
        lemma_trim_start(all, seq![]);
        assert(all + Seq::<char>::empty() =~= all);
        assert(core =~= seq![]);
    } else {
        assert(left + core + right =~= left + (core + right));
        lemma_trim_start(left, core + right);
        lemma_trim_end(core, right);
    }
}

/// Every text is what trimming leaves of it, with whitespace around.
pub proof fn law_trimmed_is_inside(s: Seq<char>)
    ensures
        tight(trimmed(s)),
        exists|left: Seq<char>, right: Seq<char>|
            #![trigger blank(left), blank(right)]
            blank(left) && blank(right) && s == left + trimmed(s) + right,
{
    let (left, mid) = lemma_trim_start_splits(s);
    let right = lemma_trim_end_splits(mid);
    assert(s =~= left + trimmed(s) + right);
    assert(blank(left) && blank(right));
    if trimmed(s).len() > 0 {
        assert(trimmed(s)[0] == mid[0]);
    }
}

proof fn lemma_trim_start_splits(s: Seq<char>) -> (parts: (Seq<char>, Seq<char>))
    ensures
        parts.1 == trim_start(s),
        s == parts.0 + parts.1,
        blank(parts.0),
        parts.1.len() > 0 ==> !white_space(parts.1[0]),
    decreases s.len(),
{
    if s.len() > 0 && white_space(s[0]) {
        let (w, rest) = lemma_trim_start_splits(s.drop_first());
        let left = seq![s[0]] + w;
        assert(s =~= seq![s[0]] + s.drop_first());
        assert(s =~= left + rest);
        assert forall|i: int| 0 <= i < left.len() implies white_space(#[trigger] left[i]) by {
            if i > 0 {
                assert(left[i] == w[i - 1]);
            }
        }
        (left, rest)
    } else {
        assert(s =~= Seq::<char>::empty() + s);
        (seq![], s)
    }
}

proof fn lemma_trim_end_splits(s: Seq<char>) -> (right: Seq<char>)
    ensures
        s == trim_end(s) + right,
        blank(right),
        trim_end(s).len() > 0 ==> !white_space(trim_end(s)[trim_end(s).len() - 1]),
    decreases s.len(),
{
    if s.len() > 0 && white_space(s.last()) {
        let w = lemma_trim_end_splits(s.drop_last());
        let right = w.push(s.last());
        assert(s =~= s.drop_last().push(s.last()));
        assert(s =~= trim_end(s) + right);
        right
    } else {
        assert(s =~= s + Seq::<char>::empty());
        seq![]
    }
}

/// Whitespace at the end of a text, or at its beginning, does not matter to what trimming leaves.
pub proof fn law_outer_whitespace_does_not_count(left: Seq<char>, s: Seq<char>, right: Seq<char>)
    requires
        blank(left),
        blank(right),
    ensures
        trimmed(left + s + right) == trimmed(s),
{
    law_trimmed_is_inside(s);
    let (l, r) = choose|l: Seq<char>, r: Seq<char>|
        #![trigger blank(l), blank(r)]
        blank(l) && blank(r) && s == l + trimmed(s) + r;
    assert(left + s + right =~= (left + l) + trimmed(s) + (r + right));
    assert forall|i: int| 0 <= i < (left + l).len() implies white_space(
        #[trigger] (left + l)[i],
    ) by {
        if i < left.len() {
            assert((left + l)[i] == left[i]);
        } else {
            assert((left + l)[i] == l[i - left.len()]);
        }
    }
    assert forall|i: int| 0 <= i < (r + right).len() implies white_space(
        #[trigger] (r + right)[i],
    ) by {
        if i < r.len() {
            assert((r + right)[i] == r[i]);
        } else {
            assert((r + right)[i] == right[i - r.len()]);
        }
    }
    law_trimming(left + l, trimmed(s), r + right);
}

// Searching
/// A text contains another exactly where it is that text with something before and after it.
pub proof fn law_containing(s: Seq<char>, pat: Seq<char>)
    ensures
        contains(s, pat) <==> exists|a: Seq<char>, b: Seq<char>| s == #[trigger] (a + pat + b),
{
    if contains(s, pat) {
        let i = choose|i: int| occurs_at(s, pat, i);
        let (a, b) = (s.take(i), s.skip(i + pat.len()));
        assert(s =~= a + pat + b);
    }
    if exists|a: Seq<char>, b: Seq<char>| s == #[trigger] (a + pat + b) {
        let (a, b) = choose|a: Seq<char>, b: Seq<char>| s == #[trigger] (a + pat + b);
        assert(s.subrange(a.len() as int, (a.len() + pat.len()) as int) =~= pat);
        assert(occurs_at(s, pat, a.len() as int));
    }
}

/// A text begins with another exactly where it is that text with something after it.
pub proof fn law_beginning(s: Seq<char>, pat: Seq<char>)
    ensures
        begins_with(s, pat) <==> exists|b: Seq<char>| s == #[trigger] (pat + b),
{
    if begins_with(s, pat) {
        assert(s =~= pat + s.skip(pat.len() as int));
    }
    if exists|b: Seq<char>| s == #[trigger] (pat + b) {
        assert(s.subrange(0, pat.len() as int) =~= pat);
    }
}

/// From this place on the text goes on with the pattern.
pub open spec fn stands_at(s: Seq<char>, pat: Seq<char>, i: int) -> bool {
    0 <= i && i + pat.len() <= s.len() && s.skip(i).take(pat.len() as int) == pat
}

/// A search finds the first occurrence at or after its start, and fails only where there is none.
pub proof fn law_searching(s: Seq<char>, pat: Seq<char>, from: int)
    requires
        from >= 0,
    ensures
        match find_from(s, pat, from) {
            Some(i) => from <= i && stands_at(s, pat, i) && forall|j: int|
                from <= j < i ==> !#[trigger] stands_at(s, pat, j),
            None => forall|j: int| from <= j ==> !#[trigger] stands_at(s, pat, j),
        },
{
    lemma_find_from(s, pat, from);
    assert forall|j: int| 0 <= j implies #[trigger] stands_at(s, pat, j) == occurs_at(
        s,
        pat,
        j,
    ) by {
        if j + pat.len() <= s.len() {
            assert(s.skip(j).take(pat.len() as int) =~= s.subrange(j, j + pat.len()));
        }
    }
}

// Splitting and replacing
/// A text is split at its first separator: what stands before it, and all that stands after it.
pub proof fn law_splitting(head: Seq<char>, c: char, rest: Seq<char>)
    requires
        !head.contains(c),
    ensures
        before(head.push(c) + rest, c) == head,
        after(head.push(c) + rest, c) == Some(rest),
        before(head, c) == head,
        after(head, c) is None,
{
    let s = head.push(c) + rest;
    let n = head.len() as int;
    assert forall|j: int| 0 <= j < n implies s[j] != c by {
        assert(s[j] == head[j]);
        assert(head.contains(head[j]));
    }
    lemma_first_index(s, c, n);
    assert(s.take(n) =~= head);
    assert(s.skip(n + 1) =~= rest);
    assert forall|j: int| 0 <= j < n implies head[j] != c by {
        assert(head.contains(head[j]));
    }
    lemma_first_index(head, c, n);
    assert(head.take(n) =~= head);
}

/// Replacing a character changes every occurrence of it and nothing else.
pub proof fn law_replacing(s: Seq<char>, from: char, to: char, i: int)
    requires
        0 <= i < s.len(),
    ensures
        replaced(s, from, to).len() == s.len(),
        s[i] == from ==> replaced(s, from, to)[i] == to,
        s[i] != from ==> replaced(s, from, to)[i] == s[i],
{
}

/// Lower case changes the letters `A` to `Z`, each to the one that stands 32 places on, and
/// nothing else.
pub proof fn law_lower_case(s: Seq<char>, i: int)
    requires
        0 <= i < s.len(),
    ensures
        ascii_lowered(s).len() == s.len(),
        'A' <= s[i] <= 'Z' ==> ascii_lowered(s)[i] as int == s[i] as int + 32,
        !('A' <= s[i] <= 'Z') ==> ascii_lowered(s)[i] == s[i],
{
}

// Numbers
/// The digits: `0` to `9`, and then the letters, in either case, as far as the base goes.
pub proof fn law_digits(c: char, radix: int)
    requires
        1 <= radix <= 36,
    ensures
        '0' <= c <= '9' && c as int - 48 < radix ==> digit_value(c, radix) == Some(c as int - 48),
        'a' <= c <= 'z' && c as int - 87 < radix ==> digit_value(c, radix) == Some(c as int - 87),
        'A' <= c <= 'Z' && c as int - 55 < radix ==> digit_value(c, radix) == Some(c as int - 55),
        digit_value(c, radix) matches Some(d) ==> 0 <= d < radix && ('0' <= c <= '9' || 'a' <= c
            <= 'z' || 'A' <= c <= 'Z'),
{
}

/// A number is read digit by digit: one more digit makes it that many times the base and the
/// digit, as long as it fits; a character that is no digit spoils it; and a sign in front of it
/// changes nothing.
pub proof fn law_numbers_are_read(s: Seq<char>, c: char, radix: int)
    requires
        1 <= radix <= 36,
    ensures
        unsigned_value(seq![], radix) is None,
        c != '+' ==> unsigned_value(seq![c], radix) == (match digit_value(c, radix) {
            Some(d) => Some(d as usize),
            None => None,
        }),
        unsigned_value(s, radix) matches Some(n) ==> unsigned_value(s.push(c), radix) == (
        match digit_value(c, radix) {
            Some(d) => if n * radix + d <= usize::MAX {
                Some((n * radix + d) as usize)
            } else {
                None
            },
            None => None,
        }),
        s.len() > 0 && s[0] != '+' ==> unsigned_value(seq!['+'] + s, radix) == unsigned_value(
            s,
            radix,
        ),
{
    assert(without_plus(seq![]) =~= seq![]);
    if c != '+' {
        let one = seq![c];
        assert(without_plus(one) =~= one);
        assert(one.drop_last() =~= seq![]);
        assert(digits_value(one.drop_last(), radix) == Some(0int));
        assert(0 * radix == 0);
    }
    if unsigned_value(s, radix) is Some {
        assert(without_plus(s.push(c)) =~= without_plus(s).push(c));
        let digits = without_plus(s);
        assert(digits.push(c).drop_last() =~= digits);
        lemma_digits_grow(digits, radix, digits.len() as int);
        let n = digits_value(digits, radix)->0;
        assert(unsigned_value(s, radix)->0 as int == n);
        assert(0 <= n * radix) by (nonlinear_arith)
            requires
                0 <= n,
                1 <= radix,
        ;
    }
    if s.len() > 0 && s[0] != '+' {
        assert(without_plus(seq!['+'] + s) =~= s);
    }
}

/// Different numbers are written differently, and only zero begins with a zero.
pub proof fn law_decimals_differ(a: int, b: int)
    requires
        a >= 0,
        b >= 0,
    ensures
        a != b ==> decimal(a) != decimal(b),
        a > 0 ==> decimal(a)[0] != '0',
    decreases a,
{
    crate::text::lemma_decimal_value(a);
    crate::text::lemma_decimal_value(b);
    if a >= 10 {
        law_decimals_differ(a / 10, 0);
        crate::text::lemma_decimal_digits(a / 10);
    }
}

} // verus!
