//! Characters and strings: the few operations on text that the rest of the library is
//! stated with, each as a specification over `Seq<char>` and as verified code.

use vstd::prelude::*;
use vstd::string::*;

verus! {

// Whitespace
/// The characters with the Unicode property `White_Space`.
pub open spec fn white_space(c: char) -> bool {
    ||| '\u{9}' <= c <= '\u{d}'
    ||| c == ' '
    ||| c == '\u{85}'
    ||| c == '\u{a0}'
    ||| c == '\u{1680}'
    ||| '\u{2000}' <= c <= '\u{200a}'
    ||| c == '\u{2028}'
    ||| c == '\u{2029}'
    ||| c == '\u{202f}'
    ||| c == '\u{205f}'
    ||| c == '\u{3000}'
}

/// `s` without its leading whitespace.
pub open spec fn trim_start(s: Seq<char>) -> Seq<char>
    decreases s.len(),
{
    if s.len() > 0 && white_space(s[0]) {
        trim_start(s.drop_first())
    } else {
        s
    }
}

/// `s` without its trailing whitespace.
pub open spec fn trim_end(s: Seq<char>) -> Seq<char>
    decreases s.len(),
{
    if s.len() > 0 && white_space(s.last()) {
        trim_end(s.drop_last())
    } else {
        s
    }
}

/// `s` without leading and trailing whitespace.
pub open spec fn trimmed(s: Seq<char>) -> Seq<char> {
    trim_end(trim_start(s))
}

/// Whether `c` is whitespace.
pub fn is_white_space(c: char) -> (yes: bool)
    ensures
        yes == white_space(c),
{
    ('\u{9}' <= c && c <= '\u{d}') || c == ' ' || c == '\u{85}' || c == '\u{a0}' || c == '\u{1680}'
        || ('\u{2000}' <= c && c <= '\u{200a}') || c == '\u{2028}' || c == '\u{2029}' || c
        == '\u{202f}' || c == '\u{205f}' || c == '\u{3000}'
}

/// The characters of a string, in order.
pub fn chars_of(s: &str) -> (chars: Vec<char>)
    ensures
        chars@ == s@,
{
    let mut chars: Vec<char> = Vec::new();
    for c in it: s.chars()
        invariant
            it.seq() == s@,
            chars@ == s@.take(it.index() as int),
    {
        chars.push(c);
    }
    chars
}

/// `s` without leading and trailing whitespace.
pub fn trim(s: &str) -> (r: &str)
    ensures
        r@ == trimmed(s@),
{
    let chars = chars_of(s);
    let mut from: usize = 0;
    assert(s@.skip(0) =~= s@);
    while from < chars.len() && is_white_space(chars[from])
        invariant
            from <= chars.len(),
            chars@ == s@,
            trim_start(s@) == trim_start(s@.skip(from as int)),
        decreases chars.len() - from,
    {
        assert(s@.skip(from as int).drop_first() =~= s@.skip(from + 1));
        from = from + 1;
    }
    assert(trim_start(s@) == s@.skip(from as int));
    let mut to: usize = chars.len();
    assert(s@.subrange(from as int, to as int) =~= s@.skip(from as int));
    while to > from && is_white_space(chars[to - 1])
        invariant
            from <= to <= chars.len(),
            chars@ == s@,
            trimmed(s@) == trim_end(s@.subrange(from as int, to as int)),
        decreases to,
    {
        assert(s@.subrange(from as int, to as int).drop_last() =~= s@.subrange(
            from as int,
            to - 1,
        ));
        to = to - 1;
    }
    s.substring_char(from, to)
}

/// Whether two strings hold the same characters.
pub fn same(a: &str, b: &str) -> (yes: bool)
    ensures
        yes == (a@ == b@),
{
    a.to_owned() == b.to_owned()
}

// Searching
/// `pat` stands in `s` at position `i`.
pub open spec fn occurs_at(s: Seq<char>, pat: Seq<char>, i: int) -> bool {
    0 <= i && i + pat.len() <= s.len() && s.subrange(i, i + pat.len()) == pat
}

/// The first position at or after `from` at which `pat` stands in `s`.
pub open spec fn find_from(s: Seq<char>, pat: Seq<char>, from: int) -> Option<int>
    decreases s.len() + 1 - from,
{
    if from < 0 || from + pat.len() > s.len() {
        None
    } else if occurs_at(s, pat, from) {
        Some(from)
    } else {
        find_from(s, pat, from + 1)
    }
}

/// `pat` stands somewhere in `s`.
pub open spec fn contains(s: Seq<char>, pat: Seq<char>) -> bool {
    exists|i: int| occurs_at(s, pat, i)
}

/// `s` begins with `pat`.
pub open spec fn begins_with(s: Seq<char>, pat: Seq<char>) -> bool {
    occurs_at(s, pat, 0)
}

/// What `find_from` gives is the first occurrence, and it gives none only where there is none.
pub proof fn lemma_find_from(s: Seq<char>, pat: Seq<char>, from: int)
    requires
        from >= 0,
    ensures
        match find_from(s, pat, from) {
            Some(i) => from <= i && occurs_at(s, pat, i) && forall|j: int|
                from <= j < i ==> !occurs_at(s, pat, j),
            None => forall|j: int| from <= j ==> !occurs_at(s, pat, j),
        },
    decreases s.len() + 1 - from,
{
    if from + pat.len() > s.len() {
    } else if occurs_at(s, pat, from) {
    } else {
        lemma_find_from(s, pat, from + 1);
    }
}

/// A first occurrence is what `find_from` gives.
pub proof fn lemma_find_from_is(s: Seq<char>, pat: Seq<char>, from: int, i: int)
    requires
        0 <= from <= i,
        occurs_at(s, pat, i),
        forall|j: int| from <= j < i ==> !occurs_at(s, pat, j),
    ensures
        find_from(s, pat, from) == Some(i),
{
    lemma_find_from(s, pat, from);
}

/// Searching a suffix is searching the whole from where the suffix starts.
pub proof fn lemma_find_from_skip(s: Seq<char>, pat: Seq<char>, at: int, from: int)
    requires
        0 <= at <= s.len(),
        0 <= from,
    ensures
        find_from(s, pat, at + from) == (match find_from(s.skip(at), pat, from) {
            Some(i) => Some(at + i),
            None => None,
        }),
    decreases s.len() + 1 - at - from,
{
    if from + pat.len() <= s.skip(at).len() {
        assert(s.skip(at).subrange(from, from + pat.len()) =~= s.subrange(
            at + from,
            at + from + pat.len(),
        ));
        lemma_find_from_skip(s, pat, at, from + 1);
    }
}

/// Whether `pat` stands in `s` at position `i`.
pub fn matches_at(s: &Vec<char>, pat: &Vec<char>, i: usize) -> (yes: bool)
    requires
        i <= s@.len(),
    ensures
        yes == occurs_at(s@, pat@, i as int),
{
    if pat.len() > s.len() - i {
        return false;
    }
    let n: usize = s.len();
    let mut k: usize = 0;
    while k < pat.len()
        invariant
            k <= pat@.len(),
            n == s@.len(),
            i + pat@.len() <= s@.len(),
            forall|j: int| 0 <= j < k ==> s@[i + j] == pat@[j],
        decreases pat@.len() - k,
    {
        if s[i + k] != pat[k] {
            assert(s@.subrange(i as int, i + pat@.len())[k as int] != pat@[k as int]);
            return false;
        }
        k = k + 1;
    }
    assert(s@.subrange(i as int, i + pat@.len()) =~= pat@);
    true
}

/// The first position at or after `from` at which `pat` stands in `s`.
pub fn find_chars(s: &Vec<char>, pat: &Vec<char>, from: usize) -> (at: Option<usize>)
    requires
        from <= s@.len(),
    ensures
        match at {
            Some(i) => find_from(s@, pat@, from as int) == Some(i as int),
            None => find_from(s@, pat@, from as int) is None,
        },
{
    let mut i: usize = from;
    while pat.len() <= s.len() - i
        invariant
            from <= i <= s@.len(),
            find_from(s@, pat@, from as int) == find_from(s@, pat@, i as int),
        decreases s@.len() - i,
    {
        if matches_at(s, pat, i) {
            return Some(i);
        }
        if i == s.len() {
            assert(find_from(s@, pat@, i + 1) is None);
            return None;
        }
        i = i + 1;
    }
    None
}

/// Whether `pat` stands somewhere in `s`.
pub fn has(s: &Vec<char>, pat: &str) -> (yes: bool)
    ensures
        yes == contains(s@, pat@),
{
    let pat_chars = chars_of(pat);
    proof {
        lemma_find_from(s@, pat@, 0);
    }
    find_chars(s, &pat_chars, 0).is_some()
}

/// Whether `s` begins with `pat`.
pub fn starts_with(s: &str, pat: &str) -> (yes: bool)
    ensures
        yes == begins_with(s@, pat@),
{
    matches_at(&chars_of(s), &chars_of(pat), 0)
}

// Splitting at a character
/// The position of the first `c` in `s`, or the length of `s`.
pub open spec fn first_index(s: Seq<char>, c: char) -> int
    decreases s.len(),
{
    if s.len() == 0 || s[0] == c {
        0
    } else {
        1 + first_index(s.drop_first(), c)
    }
}

/// What stands in `s` before the first `c`: all of it where there is none.
pub open spec fn before(s: Seq<char>, c: char) -> Seq<char> {
    s.take(first_index(s, c))
}

/// What stands in `s` after the first `c`, where there is one.
pub open spec fn after(s: Seq<char>, c: char) -> Option<Seq<char>> {
    if first_index(s, c) < s.len() {
        Some(s.skip(first_index(s, c) + 1))
    } else {
        None
    }
}

/// The first position of a character is what `first_index` gives.
pub proof fn lemma_first_index(s: Seq<char>, c: char, i: int)
    requires
        0 <= i <= s.len(),
        forall|j: int| 0 <= j < i ==> s[j] != c,
        i < s.len() ==> s[i] == c,
    ensures
        first_index(s, c) == i,
    decreases s.len(),
{
    if i > 0 {
        lemma_first_index(s.drop_first(), c, i - 1);
    }
}

/// Splits `s` at its first `c`.
pub fn split_once(s: &str, c: char) -> (parts: (&str, Option<&str>))
    ensures
        parts.0@ == before(s@, c),
        match parts.1 {
            Some(rest) => after(s@, c) == Some(rest@),
            None => after(s@, c) is None,
        },
{
    let chars = chars_of(s);
    let mut i: usize = 0;
    while i < chars.len() && chars[i] != c
        invariant
            i <= chars@.len(),
            chars@ == s@,
            forall|j: int| 0 <= j < i ==> s@[j] != c,
        decreases chars@.len() - i,
    {
        i = i + 1;
    }
    proof {
        lemma_first_index(s@, c, i as int);
    }
    let head = s.substring_char(0, i);
    assert(s@.subrange(0, i as int) =~= s@.take(i as int));
    if i < chars.len() {
        assert(s@.subrange(i + 1, s@.len() as int) =~= s@.skip(i + 1));
        (head, Some(s.substring_char(i + 1, chars.len())))
    } else {
        (head, None)
    }
}

/// `s` with `to` in place of every `from`.
pub open spec fn replaced(s: Seq<char>, from: char, to: char) -> Seq<char> {
    s.map_values(|c: char| if c == from { to } else { c })
}

/// `s` with the one character of `to` in place of every `from`.
pub fn replace(s: &str, from: char, to: &str) -> (r: String)
    requires
        to@.len() == 1,
    ensures
        r@ == replaced(s@, from, to@[0]),
{
    let mut out = String::new();
    let chars = chars_of(s);
    let total: usize = chars.len();
    let mut start: usize = 0;
    let mut i: usize = 0;
    while i < total
        invariant
            start <= i <= total,
            total == chars@.len(),
            chars@ == s@,
            to@.len() == 1,
            out@ == replaced(s@.take(start as int), from, to@[0]),
            forall|j: int| start <= j < i ==> s@[j] != from,
        decreases total - i,
    {
        if chars[i] == from {
            out.append(s.substring_char(start, i));
            out.append(to);
            assert(out@ =~= replaced(s@.take(i + 1), from, to@[0]));
            start = i + 1;
        }
        i = i + 1;
    }
    out.append(s.substring_char(start, total));
    assert(out@ =~= replaced(s@, from, to@[0]));
    out
}

// Letters and digits
/// The lower-case form of an ASCII letter; any other character is its own.
pub open spec fn ascii_lower(c: char) -> char {
    if 'A' <= c <= 'Z' {
        (c as u8 + 32) as char
    } else {
        c
    }
}

/// `s` with its ASCII letters in lower case.
pub open spec fn ascii_lowered(s: Seq<char>) -> Seq<char> {
    s.map_values(|c: char| ascii_lower(c))
}

/// The characters of `s` with the ASCII letters in lower case.
pub fn to_ascii_lower(s: &str) -> (chars: Vec<char>)
    ensures
        chars@ == ascii_lowered(s@),
{
    let all = chars_of(s);
    let mut chars: Vec<char> = Vec::new();
    let mut i: usize = 0;
    while i < all.len()
        invariant
            all@ == s@,
            i <= all@.len(),
            chars@.len() == i,
            forall|j: int| 0 <= j < i ==> chars@[j] == ascii_lower(s@[j]),
        decreases all@.len() - i,
    {
        let c: char = all[i];
        if 'A' <= c && c <= 'Z' {
            chars.push((c as u8 + 32) as char);
        } else {
            chars.push(c);
        }
        i = i + 1;
    }
    assert(chars@ =~= ascii_lowered(s@));
    chars
}

/// The value of `c` as a digit to the base `radix`, where it is one.
pub open spec fn digit_value(c: char, radix: int) -> Option<int> {
    let v = if '0' <= c <= '9' {
        c as int - '0' as int
    } else if 'a' <= c <= 'z' {
        c as int - 'a' as int + 10
    } else if 'A' <= c <= 'Z' {
        c as int - 'A' as int + 10
    } else {
        radix
    };
    if v < radix {
        Some(v)
    } else {
        None
    }
}

/// The value of a run of digits to the base `radix`; none where a character is no digit.
pub open spec fn digits_value(s: Seq<char>, radix: int) -> Option<int>
    decreases s.len(),
{
    if s.len() == 0 {
        Some(0)
    } else {
        match (digits_value(s.drop_last(), radix), digit_value(s.last(), radix)) {
            (Some(n), Some(d)) => Some(n * radix + d),
            _ => None,
        }
    }
}

/// `s` without its sign, where it begins with a `+`.
pub open spec fn without_plus(s: Seq<char>) -> Seq<char> {
    if s.len() > 0 && s[0] == '+' {
        s.drop_first()
    } else {
        s
    }
}

/// The unsigned machine number that `s` spells to the base `radix`: an optional `+`, then one
/// digit or more; none where `s` has another form or the number does not fit.
pub open spec fn unsigned_value(s: Seq<char>, radix: int) -> Option<usize> {
    let digits = without_plus(s);
    match digits_value(digits, radix) {
        Some(n) if digits.len() > 0 && n <= usize::MAX => Some(n as usize),
        _ => None,
    }
}

/// The value of `c` as a digit to the base `radix`, where it is one.
fn to_digit(c: char, radix: u8) -> (value: Option<u8>)
    ensures
        match value {
            Some(v) => digit_value(c, radix as int) == Some(v as int),
            None => digit_value(c, radix as int) is None,
        },
{
    let v: u8 = if '0' <= c && c <= '9' {
        c as u8 - 48
    } else if 'a' <= c && c <= 'z' {
        c as u8 - 87
    } else if 'A' <= c && c <= 'Z' {
        c as u8 - 55
    } else {
        return None;
    };
    if v < radix {
        Some(v)
    } else {
        None
    }
}

/// A number only grows as digits are added to it.
pub proof fn lemma_digits_grow(s: Seq<char>, radix: int, i: int)
    requires
        0 <= i <= s.len(),
        radix >= 1,
    ensures
        digits_value(s, radix) matches Some(n) ==> digits_value(s.take(i), radix) matches Some(m)
            && 0 <= m <= n,
    decreases s.len() - i, s.len(),
{
    if i == s.len() {
        assert(s.take(i) =~= s);
        if s.len() > 0 {
            lemma_digits_grow(s.drop_last(), radix, s.len() - 1);
            assert(s.drop_last().take(s.len() - 1) =~= s.drop_last());
            if let (Some(n), Some(d)) = (
                digits_value(s.drop_last(), radix),
                digit_value(s.last(), radix),
            ) {
                assert(0 <= n * radix) by (nonlinear_arith)
                    requires
                        0 <= n,
                        radix >= 1,
                ;
            }
        }
    } else {
        lemma_digits_grow(s, radix, i + 1);
        assert(s.take(i + 1).drop_last() =~= s.take(i));
        if let Some(n) = digits_value(s, radix) {
            let m = digits_value(s.take(i), radix).unwrap();
            lemma_digits_grow(s.take(i), radix, i);
            assert(s.take(i).take(i) =~= s.take(i));
            assert(m <= m * radix) by (nonlinear_arith)
                requires
                    0 <= m,
                    radix >= 1,
            ;
        }
    }
}

/// The unsigned machine number that `s` spells to the base `radix`.
pub fn parse_unsigned(s: &str, radix: u8) -> (value: Option<usize>)
    requires
        1 <= radix <= 36,
    ensures
        value == unsigned_value(s@, radix as int),
{
    let chars = chars_of(s);
    let from: usize = if chars.len() > 0 && chars[0] == '+' {
        1
    } else {
        0
    };
    let ghost digits = without_plus(s@);
    assert(digits =~= s@.skip(from as int));
    if from == chars.len() {
        return None;
    }
    let mut total: u128 = 0;
    let mut i: usize = from;
    while i < chars.len()
        invariant
            from <= i <= chars@.len(),
            from <= 1,
            chars@ == s@,
            1 <= radix <= 36,
            digits == without_plus(s@),
            digits == s@.skip(from as int),
            total <= usize::MAX,
            digits_value(digits.take(i - from), radix as int) == Some(total as int),
        decreases chars@.len() - i,
    {
        proof {
            lemma_digits_grow(digits, radix as int, i + 1 - from);
            assert(digits.take(i + 1 - from).drop_last() =~= digits.take(i - from));
            assert(digits.take(i + 1 - from).last() == s@[i as int]);
        }
        match to_digit(chars[i], radix) {
            None => {
                return None;
            },
            Some(d) => {
                assert(total * radix <= usize::MAX * 36) by (nonlinear_arith)
                    requires
                        0 <= total <= usize::MAX,
                        1 <= radix <= 36,
                ;
                let next: u128 = total * (radix as u128) + (d as u128);
                if next > usize::MAX as u128 {
                    return None;
                }
                total = next;
            },
        }
        i = i + 1;
    }
    assert(digits.take(i - from) =~= digits);
    Some(total as usize)
}

/// The decimal digit for a value below ten.
pub open spec fn digit_char(d: int) -> char {
    (48 + d) as char
}

/// The decimal notation of a number, without leading zeros.
pub open spec fn decimal(n: int) -> Seq<char>
    decreases n,
{
    if n < 10 {
        seq![digit_char(n)]
    } else {
        decimal(n / 10).push(digit_char(n % 10))
    }
}

/// The decimal digit for a value below ten, as a string.
fn digit_str(d: u64) -> (s: &'static str)
    requires
        d < 10,
    ensures
        s@ == seq![digit_char(d as int)],
{
    proof {
        reveal_strlit("0");
        reveal_strlit("1");
        reveal_strlit("2");
        reveal_strlit("3");
        reveal_strlit("4");
        reveal_strlit("5");
        reveal_strlit("6");
        reveal_strlit("7");
        reveal_strlit("8");
        reveal_strlit("9");
    }
    if d == 0 {
        "0"
    } else if d == 1 {
        "1"
    } else if d == 2 {
        "2"
    } else if d == 3 {
        "3"
    } else if d == 4 {
        "4"
    } else if d == 5 {
        "5"
    } else if d == 6 {
        "6"
    } else if d == 7 {
        "7"
    } else if d == 8 {
        "8"
    } else {
        "9"
    }
}

/// The decimal notation of `n`.
pub fn to_decimal(n: u64) -> (s: String)
    ensures
        s@ == decimal(n as int),
    decreases n,
{
    if n < 10 {
        digit_str(n).to_owned()
    } else {
        let mut s = to_decimal(n / 10);
        s.append(digit_str(n % 10));
        s
    }
}

/// A decimal notation consists of digits.
pub proof fn lemma_decimal_digits(n: int)
    requires
        n >= 0,
    ensures
        decimal(n).len() > 0,
        forall|i: int| 0 <= i < decimal(n).len() ==> '0' <= #[trigger] decimal(n)[i] <= '9',
    decreases n,
{
    if n >= 10 {
        lemma_decimal_digits(n / 10);
    }
}

/// A number that is written in decimal and read again is the same number.
pub proof fn law_decimal_reads_back(n: int)
    requires
        0 <= n <= usize::MAX,
    ensures
        unsigned_value(decimal(n), 10) == Some(n as usize),
{
    lemma_decimal_digits(n);
    lemma_decimal_value(n);
}

pub proof fn lemma_decimal_value(n: int)
    requires
        n >= 0,
    ensures
        digits_value(decimal(n), 10) == Some(n),
    decreases n,
{
    if n < 10 {
        assert(decimal(n).drop_last() =~= seq![]);
        assert(digits_value(decimal(n).drop_last(), 10) == Some(0int));
    } else {
        lemma_decimal_value(n / 10);
        assert(decimal(n).drop_last() =~= decimal(n / 10));
    }
}

} // verus!
