//! Character sequences and the string operations quick-add parsing is
//! built on: ASCII case mapping, trimming, whitespace tokenization,
//! joining, substring search and removal.
//!
//! Case mapping is ASCII-only: the letters the parser matches against are
//! all ASCII, and other characters pass through unchanged.

use vstd::prelude::*;

verus! {

/// The whitespace characters recognized by tokenization and trimming.
pub open spec fn is_space_char(c: char) -> bool {
    c == ' ' || c == '\t' || c == '\n' || c == '\r'
}

/// Executable form of [`is_space_char`].
pub fn is_space(c: char) -> (r: bool)
    ensures
        r == is_space_char(c),
{
    c == ' ' || c == '\t' || c == '\n' || c == '\r'
}

/// A decimal digit.
pub open spec fn is_digit_char(c: char) -> bool {
    '0' <= c && c <= '9'
}

/// Executable form of [`is_digit_char`].
pub fn is_digit(c: char) -> (r: bool)
    ensures
        r == is_digit_char(c),
{
    '0' <= c && c <= '9'
}

/// The numeric value of a decimal digit.
pub open spec fn digit_val(c: char) -> int {
    c as int - '0' as int
}

/// An ASCII capital letter mapped to its small form; anything else is
/// left unchanged.
pub open spec fn lower_char(c: char) -> char {
    if 'A' <= c && c <= 'Z' {
        (c as u32 + 32) as char
    } else {
        c
    }
}

/// An ASCII small letter mapped to its capital form; anything else is
/// left unchanged.
pub open spec fn upper_char(c: char) -> char {
    if 'a' <= c && c <= 'z' {
        (c as u32 - 32) as char
    } else {
        c
    }
}

/// A sequence with every character lowered by [`lower_char`].
pub open spec fn lower_seq(s: Seq<char>) -> Seq<char> {
    s.map_values(|c: char| lower_char(c))
}

/// Executable form of [`lower_char`].
pub fn to_lower(c: char) -> (r: char)
    ensures
        r == lower_char(c),
{
    match c {
        'A' => 'a',
        'B' => 'b',
        'C' => 'c',
        'D' => 'd',
        'E' => 'e',
        'F' => 'f',
        'G' => 'g',
        'H' => 'h',
        'I' => 'i',
        'J' => 'j',
        'K' => 'k',
        'L' => 'l',
        'M' => 'm',
        'N' => 'n',
        'O' => 'o',
        'P' => 'p',
        'Q' => 'q',
        'R' => 'r',
        'S' => 's',
        'T' => 't',
        'U' => 'u',
        'V' => 'v',
        'W' => 'w',
        'X' => 'x',
        'Y' => 'y',
        'Z' => 'z',
        _ => c,
    }
}

/// Executable form of [`upper_char`].
pub fn to_upper(c: char) -> (r: char)
    ensures
        r == upper_char(c),
{
    match c {
        'a' => 'A',
        'b' => 'B',
        'c' => 'C',
        'd' => 'D',
        'e' => 'E',
        'f' => 'F',
        'g' => 'G',
        'h' => 'H',
        'i' => 'I',
        'j' => 'J',
        'k' => 'K',
        'l' => 'L',
        'm' => 'M',
        'n' => 'N',
        'o' => 'O',
        'p' => 'P',
        'q' => 'Q',
        'r' => 'R',
        's' => 'S',
        't' => 'T',
        'u' => 'U',
        'v' => 'V',
        'w' => 'W',
        'x' => 'X',
        'y' => 'Y',
        'z' => 'Z',
        _ => c,
    }
}

/// Lowers every character of a vector.
pub fn lower_vec(v: &Vec<char>) -> (r: Vec<char>)
    ensures
        r@ == lower_seq(v@),
{
    let mut out: Vec<char> = Vec::new();
    let mut i: usize = 0;
    while i < v.len()
        invariant
            i <= v@.len(),
            out@.len() == i,
            forall|k: int| 0 <= k < i ==> out@[k] == lower_char(v@[k]),
        decreases v@.len() - i,
    {
        out.push(to_lower(v[i]));
        i = i + 1;
    }
    proof {
        assert(out@ =~= lower_seq(v@));
    }
    out
}

/// The characters of a string slice, in order.
pub fn chars_of(s: &str) -> (r: Vec<char>)
    ensures
        r@ == s@,
{
    let n: usize = s.unicode_len();
    let mut out: Vec<char> = Vec::new();
    let mut i: usize = 0;
    while i < n
        invariant
            i <= n,
            n == s@.len(),
            out@.len() == i,
            forall|k: int| 0 <= k < i ==> out@[k] == s@[k],
        decreases n - i,
    {
        out.push(s.get_char(i));
        i = i + 1;
    }
    proof {
        assert(out@ =~= s@);
    }
    out
}

/// Collects a character vector back into an owned string.
/// Relies on `String`'s `FromIterator` implementation: collecting
/// characters yields the string of exactly those characters in order.
#[verifier::external_body]
pub fn string_from_chars(v: &Vec<char>) -> (r: String)
    ensures
        r@ == v@,
{
    v.iter().collect()
}

/// How many leading characters of `s` satisfy `pred`.
pub open spec fn leading_count(s: Seq<char>, pred: spec_fn(char) -> bool) -> nat
    decreases s.len(),
{
    if s.len() > 0 && pred(s[0]) {
        (1 + leading_count(s.skip(1), pred)) as nat
    } else {
        0
    }
}

/// How many trailing characters of `s` satisfy `pred`.
pub open spec fn trailing_count(s: Seq<char>, pred: spec_fn(char) -> bool) -> nat
    decreases s.len(),
{
    if s.len() > 0 && pred(s.last()) {
        (1 + trailing_count(s.drop_last(), pred)) as nat
    } else {
        0
    }
}

/// The leading count is the first index where `pred` fails.
pub proof fn lemma_leading_count_is(s: Seq<char>, pred: spec_fn(char) -> bool, n: int)
    requires
        0 <= n <= s.len(),
        forall|k: int| 0 <= k < n ==> pred(#[trigger] s[k]),
        n == s.len() || !pred(s[n]),
    ensures
        leading_count(s, pred) == n,
    decreases n,
{
    if n == 0 {
    } else {
        assert(pred(s[0]));
        lemma_leading_count_is(s.skip(1), pred, n - 1);
    }
}

/// The trailing count is the distance from the last index where `pred`
/// fails to the end.
pub proof fn lemma_trailing_count_is(s: Seq<char>, pred: spec_fn(char) -> bool, n: int)
    requires
        0 <= n <= s.len(),
        forall|k: int| n <= k < s.len() ==> pred(#[trigger] s[k]),
        n == 0 || !pred(s[n - 1]),
    ensures
        trailing_count(s, pred) == s.len() - n,
    decreases s.len() - n,
{
    if n == s.len() {
    } else {
        assert(pred(s.last()));
        assert(forall|k: int|
            n <= k < s.drop_last().len() ==> pred(#[trigger] s.drop_last()[k]));
        lemma_trailing_count_is(s.drop_last(), pred, n);
    }
}

/// The predicate used for trimming and tokenization.
pub open spec fn space_pred() -> spec_fn(char) -> bool {
    |c: char| is_space_char(c)
}

/// `s` with leading and trailing whitespace removed.
pub open spec fn trim_seq(s: Seq<char>) -> Seq<char> {
    let a = s.skip(leading_count(s, space_pred()) as int);
    a.take(a.len() - trailing_count(a, space_pred()) as int)
}

/// Removes leading and trailing whitespace.
pub fn trim(v: &Vec<char>) -> (r: Vec<char>)
    ensures
        r@ == trim_seq(v@),
{
    let n: usize = v.len();
    let mut start: usize = 0;
    while start < n && is_space(v[start])
        invariant
            start <= n,
            n == v@.len(),
            forall|k: int| 0 <= k < start ==> is_space_char(#[trigger] v@[k]),
        decreases n - start,
    {
        start = start + 1;
    }
    proof {
        lemma_leading_count_is(v@, space_pred(), start as int);
    }
    let mut stop: usize = n;
    while stop > start && is_space(v[stop - 1])
        invariant
            start <= stop <= n,
            n == v@.len(),
            forall|k: int| stop <= k < n ==> is_space_char(#[trigger] v@[k]),
        decreases stop,
    {
        stop = stop - 1;
    }
    proof {
        let a = v@.skip(start as int);
        if stop == start {
            lemma_trailing_count_is(a, space_pred(), 0);
        } else {
            lemma_trailing_count_is(a, space_pred(), stop - start);
        }
    }
    let mut out: Vec<char> = Vec::new();
    let mut i: usize = start;
    while i < stop
        invariant
            start <= i <= stop <= n,
            n == v@.len(),
            out@.len() == i - start,
            forall|k: int| 0 <= k < i - start ==> out@[k] == v@[start + k],
        decreases stop - i,
    {
        out.push(v[i]);
        i = i + 1;
    }
    proof {
        assert(out@ =~= trim_seq(v@));
    }
    out
}

/// The predicate for characters that belong to a token.
pub open spec fn word_pred() -> spec_fn(char) -> bool {
    |c: char| !is_space_char(c)
}

/// The leading count never exceeds the length.
pub proof fn lemma_leading_count_le(s: Seq<char>, pred: spec_fn(char) -> bool)
    ensures
        leading_count(s, pred) <= s.len(),
    decreases s.len(),
{
    if s.len() > 0 && pred(s[0]) {
        lemma_leading_count_le(s.skip(1), pred);
    }
}

/// The whitespace-delimited tokens of `s`, in order: maximal runs of
/// non-whitespace characters, with empty runs never produced.
pub open spec fn tokens_of(s: Seq<char>) -> Seq<Seq<char>>
    decreases s.len(),
    via tokens_of_decreases
{
    if s.len() == 0 {
        Seq::empty()
    } else if is_space_char(s[0]) {
        tokens_of(s.skip(1))
    } else {
        let k = 1 + leading_count(s.skip(1), word_pred());
        seq![s.take(k as int)] + tokens_of(s.skip(k as int))
    }
}

#[via_fn]
proof fn tokens_of_decreases(s: Seq<char>) {
    if s.len() > 0 && !is_space_char(s[0]) {
        lemma_leading_count_le(s.skip(1), word_pred());
    }
}

/// Splits into whitespace-delimited tokens.
pub fn tokenize(v: &Vec<char>) -> (r: Vec<Vec<char>>)
    ensures
        r.deep_view() == tokens_of(v@),
{
    let mut out: Vec<Vec<char>> = Vec::new();
    let mut i: usize = 0;
    proof {
        assert(v@.skip(0) =~= v@);
        assert(out.deep_view() + tokens_of(v@) =~~= tokens_of(v@));
    }
    while i < v.len()
        invariant
            i <= v@.len(),
            tokens_of(v@) == out.deep_view() + tokens_of(v@.skip(i as int)),
        decreases v@.len() - i,
    {
        if is_space(v[i]) {
            proof {
                assert(v@.skip(i as int).skip(1) =~= v@.skip(i + 1 as int));
            }
            i = i + 1;
        } else {
            let ghost prev = out.deep_view();
            let start: usize = i;
            let mut tok: Vec<char> = Vec::new();
            let mut j: usize = i;
            while j < v.len() && !is_space(v[j])
                invariant
                    start <= j <= v@.len(),
                    tok@.len() == j - start,
                    forall|k: int| 0 <= k < j - start ==> tok@[k] == v@[start + k],
                    forall|k: int| start <= k < j ==> !is_space_char(#[trigger] v@[k]),
                decreases v@.len() - j,
            {
                tok.push(v[j]);
                j = j + 1;
            }
            i = j;
            proof {
                let rest = v@.skip(start as int);
                assert(forall|k: int|
                    0 <= k < i - start ==> word_pred()(#[trigger] rest[k]));
                lemma_leading_count_is(rest, word_pred(), i - start);
                assert(rest.take(i - start) =~= tok@);
                assert(rest.skip(i - start) =~= v@.skip(i as int));
                assert(tokens_of(rest) =~~= seq![tok@] + tokens_of(v@.skip(i as int)));
            }
            out.push(tok);
            proof {
                assert(out.deep_view() =~~= prev.push(tok@));
                assert(prev.push(tok@) + tokens_of(v@.skip(i as int)) =~~= prev + (seq![tok@]
                    + tokens_of(v@.skip(i as int))));
            }
        }
    }
    proof {
        assert(v@.skip(v@.len() as int) =~= Seq::<char>::empty());
        assert(out.deep_view() + tokens_of(Seq::<char>::empty()) =~~= out.deep_view());
    }
    out
}

/// The tokens joined with one space between each pair.
pub open spec fn join_with_spaces(ts: Seq<Seq<char>>) -> Seq<char>
    decreases ts.len(),
{
    if ts.len() == 0 {
        Seq::empty()
    } else if ts.len() == 1 {
        ts[0]
    } else {
        join_with_spaces(ts.drop_last()) + seq![' '] + ts.last()
    }
}

/// Joins tokens with single spaces.
pub fn join_tokens(ts: &Vec<Vec<char>>) -> (r: Vec<char>)
    ensures
        r@ == join_with_spaces(ts.deep_view()),
{
    let mut out: Vec<char> = Vec::new();
    let mut i: usize = 0;
    while i < ts.len()
        invariant
            i <= ts@.len(),
            ts.deep_view().len() == ts@.len(),
            out@ == join_with_spaces(ts.deep_view().take(i as int)),
        decreases ts@.len() - i,
    {
        if i > 0 {
            out.push(' ');
        }
        let tok = &ts[i];
        let mut j: usize = 0;
        let ghost mid = out@;
        while j < tok.len()
            invariant
                j <= tok@.len(),
                out@ == mid + tok@.take(j as int),
            decreases tok@.len() - j,
        {
            proof {
                assert(mid + tok@.take(j + 1 as int) =~= (mid + tok@.take(j as int)).push(
                    tok@[j as int],
                ));
            }
            out.push(tok[j]);
            j = j + 1;
        }
        proof {
            let dv = ts.deep_view();
            assert(tok@.take(tok@.len() as int) =~= tok@);
            assert(dv.take(i + 1 as int).drop_last() =~= dv.take(i as int));
            assert(dv.take(i + 1 as int).last() == dv[i as int]);
            assert(dv[i as int] == ts@[i as int]@);
            if i == 0 {
                assert(out@ =~= join_with_spaces(dv.take(i + 1 as int)));
            } else {
                assert(out@ =~= join_with_spaces(dv.take(i + 1 as int)));
            }
        }
        i = i + 1;
    }
    proof {
        assert(ts.deep_view().take(ts@.len() as int) =~= ts.deep_view());
    }
    out
}

/// Whether `pat` occurs in `s` starting at position `i`.
pub open spec fn match_at(s: Seq<char>, pat: Seq<char>, i: int) -> bool {
    0 <= i && i + pat.len() <= s.len() && s.subrange(i, i + pat.len()) == pat
}

/// Whether `pat` occurs anywhere in `s`.
pub open spec fn has_substring(s: Seq<char>, pat: Seq<char>) -> bool {
    exists|i: int| match_at(s, pat, i)
}

/// Compares the characters of `v` from position `i` against `pat`.
fn match_here(v: &Vec<char>, i: usize, pat: &str) -> (r: bool)
    requires
        i + pat@.len() <= v@.len(),
    ensures
        r == (v@.subrange(i as int, i + pat@.len()) == pat@),
{
    let m: usize = pat.unicode_len();
    let vlen: usize = v.len();
    let mut j: usize = 0;
    while j < m
        invariant
            j <= m,
            m == pat@.len(),
            vlen == v@.len(),
            i + m <= vlen,
            forall|k: int| 0 <= k < j ==> v@[i + k] == pat@[k],
        decreases m - j,
    {
        if v[i + j] != pat.get_char(j) {
            proof {
                assert(v@.subrange(i as int, i + m)[j as int] != pat@[j as int]);
            }
            return false;
        }
        j = j + 1;
    }
    proof {
        assert(v@.subrange(i as int, i + m) =~= pat@);
    }
    true
}

/// The position of the first occurrence of `pat` in `v`, if any.
pub fn find_first(v: &Vec<char>, pat: &str) -> (r: Option<usize>)
    ensures
        (match r {
            Option::Some(i) => match_at(v@, pat@, i as int) && (forall|j: int|
                0 <= j < i ==> !match_at(v@, pat@, j)),
            Option::None => !has_substring(v@, pat@),
        }),
{
    let m: usize = pat.unicode_len();
    let vlen: usize = v.len();
    if m > vlen {
        proof {
            assert(forall|j: int| !match_at(v@, pat@, j));
        }
        return Option::None;
    }
    if m == 0 {
        proof {
            assert(v@.subrange(0, 0) =~= pat@);
        }
        return Option::Some(0);
    }
    let mut i: usize = 0;
    while i <= vlen - m
        invariant
            i <= vlen,
            vlen == v@.len(),
            0 < m == pat@.len() <= vlen,
            forall|j: int| 0 <= j < i ==> !match_at(v@, pat@, j),
        decreases vlen - i,
    {
        if match_here(v, i, pat) {
            return Option::Some(i);
        }
        i = i + 1;
    }
    proof {
        assert(forall|j: int| !match_at(v@, pat@, j));
    }
    Option::None
}

/// Whether `pat` occurs anywhere in `v`.
pub fn contains_str(v: &Vec<char>, pat: &str) -> (r: bool)
    ensures
        r == has_substring(v@, pat@),
{
    match find_first(v, pat) {
        Option::Some(_) => true,
        Option::None => false,
    }
}

/// Whether the characters of `v` are exactly those of `s`.
pub fn eq_str(v: &Vec<char>, s: &str) -> (r: bool)
    ensures
        r == (v@ == s@),
{
    let n: usize = s.unicode_len();
    if v.len() != n {
        proof {
            assert(v@.len() != s@.len());
        }
        return false;
    }
    let mut i: usize = 0;
    while i < n
        invariant
            i <= n,
            n == s@.len() == v@.len(),
            forall|k: int| 0 <= k < i ==> v@[k] == s@[k],
        decreases n - i,
    {
        if v[i] != s.get_char(i) {
            return false;
        }
        i = i + 1;
    }
    proof {
        assert(v@ =~= s@);
    }
    true
}

/// `s` with every occurrence of `pat` struck out, scanning left to
/// right and never matching across a removal.
pub open spec fn remove_every(s: Seq<char>, pat: Seq<char>) -> Seq<char>
    decreases s.len(),
{
    if pat.len() == 0 || s.len() < pat.len() {
        s
    } else if s.take(pat.len() as int) == pat {
        remove_every(s.skip(pat.len() as int), pat)
    } else {
        seq![s[0]] + remove_every(s.skip(1), pat)
    }
}

/// Strikes every occurrence of `pat` out of `v`.
pub fn remove_all_str(v: &Vec<char>, pat: &str) -> (r: Vec<char>)
    requires
        pat@.len() > 0,
    ensures
        r@ == remove_every(v@, pat@),
{
    let m: usize = pat.unicode_len();
    let mut out: Vec<char> = Vec::new();
    let mut i: usize = 0;
    proof {
        assert(v@.skip(0) =~= v@);
    }
    while i < v.len()
        invariant
            i <= v@.len(),
            m == pat@.len(),
            m > 0,
            remove_every(v@, pat@) == out@ + remove_every(v@.skip(i as int), pat@),
        decreases v@.len() - i,
    {
        let matched = if m <= v.len() - i {
            match_here(v, i, pat)
        } else {
            false
        };
        if matched {
            proof {
                let rest = v@.skip(i as int);
                assert(rest.take(m as int) =~= v@.subrange(i as int, i + m));
                assert(rest.skip(m as int) =~= v@.skip(i + m));
            }
            i = i + m;
        } else {
            proof {
                let rest = v@.skip(i as int);
                if i + m <= v@.len() {
                    assert(rest.take(m as int) =~= v@.subrange(i as int, i + m));
                    assert(remove_every(rest, pat@) == seq![rest[0]] + remove_every(
                        rest.skip(1),
                        pat@,
                    ));
                } else {
                    assert(rest =~= seq![rest[0]] + rest.skip(1));
                    assert(rest.skip(1).len() < m);
                    assert(remove_every(rest, pat@) == seq![rest[0]] + remove_every(
                        rest.skip(1),
                        pat@,
                    ));
                }
                assert(rest[0] == v@[i as int]);
                assert(rest.skip(1) =~= v@.skip(i + 1 as int));
                assert(out@.push(v@[i as int]) + remove_every(v@.skip(i + 1 as int), pat@) =~= out@
                    + (seq![v@[i as int]] + remove_every(v@.skip(i + 1 as int), pat@)));
            }
            out.push(v[i]);
            i = i + 1;
        }
    }
    proof {
        assert(v@.skip(v@.len() as int) =~= Seq::<char>::empty());
        assert(out@ + remove_every(Seq::<char>::empty(), pat@) =~= out@);
    }
    out
}

/// The predicate for a leading dollar sign.
pub open spec fn dollar_pred() -> spec_fn(char) -> bool {
    |c: char| c == '$'
}

/// The predicate for a leading euro sign.
pub open spec fn euro_pred() -> spec_fn(char) -> bool {
    |c: char| c == '€'
}

/// A word with every leading dollar sign removed, then every leading
/// euro sign after those.
pub open spec fn strip_currency(w: Seq<char>) -> Seq<char> {
    let a = w.skip(leading_count(w, dollar_pred()) as int);
    a.skip(leading_count(a, euro_pred()) as int)
}

/// Strips leading currency signs off a word before a numeric parse.
pub fn strip_currency_marks(w: &Vec<char>) -> (r: Vec<char>)
    ensures
        r@ == strip_currency(w@),
{
    let n: usize = w.len();
    let mut a: usize = 0;
    while a < n && w[a] == '$'
        invariant
            a <= n,
            n == w@.len(),
            forall|k: int| 0 <= k < a ==> w@[k] == '$',
        decreases n - a,
    {
        a = a + 1;
    }
    proof {
        lemma_leading_count_is(w@, dollar_pred(), a as int);
    }
    let mut b: usize = a;
    while b < n && w[b] == '€'
        invariant
            a <= b <= n,
            n == w@.len(),
            forall|k: int| a <= k < b ==> w@[k] == '€',
        decreases n - b,
    {
        b = b + 1;
    }
    proof {
        let rest = w@.skip(a as int);
        lemma_leading_count_is(rest, euro_pred(), b - a);
    }
    let mut out: Vec<char> = Vec::new();
    let mut i: usize = b;
    while i < n
        invariant
            b <= i <= n,
            n == w@.len(),
            out@.len() == i - b,
            forall|k: int| 0 <= k < i - b ==> out@[k] == w@[b + k],
        decreases n - i,
    {
        out.push(w[i]);
        i = i + 1;
    }
    proof {
        assert(out@ =~= strip_currency(w@));
    }
    out
}

/// Whether every character of `s` is a decimal digit.
pub open spec fn all_digits(s: Seq<char>) -> bool {
    forall|k: int| 0 <= k < s.len() ==> is_digit_char(#[trigger] s[k])
}

/// The number the digit string `s` denotes in base ten.
pub open spec fn digits_val(s: Seq<char>) -> int
    decreases s.len(),
{
    if s.len() == 0 {
        0
    } else {
        digits_val(s.drop_last()) * 10 + digit_val(s.last())
    }
}

} // verus!
