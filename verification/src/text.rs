//! Character-level helpers on strings, stated over `Seq<char>` views.

use vstd::prelude::*;
use vstd::string::*;

verus! {

/// `pat` occurs in `s` at index `i`.
pub open spec fn occurs_at(s: Seq<char>, pat: Seq<char>, i: int) -> bool {
    0 <= i && i + pat.len() <= s.len() && s.subrange(i, i + pat.len()) == pat
}

/// `s` with every occurrence of `from` replaced by `to`, scanning from the
/// left; occurrences that overlap an earlier one are not replaced. An empty
/// `from` occurs nowhere.
pub open spec fn replaced(s: Seq<char>, from: Seq<char>, to: Seq<char>) -> Seq<char>
    decreases s.len(),
{
    if s.len() == 0 {
        s
    } else if from.len() > 0 && occurs_at(s, from, 0) {
        to + replaced(s.skip(from.len() as int), from, to)
    } else {
        seq![s[0]] + replaced(s.skip(1), from, to)
    }
}

/// The characters of `s`, in order.
pub fn chars_of(s: &str) -> (v: Vec<char>)
    ensures
        v@ == s@,
{
    broadcast use vstd::string::group_string_axioms;

    let mut v: Vec<char> = Vec::new();
    for c in it: s.chars()
        invariant
            it.seq() == s@,
            v@ == s@.take(it.index() as int),
    {
        v.push(c);
    }
    v
}

/// `String::from_iter` on the characters of `chars`: the string made of
/// exactly these characters, in order.
#[verifier::external_body]
pub(crate) fn string_of(chars: &Vec<char>) -> (s: String)
    ensures
        s@ == chars@,
{
    String::from_iter(chars.iter())
}

/// Appends the characters of `items` to `out`.
pub fn push_all(out: &mut Vec<char>, items: &Vec<char>)
    ensures
        final(out)@ == old(out)@ + items@,
{
    let mut k: usize = 0;
    while k < items.len()
        invariant
            k <= items.len(),
            out@ == old(out)@ + items@.take(k as int),
        decreases items.len() - k,
    {
        out.push(items[k]);
        k += 1;
    }
}

/// Tells whether `pat` occurs in `s` at index `i`.
pub fn occurs_at_index(s: &Vec<char>, pat: &Vec<char>, i: usize) -> (b: bool)
    ensures
        b == occurs_at(s@, pat@, i as int),
{
    if pat.len() > s.len() || i > s.len() - pat.len() {
        return false;
    }
    let mut k: usize = 0;
    while k < pat.len()
        invariant
            k <= pat.len(),
            i + pat.len() <= s.len(),
            forall|j: int| 0 <= j < k ==> s@[i + j] == pat@[j],
        decreases pat.len() - k,
    {
        if s[i + k] != pat[k] {
            assert(s@.subrange(i as int, i + pat.len())[k as int] == s@[i + k]);
            return false;
        }
        k += 1;
    }
    assert(s@.subrange(i as int, i + pat.len()) =~= pat@);
    true
}

/// Tells whether `s` ends with `suffix`.
pub fn ends_with(s: &str, suffix: &str) -> (b: bool)
    ensures
        b == suffix@.is_suffix_of(s@),
{
    let sc = chars_of(s);
    let pc = chars_of(suffix);
    if pc.len() > sc.len() {
        return false;
    }
    occurs_at_index(&sc, &pc, sc.len() - pc.len())
}

/// An occurrence in a tail of `s` is an occurrence in `s`, shifted.
pub proof fn lemma_occurs_at_skip(s: Seq<char>, pat: Seq<char>, i: int)
    requires
        0 <= i <= s.len(),
    ensures
        occurs_at(s.skip(i), pat, 0) == occurs_at(s, pat, i),
{
    if i + pat.len() <= s.len() {
        assert(s.skip(i).subrange(0, pat.len() as int) =~= s.subrange(i, i + pat.len()));
    }
}

/// Replaces every occurrence of `from` in `s` by `to`, left to right.
pub fn replace_all(s: &str, from: &str, to: &str) -> (r: String)
    ensures
        r@ == replaced(s@, from@, to@),
{
    let sc = chars_of(s);
    let fc = chars_of(from);
    let tc = chars_of(to);
    let mut out: Vec<char> = Vec::new();
    let mut i: usize = 0;
    assert(sc@.skip(0) =~= sc@);
    while i < sc.len()
        invariant
            i <= sc.len(),
            out@ + replaced(sc@.skip(i as int), fc@, tc@) == replaced(sc@, fc@, tc@),
        decreases sc.len() - i,
    {
        proof {
            lemma_occurs_at_skip(sc@, fc@, i as int);
        }
        if fc.len() > 0 && occurs_at_index(&sc, &fc, i) {
            assert(sc@.skip(i as int).skip(fc@.len() as int) =~= sc@.skip(i + fc@.len()));
            push_all(&mut out, &tc);
            i += fc.len();
        } else {
            assert(sc@.skip(i as int).skip(1) =~= sc@.skip(i + 1));
            out.push(sc[i]);
            i += 1;
        }
    }
    string_of(&out)
}

/// The first index from `from` on at which `c` stands in `s`; the length
/// of `s` where there is none.
pub open spec fn index_of_char(s: Seq<char>, c: char, from: int) -> int
    decreases s.len() - from,
{
    if from >= s.len() {
        s.len() as int
    } else if s[from] == c {
        from
    } else {
        index_of_char(s, c, from + 1)
    }
}

/// Where `c` stands at `at` and nowhere from `from` up to it, `at` is the
/// first index from `from` on at which `c` stands.
pub proof fn lemma_index_of_char(s: Seq<char>, c: char, from: int, at: int)
    requires
        0 <= from <= at <= s.len(),
        forall|i: int| from <= i < at ==> s[i] != c,
        at < s.len() ==> s[at] == c,
    ensures
        index_of_char(s, c, from) == at,
    decreases at - from,
{
    if from < at {
        lemma_index_of_char(s, c, from + 1, at);
    }
}

/// Finds the first index from `from` on at which `c` stands in `s`; the
/// length of `s` where there is none.
pub fn find_char(s: &Vec<char>, c: char, from: usize) -> (at: usize)
    ensures
        at == index_of_char(s@, c, from as int),
        at <= s.len(),
        from <= s.len() ==> from <= at,
{
    if from >= s.len() {
        return s.len();
    }
    let mut i: usize = from;
    while i < s.len() && s[i] != c
        invariant
            from <= i <= s.len(),
            index_of_char(s@, c, i as int) == index_of_char(s@, c, from as int),
        decreases s.len() - i,
    {
        i += 1;
    }
    i
}

/// The string of the characters of `s` from `from` up to `to`.
pub(crate) fn substring(s: &Vec<char>, from: usize, to: usize) -> (r: String)
    requires
        from <= to <= s.len(),
    ensures
        r@ == s@.subrange(from as int, to as int),
{
    let mut part: Vec<char> = Vec::new();
    let mut i: usize = from;
    while i < to
        invariant
            from <= i <= to <= s.len(),
            part@ == s@.subrange(from as int, i as int),
        decreases to - i,
    {
        part.push(s[i]);
        assert(part@ =~= s@.subrange(from as int, i + 1));
        i += 1;
    }
    string_of(&part)
}

/// The first index from `from` on at which `c` stands in `s` lies from
/// `from` on and within `s`, and `c` stands there unless it is the length
/// of `s`.
pub proof fn lemma_index_of_char_found(s: Seq<char>, c: char, from: int)
    requires
        0 <= from <= s.len(),
    ensures
        from <= index_of_char(s, c, from) <= s.len(),
        index_of_char(s, c, from) < s.len() ==> s[index_of_char(s, c, from)] == c,
        forall|i: int| from <= i < index_of_char(s, c, from) ==> s[i] != c,
    decreases s.len() - from,
{
    if from < s.len() && s[from] != c {
        lemma_index_of_char_found(s, c, from + 1);
    }
}

/// Tells whether `pat` ends the first `end` characters of `s`.
pub(crate) fn ends_at(s: &Vec<char>, pat: &Vec<char>, end: usize) -> (b: bool)
    requires
        end <= s.len(),
    ensures
        b == pat@.is_suffix_of(s@.take(end as int)),
{
    if pat.len() > end {
        return false;
    }
    let start = end - pat.len();
    assert(s@.take(end as int).subrange(start as int, end as int) =~= s@.subrange(
        start as int,
        start + pat.len(),
    ));
    occurs_at_index(s, pat, start)
}

/// Appends the characters of `s` from `from` up to `to` to `out`.
pub(crate) fn push_range(out: &mut Vec<char>, s: &Vec<char>, from: usize, to: usize)
    requires
        from <= to <= s.len(),
    ensures
        final(out)@ == old(out)@ + s@.subrange(from as int, to as int),
{
    let mut i: usize = from;
    assert(out@ =~= old(out)@ + s@.subrange(from as int, from as int));
    while i < to
        invariant
            from <= i <= to <= s.len(),
            out@ == old(out)@ + s@.subrange(from as int, i as int),
        decreases to - i,
    {
        out.push(s[i]);
        assert(out@ =~= old(out)@ + s@.subrange(from as int, i + 1));
        i += 1;
    }
}

} // verus!
