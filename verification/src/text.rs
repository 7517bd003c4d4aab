//! Character-level building blocks shared by the text transforms.
//!
//! Documents and paths are handled as sequences of Unicode scalar values: the
//! view of a `&str` or `String` is a `Seq<char>`, and every contract in this
//! crate is stated over such sequences.

use vstd::prelude::*;

verus! {

/// Assumed of `String::push` in the standard library: it appends the given
/// character to the end of the string, and the characters before stay.
pub assume_specification[ String::push ](s: &mut String, ch: char)
    ensures
        final(s)@ == old(s)@.push(ch),
;

/// `part` stands in `text` at position `at`.
pub open spec fn occurs_at(text: Seq<char>, part: Seq<char>, at: int) -> bool {
    &&& 0 <= at
    &&& at + part.len() <= text.len()
    &&& text.subrange(at, at + part.len()) == part
}

/// `part` stands somewhere in `text`. The empty sequence stands in every text.
pub open spec fn contains(text: Seq<char>, part: Seq<char>) -> bool {
    exists|at: int| occurs_at(text, part, at)
}

/// `text` begins with `part`.
pub open spec fn starts_with(text: Seq<char>, part: Seq<char>) -> bool {
    occurs_at(text, part, 0)
}

/// The least index at or after `from` at which `c` stands in `s`, or the
/// length of `s` if there is none.
pub open spec fn first_index_of(s: Seq<char>, c: char, from: int) -> int
    decreases s.len() - from,
{
    if from < 0 || from >= s.len() {
        s.len() as int
    } else if s[from] == c {
        from
    } else {
        first_index_of(s, c, from + 1)
    }
}

/// What `first_index_of` finds: nothing before it is `c`, and it is `c`
/// unless the sequence ran out.
pub proof fn lemma_first_index_of(s: Seq<char>, c: char, from: int)
    requires
        0 <= from <= s.len(),
    ensures
        from <= first_index_of(s, c, from) <= s.len(),
        first_index_of(s, c, from) < s.len() ==> s[first_index_of(s, c, from)] == c,
        forall|k: int| from <= k < first_index_of(s, c, from) ==> s[k] != c,
    decreases s.len() - from,
{
    if from < s.len() && s[from] != c {
        lemma_first_index_of(s, c, from + 1);
    }
}

/// An index from which no `c` stands before `k`, and at which `c` stands
/// unless it is the length, is what `first_index_of` finds.
pub proof fn lemma_first_index_of_is(s: Seq<char>, c: char, from: int, k: int)
    requires
        0 <= from <= k <= s.len(),
        forall|j: int| from <= j < k ==> s[j] != c,
        k < s.len() ==> s[k] == c,
    ensures
        first_index_of(s, c, from) == k,
    decreases k - from,
{
    if from < k {
        lemma_first_index_of_is(s, c, from + 1, k);
    }
}

/// Searching in what is left after the first `k` characters finds the same
/// place, counted from there.
pub proof fn lemma_first_index_of_skip(s: Seq<char>, c: char, k: int, from: int)
    requires
        0 <= k <= s.len(),
        0 <= from <= s.len() - k,
    ensures
        first_index_of(s.skip(k), c, from) == first_index_of(s, c, from + k) - k,
{
    let found = first_index_of(s, c, from + k);
    lemma_first_index_of(s, c, from + k);
    assert forall|j: int| from <= j < found - k implies s.skip(k)[j] != c by {
        assert(s[j + k] != c);
    }
    lemma_first_index_of_is(s.skip(k), c, from, found - k);
}

/// The characters of a string slice, in order.
pub fn chars_of(s: &str) -> (v: Vec<char>)
    ensures
        v@ == s@,
{
    let mut v: Vec<char> = Vec::new();
    for c in it: s.chars()
        invariant
            v@ == it.seq().take(it.index()),
    {
        v.push(c);
    }
    proof {
        broadcast use vstd::string::group_string_axioms;

        assert(v@ == s@);
    }
    v
}

/// The string made of `v[from..to]`.
pub(crate) fn string_of_range(v: &Vec<char>, from: usize, to: usize) -> (s: String)
    requires
        from <= to <= v.len(),
    ensures
        s@ == v@.subrange(from as int, to as int),
{
    let mut s = String::new();
    let mut i: usize = from;
    while i < to
        invariant
            from <= i <= to <= v.len(),
            s@ == v@.subrange(from as int, i as int),
        decreases to - i,
    {
        s.push(v[i]);
        i += 1;
    }
    s
}

/// The string made of the characters of `v`.
pub fn string_of(v: &Vec<char>) -> (s: String)
    ensures
        s@ == v@,
{
    string_of_range(v, 0, v.len())
}

/// Appends the characters of `part` to `out`.
pub fn push_all(out: &mut Vec<char>, part: &Vec<char>)
    ensures
        final(out)@ == old(out)@ + part@,
{
    let mut i: usize = 0;
    while i < part.len()
        invariant
            i <= part.len(),
            out@ == old(out)@ + part@.take(i as int),
        decreases part.len() - i,
    {
        out.push(part[i]);
        i += 1;
    }
}

/// Whether `part` stands in `text` at position `at`.
pub fn occurs_at_exec(text: &Vec<char>, part: &Vec<char>, at: usize) -> (found: bool)
    ensures
        found == occurs_at(text@, part@, at as int),
{
    if at > text.len() || part.len() > text.len() - at {
        return false;
    }
    let mut k: usize = 0;
    while k < part.len()
        invariant
            k <= part.len(),
            at + part.len() <= text.len(),
            forall|j: int| 0 <= j < k ==> text@[at + j] == part@[j],
        decreases part.len() - k,
    {
        if text[at + k] != part[k] {
            return false;
        }
        k += 1;
    }
    assert(text@.subrange(at as int, at + part.len()) =~= part@);
    true
}

/// Whether `part` stands somewhere in `text`.
pub fn contains_exec(text: &Vec<char>, part: &Vec<char>) -> (found: bool)
    ensures
        found == contains(text@, part@),
{
    if part.len() > text.len() {
        assert forall|at: int| !occurs_at(text@, part@, at) by {}
        return false;
    }
    let last: usize = text.len() - part.len();
    let mut at: usize = 0;
    loop
        invariant
            at <= last,
            last == text.len() - part.len(),
            forall|j: int| 0 <= j < at ==> !occurs_at(text@, part@, j),
        decreases last - at,
    {
        if occurs_at_exec(text, part, at) {
            return true;
        }
        if at == last {
            assert forall|j: int| !occurs_at(text@, part@, j) by {}
            return false;
        }
        at += 1;
    }
}

} // verus!
