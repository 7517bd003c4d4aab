//! Paths as text: the final component of a path, and joining a directory and
//! a name.
//!
//! A path is a sequence of characters in which `/` separates the components.
//! Empty components and `.` say nothing and are passed over; `..` names no
//! file.

use vstd::prelude::*;
use crate::text::{chars_of, push_all, string_of_range};

verus! {

/// Where the part of `s` after its last `c` begins: just behind that `c`, or
/// at 0 if `c` does not occur.
pub open spec fn start_after_last(s: Seq<char>, c: char) -> int
    decreases s.len(),
{
    if s.len() == 0 {
        0
    } else if s.last() == c {
        s.len() as int
    } else {
        start_after_last(s.drop_last(), c)
    }
}

/// The part of `s` after its last `c`; all of `s` if `c` does not occur.
pub open spec fn after_last(s: Seq<char>, c: char) -> Seq<char> {
    s.skip(start_after_last(s, c))
}

/// The part of `s` after its last `c`, where `c` occurs in `s`. The part is
/// empty where `s` ends with `c`.
pub open spec fn part_after_last(s: Seq<char>, c: char) -> Option<Seq<char>> {
    if s.contains(c) {
        Some(after_last(s, c))
    } else {
        None
    }
}

/// `start_after_last` is the one position with `c` just before it, or the
/// beginning, and no `c` from it on.
pub proof fn lemma_start_after_last(s: Seq<char>, c: char)
    ensures
        0 <= start_after_last(s, c) <= s.len(),
        start_after_last(s, c) > 0 ==> s[start_after_last(s, c) - 1] == c,
        forall|k: int| start_after_last(s, c) <= k < s.len() ==> s[k] != c,
    decreases s.len(),
{
    if s.len() > 0 && s.last() != c {
        let init = s.drop_last();
        lemma_start_after_last(init, c);
        assert forall|k: int| start_after_last(s, c) <= k < s.len() implies s[k] != c by {
            if k < init.len() {
                assert(init[k] != c);
            }
        }
    }
}

/// A position with `c` just before it (or the beginning) and no `c` from it
/// on is `start_after_last`.
pub proof fn lemma_start_after_last_is(s: Seq<char>, c: char, start: int)
    requires
        0 <= start <= s.len(),
        start > 0 ==> s[start - 1] == c,
        forall|k: int| start <= k < s.len() ==> s[k] != c,
    ensures
        start_after_last(s, c) == start,
    decreases s.len(),
{
    if s.len() > 0 && s.last() != c {
        lemma_start_after_last_is(s.drop_last(), c, start);
    }
}

/// The final component of a path: its last component that is neither empty
/// nor `.`, unless that component is `..` or there is none.
///
/// So `/a/b.md`, `/a/b.md/` and `/a/b.md/.` all end in `b.md`, while `/`,
/// the empty path and `a/..` have no final component.
pub open spec fn final_component(p: Seq<char>) -> Option<Seq<char>>
    decreases p.len(),
{
    if p.len() == 0 {
        None
    } else {
        let start = start_after_last(p, '/');
        let last = p.skip(start);
        if last.len() == 0 || last == seq!['.'] {
            if 0 < start <= p.len() {
                final_component(p.take(start - 1))
            } else {
                None
            }
        } else if last == seq!['.', '.'] {
            None
        } else {
            Some(last)
        }
    }
}

/// A final component is a name: it is not empty, holds no separator, and is
/// neither `.` nor `..`.
pub proof fn lemma_final_component_is_a_name(p: Seq<char>)
    ensures
        final_component(p) matches Some(name) ==> {
            &&& name.len() > 0
            &&& forall|k: int| 0 <= k < name.len() ==> name[k] != '/'
            &&& name != seq!['.']
            &&& name != seq!['.', '.']
        },
    decreases p.len(),
{
    if p.len() > 0 {
        let start = start_after_last(p, '/');
        let last = p.skip(start);
        lemma_start_after_last(p, '/');
        if last.len() == 0 || last == seq!['.'] {
            if 0 < start {
                lemma_final_component_is_a_name(p.take(start - 1));
            }
        }
    }
}

/// `dir`, a separator, and `name`.
pub open spec fn joined(dir: Seq<char>, name: Seq<char>) -> Seq<char> {
    dir + seq!['/'] + name
}

/// Where the part of `v[..end]` after its last `c` begins.
fn find_start_after_last(v: &Vec<char>, end: usize, c: char) -> (start: usize)
    requires
        end <= v.len(),
    ensures
        start == start_after_last(v@.take(end as int), c),
        start <= end,
{
    let mut k: usize = end;
    while k > 0 && v[k - 1] != c
        invariant
            k <= end <= v.len(),
            forall|j: int| k <= j < end ==> v@[j] != c,
        decreases k,
    {
        k -= 1;
    }
    proof {
        lemma_start_after_last_is(v@.take(end as int), c, k as int);
    }
    k
}

/// The part of `s` after its last `c`; all of `s` if `c` does not occur.
pub fn text_after_last(s: &str, c: char) -> (tail: String)
    ensures
        tail@ == after_last(s@, c),
        forall|k: int| 0 <= k < tail@.len() ==> tail@[k] != c,
        tail@.len() <= s@.len(),
        s@.skip(s@.len() - tail@.len()) == tail@,
{
    let v = chars_of(s);
    let start = find_start_after_last(&v, v.len(), c);
    proof {
        assert(v@.take(v.len() as int) == v@);
        lemma_start_after_last(v@, c);
    }
    string_of_range(&v, start, v.len())
}

/// The part of `s` after its last `c`, or `None` where `c` does not occur
/// in `s`.
pub fn split_after_last(s: &str, c: char) -> (tail: Option<String>)
    ensures
        match tail {
            Some(t) => part_after_last(s@, c) == Some(t@),
            None => part_after_last(s@, c) is None,
        },
{
    let v = chars_of(s);
    let start = find_start_after_last(&v, v.len(), c);
    proof {
        assert(v@.take(v.len() as int) == v@);
        lemma_start_after_last(v@, c);
        if start > 0 {
            assert(v@[start - 1] == c);
        }
    }
    if start == 0 {
        None
    } else {
        Some(string_of_range(&v, start, v.len()))
    }
}

/// The final component of `path`, if it has one.
pub fn file_name(path: &str) -> (name: Option<String>)
    ensures
        match name {
            Some(n) => final_component(path@) == Some(n@),
            None => final_component(path@) is None,
        },
        name matches Some(n) ==> n@.len() > 0 && forall|k: int|
            0 <= k < n@.len() ==> n@[k] != '/',
{
    let v = chars_of(path);
    let mut end: usize = v.len();
    assert(v@.take(end as int) == v@);
    loop
        invariant
            end <= v.len(),
            v@ == path@,
            final_component(path@) == final_component(v@.take(end as int)),
        decreases end,
    {
        if end == 0 {
            return None;
        }
        let ghost p = v@.take(end as int);
        let start = find_start_after_last(&v, end, '/');
        let len = end - start;
        assert(p.skip(start as int) =~= v@.subrange(start as int, end as int));
        if len == 0 || (len == 1 && v[start] == '.') {
            assert(len == 1 ==> p.skip(start as int) =~= seq!['.']);
            if start == 0 {
                return None;
            }
            assert(p.take(start - 1) == v@.take(start - 1));
            end = start - 1;
        } else if len == 2 && v[start] == '.' && v[start + 1] == '.' {
            assert(p.skip(start as int) =~= seq!['.', '.']);
            return None;
        } else {
            proof {
                let last = p.skip(start as int);
                if last == seq!['.'] {
                    assert(last.len() == 1 && last[0] == '.');
                }
                if last == seq!['.', '.'] {
                    assert(last.len() == 2 && last[0] == '.' && last[1] == '.');
                }
                lemma_final_component_is_a_name(path@);
            }
            return Some(string_of_range(&v, start, end));
        }
    }
}

/// `dir`, a separator, and `name`.
pub fn join(dir: &str, name: &str) -> (path: String)
    ensures
        path@ == joined(dir@, name@),
{
    let mut out = chars_of(dir);
    out.push('/');
    let tail = chars_of(name);
    push_all(&mut out, &tail);
    crate::text::string_of(&out)
}

} // verus!
