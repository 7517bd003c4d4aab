//! Escape normalization: a double backslash that ends a line becomes a triple
//! backslash, set off from the text before it by one space.
//!
//! The target renderer collapses `\\` + newline inside alignment blocks; three
//! backslashes survive it. The rule looks at four characters at a time, from
//! left to right, and never looks again at a character it has passed.

use vstd::prelude::*;

verus! {

/// The rule applies at `i`: a character other than a backslash, then exactly
/// two backslashes, then a newline.
///
/// The character before the backslashes is part of the site, so a run of
/// three or more backslashes before a newline holds no site, and no site
/// starts at the very first backslash of a text.
pub open spec fn escape_site(s: Seq<char>, i: int) -> bool {
    &&& 0 <= i
    &&& i + 3 < s.len()
    &&& s[i] != '\\'
    &&& s[i + 1] == '\\'
    &&& s[i + 2] == '\\'
    &&& s[i + 3] == '\n'
}

/// What a site that starts with `c` is rewritten to: `c`, a space, three
/// backslashes and the newline.
pub open spec fn escape_block(c: char) -> Seq<char> {
    seq![c, ' ', '\\', '\\', '\\', '\n']
}

/// The text after escape normalization.
///
/// Sites are rewritten from left to right. The four characters of a rewritten
/// site are consumed, so a site whose first character is the newline of the
/// site before it is left as it stands.
pub open spec fn normalized(s: Seq<char>) -> Seq<char>
    decreases s.len(),
{
    if s.len() == 0 {
        s
    } else if escape_site(s, 0) {
        escape_block(s[0]) + normalized(s.skip(4))
    } else {
        seq![s[0]] + normalized(s.skip(1))
    }
}

/// No site anywhere in `s`.
pub open spec fn site_free(s: Seq<char>) -> bool {
    forall|i: int| !escape_site(s, i)
}

/// Two sites of `s` overlap at `i`: one starts there, and its newline is the
/// first character of the next.
pub open spec fn chained_at(s: Seq<char>, i: int) -> bool {
    escape_site(s, i) && escape_site(s, i + 3)
}

/// Some site of `s` begins at the newline that ends another site.
pub open spec fn has_chained_sites(s: Seq<char>) -> bool {
    exists|i: int| chained_at(s, i)
}

/// Rewrites every escape site of `content`, from left to right.
pub fn normalize_escapes(content: &str) -> (out: String)
    ensures
        out@ == normalized(content@),
        site_free(content@) ==> out@ == content@,
{
    let chars = crate::text::chars_of(content);
    let n = chars.len();
    let mut out: Vec<char> = Vec::new();
    let mut i: usize = 0;
    proof {
        assert(chars@.skip(0) == chars@);
    }
    while i < n
        invariant
            n == chars.len(),
            i <= n,
            normalized(chars@) == out@ + normalized(chars@.skip(i as int)),
        decreases n - i,
    {
        let ghost rest = chars@.skip(i as int);
        let c = chars[i];
        if n - i > 3 && c != '\\' && chars[i + 1] == '\\' && chars[i + 2] == '\\' && chars[i + 3]
            == '\n' {
            proof {
                assert(rest.skip(4) == chars@.skip(i + 4));
                assert(out@ + (escape_block(c) + normalized(rest.skip(4))) == (out@
                    + escape_block(c)) + normalized(rest.skip(4)));
            }
            out.push(c);
            out.push(' ');
            out.push('\\');
            out.push('\\');
            out.push('\\');
            out.push('\n');
            i += 4;
        } else {
            proof {
                assert(rest.skip(1) == chars@.skip(i + 1));
                assert(out@ + (seq![c] + normalized(rest.skip(1))) == (out@ + seq![c])
                    + normalized(rest.skip(1)));
            }
            out.push(c);
            i += 1;
        }
    }
    proof {
        if site_free(content@) {
            lemma_fixed_points(content@);
        }
    }
    crate::text::string_of(&out)
}

/// Normalization never shortens a text, keeps its first character, and
/// passes over a leading backslash.
pub proof fn lemma_normalized_head(s: Seq<char>)
    ensures
        normalized(s).len() >= s.len(),
        s.len() > 0 ==> normalized(s)[0] == s[0],
        s.len() > 0 && s[0] == '\\' ==> normalized(s) == seq![s[0]] + normalized(s.skip(1)),
    decreases s.len(),
{
    if s.len() == 0 {
    } else if escape_site(s, 0) {
        lemma_normalized_head(s.skip(4));
    } else {
        lemma_normalized_head(s.skip(1));
    }
}

/// The texts that normalization leaves unchanged are exactly those without a
/// site. In particular a text that was normalized before, in which every
/// double backslash before a newline has become a triple one, stays as it is.
pub proof fn lemma_fixed_points(s: Seq<char>)
    ensures
        normalized(s) == s <==> site_free(s),
    decreases s.len(),
{
    if s.len() == 0 {
    } else if escape_site(s, 0) {
        // The rewritten text is longer than the text.
        lemma_normalized_head(s.skip(4));
    } else {
        let t = s.skip(1);
        lemma_fixed_points(t);
        assert forall|i: int| escape_site(t, i) == escape_site(s, i + 1) by {}
        if site_free(s) {
            assert forall|i: int| !escape_site(t, i) by {}
            assert(normalized(s) == s);
        }
        if normalized(s) == s {
            assert(normalized(t) =~= normalized(s).skip(1));
            assert forall|i: int| !escape_site(s, i) by {
                if i >= 1 {
                    assert(!escape_site(t, i - 1));
                }
            }
        }
    }
}

/// What a site is rewritten to holds no site itself: a backslash stands
/// before its last two backslashes. Rewriting it again changes nothing.
pub proof fn lemma_block_is_stable(c: char)
    ensures
        site_free(escape_block(c)),
        normalized(escape_block(c)) == escape_block(c),
{
    lemma_fixed_points(escape_block(c));
}

/// `s` begins with two backslashes and a newline.
spec fn starts_with_break(s: Seq<char>) -> bool {
    s.len() >= 3 && s[0] == '\\' && s[1] == '\\' && s[2] == '\n'
}

/// A text begins with a double backslash and a newline exactly if its
/// normalized form does.
proof fn lemma_break_is_kept(t: Seq<char>)
    ensures
        starts_with_break(normalized(t)) <==> starts_with_break(t),
{
    lemma_normalized_head(t);
    if t.len() > 0 && t[0] == '\\' {
        let t1 = t.skip(1);
        lemma_normalized_head(t1);
        if t1.len() > 0 && t1[0] == '\\' {
            lemma_normalized_head(t1.skip(1));
        }
    }
}

/// The normalized text holds a site exactly if two sites of the text overlap:
/// the newline that ends a rewritten site is then followed by a double
/// backslash and a newline that were not rewritten with it.
pub proof fn lemma_normalized_sites(s: Seq<char>)
    ensures
        site_free(normalized(s)) <==> !has_chained_sites(s),
    decreases s.len(),
{
    let o = normalized(s);
    if s.len() == 0 {
        assert forall|i: int| !chained_at(s, i) by {}
    } else if escape_site(s, 0) {
        let t = s.skip(4);
        let rest = normalized(t);
        lemma_normalized_sites(t);
        lemma_break_is_kept(t);
        assert(escape_site(o, 5) == starts_with_break(rest));
        assert forall|j: int| 0 <= j implies escape_site(o, j + 6) == escape_site(rest, j) by {}
        assert forall|j: int| 0 <= j implies chained_at(s, j + 4) == chained_at(t, j) by {}
        if has_chained_sites(s) {
            // Either the site at 0 is chained to one at 3, or the chain lies further on.
            let i = choose|i: int| chained_at(s, i);
            if i >= 4 {
                assert(chained_at(t, i - 4));
            }
            if !escape_site(s, 3) {
                let j = choose|j: int| escape_site(rest, j);
                assert(escape_site(o, j + 6));
            }
        } else {
            assert(!chained_at(s, 0));
            assert forall|j: int| !chained_at(t, j) by {}
            assert forall|i: int| !escape_site(o, i) by {
                if i >= 6 {
                    assert(escape_site(o, (i - 6) + 6) == escape_site(rest, i - 6));
                }
            }
        }
    } else {
        let t = s.skip(1);
        let rest = normalized(t);
        lemma_normalized_sites(t);
        lemma_break_is_kept(t);
        assert forall|j: int| 0 <= j implies escape_site(o, j + 1) == escape_site(rest, j) by {}
        assert forall|j: int| 0 <= j implies chained_at(s, j + 1) == chained_at(t, j) by {}
        if has_chained_sites(s) {
            let i = choose|i: int| chained_at(s, i);
            assert(chained_at(t, i - 1));
            let j = choose|j: int| escape_site(rest, j);
            assert(escape_site(o, j + 1));
        } else {
            assert forall|j: int| !chained_at(t, j) by {}
            assert forall|i: int| !escape_site(o, i) by {
                if i >= 1 {
                    assert(escape_site(o, (i - 1) + 1) == escape_site(rest, i - 1));
                }
            }
        }
    }
}

/// Normalizing a second time changes nothing, except where two sites of the
/// text overlap: there the second pass rewrites the site that the first pass
/// had to leave.
pub proof fn lemma_normalize_twice(s: Seq<char>)
    ensures
        normalized(normalized(s)) == normalized(s) <==> !has_chained_sites(s),
{
    lemma_normalized_sites(s);
    lemma_fixed_points(normalized(s));
}

} // verus!
