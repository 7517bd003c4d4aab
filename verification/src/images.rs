//! Image embeds: the note syntax `![[name]]`, the site's markdown link that
//! replaces it, and the name of the directory that holds a document's images.

use vstd::prelude::*;
use crate::paths::{final_component, part_after_last};
use crate::text::{chars_of, first_index_of, lemma_first_index_of, lemma_first_index_of_is,
    lemma_first_index_of_skip, push_all, string_of, string_of_range};

verus! {

/// The characters with the Unicode property `White_Space`.
pub open spec fn white_space(c: char) -> bool {
    ||| '\u{9}' <= c <= '\u{D}'
    ||| c == ' '
    ||| c == '\u{85}'
    ||| c == '\u{A0}'
    ||| c == '\u{1680}'
    ||| '\u{2000}' <= c <= '\u{200A}'
    ||| c == '\u{2028}'
    ||| c == '\u{2029}'
    ||| c == '\u{202F}'
    ||| c == '\u{205F}'
    ||| c == '\u{3000}'
}

/// The least index at or after `from` whose character is white space
/// (`space` true) or is not (`space` false); the length of `s` if there is
/// none.
pub open spec fn first_where_space(s: Seq<char>, from: int, space: bool) -> int
    decreases s.len() - from,
{
    if from < 0 || from >= s.len() {
        s.len() as int
    } else if white_space(s[from]) == space {
        from
    } else {
        first_where_space(s, from + 1, space)
    }
}

/// The first word of `s`: its first maximal run of characters that are not
/// white space. A text of white space alone has none.
pub open spec fn first_word(s: Seq<char>) -> Option<Seq<char>> {
    let start = first_where_space(s, 0, false);
    if start >= s.len() {
        None
    } else {
        Some(s.subrange(start, first_where_space(s, start, true)))
    }
}

/// The name of the directory that holds the images of the document published
/// at `target`: the date, a hyphen, and the slug, which is what follows the
/// last hyphen in the first word of the target's file name.
///
/// There is none where the target has no file name, a file name of white
/// space alone, or a first word without a hyphen: such a file name is not of
/// the form `{date}-{slug}`. A first word that ends with a hyphen has the
/// empty slug, and the name is then the date and a hyphen.
pub open spec fn image_dir_name(target: Seq<char>, date: Seq<char>) -> Option<Seq<char>> {
    match final_component(target) {
        Some(name) => match first_word(name) {
            Some(word) => match part_after_last(word, '-') {
                Some(slug) => Some(date + seq!['-'] + slug),
                None => None,
            },
            None => None,
        },
        None => None,
    }
}

/// Where `first_where_space` finds: at or after `from`, and within `s`.
proof fn lemma_first_where_space_bounds(s: Seq<char>, from: int, space: bool)
    requires
        0 <= from <= s.len(),
    ensures
        from <= first_where_space(s, from, space) <= s.len(),
    decreases s.len() - from,
{
    if from < s.len() && white_space(s[from]) != space {
        lemma_first_where_space_bounds(s, from + 1, space);
    }
}

/// A target whose file name holds no hyphen has no image directory: the
/// first word of such a name has no slug.
pub proof fn lemma_file_name_without_hyphen(target: Seq<char>, date: Seq<char>)
    requires
        final_component(target) matches Some(name) && !name.contains('-'),
    ensures
        image_dir_name(target, date) is None,
{
    let name = final_component(target)->Some_0;
    if first_word(name) is Some {
        let start = first_where_space(name, 0, false);
        lemma_first_where_space_bounds(name, 0, false);
        lemma_first_where_space_bounds(name, start, true);
        let word = first_word(name)->Some_0;
        if word.contains('-') {
            let i = choose|i: int| 0 <= i < word.len() && word[i] == '-';
            assert(name[start + i] == '-');
        }
    }
}

/// Where the name of an embed that opens at `i` ends: the first `]` behind
/// the opening `![[`.
pub open spec fn embed_close(s: Seq<char>, i: int) -> int {
    first_index_of(s, ']', i + 3)
}

/// An embed stands at `i`: `![[`, a name of one or more characters other
/// than `]`, and `]]`. The name may hold any other character, a newline too.
pub open spec fn embed_at(s: Seq<char>, i: int) -> bool {
    &&& 0 <= i
    &&& i + 2 < s.len()
    &&& s[i] == '!'
    &&& s[i + 1] == '['
    &&& s[i + 2] == '['
    &&& i + 3 < embed_close(s, i)
    &&& embed_close(s, i) + 1 < s.len()
    &&& s[embed_close(s, i) + 1] == ']'
}

/// The name inside the embed at `i`.
pub open spec fn embed_name(s: Seq<char>, i: int) -> Seq<char> {
    s.subrange(i + 3, embed_close(s, i))
}

/// The index just behind the embed at `i`.
pub open spec fn embed_end(s: Seq<char>, i: int) -> int {
    embed_close(s, i) + 2
}

/// What every image link begins with: `![](/photos/`.
pub open spec fn link_opening() -> Seq<char> {
    seq!['!', '[', ']', '(', '/', 'p', 'h', 'o', 't', 'o', 's', '/']
}

/// The link to image `name` in directory `dir`: `![](/photos/{dir}/{name})`.
pub open spec fn image_link(dir: Seq<char>, name: Seq<char>) -> Seq<char> {
    link_opening() + dir + seq!['/'] + name + seq![')']
}

/// The text with every embed replaced by its link into `dir`.
///
/// Embeds are taken from left to right, and the search goes on behind each
/// one, so what stands inside a name is never read as an embed of its own.
pub open spec fn with_image_links(s: Seq<char>, dir: Seq<char>) -> Seq<char>
    decreases s.len(),
{
    if s.len() == 0 {
        s
    } else if embed_at(s, 0) {
        image_link(dir, embed_name(s, 0)) + with_image_links(s.skip(embed_end(s, 0)), dir)
    } else {
        seq![s[0]] + with_image_links(s.skip(1), dir)
    }
}

/// The names of the embeds of `s`, one for each embed, in the order in which
/// they stand in the text. A name that is embedded twice is listed twice.
pub open spec fn embedded_names(s: Seq<char>) -> Seq<Seq<char>>
    decreases s.len(),
{
    if s.len() == 0 {
        seq![]
    } else if embed_at(s, 0) {
        seq![embed_name(s, 0)] + embedded_names(s.skip(embed_end(s, 0)))
    } else {
        embedded_names(s.skip(1))
    }
}

/// No embed anywhere in `s`.
pub open spec fn embed_free(s: Seq<char>) -> bool {
    forall|i: int| !embed_at(s, i)
}

/// An embed of what is left after the first `k` characters is an embed of
/// the text, `k` places further on.
proof fn lemma_embed_at_skip(s: Seq<char>, k: int, i: int)
    requires
        0 <= k <= s.len(),
        0 <= i,
    ensures
        embed_at(s.skip(k), i) == embed_at(s, i + k),
        i + 3 <= s.len() - k ==> embed_close(s.skip(k), i) == embed_close(s, i + k) - k,
{
    if i + 3 <= s.len() - k {
        lemma_first_index_of_skip(s, ']', k, i + 3);
    }
}

/// A text without embeds is left as it is, and lists no name.
pub proof fn lemma_without_embeds(s: Seq<char>, dir: Seq<char>)
    requires
        embed_free(s),
    ensures
        with_image_links(s, dir) == s,
        embedded_names(s) == Seq::<Seq<char>>::empty(),
    decreases s.len(),
{
    if s.len() > 0 {
        let t = s.skip(1);
        assert forall|i: int| !embed_at(t, i) by {
            if i >= 0 {
                lemma_embed_at_skip(s, 1, i);
            }
        }
        lemma_without_embeds(t, dir);
    }
}

/// What the name of an embed is like: not empty, and without a `]`.
pub open spec fn is_embed_name(name: Seq<char>) -> bool {
    name.len() > 0 && forall|j: int| 0 <= j < name.len() ==> name[j] != ']'
}

/// Every listed name is the name of an embed.
pub proof fn lemma_embedded_names_are_names(s: Seq<char>)
    ensures
        forall|k: int|
            0 <= k < embedded_names(s).len() ==> is_embed_name(#[trigger] embedded_names(s)[k]),
    decreases s.len(),
{
    if s.len() == 0 {
    } else if embed_at(s, 0) {
        // The first name is the name of the embed at 0; the others are
        // listed for what follows that embed.
        let rest = embedded_names(s.skip(embed_end(s, 0)));
        lemma_first_index_of(s, ']', 3);
        lemma_embedded_names_are_names(s.skip(embed_end(s, 0)));
        assert forall|k: int| 0 <= k < embedded_names(s).len() implies is_embed_name(
            #[trigger] embedded_names(s)[k],
        ) by {
            if k > 0 {
                assert(embedded_names(s)[k] == rest[k - 1]);
            }
        }
    } else {
        lemma_embedded_names_are_names(s.skip(1));
        assert(embedded_names(s) == embedded_names(s.skip(1)));
    }
}

/// Whether `c` has the Unicode property `White_Space`.
pub fn is_whitespace(c: char) -> (b: bool)
    ensures
        b == white_space(c),
{
    ('\u{9}' <= c && c <= '\u{D}') || c == ' ' || c == '\u{85}' || c == '\u{A0}' || c
        == '\u{1680}' || ('\u{2000}' <= c && c <= '\u{200A}') || c == '\u{2028}' || c
        == '\u{2029}' || c == '\u{202F}' || c == '\u{205F}' || c == '\u{3000}'
}

/// An index reached over characters of the other kind only, and whose own
/// character is of the kind sought unless it is the length, is what
/// `first_where_space` finds.
proof fn lemma_first_where_space_is(s: Seq<char>, from: int, space: bool, k: int)
    requires
        0 <= from <= k <= s.len(),
        forall|j: int| from <= j < k ==> white_space(s[j]) != space,
        k < s.len() ==> white_space(s[k]) == space,
    ensures
        first_where_space(s, from, space) == k,
    decreases k - from,
{
    if from < k {
        lemma_first_where_space_is(s, from + 1, space, k);
    }
}

/// Walks from `from` to the first character that is white space, or that is
/// not.
fn find_where_space(v: &Vec<char>, from: usize, space: bool) -> (k: usize)
    requires
        from <= v.len(),
    ensures
        k == first_where_space(v@, from as int, space),
        from <= k <= v.len(),
{
    let mut k: usize = from;
    while k < v.len() && is_whitespace(v[k]) != space
        invariant
            from <= k <= v.len(),
            forall|j: int| from <= j < k ==> white_space(v@[j]) != space,
        decreases v.len() - k,
    {
        k += 1;
    }
    proof {
        lemma_first_where_space_is(v@, from as int, space, k as int);
    }
    k
}

/// The name of the image directory for the document published at `target`
/// with date `date`, or `None` where the target's file name yields no slug:
/// it is missing, is white space alone, or has no hyphen in its first word.
pub fn target_image_dir_name(target: &str, date: &str) -> (dir: Option<String>)
    ensures
        match dir {
            Some(d) => image_dir_name(target@, date@) == Some(d@),
            None => image_dir_name(target@, date@) is None,
        },
        final_component(target@) matches Some(name) && !name.contains('-') ==> dir is None,
{
    proof {
        if final_component(target@) matches Some(name) && !name.contains('-') {
            lemma_file_name_without_hyphen(target@, date@);
        }
    }
    let name = match crate::paths::file_name(target) {
        Some(name) => name,
        None => {
            return None;
        },
    };
    let chars = chars_of(name.as_str());
    let start = find_where_space(&chars, 0, false);
    if start >= chars.len() {
        return None;
    }
    let end = find_where_space(&chars, start, true);
    let word = string_of_range(&chars, start, end);
    let slug = match crate::paths::split_after_last(word.as_str(), '-') {
        Some(slug) => slug,
        None => {
            return None;
        },
    };
    let mut out = chars_of(date);
    out.push('-');
    let slug_chars = chars_of(slug.as_str());
    push_all(&mut out, &slug_chars);
    Some(string_of(&out))
}

/// Appends the link to image `name` in directory `dir`.
fn push_image_link(out: &mut Vec<char>, dir: &Vec<char>, name: &Vec<char>, from: usize, to: usize)
    requires
        from <= to <= name.len(),
    ensures
        final(out)@ == old(out)@ + image_link(dir@, name@.subrange(from as int, to as int)),
{
    let opening: Vec<char> = vec!['!', '[', ']', '(', '/', 'p', 'h', 'o', 't', 'o', 's', '/'];
    push_all(out, &opening);
    push_all(out, dir);
    out.push('/');
    let ghost before = out@;
    let mut k: usize = from;
    while k < to
        invariant
            from <= k <= to <= name.len(),
            out@ == before + name@.subrange(from as int, k as int),
        decreases to - k,
    {
        out.push(name[k]);
        k += 1;
    }
    out.push(')');
}

/// Replaces every embed of `content` by its link into `dir_name`, and lists
/// the embedded names in the order of the text.
pub fn rewrite_image_links(content: &str, dir_name: &str) -> (out: (String, Vec<String>))
    ensures
        out.0@ == with_image_links(content@, dir_name@),
        out.1.deep_view() == embedded_names(content@),
        embed_free(content@) ==> out.0@ == content@ && out.1@.len() == 0,
        forall|k: int| 0 <= k < out.1@.len() ==> is_embed_name(#[trigger] out.1@[k]@),
{
    let chars = chars_of(content);
    let dir = chars_of(dir_name);
    let n = chars.len();
    let mut text: Vec<char> = Vec::new();
    let mut names: Vec<String> = Vec::new();
    let mut i: usize = 0;
    // The first `]` at or behind `searched_from` stands at `close`. It is
    // looked for once and serves every opening up to it.
    let mut searched_from: usize = n;
    let mut close: usize = n;
    proof {
        assert(chars@.skip(0) == chars@);
    }
    while i < n
        invariant
            n == chars.len(),
            i <= n,
            close <= n,
            forall|j: int| searched_from <= j < close ==> chars@[j] != ']',
            close < n ==> chars@[close as int] == ']',
            with_image_links(chars@, dir@) == text@ + with_image_links(
                chars@.skip(i as int),
                dir@,
            ),
            embedded_names(chars@) == names.deep_view() + embedded_names(chars@.skip(i as int)),
        decreases n - i,
    {
        let ghost rest = chars@.skip(i as int);
        let ghost text_before = text@;
        let ghost names_before = names.deep_view();
        let mut found = false;
        if n - i > 2 && chars[i] == '!' && chars[i + 1] == '[' && chars[i + 2] == '[' {
            let start = i + 3;
            if !(searched_from <= start && start <= close) {
                close = start;
                while close < n && chars[close] != ']'
                    invariant
                        start <= close <= n,
                        n == chars.len(),
                        forall|j: int| start <= j < close ==> chars@[j] != ']',
                    decreases n - close,
                {
                    close += 1;
                }
                searched_from = start;
            }
            proof {
                lemma_first_index_of_is(rest, ']', 3, close - i);
            }
            found = close > start && n - close > 1 && chars[close + 1] == ']';
        }
        if found {
            proof {
                assert(embed_name(rest, 0) == chars@.subrange(i + 3, close as int));
                assert(rest.skip(embed_end(rest, 0)) == chars@.skip(close + 2));
            }
            push_image_link(&mut text, &dir, &chars, i + 3, close);
            let name = string_of_range(&chars, i + 3, close);
            names.push(name);
            proof {
                let more = embedded_names(rest.skip(embed_end(rest, 0)));
                assert(names_before + (seq![embed_name(rest, 0)] + more) == (names_before
                    + seq![embed_name(rest, 0)]) + more);
            }
            i = close + 2;
        } else {
            proof {
                assert(rest.skip(1) == chars@.skip(i + 1));
                let tail = with_image_links(rest.skip(1), dir@);
                assert(text_before + (seq![rest[0]] + tail) == (text_before + seq![rest[0]])
                    + tail);
            }
            text.push(chars[i]);
            i += 1;
        }
    }
    proof {
        if embed_free(content@) {
            lemma_without_embeds(content@, dir_name@);
        }
        lemma_embedded_names_are_names(content@);
        assert forall|k: int| 0 <= k < names@.len() implies is_embed_name(
            #[trigger] names@[k]@,
        ) by {
            assert(names.deep_view()[k] == names@[k]@);
        }
    }
    (string_of(&text), names)
}

} // verus!
