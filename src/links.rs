//! Text helpers on paths and the link-resolution rule.

use vstd::prelude::*;

verus! {

/// Index of the last occurrence of `c` in `s`, or -1 when there is none.
pub open spec fn last_index_of(s: Seq<char>, c: char) -> int
    decreases s.len(),
{
    if s.len() == 0 {
        -1
    } else if s.last() == c {
        s.len() - 1
    } else {
        last_index_of(s.drop_last(), c)
    }
}

/// `p` is a prefix of `s`.
pub open spec fn is_prefix(p: Seq<char>, s: Seq<char>) -> bool {
    p.len() <= s.len() && s.subrange(0, p.len() as int) == p
}

/// The final segment of a slash-separated path: everything after the last `/`.
pub open spec fn file_name(p: Seq<char>) -> Seq<char> {
    p.subrange(last_index_of(p, '/') + 1, p.len() as int)
}

/// The extension of a path: what follows the last `.` of its final segment,
/// provided that this dot does not open the segment (`.profile` has none).
pub open spec fn extension(p: Seq<char>) -> Option<Seq<char>> {
    let name = file_name(p);
    let d = last_index_of(name, '.');
    if d > 0 {
        Some(name.subrange(d + 1, name.len() as int))
    } else {
        None
    }
}

pub open spec fn md_ext() -> Seq<char> {
    seq!['m', 'd']
}

pub open spec fn markdown_ext() -> Seq<char> {
    seq!['m', 'a', 'r', 'k', 'd', 'o', 'w', 'n']
}

/// The path names a Markdown document: its extension is `md` or `markdown`.
pub open spec fn is_markdown_path(p: Seq<char>) -> bool {
    extension(p) == Some(md_ext()) || extension(p) == Some(markdown_ext())
}

pub open spec fn md_route() -> Seq<char> {
    seq!['/', 'm', 'd', '/']
}

pub open spec fn files_route() -> Seq<char> {
    seq!['/', 'f', 'i', 'l', 'e', 's', '/']
}

/// An ASCII letter.
pub open spec fn is_ascii_letter(c: char) -> bool {
    ('a' <= c && c <= 'z') || ('A' <= c && c <= 'Z')
}

/// A character that may follow the first letter of a URI scheme.
pub open spec fn is_scheme_char(c: char) -> bool {
    is_ascii_letter(c) || ('0' <= c && c <= '9') || c == '+' || c == '-' || c == '.'
}

/// The target opens with a URI scheme ending at position `k`: a letter,
/// then letters, digits, `+`, `-` or `.`, then the `:` at `k`.
pub open spec fn scheme_ends_at(t: Seq<char>, k: int) -> bool {
    &&& 0 < k < t.len()
    &&& t[k] == ':'
    &&& is_ascii_letter(t[0])
    &&& forall|j: int| 1 <= j < k ==> is_scheme_char(#[trigger] t[j])
}

/// The target opens with a URI scheme (`http:`, `mailto:`, `ftp:`, ...).
pub open spec fn has_scheme(t: Seq<char>) -> bool {
    exists|k: int| scheme_ends_at(t, k)
}

/// A target that is left as it is: it is scheme-qualified, or it starts
/// with a separator (rooted at the server, or protocol-relative with `//`).
pub open spec fn is_fixed_target(t: Seq<char>) -> bool {
    has_scheme(t) || (t.len() > 0 && t[0] == '/')
}

/// The link-resolution rule: where a link or image target points once
/// rendered. A relative target resolves under the directory of the document
/// that holds it, which keeps its final segment, so its extension alone
/// chooses the route.
pub open spec fn rewrite_target(t: Seq<char>) -> Seq<char> {
    if is_fixed_target(t) {
        t
    } else if is_markdown_path(t) {
        md_route() + t
    } else {
        files_route() + t
    }
}

/// Whether `s` starts with `p`.
pub fn has_prefix(s: &str, p: &str) -> (r: bool)
    ensures
        r == is_prefix(p@, s@),
{
    let n = p.unicode_len();
    let m = s.unicode_len();
    if n > m {
        return false;
    }
    let mut i: usize = 0;
    while i < n
        invariant
            n == p@.len(),
            m == s@.len(),
            n <= m,
            i <= n,
            forall|j: int| 0 <= j < i ==> s@[j] == p@[j],
        decreases n - i,
    {
        if s.get_char(i) != p.get_char(i) {
            assert(s@.subrange(0, n as int)[i as int] != p@[i as int]);
            return false;
        }
        i = i + 1;
    }
    assert(s@.subrange(0, n as int) =~= p@);
    true
}

/// Position of the last `c` in `s`, if any.
pub fn find_last(s: &str, c: char) -> (r: Option<usize>)
    ensures
        match r {
            Some(i) => i as int == last_index_of(s@, c),
            None => last_index_of(s@, c) == -1,
        },
        last_index_of(s@, c) < s@.len(),
{
    let n = s.unicode_len();
    let mut i: usize = n;
    proof {
        assert(s@.subrange(0, n as int) =~= s@);
        lemma_last_index_bound(s@, c);
    }
    while i > 0
        invariant
            n == s@.len(),
            i <= n,
            last_index_of(s@, c) == last_index_of(s@.subrange(0, i as int), c),
            last_index_of(s@.subrange(0, i as int), c) < i,
        decreases i,
    {
        let ghost pre = s@.subrange(0, i as int);
        assert(pre.drop_last() =~= s@.subrange(0, i - 1));
        if s.get_char(i - 1) == c {
            return Some(i - 1);
        }
        i = i - 1;
        proof {
            lemma_last_index_bound(s@.subrange(0, i as int), c);
        }
    }
    None
}

/// The last occurrence of a character lies inside the sequence.
pub proof fn lemma_last_index_bound(s: Seq<char>, c: char)
    ensures
        -1 <= last_index_of(s, c) < s.len(),
        last_index_of(s, c) >= 0 ==> s[last_index_of(s, c)] == c,
    decreases s.len(),
{
    if s.len() > 0 && s.last() != c {
        lemma_last_index_bound(s.drop_last(), c);
    }
}

/// Whether two strings hold the same characters.
pub fn same_text(a: &str, b: &str) -> (r: bool)
    ensures
        r == (a@ == b@),
{
    if a.unicode_len() != b.unicode_len() {
        return false;
    }
    let r = has_prefix(a, b);
    assert(a@.subrange(0, a@.len() as int) =~= a@);
    r
}

/// The extension of a path, as `extension` defines it.
pub fn extension_of(p: &str) -> (r: Option<&str>)
    ensures
        match r {
            Some(e) => extension(p@) == Some(e@),
            None => extension(p@) is None,
        },
{
    let n = p.unicode_len();
    let start: usize = match find_last(p, '/') {
        Some(i) => i + 1,
        None => 0,
    };
    let name = p.substring_char(start, n);
    assert(name@ == file_name(p@));
    let m = name.unicode_len();
    match find_last(name, '.') {
        Some(d) => {
            if d > 0 {
                Some(name.substring_char(d + 1, m))
            } else {
                None
            }
        },
        None => None,
    }
}

/// Whether the path names a Markdown document.
pub fn is_markdown_file(p: &str) -> (r: bool)
    ensures
        r == is_markdown_path(p@),
{
    match extension_of(p) {
        Some(e) => {
            proof {
                reveal_strlit("md");
                reveal_strlit("markdown");
            }
            let a = same_text(e, "md");
            let b = same_text(e, "markdown");
            assert("md"@ =~= md_ext());
            assert("markdown"@ =~= markdown_ext());
            a || b
        },
        None => false,
    }
}

/// Whether `c` is an ASCII letter.
pub fn ascii_letter(c: char) -> (r: bool)
    ensures
        r == is_ascii_letter(c),
{
    ('a' <= c && c <= 'z') || ('A' <= c && c <= 'Z')
}

/// Whether `c` may follow the first letter of a URI scheme.
pub fn scheme_char(c: char) -> (r: bool)
    ensures
        r == is_scheme_char(c),
{
    ascii_letter(c) || ('0' <= c && c <= '9') || c == '+' || c == '-' || c == '.'
}

/// Whether the target opens with a URI scheme.
pub fn starts_with_scheme(t: &str) -> (r: bool)
    ensures
        r == has_scheme(t@),
{
    let n = t.unicode_len();
    if n == 0 || !ascii_letter(t.get_char(0)) {
        return false;
    }
    let mut j: usize = 1;
    while j < n && scheme_char(t.get_char(j))
        invariant
            n == t@.len(),
            1 <= j <= n,
            is_ascii_letter(t@[0]),
            forall|i: int| 1 <= i < j ==> is_scheme_char(#[trigger] t@[i]),
        decreases n - j,
    {
        j = j + 1;
    }
    let r = j < n && t.get_char(j) == ':';
    proof {
        if r {
            assert(scheme_ends_at(t@, j as int));
        } else if has_scheme(t@) {
            let k = choose|k: int| scheme_ends_at(t@, k);
            if k < j {
                assert(is_scheme_char(t@[k]));
            } else if k > j {
                assert(is_scheme_char(t@[j as int]));
            }
        }
    }
    r
}

/// Rewrites a link or image target into a route of the server: Markdown
/// documents go under `/md/`, every other resource under `/files/`.
/// Scheme-qualified targets and targets starting with a separator are kept.
pub fn transform_relative_path(url: &str) -> (r: String)
    ensures
        r@ == rewrite_target(url@),
{
    proof {
        reveal_strlit("/md/");
        reveal_strlit("/files/");
    }
    assert("/md/"@ =~= md_route());
    assert("/files/"@ =~= files_route());
    if starts_with_scheme(url) || (url.unicode_len() > 0 && url.get_char(0) == '/') {
        return String::from_str(url);
    }
    let mut out = if is_markdown_file(url) {
        String::from_str("/md/")
    } else {
        String::from_str("/files/")
    };
    out.append(url);
    out
}

/// A relative target goes to `/md/<target>` when it names a Markdown
/// document and to `/files/<target>` otherwise; scheme-qualified targets and
/// targets starting with a separator are kept; and rewriting a rewritten
/// target changes nothing more.
pub proof fn lemma_link_rule(t: Seq<char>)
    ensures
        !is_fixed_target(t) && is_markdown_path(t) ==> rewrite_target(t) == md_route() + t,
        !is_fixed_target(t) && !is_markdown_path(t) ==> rewrite_target(t) == files_route() + t,
        has_scheme(t) ==> rewrite_target(t) == t,
        t.len() > 0 && t[0] == '/' ==> rewrite_target(t) == t,
        rewrite_target(rewrite_target(t)) == rewrite_target(t),
{
    let r = rewrite_target(t);
    if !is_fixed_target(t) {
        if is_markdown_path(t) {
            assert(r[0] == md_route()[0]);
        } else {
            assert(r[0] == files_route()[0]);
        }
        assert(is_fixed_target(r));
    }
}

} // verus!
