//! Character-level helpers on source text: trimming, first lines, comment openers.
use vstd::prelude::*;

verus! {

/// The characters of Unicode's `White_Space` property.
pub open spec fn white_space(c: char) -> bool {
    let u = c as u32;
    ||| 9 <= u && u <= 13
    ||| u == 32
    ||| u == 0x85
    ||| u == 0xa0
    ||| u == 0x1680
    ||| 0x2000 <= u && u <= 0x200a
    ||| u == 0x2028
    ||| u == 0x2029
    ||| u == 0x202f
    ||| u == 0x205f
    ||| u == 0x3000
}

/// Whether `c` is white space, by the code points of Unicode's `White_Space` property.
fn is_space(c: char) -> (r: bool)
    ensures
        r == white_space(c),
{
    let u = c as u32;
    (9 <= u && u <= 13) || u == 32 || u == 0x85 || u == 0xa0 || u == 0x1680 || (0x2000 <= u && u
        <= 0x200a) || u == 0x2028 || u == 0x2029 || u == 0x202f || u == 0x205f || u == 0x3000
}

/// Index of the first character at or after `i` that is not white space.
pub open spec fn skip_space(s: Seq<char>, i: int) -> int
    decreases s.len() - i,
{
    if 0 <= i < s.len() && white_space(s[i]) {
        skip_space(s, i + 1)
    } else {
        i
    }
}

/// End of `s[lo..j]` once the white space at its end is dropped.
pub open spec fn drop_trailing_space(s: Seq<char>, lo: int, j: int) -> int
    decreases j - lo,
{
    if lo < j && j <= s.len() && white_space(s[j - 1]) {
        drop_trailing_space(s, lo, j - 1)
    } else {
        j
    }
}

/// `s` without white space at either end.
pub open spec fn trim_of(s: Seq<char>) -> Seq<char> {
    let a = skip_space(s, 0);
    s.subrange(a, drop_trailing_space(s, a, s.len() as int))
}

/// Index of the first line feed at or after `i`, or the length of `s`.
pub open spec fn newline_from(s: Seq<char>, i: int) -> int
    decreases s.len() - i,
{
    if 0 <= i < s.len() && s[i] != '\n' {
        newline_from(s, i + 1)
    } else {
        i
    }
}

/// The text before the first line ending (a line feed, or a carriage return and a line feed).
pub open spec fn first_line_of(s: Seq<char>) -> Seq<char> {
    let e = newline_from(s, 0);
    if 0 < e < s.len() && s[e - 1] == '\r' {
        s.subrange(0, e - 1)
    } else {
        s.subrange(0, e)
    }
}

/// The word `comment` starts at index `i` of `k`.
pub open spec fn comment_word_at(k: Seq<char>, i: int) -> bool {
    &&& 0 <= i && i + 7 <= k.len()
    &&& k[i] == 'c' && k[i + 1] == 'o' && k[i + 2] == 'm' && k[i + 3] == 'm'
    &&& k[i + 4] == 'e' && k[i + 5] == 'n' && k[i + 6] == 't'
}

/// A node kind names a comment when it contains the word `comment`.
pub open spec fn names_comment(k: Seq<char>) -> bool {
    exists|i: int| comment_word_at(k, i)
}

/// Trimmed text that opens a comment: `//`, `#`, `/*`, `*`, or a docstring's `'''` or `"""`.
pub open spec fn opens_comment(t: Seq<char>) -> bool {
    ||| t.len() >= 2 && t[0] == '/' && t[1] == '/'
    ||| t.len() >= 1 && t[0] == '#'
    ||| t.len() >= 2 && t[0] == '/' && t[1] == '*'
    ||| t.len() >= 1 && t[0] == '*'
    ||| t.len() >= 3 && t[0] == '\'' && t[1] == '\'' && t[2] == '\''
    ||| t.len() >= 3 && t[0] == '"' && t[1] == '"' && t[2] == '"'
}

/// Trimmed text that holds code: it is neither empty nor the start of a comment.
pub open spec fn holds_code(t: Seq<char>) -> bool {
    t.len() > 0 && !opens_comment(t)
}

/// Whether two strings hold the same characters.
pub fn same_text(a: &str, b: &str) -> (r: bool)
    ensures
        r == (a@ == b@),
{
    let n = a.unicode_len();
    if n != b.unicode_len() {
        return false;
    }
    let mut i: usize = 0;
    while i < n
        invariant
            n == a@.len(),
            n == b@.len(),
            i <= n,
            forall|j: int| 0 <= j < i ==> a@[j] == b@[j],
        decreases n - i,
    {
        if a.get_char(i) != b.get_char(i) {
            return false;
        }
        i += 1;
    }
    assert(a@ =~= b@);
    true
}

/// `s` without leading and trailing white space.
pub fn trim_text(s: &str) -> (r: &str)
    ensures
        r@ == trim_of(s@),
{
    let n = s.unicode_len();
    let mut a: usize = 0;
    while a < n && is_space(s.get_char(a))
        invariant
            n == s@.len(),
            a <= n,
            skip_space(s@, 0) == skip_space(s@, a as int),
        decreases n - a,
    {
        a += 1;
    }
    let mut b: usize = n;
    while a < b && is_space(s.get_char(b - 1))
        invariant
            n == s@.len(),
            a <= b <= n,
            skip_space(s@, 0) == a,
            drop_trailing_space(s@, a as int, n as int) == drop_trailing_space(
                s@,
                a as int,
                b as int,
            ),
        decreases b,
    {
        b -= 1;
    }
    s.substring_char(a, b)
}

/// The text before the first line ending of `s`; all of `s` where it has none.
pub fn first_line(s: &str) -> (r: String)
    ensures
        r@ == first_line_of(s@),
{
    let n = s.unicode_len();
    let mut e: usize = 0;
    while e < n && s.get_char(e) != '\n'
        invariant
            n == s@.len(),
            e <= n,
            newline_from(s@, 0) == newline_from(s@, e as int),
        decreases n - e,
    {
        e += 1;
    }
    if 0 < e && e < n && s.get_char(e - 1) == '\r' {
        s.substring_char(0, e - 1).to_string()
    } else {
        s.substring_char(0, e).to_string()
    }
}

/// Whether a node kind names a comment, that is, contains the word `comment`.
pub fn is_comment_kind(kind: &str) -> (r: bool)
    ensures
        r == names_comment(kind@),
{
    let n = kind.unicode_len();
    if n < 7 {
        assert(forall|i: int| !comment_word_at(kind@, i));
        return false;
    }
    let mut i: usize = 0;
    while i <= n - 7
        invariant
            n == kind@.len(),
            7 <= n,
            i <= n - 6,
            forall|j: int| 0 <= j < i ==> !comment_word_at(kind@, j),
        decreases n - i,
    {
        if kind.get_char(i) == 'c' && kind.get_char(i + 1) == 'o' && kind.get_char(i + 2) == 'm'
            && kind.get_char(i + 3) == 'm' && kind.get_char(i + 4) == 'e' && kind.get_char(i + 5)
            == 'n' && kind.get_char(i + 6) == 't' {
            assert(comment_word_at(kind@, i as int));
            return true;
        }
        i += 1;
    }
    assert(forall|j: int| !comment_word_at(kind@, j));
    false
}

/// Whether trimmed text opens a comment.
pub fn opens_comment_text(t: &str) -> (r: bool)
    ensures
        r == opens_comment(t@),
{
    let n = t.unicode_len();
    if n == 0 {
        return false;
    }
    let c0 = t.get_char(0);
    if c0 == '#' || c0 == '*' {
        return true;
    }
    if n < 2 {
        return false;
    }
    let c1 = t.get_char(1);
    if c0 == '/' && (c1 == '/' || c1 == '*') {
        return true;
    }
    if n < 3 {
        return false;
    }
    let c2 = t.get_char(2);
    (c0 == '\'' && c1 == '\'' && c2 == '\'') || (c0 == '"' && c1 == '"' && c2 == '"')
}

} // verus!
