//! Character classes and the scanning primitives that the grammar is built from.
use vstd::prelude::*;

verus! {

/// Separates the tokens of a line: space, tab or newline.
pub open spec fn is_token_separator(c: char) -> bool {
    c == ' ' || c == '\t' || c == '\n'
}

/// The whitespace skipped between the words of a rule: space, tab, carriage return, newline.
pub open spec fn is_blank(c: char) -> bool {
    c == ' ' || c == '\t' || c == '\r' || c == '\n'
}

/// Unicode `White_Space`: what trimming removes from both ends of a line.
pub open spec fn is_unicode_space(c: char) -> bool {
    let u = c as u32;
    (0x9 <= u <= 0xd) || u == 0x20 || u == 0x85 || u == 0xa0 || u == 0x1680 || (0x2000 <= u
        <= 0x200a) || u == 0x2028 || u == 0x2029 || u == 0x202f || u == 0x205f || u == 0x3000
}

/// First position at or after `i` that holds no blank (or the end).
pub open spec fn skip_blanks(s: Seq<char>, i: int) -> int
    decreases s.len() - i,
{
    if 0 <= i < s.len() && is_blank(s[i]) {
        skip_blanks(s, i + 1)
    } else {
        i
    }
}

/// First position at or after `i` that holds a token separator (or the end).
pub open spec fn token_end(s: Seq<char>, i: int) -> int
    decreases s.len() - i,
{
    if 0 <= i < s.len() && !is_token_separator(s[i]) {
        token_end(s, i + 1)
    } else {
        i
    }
}

/// First position at or after `i` that holds `c`; `s.len()` where none does.
pub open spec fn find_char(s: Seq<char>, i: int, c: char) -> int
    decreases s.len() - i,
{
    if 0 <= i < s.len() {
        if s[i] == c {
            i
        } else {
            find_char(s, i + 1, c)
        }
    } else {
        s.len() as int
    }
}

/// First position at or after `i` that holds no Unicode whitespace (or the end).
pub open spec fn trim_start(s: Seq<char>, i: int) -> int
    decreases s.len() - i,
{
    if 0 <= i < s.len() && is_unicode_space(s[i]) {
        trim_start(s, i + 1)
    } else {
        i
    }
}

/// End of what is left of `s.take(j)` once trailing Unicode whitespace is gone.
pub open spec fn trim_end(s: Seq<char>, j: int) -> int
    decreases j,
{
    if 0 < j <= s.len() && is_unicode_space(s[j - 1]) {
        trim_end(s, j - 1)
    } else {
        j
    }
}

/// `s` without its leading and trailing Unicode whitespace.
pub open spec fn trimmed(s: Seq<char>) -> Seq<char> {
    let a = trim_start(s, 0);
    if a == s.len() {
        Seq::empty()
    } else {
        s.subrange(a, trim_end(s, s.len() as int))
    }
}

/// `w` stands in `s` at position `i`.
pub open spec fn word_at(s: Seq<char>, i: int, w: Seq<char>) -> bool {
    0 <= i && i + w.len() <= s.len() && s.subrange(i, i + w.len()) == w
}

pub fn is_blank_char(c: char) -> (r: bool)
    ensures
        r == is_blank(c),
{
    c == ' ' || c == '\t' || c == '\r' || c == '\n'
}

pub fn is_unicode_space_char(c: char) -> (r: bool)
    ensures
        r == is_unicode_space(c),
{
    let u = c as u32;
    (0x9 <= u && u <= 0xd) || u == 0x20 || u == 0x85 || u == 0xa0 || u == 0x1680 || (0x2000 <= u
        && u <= 0x200a) || u == 0x2028 || u == 0x2029 || u == 0x202f || u == 0x205f || u == 0x3000
}

/// Position of the first non-blank at or after `i`.
pub fn skip_blanks_from(s: &str, i: usize) -> (r: usize)
    requires
        i <= s@.len(),
    ensures
        r as int == skip_blanks(s@, i as int),
        i <= r <= s@.len(),
{
    let len = s.unicode_len();
    let mut j = i;
    while j < len && is_blank_char(s.get_char(j))
        invariant
            i <= j <= len,
            len == s@.len(),
            skip_blanks(s@, i as int) == skip_blanks(s@, j as int),
        decreases len - j,
    {
        j = j + 1;
    }
    j
}

/// Position of the first token separator at or after `i`, or the length of `s`.
pub fn token_end_from(s: &str, i: usize) -> (r: usize)
    requires
        i <= s@.len(),
    ensures
        r as int == token_end(s@, i as int),
        i <= r <= s@.len(),
{
    let len = s.unicode_len();
    let mut j = i;
    while j < len && !crate::is_whitespace(s.get_char(j))
        invariant
            i <= j <= len,
            len == s@.len(),
            token_end(s@, i as int) == token_end(s@, j as int),
        decreases len - j,
    {
        j = j + 1;
    }
    j
}

/// Position of the first `c` at or after `i`, or the length of `s`.
pub fn find_char_from(s: &str, i: usize, c: char) -> (r: usize)
    requires
        i <= s@.len(),
    ensures
        r as int == find_char(s@, i as int, c),
        i <= r <= s@.len(),
{
    let len = s.unicode_len();
    let mut j = i;
    while j < len && s.get_char(j) != c
        invariant
            i <= j <= len,
            len == s@.len(),
            find_char(s@, i as int, c) == find_char(s@, j as int, c),
        decreases len - j,
    {
        j = j + 1;
    }
    j
}

/// Whether `w` stands in `s` at position `i`.
pub fn has_word_at(s: &str, i: usize, w: &str) -> (r: bool)
    ensures
        r == word_at(s@, i as int, w@),
{
    let len = s.unicode_len();
    let wlen = w.unicode_len();
    if i > len || wlen > len - i {
        return false;
    }
    let mut k: usize = 0;
    while k < wlen
        invariant
            k <= wlen,
            len == s@.len(),
            wlen == w@.len(),
            i + wlen <= len,
            forall|m: int| 0 <= m < k ==> s@[i + m] == w@[m],
        decreases wlen - k,
    {
        if s.get_char(i + k) != w.get_char(k) {
            assert(s@.subrange(i as int, i + wlen)[k as int] != w@[k as int]);
            return false;
        }
        k = k + 1;
    }
    assert(s@.subrange(i as int, i + wlen) =~= w@);
    true
}

/// `s` without its leading and trailing Unicode whitespace.
pub fn trim(s: &str) -> (r: &str)
    ensures
        r@ == trimmed(s@),
{
    let len = s.unicode_len();
    let mut a: usize = 0;
    while a < len && is_unicode_space_char(s.get_char(a))
        invariant
            a <= len,
            len == s@.len(),
            trim_start(s@, 0) == trim_start(s@, a as int),
        decreases len - a,
    {
        a = a + 1;
    }
    let mut b = len;
    while b > a && is_unicode_space_char(s.get_char(b - 1))
        invariant
            a <= b <= len,
            len == s@.len(),
            a < len ==> a < b && !is_unicode_space(s@[a as int]),
            trim_end(s@, len as int) == trim_end(s@, b as int),
        decreases b,
    {
        b = b - 1;
    }
    s.substring_char(a, b)
}

/// Skipping blanks moves forward and stays within `s`.
pub proof fn lemma_skip_blanks_bounds(s: Seq<char>, i: int)
    requires
        0 <= i <= s.len(),
    ensures
        i <= skip_blanks(s, i) <= s.len(),
    decreases s.len() - i,
{
    if i < s.len() && is_blank(s[i]) {
        lemma_skip_blanks_bounds(s, i + 1);
    }
}

/// A token ends at or after its start and within `s`.
pub proof fn lemma_token_end_bounds(s: Seq<char>, i: int)
    requires
        0 <= i <= s.len(),
    ensures
        i <= token_end(s, i) <= s.len(),
    decreases s.len() - i,
{
    if i < s.len() && !is_token_separator(s[i]) {
        lemma_token_end_bounds(s, i + 1);
    }
}

/// Where `s` holds no `c` from position `i` on, there is none to find.
pub proof fn lemma_find_char_absent(s: Seq<char>, i: int, c: char)
    requires
        0 <= i <= s.len(),
        forall|k: int| i <= k < s.len() ==> s[k] != c,
    ensures
        find_char(s, i, c) == s.len(),
    decreases s.len() - i,
{
    if i < s.len() {
        lemma_find_char_absent(s, i + 1, c);
    }
}

/// Blanks are Unicode whitespace.
pub proof fn lemma_blank_is_space(c: char)
    ensures
        is_blank(c) ==> is_unicode_space(c),
{
}

/// Skipping blanks from `i` stops at `j` where `s[i..j]` is all blank and
/// `s[j]` (if any) is not.
pub proof fn lemma_skip_blanks_run(s: Seq<char>, i: int, j: int)
    requires
        0 <= i <= j <= s.len(),
        forall|k: int| i <= k < j ==> is_blank(s[k]),
        j == s.len() || !is_blank(s[j]),
    ensures
        skip_blanks(s, i) == j,
    decreases j - i,
{
    if i < j {
        lemma_skip_blanks_run(s, i + 1, j);
    }
}

/// The first `c` at or after `i` is at `j` where `s[i..j]` holds none and `s[j] == c`.
pub proof fn lemma_find_char_run(s: Seq<char>, i: int, j: int, c: char)
    requires
        0 <= i <= j < s.len(),
        forall|k: int| i <= k < j ==> s[k] != c,
        s[j] == c,
    ensures
        find_char(s, i, c) == j,
    decreases j - i,
{
    if i < j {
        lemma_find_char_run(s, i + 1, j, c);
    }
}

/// Trailing whitespace `s[i..j]` after a non-space `s[i - 1]` is all that
/// trimming the end of `s.take(j)` removes.
pub proof fn lemma_trim_end_run(s: Seq<char>, i: int, j: int)
    requires
        0 < i <= j <= s.len(),
        forall|k: int| i <= k < j ==> is_unicode_space(s[k]),
        !is_unicode_space(s[i - 1]),
    ensures
        trim_end(s, j) == i,
    decreases j - i,
{
    if i < j {
        lemma_trim_end_run(s, i, j - 1);
    }
}

/// Text without whitespace at either end, followed by whitespace, trims to itself.
pub proof fn lemma_trimmed_with_trailing_space(g: Seq<char>, w: Seq<char>)
    requires
        g.len() > 0,
        !is_unicode_space(g[0]),
        !is_unicode_space(g.last()),
        forall|k: int| 0 <= k < w.len() ==> is_unicode_space(w[k]),
    ensures
        trimmed(g + w) == g,
{
    let x = g + w;
    assert(trim_start(x, 0) == 0);
    assert forall|k: int| g.len() <= k < x.len() implies is_unicode_space(x[k]) by {
        assert(x[k] == w[k - g.len()]);
    }
    lemma_trim_end_run(x, g.len() as int, x.len() as int);
    assert(x.subrange(0, g.len() as int) =~= g);
}

} // verus!
