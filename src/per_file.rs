//! Per-file rules: a directive that applies only to the files a glob matches.
use crate::directive::{
    directive, directive_prefix, lemma_directive_prefix_len, Directive, DirectiveView,
};
use crate::error::GrammarError;
use crate::text::{
    find_char, find_char_from, has_word_at, is_blank, is_blank_char, is_unicode_space,
    lemma_blank_is_space, lemma_find_char_run, lemma_skip_blanks_run,
    lemma_trimmed_with_trailing_space, skip_blanks, skip_blanks_from, trim, trimmed, word_at,
};
use globset::Glob;
use vstd::prelude::*;

verus! {

/// A glob compiled by `globset`, carried as it is.
#[verifier::external_type_specification]
#[verifier::external_body]
pub struct ExGlob(globset::Glob);

/// Why `globset` refused a glob, carried as it is.
#[verifier::external_type_specification]
#[verifier::external_body]
pub struct ExGlobError(globset::Error);

/// Whether `globset` accepts `pattern` as a glob.
pub uninterp spec fn glob_compiles(pattern: Seq<char>) -> bool;

/// The pattern text that a compiled glob was built from.
pub uninterp spec fn glob_text(g: Glob) -> Seq<char>;

/// Relies on `globset::Glob::new`: it compiles `pattern` with default options,
/// fails exactly on patterns that are not valid globs, and keeps the text of
/// the pattern in the glob it returns.
#[verifier::external_body]
fn new_glob(pattern: &str) -> (r: Result<Glob, globset::Error>)
    ensures
        r is Ok <==> glob_compiles(pattern@),
        r matches Ok(g) ==> glob_text(g) == pattern@,
{
    Glob::new(pattern)
}

/// A directive that applies to the files matching `glob`.
#[derive(Debug, PartialEq)]
pub struct PerFile {
    pub glob: Glob,
    pub directive: Directive,
}

/// What a [`PerFile`] holds: the text of its glob and its directive.
pub struct PerFileView {
    pub pattern: Seq<char>,
    pub directive: DirectiveView,
}

impl View for PerFile {
    type V = PerFileView;

    open spec fn view(&self) -> PerFileView {
        PerFileView { pattern: glob_text(self.glob), directive: self.directive@ }
    }
}

/// The glob that the text of a per-file rule stands for: the text trimmed,
/// with a `*` put in front unless it already starts with one, so that a bare
/// name such as `Cargo.toml` matches at any depth.
pub open spec fn normalized_glob(text: Seq<char>) -> Seq<char> {
    let t = trimmed(text);
    if t.len() > 0 && t[0] == '*' {
        t
    } else {
        seq!['*'] + t
    }
}

/// The pattern of a per-file glob (what [`str_to_glob`] compiles) is its
/// trimmed text with `*` put in front where that text does not start with
/// `*`, and the trimmed text unchanged where it does.
pub proof fn lemma_glob_star_prefix(text: Seq<char>)
    ensures
        trimmed(text).len() > 0 && trimmed(text)[0] == '*' ==> normalized_glob(text) == trimmed(
            text,
        ),
        !(trimmed(text).len() > 0 && trimmed(text)[0] == '*') ==> normalized_glob(text) == seq![
            '*',
        ] + trimmed(text),
        normalized_glob(text).len() > 0 && normalized_glob(text)[0] == '*',
{
}

/// `s` opens with `per-file` and whitespace.
pub open spec fn opens_per_file(s: Seq<char>) -> bool {
    word_at(s, 0, "per-file"@) && 8 < s.len() && is_blank(s[8])
}

/// Where the glob text of a per-file rule starts.
pub open spec fn glob_start(s: Seq<char>) -> int {
    skip_blanks(s, 8)
}

/// Where the `=` after the glob text stands; the length of `s` where there is none.
pub open spec fn equals_at(s: Seq<char>) -> int {
    find_char(s, glob_start(s), '=')
}

/// The glob text of a per-file rule: all up to the first `=`.
pub open spec fn glob_source(s: Seq<char>) -> Seq<char> {
    s.subrange(glob_start(s), equals_at(s))
}

/// Where the directive of a per-file rule starts.
pub open spec fn rule_directive_start(s: Seq<char>) -> int {
    skip_blanks(s, equals_at(s) + 1)
}

/// The glob text and the directive text of the per-file rule that `s`
/// holds, or why it holds none.
pub open spec fn rule_split(s: Seq<char>) -> Result<(Seq<char>, Seq<char>), GrammarError> {
    if !opens_per_file(s) {
        Err(GrammarError::NotPerFile)
    } else if equals_at(s) >= s.len() {
        Err(GrammarError::MissingEquals)
    } else {
        Ok((glob_source(s), s.skip(rule_directive_start(s))))
    }
}

/// The directive that the directive text `d` of a per-file rule holds: one
/// directive, taking all of `d`.
pub open spec fn rule_directive(d: Seq<char>) -> Result<DirectiveView, GrammarError> {
    match directive_prefix(d) {
        Some((v, n)) => if n == d.len() {
            Ok(v)
        } else {
            Err(GrammarError::TrailingText)
        },
        None => Err(GrammarError::NoDirective),
    }
}

/// The per-file rule that the whole of `s` holds, or why it holds none.
/// Once `per-file` and whitespace have matched, every later failure is
/// final: a missing `=`, a glob that does not compile, then a directive
/// text that is not exactly one directive.
pub open spec fn per_file_rule(s: Seq<char>) -> Result<PerFileView, GrammarError> {
    match rule_split(s) {
        Err(e) => Err(e),
        Ok((text, d)) => if !glob_compiles(normalized_glob(text)) {
            Err(GrammarError::InvalidGlob)
        } else {
            match rule_directive(d) {
                Ok(v) => Ok(PerFileView { pattern: normalized_glob(text), directive: v }),
                Err(e) => Err(e),
            }
        },
    }
}

/// Every character of `w` is a blank.
pub open spec fn all_blank(w: Seq<char>) -> bool {
    forall|k: int| 0 <= k < w.len() ==> is_blank(w[k])
}

/// Glob text with no whitespace at either end and no `=`.
pub open spec fn bare_glob(g: Seq<char>) -> bool {
    g.len() > 0 && !is_unicode_space(g[0]) && !is_unicode_space(g.last()) && !g.contains('=')
}

/// A per-file rule laid out with the blanks `w1` after `per-file`, `w2`
/// before `=` and `w3` after it splits into its glob text, up to the
/// blanks, and its directive text.
proof fn lemma_per_file_parts(
    w1: Seq<char>,
    g: Seq<char>,
    w2: Seq<char>,
    w3: Seq<char>,
    d: Seq<char>,
)
    requires
        w1.len() > 0,
        all_blank(w1),
        all_blank(w2),
        all_blank(w3),
        bare_glob(g),
        d.len() == 0 || !is_blank(d[0]),
    ensures
        rule_split("per-file"@ + w1 + g + w2 + seq!['='] + w3 + d) matches Ok((t, r))
            && normalized_glob(t) == normalized_glob(g) && r == d,
{
    reveal_strlit("per-file");
    let kw = "per-file"@;
    let s = kw + w1 + g + w2 + seq!['='] + w3 + d;
    let gs: int = 8 + w1.len() as int;
    let ge: int = gs + g.len();
    let e: int = ge + w2.len();
    let ds: int = e + 1 + w3.len();
    assert(s.len() == ds + d.len());
    assert(s.subrange(0, 8) =~= kw);
    assert(s[8] == w1[0]);
    assert forall|k: int| 8 <= k < gs implies is_blank(s[k]) by {
        assert(s[k] == w1[k - 8]);
    }
    assert(s[gs] == g[0]);
    lemma_blank_is_space(g[0]);
    lemma_skip_blanks_run(s, 8, gs);
    assert forall|k: int| gs <= k < e implies s[k] != '=' by {
        if k < ge {
            assert(s[k] == g[k - gs]);
            if g[k - gs] == '=' {
                assert(g.contains('='));
            }
        } else {
            assert(s[k] == w2[k - ge]);
        }
    }
    assert(s[e] == '=');
    lemma_find_char_run(s, gs, e, '=');
    assert(s.subrange(gs, e) =~= g + w2);
    assert forall|k: int| 0 <= k < w2.len() implies is_unicode_space(w2[k]) by {
        lemma_blank_is_space(w2[k]);
    }
    lemma_trimmed_with_trailing_space(g, w2);
    lemma_trimmed_with_trailing_space(g, Seq::empty());
    assert(g + Seq::<char>::empty() =~= g);
    assert(trimmed(g + w2) == trimmed(g));
    assert forall|k: int| e + 1 <= k < ds implies is_blank(s[k]) by {
        assert(s[k] == w3[k - e - 1]);
    }
    if ds < s.len() {
        assert(s[ds] == d[0]);
    }
    lemma_skip_blanks_run(s, e + 1, ds);
    assert(s.skip(ds) =~= d);
}

/// Whitespace in a per-file rule does not change it: with any non-empty run
/// of blanks after `per-file` and any runs of blanks before and after `=`, the
/// rule is the one written with a single space after `per-file` and none
/// around `=`.
pub proof fn lemma_per_file_whitespace(
    w1: Seq<char>,
    g: Seq<char>,
    w2: Seq<char>,
    w3: Seq<char>,
    d: Seq<char>,
)
    requires
        w1.len() > 0,
        all_blank(w1),
        all_blank(w2),
        all_blank(w3),
        bare_glob(g),
        d.len() == 0 || !is_blank(d[0]),
    ensures
        per_file_rule("per-file"@ + w1 + g + w2 + seq!['='] + w3 + d) == per_file_rule(
            "per-file"@ + seq![' '] + g + seq!['='] + d,
        ),
{
    let none = Seq::<char>::empty();
    lemma_per_file_parts(w1, g, w2, w3, d);
    lemma_per_file_parts(seq![' '], g, none, none, d);
    assert("per-file"@ + seq![' '] + g + none + seq!['='] + none + d =~= "per-file"@ + seq![' ']
        + g + seq!['='] + d);
}

/// The glob text of a per-file rule made into a pattern (see [`normalized_glob`]).
pub fn normalize_glob(s: &str) -> (r: String)
    ensures
        r@ == normalized_glob(s@),
{
    let t = trim(s);
    if t.unicode_len() > 0 && t.get_char(0) == '*' {
        String::from_str(t)
    } else {
        proof {
            reveal_strlit("*");
        }
        let star = String::from_str("*");
        let r = star.concat(t);
        assert(r@ =~= seq!['*'] + t@);
        r
    }
}

/// Compiles the glob text of a per-file rule (see [`normalized_glob`]).
pub fn str_to_glob(s: &str) -> (r: Result<Glob, globset::Error>)
    ensures
        r is Ok <==> glob_compiles(normalized_glob(s@)),
        r matches Ok(g) ==> glob_text(g) == normalized_glob(s@),
{
    let pattern = normalize_glob(s);
    new_glob(pattern.as_str())
}

/// The glob text and the directive text of the per-file rule that `input`
/// holds.
pub fn split_rule<'a>(input: &'a str) -> (r: Result<(&'a str, &'a str), GrammarError>)
    ensures
        match rule_split(input@) {
            Ok((t, d)) => r matches Ok((ts, ds)) && ts@ == t && ds@ == d,
            Err(e) => r == Err::<(&str, &str), GrammarError>(e),
        },
{
    proof {
        reveal_strlit("per-file");
    }
    let len = input.unicode_len();
    if !(has_word_at(input, 0, "per-file") && 8 < len && is_blank_char(input.get_char(8))) {
        return Err(GrammarError::NotPerFile);
    }
    let g = skip_blanks_from(input, 8);
    let e = find_char_from(input, g, '=');
    if e >= len {
        return Err(GrammarError::MissingEquals);
    }
    let d = skip_blanks_from(input, e + 1);
    let rest = input.substring_char(d, len);
    assert(rest@ =~= input@.skip(d as int));
    Ok((input.substring_char(g, e), rest))
}

/// The per-file rule made of the outcome of compiling its glob and of its
/// directive text: a glob that did not compile makes the rule invalid.
pub fn per_file_from(compiled: Result<Glob, globset::Error>, directive_text: &str) -> (r: Result<
    PerFile,
    GrammarError,
>)
    ensures
        compiled is Err ==> r == Err::<PerFile, GrammarError>(GrammarError::InvalidGlob),
        compiled matches Ok(g) ==> match rule_directive(directive_text@) {
            Ok(v) => r matches Ok(p) && p.glob == g && p.directive@ == v,
            Err(e) => r == Err::<PerFile, GrammarError>(e),
        },
{
    let glob = match compiled {
        Ok(glob) => glob,
        Err(_) => {
            return Err(GrammarError::InvalidGlob);
        },
    };
    proof {
        lemma_directive_prefix_len(directive_text@);
    }
    match directive(directive_text) {
        Ok((rem, dir)) => {
            if rem.unicode_len() == 0 {
                Ok(PerFile { glob, directive: dir })
            } else {
                Err(GrammarError::TrailingText)
            }
        },
        Err(err) => Err(err),
    }
}

/// The per-file rule `per-file <glob> = <directive>` that `input` holds,
/// with the text after it, which is empty.
pub fn per_file<'a>(input: &'a str) -> (r: Result<(&'a str, PerFile), GrammarError>)
    ensures
        match per_file_rule(input@) {
            Ok(v) => r matches Ok((rem, p)) && p@ == v && rem@.len() == 0,
            Err(e) => r == Err::<(&str, PerFile), GrammarError>(e),
        },
{
    let (text, rest) = match split_rule(input) {
        Ok(parts) => parts,
        Err(e) => {
            return Err(e);
        },
    };
    match per_file_from(str_to_glob(text), rest) {
        Ok(p) => {
            let len = input.unicode_len();
            Ok((input.substring_char(len, len), p))
        },
        Err(e) => Err(e),
    }
}

} // verus!
