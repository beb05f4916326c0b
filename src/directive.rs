//! Directives: the body of a rule, who owns the files or how ownership is inherited.
use crate::error::GrammarError;
use crate::owner::{classify, owner, Owner, OwnerView};
use crate::text::{
    has_word_at, is_blank, lemma_skip_blanks_bounds, lemma_token_end_bounds, skip_blanks,
    skip_blanks_from, token_end, token_end_from, word_at,
};
use vstd::prelude::*;

verus! {

/// One rule body.
#[derive(Debug, Clone, PartialEq, Eq)]
pub enum Directive {
    /// `set noparent`: rules of parent directories do not apply.
    NoParent,
    /// `*`: anyone may approve.
    StarGlob,
    /// `file:<path>`: the rules of another OWNERS file apply.
    FilePath(String),
    /// An owner of the files.
    Owner(Owner),
}

/// What a [`Directive`] holds, as character sequences.
pub enum DirectiveView {
    NoParent,
    StarGlob,
    FilePath(Seq<char>),
    Owner(OwnerView),
}

impl View for Directive {
    type V = DirectiveView;

    open spec fn view(&self) -> DirectiveView {
        match self {
            Directive::NoParent => DirectiveView::NoParent,
            Directive::StarGlob => DirectiveView::StarGlob,
            Directive::FilePath(p) => DirectiveView::FilePath(p@),
            Directive::Owner(o) => DirectiveView::Owner(o@),
        }
    }
}

/// Where the words `set noparent` end, when `s` opens with them.
pub open spec fn no_parent_end(s: Seq<char>) -> int {
    skip_blanks(s, 3) + 8
}

/// `s` opens with `set`, whitespace, and `noparent`.
pub open spec fn opens_no_parent(s: Seq<char>) -> bool {
    &&& word_at(s, 0, "set"@)
    &&& 3 < s.len()
    &&& is_blank(s[3])
    &&& word_at(s, skip_blanks(s, 3), "noparent"@)
}

/// Where the path of a `file:` directive starts.
pub open spec fn path_start(s: Seq<char>) -> int {
    skip_blanks(s, 5)
}

/// `s` opens with `file:`, optional whitespace, and a non-empty path.
pub open spec fn opens_file_path(s: Seq<char>) -> bool {
    word_at(s, 0, "file:"@) && path_start(s) < token_end(s, path_start(s))
}

/// The directive at the start of `s`, with the number of characters it takes.
/// The forms are tried in order and the first that matches wins, however
/// much of `s` it leaves: `*`, then `set noparent`, then `file:` and a path,
/// then an owner token.
pub open spec fn directive_prefix(s: Seq<char>) -> Option<(DirectiveView, int)> {
    if s.len() > 0 && s[0] == '*' {
        Some((DirectiveView::StarGlob, 1))
    } else if opens_no_parent(s) {
        Some((DirectiveView::NoParent, no_parent_end(s)))
    } else if opens_file_path(s) {
        let a = path_start(s);
        let b = token_end(s, a);
        Some((DirectiveView::FilePath(s.subrange(a, b)), b))
    } else if token_end(s, 0) > 0 {
        let b = token_end(s, 0);
        Some((DirectiveView::Owner(classify(s.subrange(0, b))), b))
    } else {
        None
    }
}

/// A directive takes no more than the text it stands in.
pub proof fn lemma_directive_prefix_len(s: Seq<char>)
    ensures
        directive_prefix(s) matches Some((_, n)) ==> 0 < n <= s.len(),
{
    reveal_strlit("set");
    reveal_strlit("noparent");
    reveal_strlit("file:");
    lemma_token_end_bounds(s, 0);
    if s.len() >= 5 {
        lemma_skip_blanks_bounds(s, 5);
        lemma_token_end_bounds(s, path_start(s));
    }
    if s.len() >= 3 {
        lemma_skip_blanks_bounds(s, 3);
    }
}

/// The directive at the start of `input` and the text after it.
pub fn directive<'a>(input: &'a str) -> (r: Result<(&'a str, Directive), GrammarError>)
    ensures
        match directive_prefix(input@) {
            Some((d, n)) => r matches Ok((rem, v)) && v@ == d && rem@ == input@.skip(n),
            None => r == Err::<(&str, Directive), GrammarError>(GrammarError::NoDirective),
        },
{
    proof {
        reveal_strlit("set");
        reveal_strlit("noparent");
        reveal_strlit("file:");
        lemma_token_end_bounds(input@, 0);
    }
    let len = input.unicode_len();
    if len > 0 && input.get_char(0) == '*' {
        let rem = input.substring_char(1, len);
        assert(rem@ =~= input@.skip(1));
        return Ok((rem, Directive::StarGlob));
    }
    if has_word_at(input, 0, "set") && 3 < len && is_blank_at(input, 3) {
        let k = skip_blanks_from(input, 3);
        if has_word_at(input, k, "noparent") {
            let rem = input.substring_char(k + 8, len);
            assert(rem@ =~= input@.skip(no_parent_end(input@)));
            return Ok((rem, Directive::NoParent));
        }
    }
    if has_word_at(input, 0, "file:") {
        let a = skip_blanks_from(input, 5);
        let b = token_end_from(input, a);
        if a < b {
            let path = input.substring_char(a, b);
            let rem = input.substring_char(b, len);
            assert(rem@ =~= input@.skip(b as int));
            return Ok((rem, Directive::FilePath(String::from_str(path))));
        }
    }
    match owner(input) {
        Ok((rem, o)) => Ok((rem, Directive::Owner(o))),
        Err(e) => Err(e),
    }
}

/// Whether position `i` of `s` holds a blank.
fn is_blank_at(s: &str, i: usize) -> (r: bool)
    requires
        i < s@.len(),
    ensures
        r == is_blank(s@[i as int]),
{
    crate::text::is_blank_char(s.get_char(i))
}

} // verus!
