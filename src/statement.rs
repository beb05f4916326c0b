//! Statements: what one line of an OWNERS file says.
use crate::directive::{
    directive, directive_prefix, lemma_directive_prefix_len, Directive, DirectiveView,
};
use crate::error::GrammarError;
use crate::per_file::{per_file, per_file_rule, PerFile, PerFileView};
use vstd::prelude::*;

verus! {

/// The content of one line: a directive for the whole directory, or a per-file rule.
#[derive(Debug, PartialEq)]
pub enum Statement {
    Directive(Directive),
    PerFile(PerFile),
}

/// What a [`Statement`] holds.
pub enum StatementView {
    Directive(DirectiveView),
    PerFile(PerFileView),
}

impl View for Statement {
    type V = StatementView;

    open spec fn view(&self) -> StatementView {
        match self {
            Statement::Directive(d) => StatementView::Directive(d@),
            Statement::PerFile(p) => StatementView::PerFile(p@),
        }
    }
}

/// The statement at the start of `s`, with the number of characters it takes.
/// A per-file rule is tried first, and takes the whole of `s`; only text that
/// does not open with `per-file` and whitespace is read as a directive.
pub open spec fn statement_prefix(s: Seq<char>) -> Result<(StatementView, int), GrammarError> {
    match per_file_rule(s) {
        Ok(p) => Ok((StatementView::PerFile(p), s.len() as int)),
        Err(GrammarError::NotPerFile) => match directive_prefix(s) {
            Some((d, n)) => Ok((StatementView::Directive(d), n)),
            None => Err(GrammarError::NoDirective),
        },
        Err(e) => Err(e),
    }
}

/// The statement that the whole of `s` holds: a statement that leaves text
/// after it is an error.
pub open spec fn line_statement(s: Seq<char>) -> Result<StatementView, GrammarError> {
    match statement_prefix(s) {
        Ok((st, n)) => if n == s.len() {
            Ok(st)
        } else {
            Err(GrammarError::TrailingText)
        },
        Err(e) => Err(e),
    }
}

/// A statement takes no more than the text it stands in.
pub proof fn lemma_statement_prefix_len(s: Seq<char>)
    ensures
        statement_prefix(s) matches Ok((_, n)) ==> 0 < n <= s.len(),
{
    lemma_directive_prefix_len(s);
}

/// The statement that the whole of `input` holds, with the text after it,
/// which is empty: a statement that leaves text after it is an error.
pub fn statement<'a>(input: &'a str) -> (r: Result<(&'a str, Statement), GrammarError>)
    ensures
        match line_statement(input@) {
            Ok(v) => r matches Ok((rem, st)) && st@ == v && rem@.len() == 0,
            Err(e) => r == Err::<(&str, Statement), GrammarError>(e),
        },
{
    proof {
        lemma_statement_prefix_len(input@);
    }
    let (rem, st) = match per_file(input) {
        Ok((rem, p)) => (rem, Statement::PerFile(p)),
        Err(GrammarError::NotPerFile) => match directive(input) {
            Ok((rem, d)) => (rem, Statement::Directive(d)),
            Err(e) => {
                return Err(e);
            },
        },
        Err(e) => {
            return Err(e);
        },
    };
    if rem.unicode_len() == 0 {
        Ok((rem, st))
    } else {
        Err(GrammarError::TrailingText)
    }
}

} // verus!
