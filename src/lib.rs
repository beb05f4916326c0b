//! Parser for OWNERS files: the line-oriented format in which code review tools
//! declare who owns the files of a directory.
//!
//! [`parse`] turns the text of a file into its statements, in line order, or
//! reports the first line that is not a statement.
use vstd::prelude::*;

pub mod args;
pub mod directive;
pub mod error;
pub mod owner;
pub mod per_file;
pub mod statement;
pub mod text;

pub use directive::{directive, Directive};
pub use error::ParseError;
pub use owner::{owner, Owner};
pub use per_file::{per_file, PerFile};
pub use statement::{statement, Statement};

use error::GrammarError;
use statement::{line_statement, StatementView};
use text::{find_char, find_char_from, is_token_separator, lemma_find_char_absent, trim, trimmed};

verus! {

/// Whether `c` separates two tokens: space, tab or newline.
pub fn is_whitespace(c: char) -> (r: bool)
    ensures
        r == is_token_separator(c),
{
    c == ' ' || c == '\t' || c == '\n'
}

/// Whether `c` ends a token where `#` starts a comment: space, tab, newline or `#`.
pub fn ws_or_comment(c: char) -> (r: bool)
    ensures
        r == (is_token_separator(c) || c == '#'),
{
    c == ' ' || c == '#' || c == '\t' || c == '\n'
}

/// The lines of `s`: the pieces between its newline characters, in order.
/// Text without a newline is one line; a newline at the end leaves an empty
/// last line.
pub open spec fn lines_of(s: Seq<char>) -> Seq<Seq<char>>
    decreases s.len(),
{
    if s.len() == 0 {
        seq![Seq::empty()]
    } else {
        let ls = lines_of(s.drop_last());
        if s.last() == '\n' {
            ls.push(Seq::empty())
        } else {
            ls.update(ls.len() - 1, ls.last().push(s.last()))
        }
    }
}

/// A line without its comment (all from the first `#` on) and without the
/// whitespace around what is left.
pub open spec fn strip_comment(line: Seq<char>) -> Seq<char> {
    trimmed(line.take(find_char(line, 0, '#')))
}

/// What reading `line`, whose number is `n`, adds to the statements `acc`:
/// nothing if it holds only whitespace and comment, else its statement, or
/// the error that stops the parse.
pub open spec fn line_step(acc: Seq<StatementView>, line: Seq<char>, n: int) -> Result<
    Seq<StatementView>,
    (int, GrammarError),
> {
    let content = strip_comment(line);
    if content.len() == 0 {
        Ok(acc)
    } else {
        match line_statement(content) {
            Ok(st) => Ok(acc.push(st)),
            Err(e) => Err((n, e)),
        }
    }
}

/// The statements of the lines `ls` in order, or the number (counted from 1)
/// and error of the first line that is not a statement.
pub open spec fn parse_lines(ls: Seq<Seq<char>>) -> Result<
    Seq<StatementView>,
    (int, GrammarError),
>
    decreases ls.len(),
{
    if ls.len() == 0 {
        Ok(Seq::empty())
    } else {
        match parse_lines(ls.drop_last()) {
            Ok(acc) => line_step(acc, ls.last(), ls.len() as int),
            Err(x) => Err(x),
        }
    }
}

/// What the statements of a vector hold.
pub open spec fn statements_view(v: Seq<Statement>) -> Seq<StatementView> {
    v.map_values(|st: Statement| st@)
}

/// Stripping comments from a line that holds no `#` and no whitespace at
/// either end gives the line back.
pub proof fn lemma_strip_comment_free_line(line: Seq<char>)
    requires
        !line.contains('#'),
        trimmed(line) == line,
    ensures
        strip_comment(line) == line,
{
    assert forall|k: int| 0 <= k < line.len() implies line[k] != '#' by {
        if line[k] == '#' {
            assert(line.contains('#'));
        }
    }
    lemma_find_char_absent(line, 0, '#');
    assert(line.take(line.len() as int) =~= line);
}

/// A syntax error is reported on the line where it stands, counted from 1
/// with blank and comment lines included: where the lines before line
/// `k + 1` parse and line `k + 1` holds text that is not a statement, the
/// parse fails with line number `k + 1`.
pub proof fn lemma_error_line_number(input: Seq<char>, k: int)
    requires
        0 <= k < lines_of(input).len(),
        parse_lines(lines_of(input).take(k)) is Ok,
        strip_comment(lines_of(input)[k]).len() > 0,
        line_statement(strip_comment(lines_of(input)[k])) is Err,
    ensures
        parse_lines(lines_of(input)) matches Err((n, e)) && n == k + 1 && Err::<
            StatementView,
            GrammarError,
        >(e) == line_statement(strip_comment(lines_of(input)[k])),
{
    let ls = lines_of(input);
    assert(ls.take(k + 1).drop_last() =~= ls.take(k));
    assert(ls.take(k + 1).last() == ls[k]);
    lemma_parse_lines_error_prefix(ls, k + 1);
}

/// What a vector of string slices holds.
pub open spec fn texts_view(v: Seq<&str>) -> Seq<Seq<char>> {
    v.map_values(|l: &str| l@)
}

/// The text of `line` before its first `#`, trimmed.
pub fn remove_inline_comments(line: &str) -> (r: &str)
    ensures
        r@ == strip_comment(line@),
{
    let k = find_char_from(line, 0, '#');
    trim(line.substring_char(0, k))
}

/// Reads line number `line_num` into `parsed`.
fn add_line(line: &str, line_num: usize, parsed: &mut Vec<Statement>) -> (r: Result<
    (),
    ParseError,
>)
    ensures
        match line_step(statements_view(old(parsed)@), line@, line_num as int) {
            Ok(acc) => r is Ok && statements_view(final(parsed)@) == acc,
            Err((n, e)) => r matches Err(ParseError::Syntax { line_num: k, message }) && k == n
                && message@ == e.description(),
        },
{
    let content = remove_inline_comments(line);
    if content.unicode_len() == 0 {
        return Ok(());
    }
    match statement(content) {
        Ok((_, st)) => {
            parsed.push(st);
            assert(statements_view(parsed@) =~= statements_view(old(parsed)@).push(st@));
            Ok(())
        },
        Err(e) => Err(ParseError::syntax(line_num, e)),
    }
}

/// Where the lines `ls` hold a line that is not a statement, the first
/// such line decides the result, whatever lines follow it.
pub proof fn lemma_parse_lines_error_prefix(ls: Seq<Seq<char>>, k: int)
    requires
        0 <= k <= ls.len(),
        parse_lines(ls.take(k)) is Err,
    ensures
        parse_lines(ls) == parse_lines(ls.take(k)),
    decreases ls.len() - k,
{
    if k < ls.len() {
        assert(ls.take(k + 1).drop_last() =~= ls.take(k));
        lemma_parse_lines_error_prefix(ls, k + 1);
    } else {
        assert(ls.take(k) =~= ls);
    }
}

/// The lines of `input`, split at its newline characters.
pub fn split_lines<'a>(input: &'a str) -> (r: Vec<&'a str>)
    ensures
        texts_view(r@) == lines_of(input@),
        r@.len() <= input@.len() + 1,
{
    let len = input.unicode_len();
    let mut lines: Vec<&'a str> = Vec::new();
    let mut start: usize = 0;
    let mut j: usize = 0;
    assert(input@.take(0) =~= Seq::<char>::empty());
    assert(input@.subrange(0, 0) =~= Seq::<char>::empty());
    assert(texts_view(lines@).push(Seq::empty()) =~= seq![Seq::<char>::empty()]);
    while j < len
        invariant
            start <= j <= len,
            len == input@.len(),
            lines@.len() <= j,
            lines_of(input@.take(j as int)) == texts_view(lines@).push(
                input@.subrange(start as int, j as int),
            ),
        decreases len - j,
    {
        let c = input.get_char(j);
        assert(input@.take(j + 1).drop_last() =~= input@.take(j as int));
        assert(input@.take(j + 1).last() == c);
        if c == '\n' {
            let line = input.substring_char(start, j);
            let ghost before = texts_view(lines@);
            lines.push(line);
            assert(texts_view(lines@) =~= before.push(line@));
            assert(input@.subrange(j + 1, j + 1) =~= Seq::<char>::empty());
            start = j + 1;
        } else {
            assert(input@.subrange(start as int, j + 1) =~= input@.subrange(
                start as int,
                j as int,
            ).push(c));
        }
        j = j + 1;
    }
    let line = input.substring_char(start, len);
    assert(input@.take(len as int) =~= input@);
    let ghost before = texts_view(lines@);
    lines.push(line);
    assert(texts_view(lines@) =~= before.push(line@));
    lines
}

/// Parses the text of an OWNERS file into its statements, in line order.
/// Each line loses its comment and surrounding whitespace; lines left empty
/// are skipped, and each other line must be exactly one statement. The first
/// line that is not gives a syntax error with its number, counted from 1.
pub fn parse(input: &str) -> (r: Result<Vec<Statement>, ParseError>)
    ensures
        match parse_lines(lines_of(input@)) {
            Ok(sts) => r matches Ok(v) && statements_view(v@) == sts,
            Err((n, e)) => r matches Err(ParseError::Syntax { line_num, message }) && line_num
                == n && message@ == e.description(),
        },
{
    let lines = split_lines(input);
    let ghost ls = texts_view(lines@);
    let mut parsed: Vec<Statement> = Vec::new();
    let mut i: usize = 0;
    assert(statements_view(parsed@) =~= Seq::empty());
    assert(ls.take(0) =~= Seq::<Seq<char>>::empty());
    while i < lines.len()
        invariant
            i <= lines@.len(),
            ls == texts_view(lines@),
            ls == lines_of(input@),
            parse_lines(ls.take(i as int)) == Ok::<Seq<StatementView>, (int, GrammarError)>(
                statements_view(parsed@),
            ),
        decreases lines@.len() - i,
    {
        assert(ls.take(i + 1).drop_last() =~= ls.take(i as int));
        assert(ls.take(i + 1).last() == lines@[i as int]@);
        let ghost acc = statements_view(parsed@);
        assert(ls[i as int] == lines@[i as int]@);
        assert(parse_lines(ls.take(i + 1)) == line_step(acc, ls[i as int], i + 1));
        match add_line(lines[i], i + 1, &mut parsed) {
            Ok(()) => {},
            Err(err) => {
                proof {
                    lemma_parse_lines_error_prefix(ls, i + 1);
                }
                return Err(err);
            },
        }
        i = i + 1;
    }
    assert(ls.take(lines@.len() as int) =~= ls);
    Ok(parsed)
}

} // verus!
