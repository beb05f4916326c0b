//! Errors: why a line is not a statement, and what `parse` reports.
use vstd::prelude::*;

verus! {

/// Why the text of a line is not a statement.
#[derive(Debug, Clone, Copy, PartialEq, Eq, Structural)]
pub enum GrammarError {
    /// None of the directive forms matches at the start of the text.
    NoDirective,
    /// The text does not open with `per-file` and whitespace.
    NotPerFile,
    /// A per-file rule has no `=` after its glob.
    MissingEquals,
    /// The glob of a per-file rule does not compile.
    InvalidGlob,
    /// Text is left over after a complete statement.
    TrailingText,
}

impl GrammarError {
    /// The human-readable description of the failure.
    pub open spec fn description(self) -> Seq<char> {
        match self {
            GrammarError::NoDirective => "expected a directive"@,
            GrammarError::NotPerFile => "expected `per-file` followed by whitespace"@,
            GrammarError::MissingEquals => "expected `=` after the per-file glob"@,
            GrammarError::InvalidGlob => "invalid glob pattern"@,
            GrammarError::TrailingText => "unexpected text after the statement"@,
        }
    }

    pub fn message(&self) -> (r: String)
        ensures
            r@ == self.description(),
    {
        match self {
            GrammarError::NoDirective => String::from_str("expected a directive"),
            GrammarError::NotPerFile => String::from_str(
                "expected `per-file` followed by whitespace",
            ),
            GrammarError::MissingEquals => String::from_str("expected `=` after the per-file glob"),
            GrammarError::InvalidGlob => String::from_str("invalid glob pattern"),
            GrammarError::TrailingText => String::from_str("unexpected text after the statement"),
        }
    }
}

/// The decimal digit for `d`, which is below ten.
pub open spec fn digit(d: nat) -> char {
    if d == 0 {
        '0'
    } else if d == 1 {
        '1'
    } else if d == 2 {
        '2'
    } else if d == 3 {
        '3'
    } else if d == 4 {
        '4'
    } else if d == 5 {
        '5'
    } else if d == 6 {
        '6'
    } else if d == 7 {
        '7'
    } else if d == 8 {
        '8'
    } else {
        '9'
    }
}

/// The decimal notation of `n`, without leading zeros.
pub open spec fn decimal(n: nat) -> Seq<char>
    decreases n,
{
    if n < 10 {
        seq![digit(n)]
    } else {
        decimal(n / 10).push(digit(n % 10))
    }
}

fn digit_text(d: usize) -> (r: &'static str)
    requires
        d < 10,
    ensures
        r@ == seq![digit(d as nat)],
{
    proof {
        reveal_strlit("0");
        reveal_strlit("1");
        reveal_strlit("2");
        reveal_strlit("3");
        reveal_strlit("4");
        reveal_strlit("5");
        reveal_strlit("6");
        reveal_strlit("7");
        reveal_strlit("8");
        reveal_strlit("9");
    }
    let r = if d == 0 {
        "0"
    } else if d == 1 {
        "1"
    } else if d == 2 {
        "2"
    } else if d == 3 {
        "3"
    } else if d == 4 {
        "4"
    } else if d == 5 {
        "5"
    } else if d == 6 {
        "6"
    } else if d == 7 {
        "7"
    } else if d == 8 {
        "8"
    } else {
        "9"
    };
    assert(r@ =~= seq![digit(d as nat)]);
    r
}

/// `n` written in decimal.
pub fn decimal_text(n: usize) -> (r: String)
    ensures
        r@ == decimal(n as nat),
    decreases n,
{
    if n < 10 {
        String::from_str(digit_text(n))
    } else {
        let mut r = decimal_text(n / 10);
        r.append(digit_text(n % 10));
        assert(r@ =~= decimal((n / 10) as nat).push(digit((n % 10) as nat)));
        r
    }
}

/// A failure to read or parse an OWNERS file.
#[derive(Debug, Clone, PartialEq, Eq)]
pub enum ParseError {
    /// A failure other than a syntax error or a missing file.
    Generic,
    /// The file to parse does not exist.
    FileNotFound,
    /// Line `line_num` (counted from 1) is not a statement.
    Syntax { line_num: usize, message: String },
}

impl ParseError {
    /// The short name of the kind of error.
    pub open spec fn kind_text(self) -> Seq<char> {
        match self {
            ParseError::Generic => "parser error"@,
            ParseError::FileNotFound => "no such file or directory"@,
            ParseError::Syntax { .. } => "syntax error"@,
        }
    }

    pub fn as_str(&self) -> (r: &str)
        ensures
            r@ == self.kind_text(),
    {
        match self {
            ParseError::Generic => "parser error",
            ParseError::FileNotFound => "no such file or directory",
            ParseError::Syntax { .. } => "syntax error",
        }
    }

    /// The text shown to the user: `<kind> on line <n>: <message>` for a
    /// syntax error, the kind alone otherwise.
    pub open spec fn display(self) -> Seq<char> {
        match self {
            ParseError::Syntax { line_num, message } => self.kind_text() + " on line "@ + decimal(
                line_num as nat,
            ) + ": "@ + message@,
            _ => self.kind_text(),
        }
    }

    pub fn to_display_string(&self) -> (r: String)
        ensures
            r@ == self.display(),
    {
        match self {
            ParseError::Syntax { line_num, message } => {
                let r = String::from_str(self.as_str()).concat(" on line ");
                let n = decimal_text(*line_num);
                r.concat(n.as_str()).concat(": ").concat(message.as_str())
            },
            _ => String::from_str(self.as_str()),
        }
    }

    /// The error for a file that could not be read: `FileNotFound` when the
    /// failure was that it does not exist, `Generic` otherwise.
    pub fn from_io(not_found: bool) -> (r: ParseError)
        ensures
            r == (if not_found {
                ParseError::FileNotFound
            } else {
                ParseError::Generic
            }),
    {
        if not_found {
            ParseError::FileNotFound
        } else {
            ParseError::Generic
        }
    }

    /// The syntax error for line `line_num`, carrying the grammar's description.
    pub fn syntax(line_num: usize, err: GrammarError) -> (r: ParseError)
        ensures
            r matches ParseError::Syntax { line_num: n, message } && n == line_num
                && message@ == err.description(),
    {
        ParseError::Syntax { line_num, message: err.message() }
    }
}

} // verus!
