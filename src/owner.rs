//! Owners: the identities that a rule names, classified from their token.
use crate::error::GrammarError;
use crate::text::{lemma_token_end_bounds, token_end, token_end_from};
use vstd::prelude::*;

verus! {

/// An owner as it was written: an email address, an `@` handle, or free text.
#[derive(Debug, Clone, PartialEq, Eq)]
pub enum Owner {
    Email(String),
    Handle(String),
    Text(String),
}

/// What an [`Owner`] holds, as character sequences.
pub enum OwnerView {
    Email(Seq<char>),
    Handle(Seq<char>),
    Text(Seq<char>),
}

impl View for Owner {
    type V = OwnerView;

    open spec fn view(&self) -> OwnerView {
        match self {
            Owner::Email(s) => OwnerView::Email(s@),
            Owner::Handle(s) => OwnerView::Handle(s@),
            Owner::Text(s) => OwnerView::Text(s@),
        }
    }
}

/// The owner that a token denotes. A leading `@` makes a handle, stored without
/// that `@`; otherwise an `@` that is not the last character makes an email
/// address; anything else is text.
pub open spec fn classify(token: Seq<char>) -> OwnerView {
    if token.len() > 0 && token[0] == '@' {
        OwnerView::Handle(token.drop_first())
    } else if token.contains('@') && token.last() != '@' {
        OwnerView::Email(token)
    } else {
        OwnerView::Text(token)
    }
}

/// A non-empty token that holds no `@` is text, kept as it is.
pub proof fn lemma_plain_token_is_text(token: Seq<char>)
    requires
        token.len() > 0,
        !token.contains('@'),
    ensures
        classify(token) == OwnerView::Text(token),
{
    if token[0] == '@' {
        assert(token.contains('@'));
    }
}

/// A token that starts with `@` is a handle whose value is the token without
/// that `@`: putting `@` back in front of the value gives the token again.
pub proof fn lemma_at_token_is_handle(token: Seq<char>)
    requires
        token.len() > 0,
        token[0] == '@',
    ensures
        classify(token) matches OwnerView::Handle(h) && h == token.drop_first() && seq!['@'] + h
            == token,
{
    assert(seq!['@'] + token.drop_first() =~= token);
}

/// Every handle value `h` is what the token `@h` classifies to.
pub proof fn lemma_handle_round_trip(h: Seq<char>)
    ensures
        classify(seq!['@'] + h) == OwnerView::Handle(h),
{
    assert((seq!['@'] + h).drop_first() =~= h);
}

/// A token with an `@` that is neither its first nor its last character is
/// an email address, kept as it is.
pub proof fn lemma_inner_at_token_is_email(token: Seq<char>)
    requires
        token.contains('@'),
        token[0] != '@',
        token.last() != '@',
    ensures
        classify(token) == OwnerView::Email(token),
{
}

/// `token` with one leading `@` removed, where it has one.
pub open spec fn without_at(token: Seq<char>) -> Seq<char> {
    if token.len() > 0 && token[0] == '@' {
        token.drop_first()
    } else {
        token
    }
}

impl Owner {
    /// A handle, from its token with or without the leading `@`.
    pub fn handle(handle: &str) -> (r: Owner)
        ensures
            r@ == OwnerView::Handle(without_at(handle@)),
    {
        let len = handle.unicode_len();
        if len > 0 && handle.get_char(0) == '@' {
            let rest = handle.substring_char(1, len);
            assert(rest@ =~= handle@.drop_first());
            Owner::Handle(String::from_str(rest))
        } else {
            Owner::Handle(String::from_str(handle))
        }
    }

    pub fn email(email: &str) -> (r: Owner)
        ensures
            r@ == OwnerView::Email(email@),
    {
        Owner::Email(String::from_str(email))
    }

    pub fn text(text: &str) -> (r: Owner)
        ensures
            r@ == OwnerView::Text(text@),
    {
        Owner::Text(String::from_str(text))
    }
}

/// Whether `s` holds the character `c`.
fn contains_char(s: &str, c: char) -> (r: bool)
    ensures
        r == s@.contains(c),
{
    let len = s.unicode_len();
    let mut i: usize = 0;
    while i < len
        invariant
            i <= len,
            len == s@.len(),
            forall|k: int| 0 <= k < i ==> s@[k] != c,
        decreases len - i,
    {
        if s.get_char(i) == c {
            return true;
        }
        i = i + 1;
    }
    false
}

impl<'a> From<&'a str> for Owner {
    /// Classifies a token: a handle if it starts with `@`, else an email
    /// address if it holds an `@` that is not its last character, else text.
    fn from(input: &'a str) -> (r: Owner)
        ensures
            r@ == classify(input@),
    {
        let len = input.unicode_len();
        if len > 0 && input.get_char(0) == '@' {
            return Owner::handle(input);
        }
        if contains_char(input, '@') && input.get_char(len - 1) != '@' {
            return Owner::email(input);
        }
        Owner::text(input)
    }
}

impl<'a> vstd::std_specs::convert::FromSpecImpl<&'a str> for Owner {
    /// Owners of equal text are not known to be one value, so what `from`
    /// returns is stated on `from` itself, over the view.
    open spec fn obeys_from_spec() -> bool {
        false
    }

    open spec fn from_spec(v: &'a str) -> Owner {
        choose|o: Owner| o@ == classify(v@)
    }
}

/// The owner token at the start of `input`: the longest run of characters
/// that are not token separators, which must not be empty.
pub fn owner<'a>(input: &'a str) -> (r: Result<(&'a str, Owner), GrammarError>)
    ensures
        token_end(input@, 0) > 0 ==> (r matches Ok((rem, o)) && o@ == classify(
            input@.subrange(0, token_end(input@, 0)),
        ) && rem@ == input@.skip(token_end(input@, 0))),
        token_end(input@, 0) == 0 ==> r == Err::<(&str, Owner), GrammarError>(
            GrammarError::NoDirective,
        ),
{
    proof {
        lemma_token_end_bounds(input@, 0);
    }
    let len = input.unicode_len();
    let end = token_end_from(input, 0);
    if end == 0 {
        return Err(GrammarError::NoDirective);
    }
    let token = input.substring_char(0, end);
    let rem = input.substring_char(end, len);
    assert(rem@ =~= input@.skip(end as int));
    Ok((rem, Owner::from(token)))
}

} // verus!
