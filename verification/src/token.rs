//! The token-tree data model shared by every component of the engine.

use vstd::prelude::*;

verus! {

/// Extent in the host's source text that a token was lexed from.  The engine
/// never interprets the two offsets; it only copies them onto generated tokens
/// so that downstream error reporting stays accurate.
#[derive(Clone, Copy, PartialEq, Eq, Structural, Debug)]
pub struct SourceSpan {
    pub lo: usize,
    pub hi: usize,
}

impl SourceSpan {
    /// The empty span sitting immediately after this one: where a missing
    /// token was expected.
    pub open spec fn spec_end(self) -> SourceSpan {
        SourceSpan { lo: self.hi, hi: self.hi }
    }

    pub fn end(&self) -> (r: SourceSpan)
        ensures
            r == self.spec_end(),
    {
        SourceSpan { lo: self.hi, hi: self.hi }
    }

    /// Span reported when an empty invocation leaves nothing to point at.
    pub open spec fn spec_zero() -> SourceSpan {
        SourceSpan { lo: 0, hi: 0 }
    }

    pub fn zero() -> (r: SourceSpan)
        ensures
            r == SourceSpan::spec_zero(),
    {
        SourceSpan { lo: 0, hi: 0 }
    }
}

/// The delimiter kind of a group token.
#[derive(Clone, Copy, PartialEq, Eq, Structural, Debug)]
pub enum Delimiter {
    Paren,
    Brace,
    Bracket,
    NoDelim,
}

/// The smallest syntactic unit of a template: an identifier, a literal, a
/// punctuation character, or a delimited group holding a nested sequence.
#[derive(PartialEq, Eq, Debug)]
pub enum Token {
    Identifier { name: String, pos: SourceSpan },
    Literal { text: String, pos: SourceSpan },
    Punctuation { ch: char, pos: SourceSpan },
    Group { delim: Delimiter, contents: Vec<Token>, pos: SourceSpan },
}

/// Mathematical image of a `Token`: strings become character sequences and
/// group contents become sequences of token images.
#[verifier::ext_equal]
pub enum TokenV {
    Identifier { name: Seq<char>, pos: SourceSpan },
    Literal { text: Seq<char>, pos: SourceSpan },
    Punctuation { ch: char, pos: SourceSpan },
    Group { delim: Delimiter, contents: Seq<TokenV>, pos: SourceSpan },
}

/// The source extent a token carries, whatever its kind.
pub open spec fn token_pos(t: TokenV) -> SourceSpan {
    match t {
        TokenV::Identifier { pos, .. } => pos,
        TokenV::Literal { pos, .. } => pos,
        TokenV::Punctuation { pos, .. } => pos,
        TokenV::Group { pos, .. } => pos,
    }
}

pub open spec fn ident_name(t: TokenV) -> Seq<char>
    recommends
        t is Identifier,
{
    match t {
        TokenV::Identifier { name, .. } => name,
        _ => Seq::empty(),
    }
}

pub open spec fn lit_text(t: TokenV) -> Seq<char>
    recommends
        t is Literal,
{
    match t {
        TokenV::Literal { text, .. } => text,
        _ => Seq::empty(),
    }
}

/// Is `t` the punctuation character `c`?
pub open spec fn punct_is(t: TokenV, c: char) -> bool {
    match t {
        TokenV::Punctuation { ch, .. } => ch == c,
        _ => false,
    }
}

pub open spec fn group_contents(t: TokenV) -> Seq<TokenV>
    recommends
        t is Group,
{
    match t {
        TokenV::Group { contents, .. } => contents,
        _ => Seq::empty(),
    }
}

pub open spec fn token_view(t: Token) -> TokenV
    decreases t,
{
    match t {
        Token::Identifier { name, pos } => TokenV::Identifier { name: name@, pos },
        Token::Literal { text, pos } => TokenV::Literal { text: text@, pos },
        Token::Punctuation { ch, pos } => TokenV::Punctuation { ch, pos },
        Token::Group { delim, contents, pos } => TokenV::Group {
            delim,
            contents: tokens_view(contents@),
            pos,
        },
    }
}

pub open spec fn tokens_view(ts: Seq<Token>) -> Seq<TokenV>
    decreases ts,
{
    if ts.len() == 0 {
        Seq::empty()
    } else {
        seq![token_view(ts[0])] + tokens_view(ts.subrange(1, ts.len() as int))
    }
}

pub broadcast proof fn lemma_tokens_view_len(ts: Seq<Token>)
    ensures
        #[trigger] tokens_view(ts).len() == ts.len(),
    decreases ts,
{
    if ts.len() > 0 {
        lemma_tokens_view_len(ts.subrange(1, ts.len() as int));
    }
}

pub broadcast proof fn lemma_tokens_view_index(ts: Seq<Token>, i: int)
    requires
        0 <= i < ts.len(),
    ensures
        #[trigger] tokens_view(ts)[i] == token_view(ts[i]),
    decreases ts,
{
    lemma_tokens_view_len(ts);
    if i > 0 {
        lemma_tokens_view_index(ts.subrange(1, ts.len() as int), i - 1);
    }
}

pub broadcast proof fn lemma_tokens_view_push(s: Seq<Token>, t: Token)
    ensures
        #[trigger] tokens_view(s.push(t)) == tokens_view(s).push(token_view(t)),
{
    broadcast use lemma_tokens_view_len, lemma_tokens_view_index;

    assert forall|i: int| 0 <= i < s.len() + 1 implies tokens_view(s.push(t))[i] == tokens_view(
        s,
    ).push(token_view(t))[i] by {
        if i < s.len() {
            assert(s.push(t)[i] == s[i]);
        } else {
            assert(s.push(t)[i] == t);
        }
    }
    assert(tokens_view(s.push(t)) =~= tokens_view(s).push(token_view(t)));
}

pub broadcast proof fn lemma_tokens_view_concat(a: Seq<Token>, b: Seq<Token>)
    ensures
        #[trigger] tokens_view(a + b) == tokens_view(a) + tokens_view(b),
{
    broadcast use lemma_tokens_view_len, lemma_tokens_view_index;

    assert forall|i: int| 0 <= i < a.len() + b.len() implies tokens_view(a + b)[i] == (tokens_view(
        a,
    ) + tokens_view(b))[i] by {
        if i < a.len() {
            assert((a + b)[i] == a[i]);
        } else {
            assert((a + b)[i] == b[i - a.len()]);
        }
    }
    assert(tokens_view(a + b) =~= tokens_view(a) + tokens_view(b));
}

pub broadcast group group_tokens_view {
    lemma_tokens_view_len,
    lemma_tokens_view_index,
    lemma_tokens_view_push,
    lemma_tokens_view_concat,
}

impl View for Token {
    type V = TokenV;

    open spec fn view(&self) -> TokenV {
        token_view(*self)
    }
}

/// The source extent carried by `t`.
pub fn position_of(t: &Token) -> (r: SourceSpan)
    ensures
        r == token_pos(token_view(*t)),
{
    match t {
        Token::Identifier { pos, .. } => *pos,
        Token::Literal { pos, .. } => *pos,
        Token::Punctuation { pos, .. } => *pos,
        Token::Group { pos, .. } => *pos,
    }
}

/// Structural copy of one token; the copy has the same image.
pub fn clone_token(t: &Token) -> (r: Token)
    ensures
        token_view(r) == token_view(*t),
    decreases *t,
{
    match t {
        Token::Identifier { name, pos } => Token::Identifier { name: name.clone(), pos: *pos },
        Token::Literal { text, pos } => Token::Literal { text: text.clone(), pos: *pos },
        Token::Punctuation { ch, pos } => Token::Punctuation { ch: *ch, pos: *pos },
        Token::Group { delim, contents, pos } => Token::Group {
            delim: *delim,
            contents: clone_tokens(contents),
            pos: *pos,
        },
    }
}

/// Structural copy of a token sequence; the copy has the same image.
pub fn clone_tokens(ts: &Vec<Token>) -> (r: Vec<Token>)
    ensures
        tokens_view(r@) == tokens_view(ts@),
    decreases ts@,
{
    let mut out: Vec<Token> = Vec::new();
    let mut i: usize = 0;
    while i < ts.len()
        invariant
            i <= ts.len(),
            out@.len() == i,
            forall|j: int| 0 <= j < i ==> token_view(out@[j]) == token_view(ts@[j]),
        decreases ts@.len() - i,
    {
        let c = clone_token(&ts[i]);
        out.push(c);
        i = i + 1;
    }
    proof {
        broadcast use lemma_tokens_view_len, lemma_tokens_view_index;

        assert(tokens_view(out@) =~= tokens_view(ts@));
    }
    out
}

} // verus!
