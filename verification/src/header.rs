//! The header parser: reads `variable in start .. [=] end { body }` off the
//! front of an invocation and produces a `RangeSpec` plus the body tokens.
//!
//! Every failure is mapped to one `ErrorKind` and carries the position of
//! the offending token, or — when the token is missing altogether — the
//! empty span immediately after the last token present.

use vstd::prelude::*;

use crate::numeral::dec_value;
use crate::numeral::is_dec_numeral;
use crate::numeral::parse_dec;
use crate::token::clone_tokens;
use crate::token::group_contents;
use crate::token::group_tokens_view;
use crate::token::ident_name;
use crate::token::lit_text;
use crate::token::position_of;
use crate::token::punct_is;
use crate::token::token_pos;
use crate::token::token_view;
use crate::token::tokens_view;
use crate::token::SourceSpan;
use crate::token::Token;
use crate::token::TokenV;

verus! {

broadcast use group_tokens_view;

/// The conditions under which a header fails to parse.
#[derive(Clone, Copy, PartialEq, Eq, Structural, Debug)]
pub enum ErrorKind {
    /// The first token is not an identifier.
    MissingLoopVariable,
    /// The second token is not the identifier `in`.
    MissingInKeyword,
    /// The range-start token is not a parsable non-negative decimal literal.
    InvalidRangeStart,
    /// The two required `.` punctuation tokens are absent or malformed.
    MissingRangeDots,
    /// The range-end token is neither a parsable literal nor a group holding
    /// exactly one such literal.
    InvalidRangeEnd,
    /// The token after the range is not a delimited group.
    MissingBodyGroup,
}

/// A parse failure: which condition failed, and where.
#[derive(Clone, Copy, PartialEq, Eq, Structural, Debug)]
pub struct Diagnostic {
    pub kind: ErrorKind,
    pub pos: SourceSpan,
}

pub open spec fn spec_message(kind: ErrorKind) -> Seq<char> {
    match kind {
        ErrorKind::MissingLoopVariable => "expected a loop variable identifier"@,
        ErrorKind::MissingInKeyword => "expected the keyword `in`"@,
        ErrorKind::InvalidRangeStart => "expected a non-negative integer range start"@,
        ErrorKind::MissingRangeDots => "expected `..` after the range start"@,
        ErrorKind::InvalidRangeEnd => "expected a non-negative integer range end"@,
        ErrorKind::MissingBodyGroup => "expected a delimited body group"@,
    }
}

impl Diagnostic {
    /// A rendering of the failed condition for the host to surface.
    pub fn message(&self) -> (r: String)
        ensures
            r@ == spec_message(self.kind),
    {
        match self.kind {
            ErrorKind::MissingLoopVariable => String::from_str(
                "expected a loop variable identifier",
            ),
            ErrorKind::MissingInKeyword => String::from_str("expected the keyword `in`"),
            ErrorKind::InvalidRangeStart => String::from_str(
                "expected a non-negative integer range start",
            ),
            ErrorKind::MissingRangeDots => String::from_str("expected `..` after the range start"),
            ErrorKind::InvalidRangeEnd => String::from_str(
                "expected a non-negative integer range end",
            ),
            ErrorKind::MissingBodyGroup => String::from_str("expected a delimited body group"),
        }
    }
}

/// The parsed header: loop variable, bounds, and inclusivity.  An empty
/// range (`start == end` exclusive, or `start > end`) is legal and simply
/// yields zero instantiations.
pub struct RangeSpec {
    pub var_name: String,
    pub var_pos: SourceSpan,
    pub start: usize,
    pub end: usize,
    pub inclusive: bool,
}

/// Mathematical image of a `RangeSpec`.
#[verifier::ext_equal]
pub struct RangeSpecV {
    pub var_name: Seq<char>,
    pub var_pos: SourceSpan,
    pub start: nat,
    pub end: nat,
    pub inclusive: bool,
}

impl View for RangeSpec {
    type V = RangeSpecV;

    open spec fn view(&self) -> RangeSpecV {
        RangeSpecV {
            var_name: self.var_name@,
            var_pos: self.var_pos,
            start: self.start as nat,
            end: self.end as nat,
            inclusive: self.inclusive,
        }
    }
}

/// What parsing a header yields: a range plus the body tokens, or one
/// diagnostic.
#[verifier::ext_equal]
pub enum HeaderV {
    Parsed { rspec: RangeSpecV, body: Seq<TokenV> },
    Failed { kind: ErrorKind, pos: SourceSpan },
}

/// Where to report a token expected at index `i`: the token there, or the
/// empty span just after the last token present, or the zero span when the
/// input is empty.
pub open spec fn expected_pos(ts: Seq<TokenV>, i: int) -> SourceSpan {
    if 0 <= i < ts.len() {
        token_pos(ts[i])
    } else if ts.len() > 0 {
        token_pos(ts[ts.len() - 1]).spec_end()
    } else {
        SourceSpan::spec_zero()
    }
}

/// Is `t` a literal spelling a decimal value that fits the machine?
pub open spec fn usable_bound(t: TokenV) -> bool {
    &&& t is Literal
    &&& is_dec_numeral(lit_text(t))
    &&& dec_value(lit_text(t)) <= usize::MAX
}

/// May `t` stand as the range end: a usable literal, or a group holding
/// exactly one usable literal?
pub open spec fn end_token_ok(t: TokenV) -> bool {
    ||| usable_bound(t)
    ||| (t is Group && group_contents(t).len() == 1 && usable_bound(group_contents(t)[0]))
}

pub open spec fn end_token_value(t: TokenV) -> nat
    recommends
        end_token_ok(t),
{
    if t is Literal {
        dec_value(lit_text(t))
    } else {
        dec_value(lit_text(group_contents(t)[0]))
    }
}

/// The header grammar, as one total function: the tokens, in order, must be
/// the loop variable, the keyword `in`, the start literal, two `.` tokens,
/// an optional `=` making the range inclusive, the end token, and the body
/// group.  Tokens after the body group are ignored.
pub open spec fn parse_header_spec(ts: Seq<TokenV>) -> HeaderV {
    if !(ts.len() > 0 && ts[0] is Identifier) {
        HeaderV::Failed { kind: ErrorKind::MissingLoopVariable, pos: expected_pos(ts, 0) }
    } else if !(ts.len() > 1 && ts[1] is Identifier && ident_name(ts[1]) == "in"@) {
        HeaderV::Failed { kind: ErrorKind::MissingInKeyword, pos: expected_pos(ts, 1) }
    } else if !(ts.len() > 2 && usable_bound(ts[2])) {
        HeaderV::Failed { kind: ErrorKind::InvalidRangeStart, pos: expected_pos(ts, 2) }
    } else if !(ts.len() > 3 && punct_is(ts[3], '.')) {
        HeaderV::Failed { kind: ErrorKind::MissingRangeDots, pos: expected_pos(ts, 3) }
    } else if !(ts.len() > 4 && punct_is(ts[4], '.')) {
        HeaderV::Failed { kind: ErrorKind::MissingRangeDots, pos: expected_pos(ts, 4) }
    } else {
        let inclusive = ts.len() > 5 && punct_is(ts[5], '=');
        let j: int = if inclusive {
            6
        } else {
            5
        };
        if !(ts.len() > j && end_token_ok(ts[j])) {
            HeaderV::Failed { kind: ErrorKind::InvalidRangeEnd, pos: expected_pos(ts, j) }
        } else if !(ts.len() > j + 1 && ts[j + 1] is Group) {
            HeaderV::Failed { kind: ErrorKind::MissingBodyGroup, pos: expected_pos(ts, j + 1) }
        } else {
            HeaderV::Parsed {
                rspec: RangeSpecV {
                    var_name: ident_name(ts[0]),
                    var_pos: token_pos(ts[0]),
                    start: dec_value(lit_text(ts[2])),
                    end: end_token_value(ts[j]),
                    inclusive,
                },
                body: group_contents(ts[j + 1]),
            }
        }
    }
}

/// Where to report a token expected at index `i`, executable form.
fn expected_pos_exec(ts: &Vec<Token>, i: usize) -> (r: SourceSpan)
    ensures
        r == expected_pos(tokens_view(ts@), i as int),
{
    if i < ts.len() {
        position_of(&ts[i])
    } else if ts.len() > 0 {
        position_of(&ts[ts.len() - 1]).end()
    } else {
        SourceSpan::zero()
    }
}

/// Reads a range-end token: `Some` with its value exactly when the token is
/// a usable literal or a group holding exactly one usable literal.
fn read_end_token(t: &Token) -> (r: Option<usize>)
    ensures
        match r {
            Some(v) => end_token_ok(token_view(*t)) && v as nat == end_token_value(token_view(*t)),
            None => !end_token_ok(token_view(*t)),
        },
{
    match t {
        Token::Literal { text, .. } => parse_dec(text),
        Token::Group { contents, .. } => {
            proof {
                assert(group_contents(token_view(*t)) == tokens_view(contents@));
                crate::token::lemma_tokens_view_len(contents@);
            }
            if contents.len() != 1 {
                return None;
            }
            proof {
                assert(tokens_view(contents@)[0] == token_view(contents@[0]));
            }
            match &contents[0] {
                Token::Literal { text, .. } => parse_dec(text),
                _ => None,
            }
        },
        _ => None,
    }
}

/// Parses the header off the front of `input`; on success the returned body
/// is a copy of the body group's contents.
pub fn parse_header(input: &Vec<Token>) -> (r: Result<(RangeSpec, Vec<Token>), Diagnostic>)
    ensures
        match r {
            Ok(p) => parse_header_spec(tokens_view(input@)) == (HeaderV::Parsed {
                rspec: p.0@,
                body: tokens_view(p.1@),
            }),
            Err(d) => parse_header_spec(tokens_view(input@)) == (HeaderV::Failed {
                kind: d.kind,
                pos: d.pos,
            }),
        },
{
    let ghost vts = tokens_view(input@);
    proof {
        assert forall|k: int| 0 <= k < input@.len() implies #[trigger] vts[k] == token_view(
            input@[k],
        ) by {}
    }
    // The loop variable.
    if input.len() == 0 {
        return Err(
            Diagnostic { kind: ErrorKind::MissingLoopVariable, pos: expected_pos_exec(input, 0) },
        );
    }
    let var_name: String;
    let var_pos: SourceSpan;
    match &input[0] {
        Token::Identifier { name, pos } => {
            var_name = name.clone();
            var_pos = *pos;
        },
        _ => {
            return Err(
                Diagnostic {
                    kind: ErrorKind::MissingLoopVariable,
                    pos: expected_pos_exec(input, 0),
                },
            );
        },
    }
    // The keyword `in`.
    let mut in_ok = false;
    if input.len() > 1 {
        match &input[1] {
            Token::Identifier { name, .. } => {
                let kw = String::from_str("in");
                if *name == kw {
                    in_ok = true;
                }
            },
            _ => {},
        }
    }
    if !in_ok {
        return Err(
            Diagnostic { kind: ErrorKind::MissingInKeyword, pos: expected_pos_exec(input, 1) },
        );
    }
    // The range start.
    let mut start_read: Option<usize> = None;
    if input.len() > 2 {
        match &input[2] {
            Token::Literal { text, .. } => {
                start_read = parse_dec(text);
            },
            _ => {},
        }
    }
    let start: usize;
    match start_read {
        Some(v) => {
            start = v;
        },
        None => {
            return Err(
                Diagnostic {
                    kind: ErrorKind::InvalidRangeStart,
                    pos: expected_pos_exec(input, 2),
                },
            );
        },
    }
    // The two dots.
    let mut first_dot = false;
    if input.len() > 3 {
        match &input[3] {
            Token::Punctuation { ch, .. } => {
                if *ch == '.' {
                    first_dot = true;
                }
            },
            _ => {},
        }
    }
    if !first_dot {
        return Err(
            Diagnostic { kind: ErrorKind::MissingRangeDots, pos: expected_pos_exec(input, 3) },
        );
    }
    let mut second_dot = false;
    if input.len() > 4 {
        match &input[4] {
            Token::Punctuation { ch, .. } => {
                if *ch == '.' {
                    second_dot = true;
                }
            },
            _ => {},
        }
    }
    if !second_dot {
        return Err(
            Diagnostic { kind: ErrorKind::MissingRangeDots, pos: expected_pos_exec(input, 4) },
        );
    }
    // The optional `=` marking the range inclusive.
    let mut inclusive = false;
    if input.len() > 5 {
        match &input[5] {
            Token::Punctuation { ch, .. } => {
                if *ch == '=' {
                    inclusive = true;
                }
            },
            _ => {},
        }
    }
    let j: usize = if inclusive {
        6
    } else {
        5
    };
    // The range end.
    let mut end_read: Option<usize> = None;
    if input.len() > j {
        end_read = read_end_token(&input[j]);
    }
    let end: usize;
    match end_read {
        Some(v) => {
            end = v;
        },
        None => {
            return Err(
                Diagnostic { kind: ErrorKind::InvalidRangeEnd, pos: expected_pos_exec(input, j) },
            );
        },
    }
    // The body group.
    if input.len() > j + 1 {
        match &input[j + 1] {
            Token::Group { contents, .. } => {
                let body = clone_tokens(contents);
                return Ok(
                    (RangeSpec { var_name, var_pos, start, end, inclusive }, body),
                );
            },
            _ => {},
        }
    }
    Err(Diagnostic { kind: ErrorKind::MissingBodyGroup, pos: expected_pos_exec(input, j + 1) })
}

} // verus!
