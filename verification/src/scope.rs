//! The scope detector: finds an explicitly marked local repeat region.
//!
//! A marker is the three-token pattern `'#' group '*'`.  The scan runs left
//! to right; the first marker at a level is acted upon — its group's contents
//! are instantiated once per range value in place of the three tokens — and
//! any further marker at the same level is left untouched as ordinary tokens.
//! A non-marker group is entered first, so a marker inside a nested group
//! takes precedence over the absence of one at the current level.  Everything
//! outside a marker is emitted exactly once.

use vstd::prelude::*;

use crate::subst::effective_end;
use crate::subst::expand_range;
use crate::subst::repeat_range;
use crate::token::clone_token;
use crate::token::group_contents;
use crate::token::group_tokens_view;
use crate::token::punct_is;
use crate::token::token_view;
use crate::token::tokens_view;
use crate::token::Token;
use crate::token::TokenV;

verus! {

broadcast use group_tokens_view;

/// Does a marker triple `'#' group '*'` begin at index `i`?
pub open spec fn marker_at(ts: Seq<TokenV>, i: int) -> bool {
    &&& 0 <= i
    &&& i + 2 < ts.len()
    &&& punct_is(ts[i], '#')
    &&& ts[i + 1] is Group
    &&& punct_is(ts[i + 2], '*')
}

/// The scan over `ts` from index `i` on.  `armed` records that a marker was
/// already acted upon at this level, so a later one passes through untouched.
/// The first component reports whether a marker was found at this level or
/// inside any nested group; the second is the rewritten sequence.
pub open spec fn scan_from(
    ts: Seq<TokenV>,
    i: int,
    armed: bool,
    var: Seq<char>,
    lo: int,
    hi: int,
) -> (bool, Seq<TokenV>)
    decreases ts, ts.len() - i,
{
    if i < 0 || i >= ts.len() {
        (false, Seq::empty())
    } else if !armed && marker_at(ts, i) {
        let expanded = repeat_range(group_contents(ts[i + 1]), var, lo, hi);
        let rest = scan_from(ts, i + 3, true, var, lo, hi);
        (true, expanded + rest.1)
    } else {
        let head = scan_token(ts[i], var, lo, hi);
        let rest = scan_from(ts, i + 1, armed, var, lo, hi);
        (head.0 || rest.0, seq![head.1] + rest.1)
    }
}

/// The scan on a single token that is not part of a marker: a group is
/// entered with a fresh level, everything else passes through.
pub open spec fn scan_token(t: TokenV, var: Seq<char>, lo: int, hi: int) -> (bool, TokenV)
    decreases t, 0nat,
{
    match t {
        TokenV::Group { delim, contents, pos } => {
            let inner = scan_from(contents, 0, false, var, lo, hi);
            (inner.0, TokenV::Group { delim, contents: inner.1, pos })
        },
        _ => (false, t),
    }
}

/// When a marker triple begins at `i`, borrows its group's contents;
/// `None` exactly when no marker begins there.
fn marker_group_at<'a>(ts: &'a Vec<Token>, i: usize) -> (r: Option<&'a Vec<Token>>)
    requires
        i < ts@.len(),
    ensures
        match r {
            Some(g) => marker_at(tokens_view(ts@), i as int) && tokens_view(g@) == group_contents(
                tokens_view(ts@)[i as int + 1],
            ),
            None => !marker_at(tokens_view(ts@), i as int),
        },
{
    if ts.len() - i <= 2 {
        return None;
    }
    match &ts[i] {
        Token::Punctuation { ch, .. } => {
            if *ch != '#' {
                return None;
            }
        },
        _ => {
            return None;
        },
    }
    match &ts[i + 2] {
        Token::Punctuation { ch, .. } => {
            if *ch != '*' {
                return None;
            }
        },
        _ => {
            return None;
        },
    }
    match &ts[i + 1] {
        Token::Group { contents, .. } => Some(contents),
        _ => None,
    }
}

/// Rewrites `body` by instantiating each level's first marker region once
/// per range value; reports whether any marker was found.
pub fn expand_marked(
    body: &Vec<Token>,
    var: &String,
    start: usize,
    end: usize,
    inclusive: bool,
) -> (r: (bool, Vec<Token>))
    ensures
        ({
            let s = scan_from(
                tokens_view(body@),
                0,
                false,
                var@,
                start as int,
                effective_end(end as nat, inclusive),
            );
            r.0 == s.0 && tokens_view(r.1@) == s.1
        }),
    decreases body@,
{
    let ghost vts = tokens_view(body@);
    let ghost lo: int = start as int;
    let ghost hi: int = effective_end(end as nat, inclusive);
    let mut out: Vec<Token> = Vec::new();
    let mut found = false;
    let mut armed = false;
    let mut i: usize = 0;
    while i < body.len()
        invariant
            i <= body@.len(),
            vts == tokens_view(body@),
            lo == start as int,
            hi == effective_end(end as nat, inclusive),
            scan_from(vts, 0, false, var@, lo, hi).1 == tokens_view(out@) + scan_from(
                vts,
                i as int,
                armed,
                var@,
                lo,
                hi,
            ).1,
            scan_from(vts, 0, false, var@, lo, hi).0 == (found || scan_from(
                vts,
                i as int,
                armed,
                var@,
                lo,
                hi,
            ).0),
        decreases body@.len() - i,
    {
        proof {
            assert(vts[i as int] == token_view(body@[i as int]));
        }
        let mg = if armed {
            None
        } else {
            marker_group_at(body, i)
        };
        match mg {
            Some(region) => {
                let mut expanded = expand_range(region, var, start, end, inclusive);
                let ghost prev = out@;
                proof {
                    let head = repeat_range(group_contents(vts[i as int + 1]), var@, lo, hi);
                    let rest = scan_from(vts, i as int + 3, true, var@, lo, hi);
                    assert(scan_from(vts, i as int, armed, var@, lo, hi).1 == head + rest.1);
                    assert(tokens_view(prev) + (head + rest.1) =~= (tokens_view(prev) + head)
                        + rest.1);
                }
                out.append(&mut expanded);
                found = true;
                armed = true;
                i = i + 3;
            },
            None => {
                let ghost prev = out@;
                let mut sub_found = false;
                match &body[i] {
                    Token::Group { delim, contents, pos } => {
                        proof {
                            assert(decreases_to!(body@ => contents@));
                        }
                        let inner = expand_marked(contents, var, start, end, inclusive);
                        sub_found = inner.0;
                        out.push(Token::Group { delim: *delim, contents: inner.1, pos: *pos });
                    },
                    other => {
                        out.push(clone_token(other));
                    },
                }
                proof {
                    let head = scan_token(vts[i as int], var@, lo, hi);
                    assert(token_view(out@[prev.len() as int]) == head.1);
                    assert(sub_found == head.0);
                    let rest = scan_from(vts, i as int + 1, armed, var@, lo, hi);
                    assert(scan_from(vts, i as int, armed, var@, lo, hi).1 == seq![head.1]
                        + rest.1);
                    assert(tokens_view(prev).push(head.1) + rest.1 =~= tokens_view(prev) + (
                    seq![head.1] + rest.1));
                }
                if sub_found {
                    found = true;
                }
                i = i + 1;
            },
        }
    }
    proof {
        assert(tokens_view(out@) + Seq::<TokenV>::empty() =~= tokens_view(out@));
    }
    (found, out)
}

} // verus!
