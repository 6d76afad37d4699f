//! The substitution engine: one instantiation of a template for one value.
//!
//! Two passes run in a fixed order, each recursing into nested groups.
//! Pass 1 (identifier splice) rewrites every `prefix ~ variable` triple into
//! one identifier spelling `prefix` followed by the value's decimal
//! rendering.  Pass 2 (literal substitution) rewrites every remaining bare
//! identifier equal to the variable into a decimal literal.  Running pass 2
//! first would destroy splice triples, so the order is part of the contract.

use vstd::prelude::*;

use crate::numeral::dec_rep;
use crate::token::clone_token;
use crate::token::group_tokens_view;
use crate::token::ident_name;
use crate::token::punct_is;
use crate::token::token_pos;
use crate::token::token_view;
use crate::token::tokens_view;
use crate::token::SourceSpan;
use crate::token::Token;
use crate::token::TokenV;
use crate::numeral::render_dec;

verus! {

broadcast use group_tokens_view;

/// Does a splice triple `identifier '~' variable` begin at index `i`?
pub open spec fn splice_at(ts: Seq<TokenV>, i: int, var: Seq<char>) -> bool {
    &&& 0 <= i
    &&& i + 2 < ts.len()
    &&& ts[i] is Identifier
    &&& punct_is(ts[i + 1], '~')
    &&& ts[i + 2] is Identifier
    &&& ident_name(ts[i + 2]) == var
}

/// The identifier a matched splice triple turns into: the prefix's name
/// joined with the value's decimal rendering, at the prefix's position.
pub open spec fn spliced_ident(ts: Seq<TokenV>, i: int, val: nat) -> TokenV {
    TokenV::Identifier { name: ident_name(ts[i]) + dec_rep(val), pos: token_pos(ts[i]) }
}

/// Pass 1 over `ts` from index `i` on: splice triples collapse to one
/// identifier, groups are entered, everything else passes through.
pub open spec fn splice_from(ts: Seq<TokenV>, i: int, var: Seq<char>, val: nat) -> Seq<TokenV>
    decreases ts, ts.len() - i,
{
    if i < 0 || i >= ts.len() {
        Seq::empty()
    } else if splice_at(ts, i, var) {
        seq![spliced_ident(ts, i, val)] + splice_from(ts, i + 3, var, val)
    } else {
        seq![splice_token(ts[i], var, val)] + splice_from(ts, i + 1, var, val)
    }
}

/// Pass 1 on a single token that did not start a triple.
pub open spec fn splice_token(t: TokenV, var: Seq<char>, val: nat) -> TokenV
    decreases t, 0nat,
{
    match t {
        TokenV::Group { delim, contents, pos } => TokenV::Group {
            delim,
            contents: splice_from(contents, 0, var, val),
            pos,
        },
        _ => t,
    }
}

/// Pass 2 on a single token: a bare identifier equal to the variable becomes
/// a decimal literal at the identifier's position; groups are entered.
pub open spec fn subst_token(t: TokenV, var: Seq<char>, val: nat) -> TokenV
    decreases t, 0nat,
{
    match t {
        TokenV::Identifier { name, pos } => if name == var {
            TokenV::Literal { text: dec_rep(val), pos }
        } else {
            t
        },
        TokenV::Group { delim, contents, pos } => TokenV::Group {
            delim,
            contents: subst_from(contents, 0, var, val),
            pos,
        },
        _ => t,
    }
}

/// Pass 2 over `ts` from index `i` on.
pub open spec fn subst_from(ts: Seq<TokenV>, i: int, var: Seq<char>, val: nat) -> Seq<TokenV>
    decreases ts, ts.len() - i,
{
    if i < 0 || i >= ts.len() {
        Seq::empty()
    } else {
        seq![subst_token(ts[i], var, val)] + subst_from(ts, i + 1, var, val)
    }
}

/// One instantiation of a template: pass 1, then pass 2 on its output.
pub open spec fn spec_expand_one(ts: Seq<TokenV>, var: Seq<char>, val: nat) -> Seq<TokenV> {
    subst_from(splice_from(ts, 0, var, val), 0, var, val)
}

/// When the triple starting at `i` matches, builds its replacement
/// identifier; `None` exactly when no triple starts at `i`.
fn try_splice(ts: &Vec<Token>, i: usize, var: &String, val: usize) -> (r: Option<Token>)
    requires
        i < ts@.len(),
    ensures
        match r {
            Some(t) => splice_at(tokens_view(ts@), i as int, var@) && token_view(t)
                == spliced_ident(tokens_view(ts@), i as int, val as nat),
            None => !splice_at(tokens_view(ts@), i as int, var@),
        },
{
    if ts.len() - i <= 2 {
        return None;
    }
    let prefix_name: &String;
    let prefix_pos: SourceSpan;
    match &ts[i] {
        Token::Identifier { name, pos } => {
            prefix_name = name;
            prefix_pos = *pos;
        },
        _ => {
            return None;
        },
    }
    match &ts[i + 1] {
        Token::Punctuation { ch, .. } => {
            if *ch != '~' {
                return None;
            }
        },
        _ => {
            return None;
        },
    }
    match &ts[i + 2] {
        Token::Identifier { name, .. } => {
            if !(*name == *var) {
                return None;
            }
        },
        _ => {
            return None;
        },
    }
    let mut new_name = prefix_name.clone();
    let rendered = render_dec(val);
    new_name.append(rendered.as_str());
    Some(Token::Identifier { name: new_name, pos: prefix_pos })
}

/// Pass 1, executable form.
pub fn splice_pass(ts: &Vec<Token>, var: &String, val: usize) -> (out: Vec<Token>)
    ensures
        tokens_view(out@) == splice_from(tokens_view(ts@), 0, var@, val as nat),
    decreases ts@,
{
    let ghost vts = tokens_view(ts@);
    let mut out: Vec<Token> = Vec::new();
    let mut i: usize = 0;
    while i < ts.len()
        invariant
            i <= ts@.len(),
            vts == tokens_view(ts@),
            splice_from(vts, 0, var@, val as nat) == tokens_view(out@) + splice_from(
                vts,
                i as int,
                var@,
                val as nat,
            ),
        decreases ts@.len() - i,
    {
        proof {
            assert(vts[i as int] == token_view(ts@[i as int]));
        }
        match try_splice(ts, i, var, val) {
            Some(t) => {
                let ghost prev = out@;
                out.push(t);
                proof {
                    let h = spliced_ident(vts, i as int, val as nat);
                    let rest = splice_from(vts, i as int + 3, var@, val as nat);
                    assert(splice_from(vts, i as int, var@, val as nat) == seq![h] + rest);
                    assert(tokens_view(prev).push(h) + rest =~= tokens_view(prev) + (seq![h]
                        + rest));
                }
                i = i + 3;
            },
            None => {
                let ghost prev = out@;
                match &ts[i] {
                    Token::Group { delim, contents, pos } => {
                        proof {
                            assert(decreases_to!(ts@ => contents@));
                        }
                        let inner = splice_pass(contents, var, val);
                        out.push(Token::Group { delim: *delim, contents: inner, pos: *pos });
                    },
                    other => {
                        out.push(clone_token(other));
                    },
                }
                proof {
                    let h = splice_token(vts[i as int], var@, val as nat);
                    assert(token_view(out@[prev.len() as int]) == h);
                    let rest = splice_from(vts, i as int + 1, var@, val as nat);
                    assert(splice_from(vts, i as int, var@, val as nat) == seq![h] + rest);
                    assert(tokens_view(prev).push(h) + rest =~= tokens_view(prev) + (seq![h]
                        + rest));
                }
                i = i + 1;
            },
        }
    }
    proof {
        assert(tokens_view(out@) + Seq::<TokenV>::empty() =~= tokens_view(out@));
    }
    out
}

/// Pass 2, executable form.
pub fn subst_pass(ts: &Vec<Token>, var: &String, val: usize) -> (out: Vec<Token>)
    ensures
        tokens_view(out@) == subst_from(tokens_view(ts@), 0, var@, val as nat),
    decreases ts@,
{
    let ghost vts = tokens_view(ts@);
    let mut out: Vec<Token> = Vec::new();
    let mut i: usize = 0;
    while i < ts.len()
        invariant
            i <= ts@.len(),
            vts == tokens_view(ts@),
            subst_from(vts, 0, var@, val as nat) == tokens_view(out@) + subst_from(
                vts,
                i as int,
                var@,
                val as nat,
            ),
        decreases ts@.len() - i,
    {
        proof {
            assert(vts[i as int] == token_view(ts@[i as int]));
        }
        let ghost prev = out@;
        match &ts[i] {
            Token::Identifier { name, pos } => {
                if *name == *var {
                    let text = render_dec(val);
                    out.push(Token::Literal { text, pos: *pos });
                } else {
                    out.push(Token::Identifier { name: name.clone(), pos: *pos });
                }
            },
            Token::Group { delim, contents, pos } => {
                proof {
                    assert(decreases_to!(ts@ => contents@));
                }
                let inner = subst_pass(contents, var, val);
                out.push(Token::Group { delim: *delim, contents: inner, pos: *pos });
            },
            other => {
                out.push(clone_token(other));
            },
        }
        proof {
            let h = subst_token(vts[i as int], var@, val as nat);
            assert(token_view(out@[prev.len() as int]) == h);
            let rest = subst_from(vts, i as int + 1, var@, val as nat);
            assert(subst_from(vts, i as int, var@, val as nat) == seq![h] + rest);
            assert(tokens_view(prev).push(h) + rest =~= tokens_view(prev) + (seq![h] + rest));
        }
        i = i + 1;
    }
    proof {
        assert(tokens_view(out@) + Seq::<TokenV>::empty() =~= tokens_view(out@));
    }
    out
}

/// One instantiation of `template` for the value `val`: the splice pass,
/// then the literal-substitution pass on its output.
pub fn expand_one(template: &Vec<Token>, var: &String, val: usize) -> (out: Vec<Token>)
    ensures
        tokens_view(out@) == spec_expand_one(tokens_view(template@), var@, val as nat),
{
    let spliced = splice_pass(template, var, val);
    subst_pass(&spliced, var, val)
}

/// The concatenation of one instantiation per value in `lo .. hi`, ascending.
pub open spec fn repeat_range(template: Seq<TokenV>, var: Seq<char>, lo: int, hi: int) -> Seq<
    TokenV,
>
    recommends
        0 <= lo,
    decreases hi - lo,
{
    if lo < 0 || lo >= hi {
        Seq::empty()
    } else {
        spec_expand_one(template, var, lo as nat) + repeat_range(template, var, lo + 1, hi)
    }
}

/// The upper bound the iteration actually runs to: one past `end` for an
/// inclusive range, `end` itself otherwise.
pub open spec fn effective_end(end: nat, inclusive: bool) -> int {
    if inclusive {
        end as int + 1
    } else {
        end as int
    }
}

/// Instantiates `template` once per value of the range, in ascending order,
/// and concatenates the results.
pub fn expand_range(
    template: &Vec<Token>,
    var: &String,
    start: usize,
    end: usize,
    inclusive: bool,
) -> (out: Vec<Token>)
    ensures
        tokens_view(out@) == repeat_range(
            tokens_view(template@),
            var@,
            start as int,
            effective_end(end as nat, inclusive),
        ),
{
    let ghost tv = tokens_view(template@);
    let ghost e: int = effective_end(end as nat, inclusive);
    let mut out: Vec<Token> = Vec::new();
    let mut v: usize = start;
    while v < end
        invariant
            start <= v,
            v <= end || v == start,
            tv == tokens_view(template@),
            e == effective_end(end as nat, inclusive),
            repeat_range(tv, var@, start as int, e) == tokens_view(out@) + repeat_range(
                tv,
                var@,
                v as int,
                e,
            ),
        decreases end - v,
    {
        let mut one = expand_one(template, var, v);
        proof {
            let head = spec_expand_one(tv, var@, v as nat);
            let rest = repeat_range(tv, var@, v as int + 1, e);
            assert(repeat_range(tv, var@, v as int, e) == head + rest);
            assert(tokens_view(out@) + (head + rest) =~= (tokens_view(out@) + head) + rest);
        }
        out.append(&mut one);
        v = v + 1;
    }
    if inclusive && start <= end {
        let mut one = expand_one(template, var, end);
        proof {
            let head = spec_expand_one(tv, var@, end as nat);
            let rest = repeat_range(tv, var@, end as int + 1, e);
            assert(repeat_range(tv, var@, end as int, e) == head + rest);
            assert(rest =~= Seq::<TokenV>::empty());
            assert(tokens_view(out@) + (head + rest) =~= (tokens_view(out@) + head) + rest);
            assert((tokens_view(out@) + head) + rest =~= tokens_view(out@) + head);
        }
        out.append(&mut one);
    }
    proof {
        if !(inclusive && start <= end) {
            assert(repeat_range(tv, var@, if start <= end {
                end as int
            } else {
                start as int
            }, e) =~= Seq::<TokenV>::empty());
        }
        assert(tokens_view(out@) + Seq::<TokenV>::empty() =~= tokens_view(out@));
    }
    out
}

} // verus!
