//! Properties of the engine, stated and proved once for all inputs: the
//! passes do not fire on a tree free of the loop variable, and every
//! expansion output is such a tree, so expanding is idempotent; one
//! instantiation mirrors the template's group structure exactly; the scan's
//! flag reports exactly whether a marker exists anywhere in the tree, and a
//! marker-free scan leaves the body unchanged.

use vstd::prelude::*;

use crate::scope::marker_at;
use crate::scope::scan_from;
use crate::scope::scan_token;
use crate::subst::spec_expand_one;
use crate::subst::splice_at;
use crate::subst::splice_from;
use crate::subst::splice_token;
use crate::subst::subst_from;
use crate::subst::subst_token;
use crate::token::Delimiter;
use crate::token::TokenV;

verus! {

/// Does the tree rooted in `t` contain no identifier named `var`?
pub open spec fn token_var_free(t: TokenV, var: Seq<char>) -> bool
    decreases t, 0nat,
{
    match t {
        TokenV::Identifier { name, .. } => name != var,
        TokenV::Group { contents, .. } => vars_free_from(contents, 0, var),
        _ => true,
    }
}

/// Do the trees in `ts`, from index `i` on, contain no identifier named
/// `var`?
pub open spec fn vars_free_from(ts: Seq<TokenV>, i: int, var: Seq<char>) -> bool
    decreases ts, ts.len() - i,
{
    if i < 0 || i >= ts.len() {
        true
    } else {
        token_var_free(ts[i], var) && vars_free_from(ts, i + 1, var)
    }
}

proof fn lemma_vars_free_index(ts: Seq<TokenV>, i: int, j: int, var: Seq<char>)
    requires
        vars_free_from(ts, i, var),
        0 <= i <= j < ts.len(),
    ensures
        token_var_free(ts[j], var),
    decreases j - i,
{
    if i < j {
        lemma_vars_free_index(ts, i + 1, j, var);
    }
}

proof fn lemma_splice_noop(ts: Seq<TokenV>, i: int, var: Seq<char>, val: nat)
    requires
        0 <= i <= ts.len(),
        vars_free_from(ts, i, var),
    ensures
        splice_from(ts, i, var, val) == ts.subrange(i, ts.len() as int),
    decreases ts, ts.len() - i,
{
    if i == ts.len() {
        assert(ts.subrange(i, ts.len() as int) =~= Seq::<TokenV>::empty());
    } else {
        if splice_at(ts, i, var) {
            lemma_vars_free_index(ts, i, i + 2, var);
            assert(false);
        }
        lemma_splice_token_noop(ts[i], var, val);
        lemma_splice_noop(ts, i + 1, var, val);
        assert(seq![ts[i]] + ts.subrange(i + 1, ts.len() as int) =~= ts.subrange(
            i,
            ts.len() as int,
        ));
    }
}

proof fn lemma_splice_token_noop(t: TokenV, var: Seq<char>, val: nat)
    requires
        token_var_free(t, var),
    ensures
        splice_token(t, var, val) == t,
    decreases t, 0nat,
{
    match t {
        TokenV::Group { delim, contents, pos } => {
            lemma_splice_noop(contents, 0, var, val);
            assert(contents.subrange(0, contents.len() as int) =~= contents);
            assert(splice_token(t, var, val) =~= t);
        },
        _ => {},
    }
}

proof fn lemma_subst_noop(ts: Seq<TokenV>, i: int, var: Seq<char>, val: nat)
    requires
        0 <= i <= ts.len(),
        vars_free_from(ts, i, var),
    ensures
        subst_from(ts, i, var, val) == ts.subrange(i, ts.len() as int),
    decreases ts, ts.len() - i,
{
    if i == ts.len() {
        assert(ts.subrange(i, ts.len() as int) =~= Seq::<TokenV>::empty());
    } else {
        lemma_subst_token_noop(ts[i], var, val);
        lemma_subst_noop(ts, i + 1, var, val);
        assert(seq![ts[i]] + ts.subrange(i + 1, ts.len() as int) =~= ts.subrange(
            i,
            ts.len() as int,
        ));
    }
}

proof fn lemma_subst_token_noop(t: TokenV, var: Seq<char>, val: nat)
    requires
        token_var_free(t, var),
    ensures
        subst_token(t, var, val) == t,
    decreases t, 0nat,
{
    match t {
        TokenV::Group { delim, contents, pos } => {
            lemma_subst_noop(contents, 0, var, val);
            assert(contents.subrange(0, contents.len() as int) =~= contents);
            assert(subst_token(t, var, val) =~= t);
        },
        _ => {},
    }
}

/// Running the splice pass and then the substitution pass over a tree that
/// holds no identifier equal to the loop variable — an already-expanded,
/// literal-only tree in particular — changes nothing: the passes never fire
/// twice on their own output.
pub proof fn lemma_pass_order_idempotent(ts: Seq<TokenV>, var: Seq<char>, val: nat)
    requires
        vars_free_from(ts, 0, var),
    ensures
        spec_expand_one(ts, var, val) == ts,
{
    lemma_splice_noop(ts, 0, var, val);
    assert(ts.subrange(0, ts.len() as int) =~= ts);
    lemma_subst_noop(ts, 0, var, val);
}

proof fn lemma_vars_free_tail(x: TokenV, rest: Seq<TokenV>, j: int, var: Seq<char>)
    requires
        0 <= j <= rest.len(),
    ensures
        vars_free_from(seq![x] + rest, j + 1, var) == vars_free_from(rest, j, var),
    decreases rest.len() - j,
{
    if j < rest.len() {
        assert((seq![x] + rest)[j + 1] == rest[j]);
        lemma_vars_free_tail(x, rest, j + 1, var);
    }
}

proof fn lemma_subst_output_var_free(ts: Seq<TokenV>, i: int, var: Seq<char>, val: nat)
    requires
        0 <= i,
    ensures
        vars_free_from(subst_from(ts, i, var, val), 0, var),
    decreases ts, ts.len() - i,
{
    if i < ts.len() {
        let h = subst_token(ts[i], var, val);
        let rest = subst_from(ts, i + 1, var, val);
        lemma_subst_token_output_var_free(ts[i], var, val);
        lemma_subst_output_var_free(ts, i + 1, var, val);
        assert((seq![h] + rest)[0] == h);
        lemma_vars_free_tail(h, rest, 0, var);
    }
}

proof fn lemma_subst_token_output_var_free(t: TokenV, var: Seq<char>, val: nat)
    ensures
        token_var_free(subst_token(t, var, val), var),
    decreases t, 0nat,
{
    match t {
        TokenV::Group { delim, contents, pos } => {
            lemma_subst_output_var_free(contents, 0, var, val);
        },
        _ => {},
    }
}

/// One instantiation leaves no bare occurrence of the loop variable behind,
/// so running the two passes again on an instantiation's output — with any
/// value — returns it unchanged: every expansion output is a fixed point.
pub proof fn lemma_expansion_output_is_fixed_point(
    ts: Seq<TokenV>,
    var: Seq<char>,
    val: nat,
    val2: nat,
)
    ensures
        spec_expand_one(spec_expand_one(ts, var, val), var, val2) == spec_expand_one(ts, var, val),
{
    lemma_subst_output_var_free(splice_from(ts, 0, var, val), 0, var, val);
    lemma_pass_order_idempotent(spec_expand_one(ts, var, val), var, val2);
}

/// The group skeleton of a token tree: one node per group, in order, each
/// holding its delimiter and the skeleton of its contents.  Leaf tokens
/// leave no trace.
#[verifier::ext_equal]
pub struct GroupShape {
    pub delim: Delimiter,
    pub inner: Seq<GroupShape>,
}

/// The skeleton a single token contributes: one node for a group, nothing
/// for a leaf.
pub open spec fn token_shape(t: TokenV) -> Seq<GroupShape>
    decreases t, 0nat,
{
    match t {
        TokenV::Group { delim, contents, .. } => seq![
            GroupShape { delim, inner: shape_from(contents, 0) },
        ],
        _ => Seq::empty(),
    }
}

/// The skeleton of the trees in `ts` from index `i` on.
pub open spec fn shape_from(ts: Seq<TokenV>, i: int) -> Seq<GroupShape>
    decreases ts, ts.len() - i,
{
    if i < 0 || i >= ts.len() {
        Seq::empty()
    } else {
        token_shape(ts[i]) + shape_from(ts, i + 1)
    }
}

proof fn lemma_shape_tail(x: TokenV, rest: Seq<TokenV>, j: int)
    requires
        0 <= j <= rest.len(),
    ensures
        shape_from(seq![x] + rest, j + 1) == shape_from(rest, j),
    decreases rest.len() - j,
{
    if j < rest.len() {
        assert((seq![x] + rest)[j + 1] == rest[j]);
        lemma_shape_tail(x, rest, j + 1);
    }
}

proof fn lemma_shape_cons(x: TokenV, rest: Seq<TokenV>)
    ensures
        shape_from(seq![x] + rest, 0) == token_shape(x) + shape_from(rest, 0),
{
    assert((seq![x] + rest)[0] == x);
    lemma_shape_tail(x, rest, 0);
}

proof fn lemma_splice_shape(ts: Seq<TokenV>, i: int, var: Seq<char>, val: nat)
    requires
        0 <= i,
    ensures
        shape_from(splice_from(ts, i, var, val), 0) == shape_from(ts, i),
    decreases ts, ts.len() - i,
{
    if i >= ts.len() {
    } else if splice_at(ts, i, var) {
        let h = crate::subst::spliced_ident(ts, i, val);
        let rest = splice_from(ts, i + 3, var, val);
        lemma_shape_cons(h, rest);
        lemma_splice_shape(ts, i + 3, var, val);
        assert(Seq::<GroupShape>::empty() + shape_from(rest, 0) =~= shape_from(rest, 0));
        // The three matched tokens are all leaves, so the input skeleton
        // from `i` is the skeleton from `i + 3`.
        assert(token_shape(ts[i]) =~= Seq::<GroupShape>::empty());
        assert(token_shape(ts[i + 1]) =~= Seq::<GroupShape>::empty());
        assert(token_shape(ts[i + 2]) =~= Seq::<GroupShape>::empty());
        assert(shape_from(ts, i) == token_shape(ts[i]) + shape_from(ts, i + 1));
        assert(shape_from(ts, i + 1) == token_shape(ts[i + 1]) + shape_from(ts, i + 2));
        assert(shape_from(ts, i + 2) == token_shape(ts[i + 2]) + shape_from(ts, i + 3));
        assert(Seq::<GroupShape>::empty() + shape_from(ts, i + 1) =~= shape_from(ts, i + 1));
        assert(Seq::<GroupShape>::empty() + shape_from(ts, i + 2) =~= shape_from(ts, i + 2));
        assert(Seq::<GroupShape>::empty() + shape_from(ts, i + 3) =~= shape_from(ts, i + 3));
    } else {
        let h = splice_token(ts[i], var, val);
        let rest = splice_from(ts, i + 1, var, val);
        lemma_shape_cons(h, rest);
        lemma_splice_token_shape(ts[i], var, val);
        lemma_splice_shape(ts, i + 1, var, val);
    }
}

proof fn lemma_splice_token_shape(t: TokenV, var: Seq<char>, val: nat)
    ensures
        token_shape(splice_token(t, var, val)) == token_shape(t),
    decreases t, 0nat,
{
    match t {
        TokenV::Group { delim, contents, pos } => {
            lemma_splice_shape(contents, 0, var, val);
            assert(token_shape(splice_token(t, var, val)) =~= token_shape(t));
        },
        _ => {},
    }
}

proof fn lemma_subst_shape(ts: Seq<TokenV>, i: int, var: Seq<char>, val: nat)
    requires
        0 <= i,
    ensures
        shape_from(subst_from(ts, i, var, val), 0) == shape_from(ts, i),
    decreases ts, ts.len() - i,
{
    if i >= ts.len() {
    } else {
        let h = subst_token(ts[i], var, val);
        let rest = subst_from(ts, i + 1, var, val);
        lemma_shape_cons(h, rest);
        lemma_subst_token_shape(ts[i], var, val);
        lemma_subst_shape(ts, i + 1, var, val);
    }
}

proof fn lemma_subst_token_shape(t: TokenV, var: Seq<char>, val: nat)
    ensures
        token_shape(subst_token(t, var, val)) == token_shape(t),
    decreases t, 0nat,
{
    match t {
        TokenV::Group { delim, contents, pos } => {
            lemma_subst_shape(contents, 0, var, val);
            assert(token_shape(subst_token(t, var, val)) =~= token_shape(t));
        },
        _ => {},
    }
}

/// One instantiation mirrors the template's group structure exactly: the
/// delimiter kinds and nesting of groups in `expand_one`'s output equal
/// those of the template; only leaf tokens change.
pub proof fn lemma_instantiation_preserves_shape(ts: Seq<TokenV>, var: Seq<char>, val: nat)
    ensures
        shape_from(spec_expand_one(ts, var, val), 0) == shape_from(ts, 0),
{
    lemma_splice_shape(ts, 0, var, val);
    lemma_subst_shape(splice_from(ts, 0, var, val), 0, var, val);
}

/// Does a marker triple occur at this level from index `i` on, or anywhere
/// inside a group here?
pub open spec fn has_marker_from(ts: Seq<TokenV>, i: int) -> bool
    decreases ts, ts.len() - i,
{
    if i < 0 || i >= ts.len() {
        false
    } else {
        marker_at(ts, i) || token_has_marker(ts[i]) || has_marker_from(ts, i + 1)
    }
}

/// Does a marker triple occur anywhere inside `t`?
pub open spec fn token_has_marker(t: TokenV) -> bool
    decreases t, 0nat,
{
    match t {
        TokenV::Group { contents, .. } => has_marker_from(contents, 0),
        _ => false,
    }
}

proof fn lemma_scan_finds(ts: Seq<TokenV>, i: int, var: Seq<char>, lo: int, hi: int)
    requires
        0 <= i,
    ensures
        scan_from(ts, i, false, var, lo, hi).0 == has_marker_from(ts, i),
    decreases ts, ts.len() - i,
{
    if i < ts.len() {
        if marker_at(ts, i) {
        } else {
            lemma_scan_token_finds(ts[i], var, lo, hi);
            lemma_scan_finds(ts, i + 1, var, lo, hi);
        }
    }
}

proof fn lemma_scan_token_finds(t: TokenV, var: Seq<char>, lo: int, hi: int)
    ensures
        scan_token(t, var, lo, hi).0 == token_has_marker(t),
    decreases t, 0nat,
{
    match t {
        TokenV::Group { delim, contents, pos } => {
            lemma_scan_finds(contents, 0, var, lo, hi);
        },
        _ => {},
    }
}

/// The scan's flag is true exactly when a marker triple occurs at the top
/// level or inside any nested group, however deep.  A marker inside a
/// nested group therefore takes precedence over the absence of one at the
/// current level: the driver falls back to whole-body repetition only when
/// no marker exists anywhere.
pub proof fn lemma_found_reports_markers(ts: Seq<TokenV>, var: Seq<char>, lo: int, hi: int)
    ensures
        scan_from(ts, 0, false, var, lo, hi).0 == has_marker_from(ts, 0),
{
    lemma_scan_finds(ts, 0, var, lo, hi);
}

proof fn lemma_scan_noop(ts: Seq<TokenV>, i: int, var: Seq<char>, lo: int, hi: int)
    requires
        0 <= i <= ts.len(),
        !has_marker_from(ts, i),
    ensures
        scan_from(ts, i, false, var, lo, hi).1 == ts.subrange(i, ts.len() as int),
    decreases ts, ts.len() - i,
{
    if i == ts.len() {
        assert(ts.subrange(i, ts.len() as int) =~= Seq::<TokenV>::empty());
    } else {
        lemma_scan_token_noop(ts[i], var, lo, hi);
        lemma_scan_noop(ts, i + 1, var, lo, hi);
        assert(seq![ts[i]] + ts.subrange(i + 1, ts.len() as int) =~= ts.subrange(
            i,
            ts.len() as int,
        ));
    }
}

proof fn lemma_scan_token_noop(t: TokenV, var: Seq<char>, lo: int, hi: int)
    requires
        !token_has_marker(t),
    ensures
        scan_token(t, var, lo, hi).1 == t,
    decreases t, 0nat,
{
    match t {
        TokenV::Group { delim, contents, pos } => {
            lemma_scan_noop(contents, 0, var, lo, hi);
            assert(contents.subrange(0, contents.len() as int) =~= contents);
            assert(scan_token(t, var, lo, hi).1 =~= t);
        },
        _ => {},
    }
}

/// When no marker occurs anywhere in the body, the scan leaves the body
/// unchanged: the whole original body is then the template to repeat.
pub proof fn lemma_no_marker_scan_is_identity(ts: Seq<TokenV>, var: Seq<char>, lo: int, hi: int)
    requires
        !has_marker_from(ts, 0),
    ensures
        scan_from(ts, 0, false, var, lo, hi).1 == ts,
{
    lemma_scan_noop(ts, 0, var, lo, hi);
    assert(ts.subrange(0, ts.len() as int) =~= ts);
}

} // verus!
