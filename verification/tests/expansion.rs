//! End-to-end behaviour of the template-expansion engine on concrete trees.

use template_expand::expander::expand;
use template_expand::header::ErrorKind;
use template_expand::numeral::parse_dec;
use template_expand::numeral::render_dec;
use template_expand::subst::expand_one;
use template_expand::token::Delimiter;
use template_expand::token::SourceSpan;
use template_expand::token::Token;

fn sp(n: usize) -> SourceSpan {
    SourceSpan { lo: n, hi: n + 1 }
}

fn ident(s: &str, n: usize) -> Token {
    Token::Identifier { name: s.to_string(), pos: sp(n) }
}

fn lit(s: &str, n: usize) -> Token {
    Token::Literal { text: s.to_string(), pos: sp(n) }
}

fn punct(c: char, n: usize) -> Token {
    Token::Punctuation { ch: c, pos: sp(n) }
}

fn group(d: Delimiter, contents: Vec<Token>, n: usize) -> Token {
    Token::Group { delim: d, contents, pos: sp(n) }
}

/// `var in start .. end { body }`, with an optional `=` before the end
/// token; header tokens sit at positions 0 through 5 (6 with the `=`).
fn invocation(var: &str, start: &str, inclusive: bool, end: Token, body: Vec<Token>) -> Vec<Token> {
    let mut ts = vec![
        ident(var, 0),
        ident("in", 1),
        lit(start, 2),
        punct('.', 3),
        punct('.', 4),
    ];
    let mut n: usize = 5;
    if inclusive {
        ts.push(punct('=', 5));
        n = 6;
    }
    ts.push(end);
    ts.push(group(Delimiter::Brace, body, n + 1));
    ts
}

#[test]
fn exclusive_range_counts() {
    let input = invocation("N", "0", false, lit("3", 5), vec![ident("N", 7)]);
    let out = expand(&input).unwrap();
    assert_eq!(out, vec![lit("0", 7), lit("1", 7), lit("2", 7)]);
}

#[test]
fn inclusive_range_counts() {
    let input = invocation("N", "0", true, lit("3", 6), vec![ident("N", 8)]);
    let out = expand(&input).unwrap();
    assert_eq!(out, vec![lit("0", 8), lit("1", 8), lit("2", 8), lit("3", 8)]);
}

#[test]
fn empty_range_yields_empty_output() {
    let input = invocation("N", "5", false, lit("5", 5), vec![ident("N", 7)]);
    let out = expand(&input).unwrap();
    assert_eq!(out, Vec::<Token>::new());
}

#[test]
fn reversed_inclusive_range_yields_empty_output() {
    let input = invocation("N", "5", true, lit("3", 6), vec![ident("N", 8)]);
    let out = expand(&input).unwrap();
    assert_eq!(out, Vec::<Token>::new());
}

#[test]
fn bare_variable_substituted_inside_group() {
    // value(N) for N in 0..2 produces value(0) value(1).
    let body = vec![ident("value", 7), group(Delimiter::Paren, vec![ident("N", 8)], 9)];
    let input = invocation("N", "0", false, lit("2", 5), body);
    let out = expand(&input).unwrap();
    assert_eq!(
        out,
        vec![
            ident("value", 7),
            group(Delimiter::Paren, vec![lit("0", 8)], 9),
            ident("value", 7),
            group(Delimiter::Paren, vec![lit("1", 8)], 9),
        ]
    );
}

#[test]
fn identifier_containing_variable_name_untouched() {
    // Only a standalone token equal to the variable is substituted.
    let body = vec![ident("item_N", 7), ident("N", 8)];
    let input = invocation("N", "1", false, lit("2", 5), body);
    let out = expand(&input).unwrap();
    assert_eq!(out, vec![ident("item_N", 7), lit("1", 8)]);
}

#[test]
fn triple_with_other_suffix_not_spliced() {
    // x ~ M is left alone when M is not the loop variable.
    let body = vec![ident("x", 7), punct('~', 8), ident("M", 9)];
    let input = invocation("N", "0", false, lit("1", 5), body);
    let out = expand(&input).unwrap();
    assert_eq!(out, vec![ident("x", 7), punct('~', 8), ident("M", 9)]);
}

#[test]
fn literal_prefix_triple_not_spliced() {
    // Only identifier-punct-identifier triples splice: a literal before the
    // `~` leaves the triple alone, though the bare variable still
    // substitutes.
    let body = vec![lit("1", 7), punct('~', 8), ident("N", 9)];
    let input = invocation("N", "2", false, lit("3", 5), body);
    let out = expand(&input).unwrap();
    assert_eq!(out, vec![lit("1", 7), punct('~', 8), lit("2", 9)]);
}

#[test]
fn triple_with_other_punct_not_spliced() {
    // x + N substitutes the variable but joins nothing.
    let body = vec![ident("x", 7), punct('+', 8), ident("N", 9)];
    let input = invocation("N", "4", false, lit("5", 5), body);
    let out = expand(&input).unwrap();
    assert_eq!(out, vec![ident("x", 7), punct('+', 8), lit("4", 9)]);
}

#[test]
fn identifier_splicing_produces_joined_identifier() {
    // f~N() with value 3 produces f3(); the new identifier carries the
    // prefix's position.
    let body = vec![
        ident("f", 7),
        punct('~', 8),
        ident("N", 9),
        group(Delimiter::Paren, vec![], 10),
    ];
    let input = invocation("N", "3", false, lit("4", 5), body);
    let out = expand(&input).unwrap();
    assert_eq!(out, vec![ident("f3", 7), group(Delimiter::Paren, vec![], 10)]);
}

#[test]
fn splice_runs_before_substitution() {
    // f~N N: the triple splices first, then the remaining bare N still
    // substitutes; substituting first would have broken the triple.
    let body = vec![ident("f", 7), punct('~', 8), ident("N", 9), ident("N", 10)];
    let input = invocation("N", "2", false, lit("3", 5), body);
    let out = expand(&input).unwrap();
    assert_eq!(out, vec![ident("f2", 7), lit("2", 10)]);
}

#[test]
fn top_level_marker_repeats_only_marked_region() {
    // head #( N )* tail: the surrounding tokens appear exactly once.
    let body = vec![
        ident("head", 7),
        punct('#', 8),
        group(Delimiter::Paren, vec![ident("N", 9)], 10),
        punct('*', 11),
        ident("tail", 12),
    ];
    let input = invocation("N", "0", false, lit("2", 5), body);
    let out = expand(&input).unwrap();
    assert_eq!(
        out,
        vec![ident("head", 7), lit("0", 9), lit("1", 9), ident("tail", 12)]
    );
}

#[test]
fn nested_marker_takes_precedence_over_absent_top_level() {
    // before ( #( x~N )* ) after: only the nested region repeats, the
    // content outside that nested group stays single-copy.
    let inner = vec![
        punct('#', 8),
        group(Delimiter::Paren, vec![ident("x", 9), punct('~', 10), ident("N", 11)], 12),
        punct('*', 13),
    ];
    let body = vec![
        ident("before", 7),
        group(Delimiter::Bracket, inner, 14),
        ident("after", 15),
    ];
    let input = invocation("N", "0", false, lit("2", 5), body);
    let out = expand(&input).unwrap();
    assert_eq!(
        out,
        vec![
            ident("before", 7),
            group(Delimiter::Bracket, vec![ident("x0", 9), ident("x1", 9)], 14),
            ident("after", 15),
        ]
    );
}

#[test]
fn second_marker_at_same_level_left_untouched() {
    let body = vec![
        punct('#', 7),
        group(Delimiter::Paren, vec![ident("N", 8)], 9),
        punct('*', 10),
        punct('#', 11),
        group(Delimiter::Paren, vec![ident("N", 12)], 13),
        punct('*', 14),
    ];
    let input = invocation("N", "0", false, lit("2", 5), body);
    let out = expand(&input).unwrap();
    assert_eq!(
        out,
        vec![
            lit("0", 8),
            lit("1", 8),
            punct('#', 11),
            group(Delimiter::Paren, vec![ident("N", 12)], 13),
            punct('*', 14),
        ]
    );
}

#[test]
fn partial_marker_passes_through_as_tokens() {
    // A '#' not followed by a group and a '*' is ordinary punctuation.
    let body = vec![punct('#', 7), ident("N", 8)];
    let input = invocation("N", "3", false, lit("4", 5), body);
    let out = expand(&input).unwrap();
    assert_eq!(out, vec![punct('#', 7), lit("3", 8)]);
}

#[test]
fn expansion_output_is_fixed_point_of_passes() {
    // Running the two passes on an already-expanded, variable-free tree is
    // a no-op, whatever value is supplied.
    let template = vec![
        ident("f", 0),
        punct('~', 1),
        ident("N", 2),
        ident("N", 3),
        group(Delimiter::Brace, vec![ident("N", 4)], 5),
    ];
    let var = "N".to_string();
    let once = expand_one(&template, &var, 7);
    let twice = expand_one(&once, &var, 9);
    assert_eq!(twice, once);
}

#[test]
fn output_mirrors_template_group_structure() {
    // ( [ N ] { f~N } ): each instantiation reproduces the same delimiter
    // kinds and nesting; only leaf tokens change.
    let body = vec![group(
        Delimiter::Paren,
        vec![
            group(Delimiter::Bracket, vec![ident("N", 8)], 9),
            group(
                Delimiter::Brace,
                vec![ident("f", 10), punct('~', 11), ident("N", 12)],
                13,
            ),
        ],
        14,
    )];
    let input = invocation("N", "0", false, lit("2", 5), body);
    let out = expand(&input).unwrap();
    assert_eq!(
        out,
        vec![
            group(
                Delimiter::Paren,
                vec![
                    group(Delimiter::Bracket, vec![lit("0", 8)], 9),
                    group(Delimiter::Brace, vec![ident("f0", 10)], 13),
                ],
                14,
            ),
            group(
                Delimiter::Paren,
                vec![
                    group(Delimiter::Bracket, vec![lit("1", 8)], 9),
                    group(Delimiter::Brace, vec![ident("f1", 10)], 13),
                ],
                14,
            ),
        ]
    );
}

#[test]
fn end_bound_may_sit_in_a_group() {
    // A single-literal group as the range end, as a previous expansion step
    // would leave it.
    let end = group(Delimiter::Paren, vec![lit("2", 5)], 6);
    let input = invocation("N", "0", false, end, vec![ident("N", 8)]);
    let out = expand(&input).unwrap();
    assert_eq!(out, vec![lit("0", 8), lit("1", 8)]);
}

#[test]
fn missing_dots_reported_just_after_start_literal() {
    // `foo in 0` with nothing after: the missing dots are reported at the
    // empty span immediately after the start literal.
    let input = vec![ident("foo", 0), ident("in", 1), lit("0", 2)];
    let err = expand(&input).unwrap_err();
    assert_eq!(err.kind, ErrorKind::MissingRangeDots);
    assert_eq!(err.pos, SourceSpan { lo: 3, hi: 3 });
}

#[test]
fn missing_second_dot_reported() {
    let input = vec![ident("N", 0), ident("in", 1), lit("0", 2), punct('.', 3), punct(';', 4)];
    let err = expand(&input).unwrap_err();
    assert_eq!(err.kind, ErrorKind::MissingRangeDots);
    assert_eq!(err.pos, sp(4));
}

#[test]
fn missing_loop_variable_reported() {
    let err = expand(&Vec::new()).unwrap_err();
    assert_eq!(err.kind, ErrorKind::MissingLoopVariable);
    assert_eq!(err.pos, SourceSpan { lo: 0, hi: 0 });

    let err = expand(&vec![lit("3", 0)]).unwrap_err();
    assert_eq!(err.kind, ErrorKind::MissingLoopVariable);
    assert_eq!(err.pos, sp(0));
}

#[test]
fn missing_in_keyword_reported() {
    let input = vec![ident("N", 0), ident("within", 1), lit("0", 2)];
    let err = expand(&input).unwrap_err();
    assert_eq!(err.kind, ErrorKind::MissingInKeyword);
    assert_eq!(err.pos, sp(1));

    let input = vec![ident("N", 0)];
    let err = expand(&input).unwrap_err();
    assert_eq!(err.kind, ErrorKind::MissingInKeyword);
    assert_eq!(err.pos, SourceSpan { lo: 1, hi: 1 });
}

#[test]
fn invalid_range_start_reported() {
    let input = vec![ident("N", 0), ident("in", 1), ident("x", 2)];
    let err = expand(&input).unwrap_err();
    assert_eq!(err.kind, ErrorKind::InvalidRangeStart);
    assert_eq!(err.pos, sp(2));

    // A literal that is not a plain decimal numeral.
    let input = invocation("N", "0x10", false, lit("3", 5), vec![]);
    let err = expand(&input).unwrap_err();
    assert_eq!(err.kind, ErrorKind::InvalidRangeStart);
    assert_eq!(err.pos, sp(2));

    // A numeral too large for the machine.
    let input = invocation("N", "99999999999999999999999999", false, lit("3", 5), vec![]);
    let err = expand(&input).unwrap_err();
    assert_eq!(err.kind, ErrorKind::InvalidRangeStart);
    assert_eq!(err.pos, sp(2));
}

#[test]
fn invalid_range_end_reported() {
    let input = invocation("N", "0", false, punct(';', 5), vec![]);
    let err = expand(&input).unwrap_err();
    assert_eq!(err.kind, ErrorKind::InvalidRangeEnd);
    assert_eq!(err.pos, sp(5));

    // A group holding more than one token is not a usable end.
    let end = group(Delimiter::Paren, vec![lit("2", 5), lit("3", 6)], 7);
    let input = invocation("N", "0", false, end, vec![]);
    let err = expand(&input).unwrap_err();
    assert_eq!(err.kind, ErrorKind::InvalidRangeEnd);
}

#[test]
fn missing_body_group_reported() {
    let input = vec![
        ident("N", 0),
        ident("in", 1),
        lit("0", 2),
        punct('.', 3),
        punct('.', 4),
        lit("3", 5),
    ];
    let err = expand(&input).unwrap_err();
    assert_eq!(err.kind, ErrorKind::MissingBodyGroup);
    assert_eq!(err.pos, SourceSpan { lo: 6, hi: 6 });

    let mut input = input;
    input.push(ident("x", 6));
    let err = expand(&input).unwrap_err();
    assert_eq!(err.kind, ErrorKind::MissingBodyGroup);
    assert_eq!(err.pos, sp(6));
}

#[test]
fn diagnostic_message_names_the_condition() {
    let input = vec![ident("foo", 0), ident("in", 1), lit("0", 2)];
    let err = expand(&input).unwrap_err();
    assert_eq!(err.message(), "expected `..` after the range start");
}

#[test]
fn decimal_rendering_is_unsuffixed() {
    assert_eq!(render_dec(0), "0");
    assert_eq!(render_dec(7), "7");
    assert_eq!(render_dec(10), "10");
    assert_eq!(render_dec(1234567890), "1234567890");
}

#[test]
fn decimal_parsing_accepts_digit_strings_only() {
    assert_eq!(parse_dec(&"0".to_string()), Some(0));
    assert_eq!(parse_dec(&"007".to_string()), Some(7));
    assert_eq!(parse_dec(&"18446744073709551615".to_string()), Some(usize::MAX));
    assert_eq!(parse_dec(&"18446744073709551616".to_string()), None);
    assert_eq!(parse_dec(&"".to_string()), None);
    assert_eq!(parse_dec(&"1_0".to_string()), None);
    assert_eq!(parse_dec(&"-1".to_string()), None);
    assert_eq!(parse_dec(&"1e3".to_string()), None);
}
