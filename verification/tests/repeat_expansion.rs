//! The repeat expander: literal-substitution mode, the fused-identifier
//! form, and section mode.

use codegen::repeat::RepeatInput;
use codegen::token::{Delim, Tok};

fn n(s: &str) -> Vec<char> {
    s.chars().collect()
}

fn count_toks(ts: &[Tok]) -> usize {
    ts.iter()
        .map(|t| match t {
            Tok::Group(_, inner) => 1 + count_toks(inner),
            _ => 1,
        })
        .sum()
}

#[test]
fn literal_mode_counts_up_in_order() {
    let input = RepeatInput { ident: n("N"), from: 2, to: 5, body: vec![Tok::Ident(n("N"))] };
    let out = input.expand();
    assert_eq!(out.len(), 3);
    assert!(matches!(out[0], Tok::Int(2)));
    assert!(matches!(out[1], Tok::Int(3)));
    assert!(matches!(out[2], Tok::Int(4)));
}

#[test]
fn literal_mode_token_count_is_width_times_body() {
    let body = vec![Tok::Ident(n("N")), Tok::Punct('+'), Tok::Ident(n("x"))];
    let input = RepeatInput { ident: n("N"), from: 1, to: 4, body };
    let out = input.expand();
    assert_eq!(count_toks(&out), 3 * 3);
    assert!(matches!(out[0], Tok::Int(1)));
    assert!(matches!(out[3], Tok::Int(2)));
    assert!(matches!(out[6], Tok::Int(3)));
    match &out[2] {
        Tok::Ident(w) => assert_eq!(w, &n("x")),
        _ => panic!("expected the untouched identifier"),
    }
}

#[test]
fn literal_mode_substitutes_inside_groups() {
    let body = vec![Tok::Group(Delim::Brace, vec![Tok::Ident(n("N"))])];
    let input = RepeatInput { ident: n("N"), from: 0, to: 2, body };
    let out = input.expand();
    assert_eq!(out.len(), 2);
    match &out[0] {
        Tok::Group(Delim::Brace, inner) => assert!(matches!(inner[0], Tok::Int(0))),
        _ => panic!("expected the replicated group"),
    }
    match &out[1] {
        Tok::Group(Delim::Brace, inner) => assert!(matches!(inner[0], Tok::Int(1))),
        _ => panic!("expected the replicated group"),
    }
}

#[test]
fn fused_identifier_pastes_the_index() {
    let body = vec![Tok::Ident(n("f")), Tok::Punct('~'), Tok::Ident(n("N"))];
    let input = RepeatInput { ident: n("N"), from: 1, to: 3, body };
    let out = input.expand();
    assert_eq!(out.len(), 2);
    match &out[0] {
        Tok::Ident(w) => assert_eq!(w, &n("f1")),
        _ => panic!("expected the pasted identifier"),
    }
    match &out[1] {
        Tok::Ident(w) => assert_eq!(w, &n("f2")),
        _ => panic!("expected the pasted identifier"),
    }
}

#[test]
fn section_mode_replicates_only_the_marked_group() {
    let body = vec![
        Tok::Ident(n("before")),
        Tok::Punct('#'),
        Tok::Group(Delim::Paren, vec![Tok::Ident(n("N")), Tok::Punct(',')]),
        Tok::Punct('*'),
        Tok::Ident(n("after")),
    ];
    let input = RepeatInput { ident: n("N"), from: 1, to: 3, body };
    let out = input.expand();
    // before, 1, ',', 2, ',', after — the surroundings appear exactly once.
    assert_eq!(out.len(), 6);
    match &out[0] {
        Tok::Ident(w) => assert_eq!(w, &n("before")),
        _ => panic!("expected the prefix once"),
    }
    assert!(matches!(out[1], Tok::Int(1)));
    assert!(matches!(out[2], Tok::Punct(',')));
    assert!(matches!(out[3], Tok::Int(2)));
    assert!(matches!(out[4], Tok::Punct(',')));
    match &out[5] {
        Tok::Ident(w) => assert_eq!(w, &n("after")),
        _ => panic!("expected the suffix once"),
    }
}

#[test]
fn section_mode_wins_over_literal_substitution() {
    // With a section present, the identifier outside it is left alone.
    let body = vec![
        Tok::Ident(n("N")),
        Tok::Punct('#'),
        Tok::Group(Delim::Paren, vec![Tok::Ident(n("x"))]),
        Tok::Punct('*'),
    ];
    let input = RepeatInput { ident: n("N"), from: 0, to: 2, body };
    let out = input.expand();
    assert_eq!(out.len(), 3);
    match &out[0] {
        Tok::Ident(w) => assert_eq!(w, &n("N")),
        _ => panic!("the bound identifier outside the section stays"),
    }
}

#[test]
fn empty_range_expands_to_nothing() {
    let input = RepeatInput { ident: n("N"), from: 4, to: 4, body: vec![Tok::Ident(n("N"))] };
    assert!(input.expand().is_empty());
}

#[test]
fn other_literals_pass_through_unchanged() {
    let body = vec![Tok::Lit(n("text")), Tok::Int(7), Tok::Punct('#')];
    let input = RepeatInput { ident: n("N"), from: 0, to: 1, body };
    let out = input.expand();
    assert_eq!(out.len(), 3);
    match &out[0] {
        Tok::Lit(w) => assert_eq!(w, &n("text")),
        _ => panic!("expected the string literal"),
    }
    assert!(matches!(out[1], Tok::Int(7)));
    assert!(matches!(out[2], Tok::Punct('#')));
}
