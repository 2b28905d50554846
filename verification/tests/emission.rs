//! Emission: error fragments stand alongside the valid output, and the
//! diagnostic messages carry the precise words.

use codegen::diag::{DiagKind, Diagnostic, Span};
use codegen::emit::emit_with_diags;
use codegen::token::{Delim, Tok};

fn n(s: &str) -> Vec<char> {
    s.chars().collect()
}

fn sp() -> Span {
    Span { lo: 0, hi: 0 }
}

#[test]
fn diagnostics_are_appended_never_substituted() {
    let valid = vec![Tok::Ident(n("kept"))];
    let diags = vec![Diagnostic { span: sp(), kind: DiagKind::UnsupportedAttribute }];
    let out = emit_with_diags(valid, &diags);
    assert_eq!(out.len(), 4);
    match &out[0] {
        Tok::Ident(w) => assert_eq!(w, &n("kept")),
        _ => panic!("the valid output comes first"),
    }
    match &out[1] {
        Tok::Ident(w) => assert_eq!(w, &n("compile_error")),
        _ => panic!("then the error fragment"),
    }
    assert!(matches!(out[2], Tok::Punct('!')));
    match &out[3] {
        Tok::Group(Delim::Brace, inner) => match &inner[0] {
            Tok::Lit(msg) => assert_eq!(msg, &n("unsupported attribute")),
            _ => panic!("expected the message literal"),
        },
        _ => panic!("expected the braced message"),
    }
}

#[test]
fn a_clean_run_emits_only_the_valid_output() {
    let valid = vec![Tok::Int(1), Tok::Int(2)];
    let out = emit_with_diags(valid, &vec![]);
    assert_eq!(out.len(), 2);
}

#[test]
fn every_diagnostic_kind_has_its_message() {
    let cases = vec![
        (DiagKind::UnsupportedAttribute, "unsupported attribute"),
        (DiagKind::UnsupportedPattern, "unsupported pattern"),
        (
            DiagKind::ConflictingDirective { keyword: n("each") },
            "conflicting directive: each",
        ),
        (
            DiagKind::OutOfOrder { name: n("A"), should_precede: n("B") },
            "A should sort before B",
        ),
    ];
    for (kind, text) in cases {
        let d = Diagnostic { span: sp(), kind };
        assert_eq!(d.message(), n(text));
    }
}

#[test]
fn names_render_their_decimal_digits() {
    assert_eq!(codegen::name::dec_name(0), n("0"));
    assert_eq!(codegen::name::dec_name(5), n("5"));
    assert_eq!(codegen::name::dec_name(417), n("417"));
    assert_eq!(codegen::name::dec_name(u64::MAX), n("18446744073709551615"));
}

#[test]
fn lexicographic_order_is_by_code_point() {
    let le = |a: &str, b: &str| codegen::name::name_le(&n(a), &n(b));
    assert!(le("", "a"));
    assert!(le("a", "ab"));
    assert!(le("ab", "b"));
    assert!(!le("b", "ab"));
    assert!(le("A", "a"));
    assert!(le("x", "x"));
}
