//! The ordering validator, on enum variants and on match arms.

use codegen::ast::{Arm, EnumDecl, FnDecl, MatchSite, Pat, SourceItem, Variant};
use codegen::diag::{DiagKind, Span};
use codegen::sorted::{SortedError, check, check_names, first_error_fragment, sorted, sorted_impl};
use codegen::token::Tok;

fn n(s: &str) -> Vec<char> {
    s.chars().collect()
}

fn sp(lo: u64) -> Span {
    Span { lo, hi: lo + 1 }
}

fn enum_item(names: &[&str]) -> SourceItem {
    SourceItem::Enum(EnumDecl {
        name: n("Shape"),
        variants: names
            .iter()
            .enumerate()
            .map(|(i, s)| Variant { name: n(s), span: sp(i as u64) })
            .collect(),
        span: sp(100),
    })
}

#[test]
fn ordered_names_are_accepted() {
    let names = vec![n("Aa"), n("Ab"), n("B"), n("B")];
    assert!(check_names(&names).is_none());
}

#[test]
fn empty_and_single_sequences_are_ordered() {
    assert!(check_names(&vec![]).is_none());
    assert!(check_names(&vec![n("Z")]).is_none());
}

#[test]
fn three_records_out_of_order_report_the_first() {
    let names = vec![n("B"), n("A")];
    let v = check_names(&names).expect("a descending pair is a violation");
    assert_eq!(v.index, 1);
    assert_eq!(v.insert_at, 0);
    assert_eq!(v.name, n("A"));
    assert_eq!(v.should_precede, n("B"));
}

#[test]
fn the_insertion_point_is_the_first_greater_name() {
    let names = vec![n("Apple"), n("Cherry"), n("Banana")];
    let v = check_names(&names).expect("Banana descends below Cherry");
    assert_eq!(v.index, 2);
    assert_eq!(v.insert_at, 1);
    assert_eq!(v.should_precede, n("Cherry"));
}

#[test]
fn sorted_accepts_an_ordered_enum() {
    assert!(sorted_impl(&enum_item(&["A", "B", "C"])).is_ok());
    assert!(sorted(&enum_item(&["A", "B", "C"])).is_empty());
}

#[test]
fn sorted_reports_at_the_offending_variant() {
    let err = sorted_impl(&enum_item(&["B", "A"])).unwrap_err();
    match err {
        SortedError::Unordered(d) => {
            assert_eq!(d.span, sp(1));
            match d.kind {
                DiagKind::OutOfOrder { name, should_precede } => {
                    assert_eq!(name, n("A"));
                    assert_eq!(should_precede, n("B"));
                },
                _ => panic!("expected an ordering diagnostic"),
            }
        },
        SortedError::WrongShape(_) => panic!("an enum is the right shape"),
    }
}

#[test]
fn sorted_message_names_both_variants() {
    let extra = sorted(&enum_item(&["B", "A"]));
    assert_eq!(extra.len(), 3);
    match &extra[2] {
        Tok::Group(_, inner) => match &inner[0] {
            Tok::Lit(msg) => assert_eq!(msg, &n("A should sort before B")),
            _ => panic!("expected the message literal"),
        },
        _ => panic!("expected the error group"),
    }
}

#[test]
fn sorted_rejects_a_non_enum() {
    let item = SourceItem::Other { span: sp(5) };
    match sorted_impl(&item).unwrap_err() {
        SortedError::WrongShape(pe) => assert_eq!(pe.span, sp(5)),
        SortedError::Unordered(_) => panic!("the shape is wrong before any order"),
    }
    let extra = sorted(&item);
    match &extra[2] {
        Tok::Group(_, inner) => match &inner[0] {
            Tok::Lit(msg) => assert_eq!(msg, &n("expected enum or match expression")),
            _ => panic!("expected the message literal"),
        },
        _ => panic!("expected the error group"),
    }
}

fn path_arm(segs: &[&str], lo: u64) -> Arm {
    Arm { pat: Pat::Path { segs: segs.iter().map(|s| n(s)).collect() }, span: sp(lo) }
}

#[test]
fn marked_match_reports_out_of_order_arms() {
    let site = MatchSite {
        sorted_marked: true,
        arms: vec![path_arm(&["Err"], 0), path_arm(&["Ok"], 1), path_arm(&["Again"], 2)],
        span: sp(10),
    };
    let f = FnDecl { sites: vec![site] };
    let (cleaned, diags) = check(&f);
    assert!(!cleaned.sites[0].sorted_marked);
    assert_eq!(cleaned.sites[0].arms.len(), 3);
    assert_eq!(diags.len(), 1);
    match &diags[0].kind {
        DiagKind::OutOfOrder { name, should_precede } => {
            assert_eq!(name, &n("Again"));
            assert_eq!(should_precede, &n("Err"));
        },
        _ => panic!("expected an ordering diagnostic"),
    }
}

#[test]
fn arm_paths_join_their_segments() {
    let site = MatchSite {
        sorted_marked: true,
        arms: vec![path_arm(&["Error", "Io"], 0), path_arm(&["Error", "Fmt"], 1)],
        span: sp(10),
    };
    let (_out, diags) = check(&FnDecl { sites: vec![site] });
    assert_eq!(diags.len(), 1);
    match &diags[0].kind {
        DiagKind::OutOfOrder { name, should_precede } => {
            assert_eq!(name, &n("Error::Fmt"));
            assert_eq!(should_precede, &n("Error::Io"));
        },
        _ => panic!("expected an ordering diagnostic"),
    }
}

#[test]
fn unsupported_patterns_are_skipped_not_compared() {
    let site = MatchSite {
        sorted_marked: true,
        arms: vec![
            path_arm(&["B"], 0),
            Arm { pat: Pat::Wild, span: sp(1) },
            path_arm(&["C"], 2),
        ],
        span: sp(10),
    };
    let (_out, diags) = check(&FnDecl { sites: vec![site] });
    assert_eq!(diags.len(), 1);
    assert!(matches!(diags[0].kind, DiagKind::UnsupportedPattern));
    assert_eq!(diags[0].span, sp(1));
}

#[test]
fn binding_patterns_are_read_through() {
    let inner = Pat::TupleStruct { segs: vec![n("A")] };
    let site = MatchSite {
        sorted_marked: true,
        arms: vec![
            path_arm(&["B"], 0),
            Arm { pat: Pat::Binding { sub: Box::new(inner) }, span: sp(1) },
        ],
        span: sp(10),
    };
    let (_out, diags) = check(&FnDecl { sites: vec![site] });
    assert_eq!(diags.len(), 1);
    match &diags[0].kind {
        DiagKind::OutOfOrder { name, .. } => assert_eq!(name, &n("A")),
        _ => panic!("expected an ordering diagnostic"),
    }
}

#[test]
fn unmarked_matches_are_left_alone() {
    let site = MatchSite {
        sorted_marked: false,
        arms: vec![path_arm(&["B"], 0), path_arm(&["A"], 1)],
        span: sp(10),
    };
    let (_out, diags) = check(&FnDecl { sites: vec![site] });
    assert!(diags.is_empty());
}

#[test]
fn only_the_first_diagnostic_is_surfaced() {
    let site = MatchSite {
        sorted_marked: true,
        arms: vec![path_arm(&["C"], 0), path_arm(&["B"], 1), path_arm(&["A"], 2)],
        span: sp(10),
    };
    let (_out, diags) = check(&FnDecl { sites: vec![site] });
    assert_eq!(diags.len(), 2);
    let extra = first_error_fragment(&diags);
    match &extra[2] {
        Tok::Group(_, inner) => match &inner[0] {
            Tok::Lit(msg) => assert_eq!(msg, &n("B should sort before C")),
            _ => panic!("expected the message literal"),
        },
        _ => panic!("expected one error fragment"),
    }
    assert!(first_error_fragment(&vec![]).is_empty());
}
