//! The attribute interpreter, the format rendering and the
//! structured-debug transformer with its bound inference.

use codegen::ast::{
    Attr, Field, GenericParam, Meta, MetaItem, Seg, SourceItem, StructDecl, Ty,
};
use codegen::attrs::{interpret_field, parse_preds};
use codegen::debug::{
    DisplayHow, attr_debug, custom_debug, debug, display_value, render_through, struct_attr,
};
use codegen::diag::{DiagKind, Span};
use codegen::generics::{Obligation, generics_add_debug, phantom_marker_ty};
use codegen::name::dec_name;
use codegen::token::Tok;

fn n(s: &str) -> Vec<char> {
    s.chars().collect()
}

fn sp() -> Span {
    Span { lo: 0, hi: 0 }
}

fn path_ty(name: &str, args: Vec<Ty>) -> Ty {
    Ty::Path { global: false, segs: vec![Seg { ident: n(name), args }] }
}

fn fmt_attr(value: &str) -> Attr {
    Attr { span: sp(), meta: Meta::NameValue { name: n("debug"), value: n(value) } }
}

fn field_with(name: &str, attrs: Vec<Attr>) -> Field {
    Field { name: n(name), ty: path_ty("u32", vec![]), attrs, span: sp() }
}

#[test]
fn format_override_renders_through_its_text() {
    let f = field_with("bitmask", vec![Attr {
        span: sp(),
        meta: Meta::List {
            name: n("debug"),
            items: vec![MetaItem::NameValue { name: n("format"), value: n("{}x"), span: sp() }],
        },
    }]);
    let (display, diags) = attr_debug(&f);
    assert!(diags.is_empty());
    match &display.how {
        DisplayHow::Formatted(fmt) => {
            assert_eq!(fmt, &n("{}x"));
            let rendered = display_value(&display.how, &dec_name(5));
            assert_eq!(rendered, n("5x"));
        },
        DisplayHow::Default => panic!("expected the format override"),
    }
}

#[test]
fn direct_association_is_a_format_override_too() {
    let f = field_with("bits", vec![fmt_attr("0b{:08b}")]);
    let (display, diags) = attr_debug(&f);
    assert!(diags.is_empty());
    assert!(matches!(display.how, DisplayHow::Formatted(_)));
}

#[test]
fn a_field_without_annotations_displays_by_default() {
    let f = field_with("plain", vec![]);
    let (display, diags) = attr_debug(&f);
    assert!(diags.is_empty());
    assert!(matches!(display.how, DisplayHow::Default));
    assert_eq!(display_value(&display.how, &n("7")), n("7"));
}

#[test]
fn render_without_placeholder_is_the_text_itself() {
    assert_eq!(render_through(&n("plain"), &n("5")), n("plain"));
    assert_eq!(render_through(&n("a{}b{}c"), &n("X")), n("aXb{}c"));
}

#[test]
fn a_second_format_directive_is_a_conflict_not_an_overwrite() {
    let f = field_with("twice", vec![fmt_attr("{}a"), fmt_attr("{}b")]);
    let (dirs, diags) = interpret_field(&f);
    assert_eq!(dirs.format, Some(n("{}a")));
    assert_eq!(diags.len(), 1);
    match &diags[0].kind {
        DiagKind::ConflictingDirective { keyword } => assert_eq!(keyword, &n("format")),
        _ => panic!("expected a conflict"),
    }
}

#[test]
fn one_malformed_annotation_spares_its_neighbours() {
    let bad = Attr { span: sp(), meta: Meta::Other };
    let f = field_with("mixed", vec![bad, fmt_attr("{}!")]);
    let (dirs, diags) = interpret_field(&f);
    assert_eq!(diags.len(), 1);
    assert!(matches!(diags[0].kind, DiagKind::UnsupportedAttribute));
    assert_eq!(dirs.format, Some(n("{}!")));
}

#[test]
fn predicate_lists_split_on_depth_zero_commas_only() {
    let preds = parse_preds(&n("T: Debug, U::Assoc: Debug")).expect("a well-formed list");
    assert_eq!(preds.len(), 2);
    assert_eq!(preds[0].first_ident, Some(n("T")));
    assert_eq!(preds[0].text, n("T: Debug"));
    assert_eq!(preds[1].first_ident, Some(n("U")));

    let nested = parse_preds(&n("HashMap<K, V>: Debug")).expect("the comma sits in brackets");
    assert_eq!(nested.len(), 1);
    assert_eq!(nested[0].first_ident, Some(n("HashMap")));
}

#[test]
fn malformed_predicate_lists_are_refused() {
    assert!(parse_preds(&n("T Debug")).is_none());
    assert!(parse_preds(&n("T<: Debug")).is_none());
    assert!(parse_preds(&n(" : Debug")).is_none());
    let empty = parse_preds(&n("")).expect("an empty text is an empty list");
    assert!(empty.is_empty());
}

fn bound_attr() -> Attr {
    Attr {
        span: sp(),
        meta: Meta::List {
            name: n("debug"),
            items: vec![MetaItem::NameValue {
                name: n("bound"),
                value: n("T::Value: std::fmt::Debug"),
                span: sp(),
            }],
        },
    }
}

#[test]
fn bound_override_is_collected_from_the_item() {
    let set = struct_attr(&vec![bound_attr()]).expect("a bound override");
    assert_eq!(set.preds.len(), 1);
    assert_eq!(set.idents, vec![n("T")]);
    let direct = debug(&bound_attr().meta).expect("the same meta decodes alone");
    assert_eq!(direct.preds[0].text, n("T::Value: std::fmt::Debug"));
}

#[test]
fn phantom_marker_fields_exclude_their_parameter() {
    let mut param = GenericParam { ident: n("T"), bounds: vec![] };
    let field_tys = vec![phantom_marker_ty(&n("T"))];
    let mut assoc: Vec<Ty> = Vec::new();
    let ob = generics_add_debug(&mut param, &field_tys, &mut assoc, &vec![]);
    assert!(matches!(ob, Obligation::Excluded));
    assert!(param.bounds.is_empty());
    assert!(assoc.is_empty());
}

#[test]
fn a_plainly_used_parameter_is_obliged_directly() {
    let mut param = GenericParam { ident: n("T"), bounds: vec![] };
    let field_tys = vec![path_ty("T", vec![])];
    let mut assoc: Vec<Ty> = Vec::new();
    let ob = generics_add_debug(&mut param, &field_tys, &mut assoc, &vec![]);
    assert!(matches!(ob, Obligation::Direct));
    assert_eq!(param.bounds.len(), 1);
}

#[test]
fn an_override_mention_replaces_inference() {
    let mut param = GenericParam { ident: n("T"), bounds: vec![] };
    let field_tys = vec![path_ty("T", vec![])];
    let mut assoc: Vec<Ty> = Vec::new();
    let ob = generics_add_debug(&mut param, &field_tys, &mut assoc, &vec![n("T")]);
    assert!(matches!(ob, Obligation::Explicit));
    assert!(param.bounds.is_empty());
}

fn projection_ty() -> Ty {
    Ty::Path {
        global: false,
        segs: vec![
            Seg { ident: n("T"), args: vec![] },
            Seg { ident: n("Value"), args: vec![] },
        ],
    }
}

#[test]
fn associated_projections_are_recorded_once_each() {
    let wrapped = path_ty("Vec", vec![projection_ty()]);
    let mut param = GenericParam { ident: n("T"), bounds: vec![] };
    let field_tys = vec![projection_ty(), wrapped];
    let mut assoc: Vec<Ty> = Vec::new();
    let ob = generics_add_debug(&mut param, &field_tys, &mut assoc, &vec![]);
    assert!(matches!(ob, Obligation::Excluded));
    assert!(param.bounds.is_empty());
    assert_eq!(assoc.len(), 1);
}

#[test]
fn custom_debug_plans_every_field_in_order() {
    let s = StructDecl {
        name: n("Record"),
        generics: vec![GenericParam { ident: n("T"), bounds: vec![] }],
        where_toks: vec![],
        attrs: vec![],
        fields: vec![
            field_with("first", vec![]),
            field_with("second", vec![fmt_attr("{}s")]),
        ],
        span: sp(),
    };
    let (plan, diags) = custom_debug(&s);
    assert!(diags.is_empty());
    assert_eq!(plan.name, n("Record"));
    assert_eq!(plan.displays.len(), 2);
    assert_eq!(plan.displays[0].name, n("first"));
    assert!(matches!(plan.displays[0].how, DisplayHow::Default));
    assert!(matches!(plan.displays[1].how, DisplayHow::Formatted(_)));
    // Both fields are plain paths that never mention T: the parameter is
    // obliged directly.
    assert_eq!(plan.params[0].bounds.len(), 1);
    assert!(plan.where_preds.is_empty());
    assert!(plan.projections.is_empty());
}

#[test]
fn debug_derive_emits_an_impl_and_rejects_other_shapes() {
    let s = StructDecl {
        name: n("Point"),
        generics: vec![],
        where_toks: vec![],
        attrs: vec![],
        fields: vec![field_with("x", vec![])],
        span: sp(),
    };
    let (toks, diags) = codegen::debug::derive(&SourceItem::Struct(s)).unwrap();
    assert!(diags.is_empty());
    match &toks[0] {
        Tok::Ident(w) => assert_eq!(w, &n("impl")),
        _ => panic!("expected the impl keyword"),
    }
    let err = codegen::debug::derive(&SourceItem::Other { span: sp() }).unwrap_err();
    assert!(matches!(err.expected, codegen::diag::ParseReject::NamedFieldStruct));
}
