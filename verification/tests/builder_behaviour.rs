//! The builder behaviour: slot planning, setters and finalize.

use codegen::ast::{Attr, Field, Meta, MetaItem, Seg, SourceItem, StructDecl, Ty};
use codegen::builder::{
    BuilderState, FieldValue, Slot, SlotKind, SlotPlan, field_kind, plan_fields, ty_inner,
};
use codegen::token::Tok;
use codegen::diag::{DiagKind, ParseReject, Span};

fn n(s: &str) -> Vec<char> {
    s.chars().collect()
}

fn sp() -> Span {
    Span { lo: 0, hi: 0 }
}

fn path_ty(name: &str, args: Vec<Ty>) -> Ty {
    Ty::Path { global: false, segs: vec![Seg { ident: n(name), args }] }
}

fn plain_field(name: &str, ty_name: &str) -> Field {
    Field { name: n(name), ty: path_ty(ty_name, vec![]), attrs: vec![], span: sp() }
}

fn required_plan(names: &[&str]) -> Vec<SlotPlan> {
    names.iter().map(|s| SlotPlan { name: n(s), kind: SlotKind::Required }).collect()
}

#[test]
fn finalize_succeeds_once_every_setter_ran() {
    let mut b: BuilderState<u64> = BuilderState::new(required_plan(&["first", "second"]));
    b.set(0, 10);
    b.set(1, 20);
    let out = b.finalize().unwrap();
    assert_eq!(out.len(), 2);
    assert!(matches!(out[0], FieldValue::One(10)));
    assert!(matches!(out[1], FieldValue::One(20)));
}

#[test]
fn finalize_fails_on_first_missing_field() {
    let mut b: BuilderState<u64> = BuilderState::new(required_plan(&["first", "second", "third"]));
    b.set(0, 1);
    let err = b.finalize().unwrap_err();
    assert_eq!(err.index, 1);
    assert_eq!(err.field, n("second"));
}

#[test]
fn setters_overwrite_and_the_last_write_wins() {
    let mut b: BuilderState<u64> = BuilderState::new(required_plan(&["only"]));
    b.set(0, 1);
    b.set(0, 2);
    b.set(0, 3);
    let out = b.finalize().unwrap();
    assert!(matches!(out[0], FieldValue::One(3)));
}

#[test]
fn optional_field_unset_yields_absent_value() {
    let plans = vec![
        SlotPlan { name: n("needed"), kind: SlotKind::Required },
        SlotPlan { name: n("extra"), kind: SlotKind::Optional },
    ];
    let mut b: BuilderState<u64> = BuilderState::new(plans);
    b.set(0, 7);
    let out = b.finalize().unwrap();
    assert!(matches!(out[0], FieldValue::One(7)));
    assert!(matches!(out[1], FieldValue::Maybe(None)));
}

#[test]
fn optional_field_set_yields_present_value() {
    let plans = vec![SlotPlan { name: n("extra"), kind: SlotKind::Optional }];
    let mut b: BuilderState<u64> = BuilderState::new(plans);
    b.set(0, 9);
    let out = b.finalize().unwrap();
    assert!(matches!(out[0], FieldValue::Maybe(Some(9))));
}

#[test]
fn element_accessor_collects_pushes_and_may_stay_empty() {
    let plans = vec![
        SlotPlan { name: n("args"), kind: SlotKind::Each { method: n("arg"), collide: false } },
        SlotPlan { name: n("envs"), kind: SlotKind::Each { method: n("env"), collide: false } },
    ];
    let mut b: BuilderState<u64> = BuilderState::new(plans);
    b.push_item(0, 5);
    b.push_item(0, 6);
    let out = b.finalize().unwrap();
    match &out[0] {
        FieldValue::Many(vs) => assert_eq!(vs, &vec![5, 6]),
        _ => panic!("expected the collected elements"),
    }
    match &out[1] {
        FieldValue::Many(vs) => assert!(vs.is_empty()),
        _ => panic!("expected an empty container"),
    }
}

#[test]
fn bulk_setter_replaces_the_whole_container() {
    let plans = vec![SlotPlan { name: n("args"), kind: SlotKind::Each { method: n("arg"), collide: false } }];
    let mut b: BuilderState<u64> = BuilderState::new(plans);
    b.push_item(0, 1);
    b.set_all(0, vec![8, 9]);
    let out = b.finalize().unwrap();
    match &out[0] {
        FieldValue::Many(vs) => assert_eq!(vs, &vec![8, 9]),
        _ => panic!("expected the replaced container"),
    }
}

#[test]
fn new_builder_starts_pending_or_empty() {
    let plans = vec![
        SlotPlan { name: n("a"), kind: SlotKind::Required },
        SlotPlan { name: n("b"), kind: SlotKind::Each { method: n("b"), collide: true } },
    ];
    let b: BuilderState<u64> = BuilderState::new(plans);
    assert!(matches!(b.slots[0], Slot::Pending));
    match &b.slots[1] {
        Slot::Many(vs) => assert!(vs.is_empty()),
        _ => panic!("expected an empty container slot"),
    }
}

#[test]
fn option_field_plans_as_optional() {
    let f = Field {
        name: n("maybe"),
        ty: path_ty("Option", vec![path_ty("u32", vec![])]),
        attrs: vec![],
        span: sp(),
    };
    assert!(matches!(field_kind(&f), SlotKind::Optional));
}

#[test]
fn plain_field_plans_as_required() {
    let f = plain_field("word", "String");
    assert!(matches!(field_kind(&f), SlotKind::Required));
}

#[test]
fn each_directive_plans_as_element_accessor() {
    let attr = Attr {
        span: sp(),
        meta: Meta::List {
            name: n("builder"),
            items: vec![MetaItem::NameValue { name: n("each"), value: n("arg"), span: sp() }],
        },
    };
    let f = Field {
        name: n("args"),
        ty: path_ty("Vec", vec![path_ty("String", vec![])]),
        attrs: vec![attr],
        span: sp(),
    };
    match field_kind(&f) {
        SlotKind::Each { method, collide } => {
            assert_eq!(method, n("arg"));
            assert!(!collide);
        },
        _ => panic!("expected an element accessor"),
    }
}

#[test]
fn colliding_accessor_name_is_flagged() {
    let attr = Attr {
        span: sp(),
        meta: Meta::List {
            name: n("builder"),
            items: vec![MetaItem::NameValue { name: n("args"), value: n("args"), span: sp() }],
        },
    };
    // The single nested key must be the recognised keyword.
    let f = Field {
        name: n("args"),
        ty: path_ty("Vec", vec![path_ty("String", vec![])]),
        attrs: vec![attr],
        span: sp(),
    };
    // An unrecognised key matches no grammar: one diagnostic, default plan.
    let (_plans, diags) = plan_fields(&vec![f]);
    assert_eq!(diags.len(), 1);
    assert!(matches!(diags[0].kind, DiagKind::UnsupportedAttribute));

    let attr2 = Attr {
        span: sp(),
        meta: Meta::List {
            name: n("builder"),
            items: vec![MetaItem::NameValue { name: n("each"), value: n("args"), span: sp() }],
        },
    };
    let f2 = Field {
        name: n("args"),
        ty: path_ty("Vec", vec![path_ty("String", vec![])]),
        attrs: vec![attr2],
        span: sp(),
    };
    match field_kind(&f2) {
        SlotKind::Each { collide, .. } => assert!(collide),
        _ => panic!("expected an element accessor"),
    }
}

#[test]
fn ty_inner_reads_the_wrapped_type() {
    let t = path_ty("Option", vec![path_ty("u32", vec![])]);
    let inner = ty_inner("Option", &t).expect("an optional has an inner type");
    match inner {
        Ty::Path { segs, .. } => assert_eq!(segs[0].ident, n("u32")),
        _ => panic!("expected a path"),
    }
    assert!(ty_inner("Vec", &t).is_none());
    let other = Ty::Other(vec![]);
    assert!(ty_inner("Option", &other).is_none());
}

#[test]
fn derive_rejects_anything_but_a_struct() {
    let item = SourceItem::Other { span: Span { lo: 3, hi: 9 } };
    let err = codegen::builder::derive(&item).unwrap_err();
    assert!(matches!(err.expected, ParseReject::NamedFieldStruct));
    assert_eq!(err.span, Span { lo: 3, hi: 9 });
}

#[test]
fn derive_emits_the_builder_fragment() {
    let s = StructDecl {
        name: n("Command"),
        generics: vec![],
        where_toks: vec![],
        attrs: vec![],
        fields: vec![plain_field("executable", "String")],
        span: sp(),
    };
    let (toks, diags) = codegen::builder::derive(&SourceItem::Struct(s)).unwrap();
    assert!(diags.is_empty());
    match &toks[0] {
        Tok::Ident(w) => assert_eq!(w, &n("pub")),
        _ => panic!("expected the leading keyword"),
    }
    match &toks[1] {
        Tok::Ident(w) => assert_eq!(w, &n("struct")),
        _ => panic!("expected the struct keyword"),
    }
    match &toks[2] {
        Tok::Ident(w) => assert_eq!(w, &n("CommandBuilder")),
        _ => panic!("expected the builder name"),
    }
}
