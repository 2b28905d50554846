//! The syntax model: the structured form of one parsed top-level item — a
//! struct with named fields, an enum, or a function body with its match
//! expressions — together with declared types, annotations and generic
//! parameters. Values of these types are built by the caller from raw
//! syntax and are never mutated by the pipeline, which walks them in
//! declared order.

use vstd::prelude::*;

use crate::diag::Span;
use crate::name::name_eq;

verus! {

/// One path segment: an identifier and its angle-bracketed type arguments.
pub struct Seg {
    pub ident: Vec<char>,
    pub args: Vec<Ty>,
}

/// A declared type, structurally: a path of segments, or any other shape,
/// whose tokens the engine carries along without inspecting them.
pub enum Ty {
    Path { global: bool, segs: Vec<Seg> },
    Other(Vec<crate::token::Tok>),
}

/// The mathematical shape of a path segment.
#[verifier::ext_equal]
pub struct SegM {
    pub ident: Seq<char>,
    pub args: Seq<TyM>,
}

/// The mathematical shape of a declared type.
#[verifier::ext_equal]
pub enum TyM {
    Path { global: bool, segs: Seq<SegM> },
    Other(Seq<crate::token::TokM>),
}

pub open spec fn ty_view(t: Ty) -> TyM
    decreases t, 0int,
{
    match t {
        Ty::Path { global, segs } => TyM::Path { global, segs: segs_view_rec(segs@) },
        Ty::Other(toks) => TyM::Other(crate::token::toks_view_rec(toks@)),
    }
}

pub open spec fn seg_view(g: Seg) -> SegM
    decreases g, 0int,
{
    SegM { ident: g.ident@, args: tys_view_rec(g.args@) }
}

pub open spec fn segs_view_rec(ss: Seq<Seg>) -> Seq<SegM>
    decreases ss, 1int,
{
    if ss.len() == 0 {
        Seq::empty()
    } else {
        seq![seg_view(ss[0])] + segs_view_rec(ss.drop_first())
    }
}

pub open spec fn tys_view_rec(ts: Seq<Ty>) -> Seq<TyM>
    decreases ts, 1int,
{
    if ts.len() == 0 {
        Seq::empty()
    } else {
        seq![ty_view(ts[0])] + tys_view_rec(ts.drop_first())
    }
}

impl View for Ty {
    type V = TyM;

    open spec fn view(&self) -> TyM {
        ty_view(*self)
    }
}

impl View for Seg {
    type V = SegM;

    open spec fn view(&self) -> SegM {
        seg_view(*self)
    }
}

/// The element-wise shape of a segment sequence.
pub open spec fn segs_view(ss: Seq<Seg>) -> Seq<SegM> {
    Seq::new(ss.len(), |i: int| seg_view(ss[i]))
}

/// The element-wise shape of a type sequence.
pub open spec fn tys_view(ts: Seq<Ty>) -> Seq<TyM> {
    Seq::new(ts.len(), |i: int| ty_view(ts[i]))
}

/// Appending one type appends its shape.
pub proof fn lemma_tys_view_push(s: Seq<Ty>, t: Ty)
    ensures
        tys_view(s.push(t)) =~= tys_view(s) + seq![ty_view(t)],
{
}

/// The recursive and the element-wise segment shapes agree.
pub broadcast proof fn lemma_segs_view_rec(ss: Seq<Seg>)
    ensures
        #[trigger] segs_view_rec(ss) =~= segs_view(ss),
    decreases ss.len(),
{
    if ss.len() > 0 {
        lemma_segs_view_rec(ss.drop_first());
    }
}

/// The recursive and the element-wise type shapes agree.
pub broadcast proof fn lemma_tys_view_rec(ts: Seq<Ty>)
    ensures
        #[trigger] tys_view_rec(ts) =~= tys_view(ts),
    decreases ts.len(),
{
    if ts.len() > 0 {
        lemma_tys_view_rec(ts.drop_first());
    }
}

/// Decides whether two declared types have the same structure.
pub fn ty_eq(a: &Ty, b: &Ty) -> (r: bool)
    ensures
        r == (a@ == b@),
    decreases *a, 0int,
{
    match (a, b) {
        (Ty::Path { global: g1, segs: s1 }, Ty::Path { global: g2, segs: s2 }) => {
            proof {
                lemma_segs_view_rec(s1@);
                lemma_segs_view_rec(s2@);
            }
            *g1 == *g2 && segs_eq(s1, s2)
        },
        (Ty::Other(a_toks), Ty::Other(b_toks)) => {
            proof {
                crate::token::lemma_toks_view_rec(a_toks@);
                crate::token::lemma_toks_view_rec(b_toks@);
            }
            toks_eq(a_toks, b_toks)
        },
        _ => false,
    }
}

/// Decides whether two token sequences have the same shape.
pub fn toks_eq(x: &Vec<crate::token::Tok>, y: &Vec<crate::token::Tok>) -> (r: bool)
    ensures
        r == (crate::token::toks_view(x@) == crate::token::toks_view(y@)),
    decreases x@, 1int,
{
    if x.len() != y.len() {
        proof {
            assert(crate::token::toks_view(x@).len() != crate::token::toks_view(y@).len());
        }
        return false;
    }
    let mut i: usize = 0;
    while i < x.len()
        invariant
            i <= x@.len(),
            x@.len() == y@.len(),
            forall|j: int|
                0 <= j < i ==> crate::token::tok_view(x@[j]) == crate::token::tok_view(y@[j]),
        decreases x@.len() - i,
    {
        if !tok_eq(&x[i], &y[i]) {
            proof {
                assert(crate::token::toks_view(x@)[i as int] != crate::token::toks_view(
                    y@,
                )[i as int]);
            }
            return false;
        }
        i = i + 1;
    }
    proof {
        assert(crate::token::toks_view(x@) =~= crate::token::toks_view(y@));
    }
    true
}

/// Decides whether two token trees have the same shape.
pub fn tok_eq(a: &crate::token::Tok, b: &crate::token::Tok) -> (r: bool)
    ensures
        r == (a@ == b@),
    decreases *a, 0int,
{
    match (a, b) {
        (crate::token::Tok::Ident(x), crate::token::Tok::Ident(y)) => name_eq(x, y),
        (crate::token::Tok::Int(x), crate::token::Tok::Int(y)) => x == y,
        (crate::token::Tok::Lit(x), crate::token::Tok::Lit(y)) => name_eq(x, y),
        (crate::token::Tok::Verbatim(x), crate::token::Tok::Verbatim(y)) => name_eq(x, y),
        (crate::token::Tok::Punct(x), crate::token::Tok::Punct(y)) => {
            let r = (*x as u32) == (*y as u32);
            proof {
                if (*x as u32) == (*y as u32) {
                    vstd::utf8::char_u32_cast(*x, *x as u32);
                    vstd::utf8::char_u32_cast(*y, *y as u32);
                }
            }
            r
        },
        (crate::token::Tok::Group(d1, t1), crate::token::Tok::Group(d2, t2)) => {
            proof {
                crate::token::lemma_toks_view_rec(t1@);
                crate::token::lemma_toks_view_rec(t2@);
            }
            let dm = match (d1, d2) {
                (crate::token::Delim::Paren, crate::token::Delim::Paren) => true,
                (crate::token::Delim::Brace, crate::token::Delim::Brace) => true,
                (crate::token::Delim::Bracket, crate::token::Delim::Bracket) => true,
                _ => false,
            };
            dm && toks_eq(t1, t2)
        },
        _ => false,
    }
}

/// Decides whether two segment lists have the same structure.
fn segs_eq(x: &Vec<Seg>, y: &Vec<Seg>) -> (r: bool)
    ensures
        r == (segs_view(x@) == segs_view(y@)),
    decreases x@, 1int,
{
    if x.len() != y.len() {
        proof {
            assert(segs_view(x@).len() != segs_view(y@).len());
        }
        return false;
    }
    let mut i: usize = 0;
    while i < x.len()
        invariant
            i <= x@.len(),
            x@.len() == y@.len(),
            forall|j: int| 0 <= j < i ==> seg_view(x@[j]) == seg_view(y@[j]),
        decreases x@.len() - i,
    {
        if !seg_eq(&x[i], &y[i]) {
            proof {
                assert(segs_view(x@)[i as int] != segs_view(y@)[i as int]);
            }
            return false;
        }
        i = i + 1;
    }
    proof {
        assert(segs_view(x@) =~= segs_view(y@));
    }
    true
}

/// Decides whether two path segments have the same structure.
fn seg_eq(p: &Seg, q: &Seg) -> (r: bool)
    ensures
        r == (p@ == q@),
    decreases *p, 0int,
{
    proof {
        lemma_tys_view_rec(p.args@);
        lemma_tys_view_rec(q.args@);
    }
    name_eq(&p.ident, &q.ident) && tys_eq(&p.args, &q.args)
}

/// Decides whether two type lists have the same structure.
fn tys_eq(u: &Vec<Ty>, v: &Vec<Ty>) -> (r: bool)
    ensures
        r == (tys_view(u@) == tys_view(v@)),
    decreases u@, 1int,
{
    if u.len() != v.len() {
        proof {
            assert(tys_view(u@).len() != tys_view(v@).len());
        }
        return false;
    }
    let mut i: usize = 0;
    while i < u.len()
        invariant
            i <= u@.len(),
            u@.len() == v@.len(),
            forall|j: int| 0 <= j < i ==> ty_view(u@[j]) == ty_view(v@[j]),
        decreases u@.len() - i,
    {
        if !ty_eq(&u[i], &v[i]) {
            proof {
                assert(tys_view(u@)[i as int] != tys_view(v@)[i as int]);
            }
            return false;
        }
        i = i + 1;
    }
    proof {
        assert(tys_view(u@) =~= tys_view(v@));
    }
    true
}

/// Copies a declared type.
pub fn dup_ty(t: &Ty) -> (r: Ty)
    ensures
        r@ == t@,
    decreases *t, 0int,
{
    match t {
        Ty::Path { global, segs } => {
            let copied = dup_segs(segs);
            proof {
                lemma_segs_view_rec(segs@);
                lemma_segs_view_rec(copied@);
            }
            Ty::Path { global: *global, segs: copied }
        },
        Ty::Other(toks) => {
            let copied = crate::token::dup_toks(toks);
            proof {
                crate::token::lemma_toks_view_rec(toks@);
                crate::token::lemma_toks_view_rec(copied@);
            }
            Ty::Other(copied)
        },
    }
}

fn dup_segs(ss: &Vec<Seg>) -> (r: Vec<Seg>)
    ensures
        segs_view(r@) == segs_view(ss@),
    decreases ss@, 1int,
{
    let mut r: Vec<Seg> = Vec::new();
    let mut i: usize = 0;
    while i < ss.len()
        invariant
            i <= ss@.len(),
            r@.len() == i,
            forall|j: int| 0 <= j < i ==> seg_view(#[trigger] r@[j]) == seg_view(ss@[j]),
        decreases ss@.len() - i,
    {
        let g = dup_seg(&ss[i]);
        r.push(g);
        i = i + 1;
    }
    proof {
        assert(segs_view(r@) =~= segs_view(ss@));
    }
    r
}

fn dup_seg(g: &Seg) -> (r: Seg)
    ensures
        r@ == g@,
    decreases *g, 0int,
{
    let args = dup_tys(&g.args);
    proof {
        lemma_tys_view_rec(g.args@);
        lemma_tys_view_rec(args@);
    }
    Seg { ident: crate::name::copy_name(&g.ident), args }
}

fn dup_tys(ts: &Vec<Ty>) -> (r: Vec<Ty>)
    ensures
        tys_view(r@) == tys_view(ts@),
    decreases ts@, 1int,
{
    let mut r: Vec<Ty> = Vec::new();
    let mut i: usize = 0;
    while i < ts.len()
        invariant
            i <= ts@.len(),
            r@.len() == i,
            forall|j: int| 0 <= j < i ==> ty_view(#[trigger] r@[j]) == ty_view(ts@[j]),
        decreases ts@.len() - i,
    {
        let t = dup_ty(&ts[i]);
        r.push(t);
        i = i + 1;
    }
    proof {
        assert(tys_view(r@) =~= tys_view(ts@));
    }
    r
}

/// One decoded element of a list-shaped annotation.
pub enum MetaItem {
    /// A bare word, such as a marker.
    Word { name: Vec<char>, span: Span },
    /// A `name = "text"` association.
    NameValue { name: Vec<char>, value: Vec<char>, span: Span },
    /// Anything else.
    Other { span: Span },
}

/// The decoded shape of one annotation.
pub enum Meta {
    /// A bare marker, such as `sorted`.
    Word { name: Vec<char> },
    /// A direct `name = "text"` association.
    NameValue { name: Vec<char>, value: Vec<char> },
    /// A nested association list, `name(...)`.
    List { name: Vec<char>, items: Vec<MetaItem> },
    /// An annotation whose shape could not be decoded.
    Other,
}

/// One annotation as attached to a field or an item.
pub struct Attr {
    pub span: Span,
    pub meta: Meta,
}

/// One named field of a struct: its name, declared type and annotations.
pub struct Field {
    pub name: Vec<char>,
    pub ty: Ty,
    pub attrs: Vec<Attr>,
    pub span: Span,
}

/// One generic type parameter, with its declared bounds as trait paths.
pub struct GenericParam {
    pub ident: Vec<char>,
    pub bounds: Vec<Ty>,
}

/// The mathematical shape of a generic parameter.
pub struct GenericParamM {
    pub ident: Seq<char>,
    pub bounds: Seq<TyM>,
}

impl View for GenericParam {
    type V = GenericParamM;

    open spec fn view(&self) -> GenericParamM {
        GenericParamM { ident: self.ident@, bounds: tys_view(self.bounds@) }
    }
}

/// One enum variant.
pub struct Variant {
    pub name: Vec<char>,
    pub span: Span,
}

/// A struct with named fields. A declared where clause, when there is
/// one, rides along as the tokens following the `where` keyword.
pub struct StructDecl {
    pub name: Vec<char>,
    pub generics: Vec<GenericParam>,
    /// The tokens following the `where` keyword of a declared where
    /// clause, trailing comma included; empty when there is none.
    pub where_toks: Vec<crate::token::Tok>,
    pub attrs: Vec<Attr>,
    pub fields: Vec<Field>,
    pub span: Span,
}

/// An enum declaration: only the variant names and positions matter here.
pub struct EnumDecl {
    pub name: Vec<char>,
    pub variants: Vec<Variant>,
    pub span: Span,
}

/// One parsed top-level item handed to the pipeline.
pub enum SourceItem {
    Struct(StructDecl),
    Enum(EnumDecl),
    /// An item of any other kind, kept only for its position.
    Other { span: Span },
}

/// The position of an item, for a rejection.
pub open spec fn item_span(i: SourceItem) -> Span {
    match i {
        SourceItem::Struct(s) => s.span,
        SourceItem::Enum(e) => e.span,
        SourceItem::Other { span } => span,
    }
}

/// A match-arm pattern, as far as the ordering validator reads it: the
/// shapes that carry a leading path, a binding wrapping a sub-pattern, and
/// the shapes that carry no path at all.
pub enum Pat {
    Path { segs: Vec<Vec<char>> },
    Struct { segs: Vec<Vec<char>> },
    TupleStruct { segs: Vec<Vec<char>> },
    Binding { sub: Box<Pat> },
    Wild,
    Lit,
}

/// The mathematical shape of a pattern.
pub enum PatM {
    Path { segs: Seq<Seq<char>> },
    Struct { segs: Seq<Seq<char>> },
    TupleStruct { segs: Seq<Seq<char>> },
    Binding { sub: Box<PatM> },
    Wild,
    Lit,
}

pub open spec fn pat_view(p: Pat) -> PatM
    decreases p,
{
    match p {
        Pat::Path { segs } => PatM::Path { segs: crate::views::seq_views(segs@) },
        Pat::Struct { segs } => PatM::Struct { segs: crate::views::seq_views(segs@) },
        Pat::TupleStruct { segs } => PatM::TupleStruct { segs: crate::views::seq_views(segs@) },
        Pat::Binding { sub } => PatM::Binding { sub: Box::new(pat_view(*sub)) },
        Pat::Wild => PatM::Wild,
        Pat::Lit => PatM::Lit,
    }
}

impl View for Pat {
    type V = PatM;

    open spec fn view(&self) -> PatM {
        pat_view(*self)
    }
}

/// One arm of a match expression.
pub struct Arm {
    pub pat: Pat,
    pub span: Span,
}

/// The mathematical shape of an arm.
pub struct ArmM {
    pub pat: PatM,
    pub span: Span,
}

impl View for Arm {
    type V = ArmM;

    open spec fn view(&self) -> ArmM {
        ArmM { pat: self.pat@, span: self.span }
    }
}

/// Copies a pattern.
pub fn dup_pat(p: &Pat) -> (r: Pat)
    ensures
        r@ == p@,
    decreases *p,
{
    match p {
        Pat::Path { segs } => Pat::Path { segs: dup_names(segs) },
        Pat::Struct { segs } => Pat::Struct { segs: dup_names(segs) },
        Pat::TupleStruct { segs } => Pat::TupleStruct { segs: dup_names(segs) },
        Pat::Binding { sub } => Pat::Binding { sub: Box::new(dup_pat(sub)) },
        Pat::Wild => Pat::Wild,
        Pat::Lit => Pat::Lit,
    }
}

/// Copies a list of names.
pub fn dup_names(ns: &Vec<Vec<char>>) -> (r: Vec<Vec<char>>)
    ensures
        crate::views::seq_views(r@) == crate::views::seq_views(ns@),
{
    let mut r: Vec<Vec<char>> = Vec::new();
    let mut i: usize = 0;
    while i < ns.len()
        invariant
            i <= ns@.len(),
            crate::views::seq_views(r@) =~= crate::views::seq_views(ns@).take(i as int),
        decreases ns@.len() - i,
    {
        let n = crate::name::copy_name(&ns[i]);
        proof {
            crate::views::lemma_seq_views_push(r@, n);
        }
        r.push(n);
        proof {
            assert(crate::views::seq_views(r@) =~= crate::views::seq_views(ns@).take(i + 1));
        }
        i = i + 1;
    }
    proof {
        assert(crate::views::seq_views(r@) =~= crate::views::seq_views(ns@));
    }
    r
}

/// One match expression of a function body: whether it carries the
/// ordering marker, and its arms.
pub struct MatchSite {
    pub sorted_marked: bool,
    pub arms: Vec<Arm>,
    pub span: Span,
}

/// The mathematical shape of a match expression.
pub struct MatchSiteM {
    pub sorted_marked: bool,
    pub arms: Seq<ArmM>,
    pub span: Span,
}

impl View for MatchSite {
    type V = MatchSiteM;

    open spec fn view(&self) -> MatchSiteM {
        MatchSiteM {
            sorted_marked: self.sorted_marked,
            arms: crate::views::seq_views(self.arms@),
            span: self.span,
        }
    }
}

/// A function body, as far as the ordering validator reads it: its match
/// expressions in source order.
pub struct FnDecl {
    pub sites: Vec<MatchSite>,
}

} // verus!
