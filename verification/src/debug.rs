//! The structured-debug transformer: plans, for each field of a struct, how
//! its value is displayed — through the default mechanism, or rendered
//! first through a per-field format override — collects the explicit
//! bound overrides of the item and its fields, and runs the generic-bound
//! inference over every parameter.

use vstd::prelude::*;

use crate::ast::Attr;
use crate::ast::Field;
use crate::ast::GenericParam;
use crate::ast::GenericParamM;
use crate::ast::Meta;
use crate::ast::StructDecl;
use crate::ast::Ty;
use crate::ast::TyM;
use crate::ast::tys_view;
use crate::attrs::Pred;
use crate::attrs::PredM;
use crate::attrs::field_directives;
use crate::attrs::interpret_field;
use crate::attrs::preds_views;
use crate::diag::Diagnostic;
use crate::generics::fields_projections;
use crate::generics::merge_unique;
use crate::generics::obligation_of;
use crate::generics::debug_bound;
use crate::name::copy_name;
use crate::views::seq_views;

verus! {

/// The first position of the placeholder `{}` in a format text, at or
/// after `i`.
pub open spec fn placeholder_at(fmt: Seq<char>, i: int) -> Option<int>
    decreases fmt.len() - i,
{
    if i < 0 || i + 1 >= fmt.len() {
        None
    } else if fmt[i] == '{' && fmt[i + 1] == '}' {
        Some(i)
    } else {
        placeholder_at(fmt, i + 1)
    }
}

/// A value rendered through a format text: the first placeholder becomes
/// the value's text; a format with no placeholder renders as itself.
pub open spec fn render_format(fmt: Seq<char>, val: Seq<char>) -> Seq<char> {
    match placeholder_at(fmt, 0) {
        Some(k) => fmt.take(k) + val + fmt.skip(k + 2),
        None => fmt,
    }
}

/// A reported placeholder lies within the text.
proof fn lemma_placeholder_bounds(fmt: Seq<char>, i: int)
    requires
        0 <= i,
    ensures
        placeholder_at(fmt, i) matches Some(k) ==> i <= k && k + 1 < fmt.len(),
    decreases fmt.len() - i,
{
    if i + 1 < fmt.len() {
        lemma_placeholder_bounds(fmt, i + 1);
    }
}

/// Finds the first placeholder at or after `i`.
fn find_placeholder(fmt: &Vec<char>, i: usize) -> (r: Option<usize>)
    requires
        i <= fmt@.len(),
    ensures
        match r {
            Some(k) => placeholder_at(fmt@, i as int) matches Some(m) && m == k,
            None => placeholder_at(fmt@, i as int) is None,
        },
    decreases fmt@.len() - i,
{
    if fmt.len() - i < 2 {
        None
    } else if fmt[i] == '{' && fmt[i + 1] == '}' {
        Some(i)
    } else {
        find_placeholder(fmt, i + 1)
    }
}

/// Renders a value through a format text.
pub fn render_through(fmt: &Vec<char>, val: &Vec<char>) -> (r: Vec<char>)
    ensures
        r@ == render_format(fmt@, val@),
{
    match find_placeholder(fmt, 0) {
        Some(k) => {
            let n = fmt.len();
            proof {
                lemma_placeholder_bounds(fmt@, 0);
                assert(k + 2 <= n);
            }
            let mut r = crate::attrs::take_chars(fmt, k);
            let mut tail = crate::attrs::skip_chars(fmt, k + 2);
            crate::name::append_name(&mut r, val);
            crate::name::append_name(&mut r, &tail);
            r
        },
        None => copy_name(fmt),
    }
}

/// How one field is displayed.
pub enum DisplayHow {
    /// Through the default mechanism.
    Default,
    /// Rendered through this format text first, then displayed as the
    /// pre-rendered result.
    Formatted(Vec<char>),
}

/// The mathematical shape of a display choice.
pub enum DisplayHowM {
    Default,
    Formatted(Seq<char>),
}

impl View for DisplayHow {
    type V = DisplayHowM;

    open spec fn view(&self) -> DisplayHowM {
        match self {
            DisplayHow::Default => DisplayHowM::Default,
            DisplayHow::Formatted(fmt) => DisplayHowM::Formatted(fmt@),
        }
    }
}

/// The planned display of one field.
pub struct FieldDisplay {
    pub name: Vec<char>,
    pub how: DisplayHow,
}

/// The mathematical shape of a planned display.
pub struct FieldDisplayM {
    pub name: Seq<char>,
    pub how: DisplayHowM,
}

impl View for FieldDisplay {
    type V = FieldDisplayM;

    open spec fn view(&self) -> FieldDisplayM {
        FieldDisplayM { name: self.name@, how: self.how@ }
    }
}

/// How a field is displayed, by its directives: through its format
/// override when it carries one.
pub open spec fn display_of(f: Field) -> DisplayHowM {
    match field_directives(f).0.format {
        Some(fmt) => DisplayHowM::Formatted(fmt),
        None => DisplayHowM::Default,
    }
}

/// The display text one field contributes at run time: the field's own
/// text under the default mechanism, and the format-rendered text under
/// an override.
pub open spec fn displayed_text(how: DisplayHowM, val: Seq<char>) -> Seq<char> {
    match how {
        DisplayHowM::Default => val,
        DisplayHowM::Formatted(fmt) => render_format(fmt, val),
    }
}

/// Renders what one field displays at run time.
pub fn display_value(how: &DisplayHow, val: &Vec<char>) -> (r: Vec<char>)
    ensures
        r@ == displayed_text(how@, val@),
{
    match how {
        DisplayHow::Default => copy_name(val),
        DisplayHow::Formatted(fmt) => render_through(fmt, val),
    }
}

/// Plans the display of one field from its annotations, with the
/// interpretation's diagnostics.
pub fn attr_debug(f: &Field) -> (r: (FieldDisplay, Vec<Diagnostic>))
    ensures
        r.0@.name == f.name@,
        r.0@.how == display_of(*f),
        seq_views(r.1@) == field_directives(*f).1,
{
    let (dirs, diags) = interpret_field(f);
    let how = match dirs.format {
        Some(fmt) => DisplayHow::Formatted(fmt),
        None => DisplayHow::Default,
    };
    (FieldDisplay { name: copy_name(&f.name), how }, diags)
}

} // verus!

verus! {

/// One collected bound override: its predicates, and the parameter names
/// their bounded types lead with.
pub struct BoundSet {
    pub preds: Vec<Pred>,
    pub idents: Vec<Vec<char>>,
}

/// The parameter names the first `n` predicates mention, in order.
pub open spec fn idents_upto(preds: Seq<PredM>, n: int) -> Seq<Seq<char>>
    decreases n,
{
    if n <= 0 {
        Seq::empty()
    } else {
        idents_upto(preds, n - 1) + (match preds[n - 1].first_ident {
            Some(p) => seq![p],
            None => Seq::empty(),
        })
    }
}

/// The predicate list one annotation's shape stands for, when it is a
/// bound override: `debug(bound = "predicates")`.
pub open spec fn bound_of(m: Meta) -> Option<Seq<PredM>> {
    match m {
        Meta::List { name, items } => if name@ == "debug"@ && items@.len() == 1 {
            match items@[0] {
                crate::ast::MetaItem::NameValue { name: key, value, .. } => if key@ == "bound"@ {
                    crate::attrs::preds_of_text(value@)
                } else {
                    None
                },
                _ => None,
            }
        } else {
            None
        },
        _ => None,
    }
}

/// Collects the parameter names the predicates mention.
fn idents_of(preds: &Vec<Pred>) -> (r: Vec<Vec<char>>)
    ensures
        seq_views(r@) == idents_upto(preds_views(preds@), preds_views(preds@).len() as int),
{
    let ghost ps = preds_views(preds@);
    let mut r: Vec<Vec<char>> = Vec::new();
    let mut j: usize = 0;
    while j < preds.len()
        invariant
            j <= preds@.len(),
            ps == preds_views(preds@),
            seq_views(r@) == idents_upto(ps, j as int),
        decreases preds@.len() - j,
    {
        proof {
            assert(preds@[j as int]@ == ps[j as int]);
        }
        match &preds[j].first_ident {
            Some(p) => {
                let c = copy_name(p);
                proof {
                    crate::views::lemma_seq_views_push(r@, c);
                }
                r.push(c);
                proof {
                    assert(seq_views(r@) =~= idents_upto(ps, j + 1));
                }
            },
            None => {
                proof {
                    assert(seq_views(r@) =~= idents_upto(ps, j + 1));
                }
            },
        }
        j = j + 1;
    }
    r
}

/// Decodes one annotation's shape as a bound override.
pub fn debug(meta: &Meta) -> (r: Option<BoundSet>)
    ensures
        match r {
            Some(b) => bound_of(*meta) matches Some(ps) && preds_views(b.preds@) == ps
                && seq_views(b.idents@) == idents_upto(ps, ps.len() as int),
            None => bound_of(*meta) is None,
        },
{
    match meta {
        Meta::List { name, items } => {
            if !crate::name::name_is(name, "debug") || items.len() != 1 {
                return None;
            }
            match &items[0] {
                crate::ast::MetaItem::NameValue { name: key, value, .. } => {
                    if !crate::name::name_is(key, "bound") {
                        return None;
                    }
                    match crate::attrs::parse_preds(value) {
                        Some(preds) => {
                            let idents = idents_of(&preds);
                            Some(BoundSet { preds, idents })
                        },
                        None => None,
                    }
                },
                _ => None,
            }
        },
        _ => None,
    }
}

/// The first bound override among the item's annotations, from position
/// `i` on; annotations of any other shape are passed over.
pub open spec fn first_bound(attrs: Seq<Attr>, i: int) -> Option<Seq<PredM>>
    decreases attrs.len() - i,
{
    if i < 0 || i >= attrs.len() {
        None
    } else {
        match bound_of(attrs[i].meta) {
            Some(ps) => Some(ps),
            None => first_bound(attrs, i + 1),
        }
    }
}

fn struct_attr_from(attrs: &Vec<Attr>, i: usize) -> (r: Option<BoundSet>)
    requires
        i <= attrs@.len(),
    ensures
        match r {
            Some(b) => first_bound(attrs@, i as int) matches Some(ps) && preds_views(b.preds@)
                == ps && seq_views(b.idents@) == idents_upto(ps, ps.len() as int),
            None => first_bound(attrs@, i as int) is None,
        },
    decreases attrs@.len() - i,
{
    if i == attrs.len() {
        return None;
    }
    match debug(&attrs[i].meta) {
        Some(b) => Some(b),
        None => struct_attr_from(attrs, i + 1),
    }
}

/// The item-level bound override: the first annotation of the item that
/// decodes as one.
pub fn struct_attr(attrs: &Vec<Attr>) -> (r: Option<BoundSet>)
    ensures
        match r {
            Some(b) => first_bound(attrs@, 0) matches Some(ps) && preds_views(b.preds@) == ps
                && seq_views(b.idents@) == idents_upto(ps, ps.len() as int),
            None => first_bound(attrs@, 0) is None,
        },
{
    struct_attr_from(attrs, 0)
}

/// The shape of a collected override: predicates and mentioned names.
pub open spec fn bound_set_view(o: Option<BoundSet>) -> Option<(Seq<PredM>, Seq<Seq<char>>)> {
    match o {
        Some(b) => Some((preds_views(b.preds@), seq_views(b.idents@))),
        None => None,
    }
}

/// Merges one annotation's bound override into the collected set: a first
/// override starts the set, a later one extends it in order.
pub fn field_attr(meta: &Meta, opt: &mut Option<BoundSet>)
    ensures
        bound_set_view(*final(opt)) == (match bound_of(*meta) {
            Some(ps) => Some(
                match bound_set_view(*old(opt)) {
                    Some(acc) => (acc.0 + ps, acc.1 + idents_upto(ps, ps.len() as int)),
                    None => (ps, idents_upto(ps, ps.len() as int)),
                },
            ),
            None => bound_set_view(*old(opt)),
        }),
{
    match debug(meta) {
        Some(b) => {
            match opt {
                Some(acc) => {
                    let more = b;
                    append_preds(&mut acc.preds, &more.preds);
                    append_names(&mut acc.idents, &more.idents);
                },
                None => {
                    *opt = Some(b);
                },
            }
        },
        None => {},
    }
}

/// Appends copies of the given predicates.
fn append_preds(acc: &mut Vec<Pred>, more: &Vec<Pred>)
    ensures
        preds_views(final(acc)@) == preds_views(old(acc)@) + preds_views(more@),
{
    let mut j: usize = 0;
    while j < more.len()
        invariant
            j <= more@.len(),
            preds_views(acc@) =~= preds_views(old(acc)@) + preds_views(more@).take(j as int),
        decreases more@.len() - j,
    {
        let p = crate::attrs::dup_pred_pub(&more[j]);
        proof {
            assert(p@ == preds_views(more@)[j as int]);
            crate::views::lemma_seq_views_push(acc@, p);
            assert(preds_views(acc@) =~= seq_views(acc@));
            assert(preds_views(acc@.push(p)) =~= seq_views(acc@.push(p)));
        }
        acc.push(p);
        proof {
            assert(preds_views(acc@) =~= preds_views(old(acc)@) + preds_views(more@).take(
                j + 1,
            ));
        }
        j = j + 1;
    }
    proof {
        assert(preds_views(acc@) =~= preds_views(old(acc)@) + preds_views(more@));
    }
}

/// Appends copies of the given names.
fn append_names(acc: &mut Vec<Vec<char>>, more: &Vec<Vec<char>>)
    ensures
        seq_views(final(acc)@) == seq_views(old(acc)@) + seq_views(more@),
{
    let mut j: usize = 0;
    while j < more.len()
        invariant
            j <= more@.len(),
            seq_views(acc@) =~= seq_views(old(acc)@) + seq_views(more@).take(j as int),
        decreases more@.len() - j,
    {
        let p = copy_name(&more[j]);
        proof {
            crate::views::lemma_seq_views_push(acc@, p);
        }
        acc.push(p);
        proof {
            assert(seq_views(acc@) =~= seq_views(old(acc)@) + seq_views(more@).take(j + 1));
        }
        j = j + 1;
    }
    proof {
        assert(seq_views(acc@) =~= seq_views(old(acc)@) + seq_views(more@));
    }
}

} // verus!

verus! {

/// The planned display of every field, in declared order.
pub open spec fn displays_of(fields: Seq<Field>) -> Seq<FieldDisplayM> {
    Seq::new(
        fields.len(),
        |i: int| FieldDisplayM { name: fields[i].name@, how: display_of(fields[i]) },
    )
}

/// The item-level bound override's predicates, or none.
pub open spec fn item_bounds(attrs: Seq<Attr>) -> Seq<PredM> {
    match first_bound(attrs, 0) {
        Some(ps) => ps,
        None => Seq::empty(),
    }
}

/// The bound overrides collected after reading the first `n` fields,
/// starting from the item-level override: predicates and mentioned names,
/// both extended in declared order.
pub open spec fn bounds_fold(
    p0: Seq<PredM>,
    i0: Seq<Seq<char>>,
    fields: Seq<Field>,
    n: int,
) -> (Seq<PredM>, Seq<Seq<char>>)
    decreases n,
{
    if n <= 0 {
        (p0, i0)
    } else {
        let acc = bounds_fold(p0, i0, fields, n - 1);
        match field_directives(fields[n - 1]).0.bounds {
            Some(ps) => (acc.0 + ps, acc.1 + idents_upto(ps, ps.len() as int)),
            None => acc,
        }
    }
}

/// The declared types of the fields, in order.
pub open spec fn tys_of_fields(fields: Seq<Field>) -> Seq<TyM> {
    Seq::new(fields.len(), |i: int| fields[i].ty@)
}

/// The parameters and the recorded projections after the inference has
/// walked the first `n` parameters: each directly obliged parameter gains
/// the capability bound, and every projection found is recorded once, in
/// first-occurrence order.
pub open spec fn infer_fold(
    params: Seq<GenericParamM>,
    tys: Seq<TyM>,
    ov: Seq<Seq<char>>,
    n: int,
) -> (Seq<GenericParamM>, Seq<TyM>)
    decreases n,
{
    if n <= 0 {
        (params, Seq::empty())
    } else {
        let prev = infer_fold(params, tys, ov, n - 1);
        let p = params[n - 1];
        let ob = obligation_of(tys, p.ident, ov);
        let fp = fields_projections(tys, p.ident, tys.len() as int);
        (
            prev.0.update(
                n - 1,
                if ob is Direct {
                    GenericParamM { ident: p.ident, bounds: p.bounds.push(debug_bound()) }
                } else {
                    p
                },
            ),
            merge_unique(prev.1, fp, fp.len() as int),
        )
    }
}

/// Everything the emitted impl is built from.
pub struct DebugPlan {
    /// The item's name.
    pub name: Vec<char>,
    /// One display instruction per field, in declared order.
    pub displays: Vec<FieldDisplay>,
    /// The generic parameters, each with the capability bound added where
    /// the inference obliges it directly.
    pub params: Vec<GenericParam>,
    /// The override predicates, item-level first, then field by field.
    pub where_preds: Vec<Pred>,
    /// The projected types that must satisfy the capability contract.
    pub projections: Vec<Ty>,
}

/// Copies one generic parameter.
fn dup_param(p: &GenericParam) -> (r: GenericParam)
    ensures
        r@ == p@,
{
    let mut bounds: Vec<Ty> = Vec::new();
    let mut j: usize = 0;
    while j < p.bounds.len()
        invariant
            j <= p.bounds@.len(),
            tys_view(bounds@) =~= tys_view(p.bounds@).take(j as int),
        decreases p.bounds@.len() - j,
    {
        let t = crate::ast::dup_ty(&p.bounds[j]);
        proof {
            crate::ast::lemma_tys_view_push(bounds@, t);
        }
        bounds.push(t);
        proof {
            assert(tys_view(bounds@) =~= tys_view(p.bounds@).take(j + 1));
        }
        j = j + 1;
    }
    proof {
        assert(tys_view(bounds@) =~= tys_view(p.bounds@));
    }
    GenericParam { ident: copy_name(&p.ident), bounds }
}

/// Copies the declared types of the fields.
fn field_tys_of(fields: &Vec<Field>) -> (r: Vec<Ty>)
    ensures
        tys_view(r@) == tys_of_fields(fields@),
{
    let mut r: Vec<Ty> = Vec::new();
    let mut i: usize = 0;
    while i < fields.len()
        invariant
            i <= fields@.len(),
            tys_view(r@) =~= tys_of_fields(fields@).take(i as int),
        decreases fields@.len() - i,
    {
        let t = crate::ast::dup_ty(&fields[i].ty);
        proof {
            crate::ast::lemma_tys_view_push(r@, t);
        }
        r.push(t);
        proof {
            assert(tys_view(r@) =~= tys_of_fields(fields@).take(i + 1));
        }
        i = i + 1;
    }
    proof {
        assert(tys_view(r@) =~= tys_of_fields(fields@));
    }
    r
}

/// Runs the whole structured-debug transformation over a struct: plans the
/// display of every field in declared order, collects the bound overrides
/// of the item and its fields, infers the obligation of every generic
/// parameter, and gathers the interpretation's diagnostics.
pub fn custom_debug(item: &StructDecl) -> (r: (DebugPlan, Vec<Diagnostic>))
    ensures
        r.0.name@ == item.name@,
        seq_views(r.0.displays@) == displays_of(item.fields@),
        preds_views(r.0.where_preds@) == bounds_fold(
            item_bounds(item.attrs@),
            idents_upto(item_bounds(item.attrs@), item_bounds(item.attrs@).len() as int),
            item.fields@,
            item.fields@.len() as int,
        ).0,
        ({
            let merged = bounds_fold(
                item_bounds(item.attrs@),
                idents_upto(item_bounds(item.attrs@), item_bounds(item.attrs@).len() as int),
                item.fields@,
                item.fields@.len() as int,
            );
            let folded = infer_fold(
                seq_views(item.generics@),
                tys_of_fields(item.fields@),
                merged.1,
                item.generics@.len() as int,
            );
            seq_views(r.0.params@) == folded.0 && tys_view(r.0.projections@) == folded.1
        }),
        seq_views(r.1@) == crate::attrs::fields_diags(item.fields@, item.fields@.len() as int),
{
    let ghost fields_v = item.fields@;
    // Item-level override first.
    let mut opt: Option<BoundSet> = struct_attr(&item.attrs);
    if opt.is_none() {
        opt = Some(BoundSet { preds: Vec::new(), idents: Vec::new() });
    }
    let mut bounds = match opt {
        Some(b) => b,
        None => vstd::pervasive::unreached(),
    };
    proof {
        assert(preds_views(bounds.preds@) == item_bounds(item.attrs@));
        assert(seq_views(bounds.idents@) =~= idents_upto(
            item_bounds(item.attrs@),
            item_bounds(item.attrs@).len() as int,
        ));
    }
    let ghost p0 = preds_views(bounds.preds@);
    let ghost i0 = seq_views(bounds.idents@);
    // Field pass: displays, diagnostics, and the field-level overrides.
    let mut displays: Vec<FieldDisplay> = Vec::new();
    let mut diags: Vec<Diagnostic> = Vec::new();
    let mut i: usize = 0;
    while i < item.fields.len()
        invariant
            i <= fields_v.len(),
            fields_v == item.fields@,
            seq_views(displays@) =~= displays_of(fields_v).take(i as int),
            seq_views(diags@) == crate::attrs::fields_diags(fields_v, i as int),
            preds_views(bounds.preds@) == bounds_fold(p0, i0, fields_v, i as int).0,
            seq_views(bounds.idents@) == bounds_fold(p0, i0, fields_v, i as int).1,
        decreases fields_v.len() - i,
    {
        let f = &item.fields[i];
        let (dirs, fdiags) = interpret_field(f);
        let how = match dirs.format {
            Some(fmt) => DisplayHow::Formatted(fmt),
            None => DisplayHow::Default,
        };
        let d = FieldDisplay { name: copy_name(&f.name), how };
        proof {
            crate::views::lemma_seq_views_push(displays@, d);
            assert(d@ == displays_of(fields_v)[i as int]);
        }
        displays.push(d);
        proof {
            assert(seq_views(displays@) =~= displays_of(fields_v).take(i + 1));
        }
        let ghost old_diags = seq_views(diags@);
        let mut j: usize = 0;
        while j < fdiags.len()
            invariant
                j <= fdiags@.len(),
                seq_views(diags@) =~= old_diags + seq_views(fdiags@).take(j as int),
            decreases fdiags@.len() - j,
        {
            let d2 = Diagnostic {
                span: fdiags[j].span,
                kind: crate::builder::dup_kind_pub(&fdiags[j].kind),
            };
            proof {
                assert(d2@ == fdiags@[j as int]@);
                crate::views::lemma_seq_views_push(diags@, d2);
            }
            diags.push(d2);
            proof {
                assert(seq_views(diags@) =~= old_diags + seq_views(fdiags@).take(j + 1));
            }
            j = j + 1;
        }
        proof {
            assert(seq_views(fdiags@).take(fdiags@.len() as int) =~= seq_views(fdiags@));
        }
        match dirs.bounds {
            Some(ps) => {
                let more = idents_of(&ps);
                append_preds(&mut bounds.preds, &ps);
                append_names(&mut bounds.idents, &more);
            },
            None => {},
        }
        i = i + 1;
    }
    let ghost merged = bounds_fold(p0, i0, fields_v, fields_v.len() as int);
    // Inference pass over the generic parameters.
    let field_tys = field_tys_of(&item.fields);
    let ghost tys_v = tys_of_fields(fields_v);
    let ghost params_v = seq_views(item.generics@);
    let ghost ov = merged.1;
    let mut params: Vec<GenericParam> = Vec::new();
    let mut projections: Vec<Ty> = Vec::new();
    let mut k: usize = 0;
    while k < item.generics.len()
        invariant
            k <= params_v.len(),
            params_v == seq_views(item.generics@),
            tys_view(field_tys@) == tys_v,
            ov == seq_views(bounds.idents@),
            seq_views(params@) =~= infer_fold(params_v, tys_v, ov, k as int).0.take(k as int),
            tys_view(projections@) == infer_fold(params_v, tys_v, ov, k as int).1,
        decreases params_v.len() - k,
    {
        let mut p = dup_param(&item.generics[k]);
        proof {
            assert(p@ == params_v[k as int]);
        }
        let ob = crate::generics::generics_add_debug(
            &mut p,
            &field_tys,
            &mut projections,
            &bounds.idents,
        );
        proof {
            crate::views::lemma_seq_views_push(params@, p);
            lemma_infer_fold_len(params_v, tys_v, ov, k as int);
            lemma_infer_fold_len(params_v, tys_v, ov, k + 1);
            assert(p@ == infer_fold(params_v, tys_v, ov, k + 1).0[k as int]);
            assert forall|t: int|
                0 <= t < k implies infer_fold(params_v, tys_v, ov, k + 1).0.take(k + 1)[t]
                == infer_fold(params_v, tys_v, ov, k as int).0.take(k as int)[t] by {
                lemma_infer_fold_stable(params_v, tys_v, ov, k as int, t);
            }
        }
        params.push(p);
        proof {
            assert(seq_views(params@) =~= infer_fold(params_v, tys_v, ov, k + 1).0.take(k + 1));
        }
        k = k + 1;
    }
    proof {
        assert(seq_views(params@) =~= infer_fold(
            params_v,
            tys_v,
            ov,
            params_v.len() as int,
        ).0) by {
            assert forall|t: int|
                0 <= t < params_v.len() implies infer_fold(
                params_v,
                tys_v,
                ov,
                params_v.len() as int,
            ).0[t] == seq_views(params@)[t] by {
                lemma_infer_fold_len(params_v, tys_v, ov, params_v.len() as int);
            }
            lemma_infer_fold_len(params_v, tys_v, ov, params_v.len() as int);
        }
        assert(seq_views(displays@) =~= displays_of(fields_v));
    }
    (
        DebugPlan {
            name: copy_name(&item.name),
            displays,
            params,
            where_preds: bounds.preds,
            projections,
        },
        diags,
    )
}

/// A later inference step never touches an earlier parameter.
proof fn lemma_infer_fold_stable(
    params: Seq<GenericParamM>,
    tys: Seq<TyM>,
    ov: Seq<Seq<char>>,
    n: int,
    t: int,
)
    requires
        0 <= t < n,
        n < params.len(),
    ensures
        infer_fold(params, tys, ov, n + 1).0[t] == infer_fold(params, tys, ov, n).0[t],
{
    lemma_infer_fold_len(params, tys, ov, n);
    lemma_infer_fold_len(params, tys, ov, n + 1);
}

/// The inference keeps the number of parameters.
proof fn lemma_infer_fold_len(params: Seq<GenericParamM>, tys: Seq<TyM>, ov: Seq<Seq<char>>, n: int)
    requires
        n <= params.len(),
    ensures
        infer_fold(params, tys, ov, n).0.len() == params.len(),
    decreases n,
{
    if n > 0 {
        lemma_infer_fold_len(params, tys, ov, n - 1);
    }
}

} // verus!

verus! {

/// The tokens the structured-debug derivation emits for a struct: the
/// planned impl, rendered.
pub open spec fn derived_toks(s: StructDecl) -> Seq<crate::token::TokM> {
    let p0 = item_bounds(s.attrs@);
    let merged = bounds_fold(
        p0,
        idents_upto(p0, p0.len() as int),
        s.fields@,
        s.fields@.len() as int,
    );
    let folded = infer_fold(
        seq_views(s.generics@),
        tys_of_fields(s.fields@),
        merged.1,
        s.generics@.len() as int,
    );
    crate::emit::debug_impl_toks(
        s.name@,
        displays_of(s.fields@),
        folded.0,
        crate::token::toks_view(s.where_toks@),
        merged.0,
        folded.1,
    )
}

/// The whole structured-debug derivation: accepts a struct with named
/// fields, plans and renders the impl, and hands back the diagnostics of
/// interpreting the field annotations; an item of any other shape is
/// rejected outright.
pub fn derive(item: &crate::ast::SourceItem) -> (r: Result<
    (Vec<crate::token::Tok>, Vec<crate::diag::Diagnostic>),
    crate::diag::ParseError,
>)
    ensures
        *item matches crate::ast::SourceItem::Struct(s) ==> (r matches Ok(o) && {
            &&& crate::token::toks_view(o.0@) == derived_toks(s)
            &&& seq_views(o.1@) == crate::attrs::fields_diags(s.fields@, s.fields@.len() as int)
        }),
        !(*item is Struct) ==> (r matches Err(e) && e.expected is NamedFieldStruct && e.span
            == crate::ast::item_span(*item)),
{
    match item {
        crate::ast::SourceItem::Struct(s) => {
            let (plan, diags) = custom_debug(s);
            let toks = crate::emit::debug_fragment(&plan, &s.where_toks);
            Ok((toks, diags))
        },
        crate::ast::SourceItem::Enum(e) => Err(
            crate::diag::ParseError {
                span: e.span,
                expected: crate::diag::ParseReject::NamedFieldStruct,
            },
        ),
        crate::ast::SourceItem::Other { span } => Err(
            crate::diag::ParseError {
                span: *span,
                expected: crate::diag::ParseReject::NamedFieldStruct,
            },
        ),
    }
}

} // verus!
