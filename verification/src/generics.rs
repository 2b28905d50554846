//! Generic-bound inference: decides, for each generic type parameter of the
//! host item, whether the emitted impl must oblige the parameter itself to
//! the capability contract, whether an explicit override already settles
//! it, or whether it is excluded — it appears only as a phantom marker, or
//! only under associated-type projections, which are then obliged
//! one by one instead of the parameter.

use vstd::prelude::*;

use crate::ast::GenericParam;
use crate::ast::Seg;
use crate::ast::SegM;
use crate::ast::Ty;
use crate::ast::TyM;
use crate::ast::ty_eq;
use crate::ast::tys_view;
use crate::name::name_eq;
use crate::name::chars_of;
use crate::name::copy_name;

verus! {

/// The phantom-marker type over one parameter: `PhantomMarker<P>`, written
/// as a plain path.
pub open spec fn phantom_marker(p: Seq<char>) -> TyM {
    TyM::Path {
        global: false,
        segs: seq![
            SegM {
                ident: "PhantomMarker"@,
                args: seq![
                    TyM::Path { global: false, segs: seq![SegM { ident: p, args: Seq::empty() }] },
                ],
            },
        ],
    }
}

/// Whether a type is an associated-type projection of the parameter: a
/// plain path of more than one segment whose first segment is the
/// parameter itself.
pub open spec fn is_projection_of(t: TyM, p: Seq<char>) -> bool {
    t matches TyM::Path { global: false, segs } && segs.len() > 1 && segs[0].ident == p
        && segs[0].args.len() == 0
}

/// The projections of the parameter recorded in the arguments of a type's
/// last segment, left to right, up to position `n`.
pub open spec fn args_projections(args: Seq<TyM>, p: Seq<char>, n: int) -> Seq<TyM>
    decreases n,
{
    if n <= 0 {
        Seq::empty()
    } else {
        args_projections(args, p, n - 1) + (if is_projection_of(args[n - 1], p) {
            seq![args[n - 1]]
        } else {
            Seq::empty()
        })
    }
}

/// The projections of the parameter one declared type contributes: the
/// type itself when it is a projection, and otherwise the projections
/// standing one level deep among its last segment's type arguments.
pub open spec fn ty_projections(t: TyM, p: Seq<char>) -> Seq<TyM> {
    if is_projection_of(t, p) {
        seq![t]
    } else {
        match t {
            TyM::Path { segs, .. } => {
                if segs.len() > 0 {
                    args_projections(segs[segs.len() - 1].args, p, segs[segs.len() - 1].args.len() as int)
                } else {
                    Seq::empty()
                }
            },
            TyM::Other(_) => Seq::empty(),
        }
    }
}

/// The projections of the parameter over the first `n` field types, in
/// declared order.
pub open spec fn fields_projections(tys: Seq<TyM>, p: Seq<char>, n: int) -> Seq<TyM>
    decreases n,
{
    if n <= 0 {
        Seq::empty()
    } else {
        fields_projections(tys, p, n - 1) + ty_projections(tys[n - 1], p)
    }
}

/// Appends those of the `items` not yet present, keeping first-occurrence
/// order, up to position `n`.
pub open spec fn merge_unique(acc: Seq<TyM>, items: Seq<TyM>, n: int) -> Seq<TyM>
    decreases n,
{
    if n <= 0 {
        acc
    } else {
        let before = merge_unique(acc, items, n - 1);
        if before.contains(items[n - 1]) {
            before
        } else {
            before.push(items[n - 1])
        }
    }
}

/// What the inference decides for one parameter.
pub enum Obligation {
    /// The parameter itself must satisfy the capability contract.
    Direct,
    /// An explicit override already mentions the parameter; inference is
    /// fully replaced for it.
    Explicit,
    /// The parameter appears only as a phantom marker or under
    /// associated-type projections: no obligation on the parameter itself.
    Excluded,
}

/// The obligation of one parameter, over the field types of the item and
/// the parameter names an explicit override mentions.
pub open spec fn obligation_of(tys: Seq<TyM>, p: Seq<char>, overrides: Seq<Seq<char>>) -> Obligation {
    if overrides.contains(p) {
        Obligation::Explicit
    } else if (exists|i: int| 0 <= i < tys.len() && tys[i] == phantom_marker(p)) || fields_projections(
        tys,
        p,
        tys.len() as int,
    ).len() > 0 {
        Obligation::Excluded
    } else {
        Obligation::Direct
    }
}

/// A parameter used as a phantom marker is never obliged directly: the
/// marker holds no value of it.
pub proof fn lemma_phantom_not_direct(tys: Seq<TyM>, p: Seq<char>, overrides: Seq<Seq<char>>, k: int)
    requires
        0 <= k < tys.len(),
        tys[k] == phantom_marker(p),
    ensures
        obligation_of(tys, p, overrides) != Obligation::Direct,
{
}

} // verus!

verus! {

/// The capability bound the inference adds: `::std::fmt::Debug`.
pub open spec fn debug_bound() -> TyM {
    TyM::Path {
        global: true,
        segs: seq![
            SegM { ident: "std"@, args: Seq::empty() },
            SegM { ident: "fmt"@, args: Seq::empty() },
            SegM { ident: "Debug"@, args: Seq::empty() },
        ],
    }
}

/// Builds the capability bound as a declared type.
pub fn debug_bound_ty() -> (r: Ty)
    ensures
        r@ == debug_bound(),
{
    let mut segs: Vec<Seg> = Vec::new();
    segs.push(Seg { ident: chars_of("std"), args: Vec::new() });
    segs.push(Seg { ident: chars_of("fmt"), args: Vec::new() });
    segs.push(Seg { ident: chars_of("Debug"), args: Vec::new() });
    let r = Ty::Path { global: true, segs };
    proof {
        crate::ast::lemma_segs_view_rec(r->Path_segs@);
        assert(crate::ast::segs_view(r->Path_segs@) =~= debug_bound()->Path_segs) by {
            assert(crate::ast::tys_view_rec(Seq::<Ty>::empty()) =~= Seq::<TyM>::empty());
        }
    }
    r
}

/// Builds the phantom-marker type over one parameter.
pub fn phantom_marker_ty(p: &Vec<char>) -> (r: Ty)
    ensures
        r@ == phantom_marker(p@),
{
    let mut inner_segs: Vec<Seg> = Vec::new();
    inner_segs.push(Seg { ident: copy_name(p), args: Vec::new() });
    let inner = Ty::Path { global: false, segs: inner_segs };
    proof {
        crate::ast::lemma_segs_view_rec(inner->Path_segs@);
        assert(crate::ast::segs_view(inner->Path_segs@) =~= seq![
            SegM { ident: p@, args: Seq::<TyM>::empty() },
        ]) by {
            assert(crate::ast::tys_view_rec(Seq::<Ty>::empty()) =~= Seq::<TyM>::empty());
        }
    }
    let mut args: Vec<Ty> = Vec::new();
    args.push(inner);
    let mut segs: Vec<Seg> = Vec::new();
    segs.push(Seg { ident: chars_of("PhantomMarker"), args });
    let r = Ty::Path { global: false, segs };
    proof {
        crate::ast::lemma_segs_view_rec(r->Path_segs@);
        crate::ast::lemma_tys_view_rec(r->Path_segs@[0].args@);
        assert(crate::ast::tys_view(r->Path_segs@[0].args@) =~= phantom_marker(
            p@,
        )->Path_segs[0].args);
        assert(crate::ast::segs_view(r->Path_segs@) =~= phantom_marker(p@)->Path_segs);
    }
    r
}

/// Decides whether a declared type is an associated-type projection of the
/// parameter.
pub fn is_projection(t: &Ty, p: &Vec<char>) -> (r: bool)
    ensures
        r == is_projection_of(t@, p@),
{
    match t {
        Ty::Path { global, segs } => {
            proof {
                crate::ast::lemma_segs_view_rec(segs@);
            }
            if *global || segs.len() <= 1 {
                return false;
            }
            proof {
                crate::ast::lemma_tys_view_rec(segs@[0].args@);
            }
            name_eq(&segs[0].ident, p) && segs[0].args.len() == 0
        },
        Ty::Other(_) => false,
    }
}

/// Decides whether a sequence of declared types holds this one.
fn contains_ty(acc: &Vec<Ty>, t: &Ty) -> (r: bool)
    ensures
        r == tys_view(acc@).contains(t@),
{
    let mut i: usize = 0;
    while i < acc.len()
        invariant
            i <= acc@.len(),
            forall|j: int| 0 <= j < i ==> tys_view(acc@)[j] != t@,
        decreases acc@.len() - i,
    {
        if ty_eq(&acc[i], t) {
            proof {
                assert(tys_view(acc@)[i as int] == t@);
            }
            return true;
        }
        i = i + 1;
    }
    proof {
        if tys_view(acc@).contains(t@) {
            let j = choose|j: int| 0 <= j < tys_view(acc@).len() && tys_view(acc@)[j] == t@;
            assert(tys_view(acc@)[j] != t@);
        }
    }
    false
}

/// Appends a type unless an equal one is already present.
fn push_unique(acc: &mut Vec<Ty>, t: Ty)
    ensures
        tys_view(final(acc)@) == (if tys_view(old(acc)@).contains(t@) {
            tys_view(old(acc)@)
        } else {
            tys_view(old(acc)@).push(t@)
        }),
{
    if !contains_ty(acc, &t) {
        let ghost tv = t@;
        acc.push(t);
        proof {
            assert(tys_view(acc@) =~= tys_view(old(acc)@).push(tv));
        }
    }
}

/// Reading one more item leaves the merge of the earlier ones alone.
proof fn lemma_merge_prefix(acc: Seq<TyM>, items1: Seq<TyM>, items2: Seq<TyM>, n: int)
    requires
        n <= items1.len(),
        n <= items2.len(),
        forall|k: int| 0 <= k < n ==> items1[k] == items2[k],
    ensures
        merge_unique(acc, items1, n) == merge_unique(acc, items2, n),
    decreases n,
{
    if n > 0 {
        lemma_merge_prefix(acc, items1, items2, n - 1);
    }
}

/// Merging a concatenation merges one part after the other.
proof fn lemma_merge_concat(acc: Seq<TyM>, xs: Seq<TyM>, ys: Seq<TyM>)
    ensures
        merge_unique(acc, xs + ys, xs.len() + ys.len() as int) == merge_unique(
            merge_unique(acc, xs, xs.len() as int),
            ys,
            ys.len() as int,
        ),
    decreases ys.len(),
{
    if ys.len() == 0 {
        assert(xs + ys =~= xs);
        lemma_merge_prefix(acc, xs + ys, xs, xs.len() as int);
    } else {
        lemma_merge_concat(acc, xs, ys.drop_last());
        assert(xs + ys.drop_last() =~= (xs + ys).take(xs.len() + ys.len() - 1));
        lemma_merge_prefix(
            acc,
            xs + ys.drop_last(),
            xs + ys,
            xs.len() + ys.len() - 1,
        );
        lemma_merge_prefix(
            merge_unique(acc, xs, xs.len() as int),
            ys.drop_last(),
            ys,
            ys.len() - 1,
        );
        assert((xs + ys)[xs.len() + ys.len() - 1] == ys.last());
    }
}

/// Collects the projections one declared type contributes, in order,
/// skipping those already present; says whether it contributed any.
fn collect_ty(t: &Ty, p: &Vec<char>, acc: &mut Vec<Ty>) -> (found: bool)
    ensures
        tys_view(final(acc)@) == merge_unique(
            tys_view(old(acc)@),
            ty_projections(t@, p@),
            ty_projections(t@, p@).len() as int,
        ),
        found == (ty_projections(t@, p@).len() > 0),
{
    let ghost items = ty_projections(t@, p@);
    if is_projection(t, p) {
        proof {
            assert(items =~= seq![t@]);
        }
        let copied = dup_ty_pub(t);
        push_unique(acc, copied);
        proof {
            assert(items[0] == t@);
            assert(merge_unique(tys_view(old(acc)@), items, 0) == tys_view(old(acc)@));
            assert(merge_unique(tys_view(old(acc)@), items, 1) == (
            if tys_view(old(acc)@).contains(t@) {
                tys_view(old(acc)@)
            } else {
                tys_view(old(acc)@).push(t@)
            }));
        }
        return true;
    }
    match t {
        Ty::Path { global, segs } => {
            proof {
                crate::ast::lemma_segs_view_rec(segs@);
            }
            if segs.len() == 0 {
                proof {
                    assert(items =~= Seq::<TyM>::empty());
                }
                return false;
            }
            let last = &segs[segs.len() - 1];
            let ghost args_v = crate::ast::tys_view(last.args@);
            proof {
                crate::ast::lemma_tys_view_rec(last.args@);
                assert(crate::ast::seg_view(segs@[segs@.len() - 1]).args == args_v);
                assert(items == args_projections(args_v, p@, args_v.len() as int));
            }
            let mut found = false;
            let mut j: usize = 0;
            while j < last.args.len()
                invariant
                    j <= last.args@.len(),
                    args_v == crate::ast::tys_view(last.args@),
                    tys_view(acc@) == merge_unique(
                        tys_view(old(acc)@),
                        args_projections(args_v, p@, j as int),
                        args_projections(args_v, p@, j as int).len() as int,
                    ),
                    found == (args_projections(args_v, p@, j as int).len() > 0),
                decreases last.args@.len() - j,
            {
                let ghost before = args_projections(args_v, p@, j as int);
                let arg = &last.args[j];
                proof {
                    assert(arg@ == args_v[j as int]);
                }
                if is_projection(arg, p) {
                    let copied = dup_ty_pub(arg);
                    push_unique(acc, copied);
                    found = true;
                    proof {
                        assert(args_projections(args_v, p@, j + 1) =~= before.push(arg@));
                        lemma_merge_prefix(
                            tys_view(old(acc)@),
                            before.push(arg@),
                            before,
                            before.len() as int,
                        );
                    }
                } else {
                    proof {
                        assert(args_projections(args_v, p@, j + 1) =~= before);
                        lemma_merge_prefix(
                            tys_view(old(acc)@),
                            args_projections(args_v, p@, j + 1),
                            before,
                            before.len() as int,
                        );
                    }
                }
                j = j + 1;
            }
            found
        },
        Ty::Other(_) => {
            proof {
                assert(items =~= Seq::<TyM>::empty());
            }
            false
        },
    }
}

/// Copies a declared type.
fn dup_ty_pub(t: &Ty) -> (r: Ty)
    ensures
        r@ == t@,
{
    crate::ast::dup_ty(t)
}

/// Decides whether the override names mention the parameter.
fn overrides_contain(overrides: &Vec<Vec<char>>, p: &Vec<char>) -> (r: bool)
    ensures
        r == crate::views::seq_views(overrides@).contains(p@),
{
    let mut i: usize = 0;
    while i < overrides.len()
        invariant
            i <= overrides@.len(),
            forall|j: int| 0 <= j < i ==> crate::views::seq_views(overrides@)[j] != p@,
        decreases overrides@.len() - i,
    {
        if name_eq(&overrides[i], p) {
            proof {
                assert(crate::views::seq_views(overrides@)[i as int] == p@);
            }
            return true;
        }
        i = i + 1;
    }
    proof {
        if crate::views::seq_views(overrides@).contains(p@) {
            let j = choose|j: int|
                0 <= j < overrides@.len() && crate::views::seq_views(overrides@)[j] == p@;
            assert(crate::views::seq_views(overrides@)[j] != p@);
        }
    }
    false
}

/// Scans every field type for one generic parameter: records the
/// associated-type projections of the parameter, in declared order and
/// without repetition, and adds the capability bound to the parameter
/// exactly when the inference obliges it directly.
pub fn generics_add_debug(
    param: &mut GenericParam,
    field_tys: &Vec<Ty>,
    associated: &mut Vec<Ty>,
    overrides: &Vec<Vec<char>>,
) -> (ob: Obligation)
    ensures
        ob == obligation_of(
            tys_view(field_tys@),
            old(param).ident@,
            crate::views::seq_views(overrides@),
        ),
        final(param).ident@ == old(param).ident@,
        tys_view(final(param).bounds@) == (if ob is Direct {
            tys_view(old(param).bounds@).push(debug_bound())
        } else {
            tys_view(old(param).bounds@)
        }),
        tys_view(final(associated)@) == merge_unique(
            tys_view(old(associated)@),
            fields_projections(
                tys_view(field_tys@),
                old(param).ident@,
                field_tys@.len() as int,
            ),
            fields_projections(
                tys_view(field_tys@),
                old(param).ident@,
                field_tys@.len() as int,
            ).len() as int,
        ),
{
    let ghost tys_v = tys_view(field_tys@);
    let ghost p_v = param.ident@;
    let ghost acc0 = tys_view(associated@);
    let phantom = phantom_marker_ty(&param.ident);
    let mut any_projection = false;
    let mut any_phantom = false;
    let mut i: usize = 0;
    while i < field_tys.len()
        invariant
            i <= field_tys@.len(),
            tys_v == tys_view(field_tys@),
            p_v == param.ident@,
            phantom@ == phantom_marker(p_v),
            tys_view(associated@) == merge_unique(
                acc0,
                fields_projections(tys_v, p_v, i as int),
                fields_projections(tys_v, p_v, i as int).len() as int,
            ),
            any_projection == (fields_projections(tys_v, p_v, i as int).len() > 0),
            any_phantom == (exists|k: int| 0 <= k < i && tys_v[k] == phantom_marker(p_v)),
        decreases field_tys@.len() - i,
    {
        let t = &field_tys[i];
        proof {
            assert(t@ == tys_v[i as int]);
        }
        let ghost before = fields_projections(tys_v, p_v, i as int);
        let found = collect_ty(t, &param.ident, associated);
        proof {
            assert(fields_projections(tys_v, p_v, i + 1) == before + ty_projections(
                t@,
                p_v,
            ));
            lemma_merge_concat(acc0, before, ty_projections(t@, p_v));
        }
        if found {
            any_projection = true;
        }
        if ty_eq(t, &phantom) {
            any_phantom = true;
            proof {
                assert(tys_v[i as int] == phantom_marker(p_v));
            }
        }
        proof {
            assert(fields_projections(tys_v, p_v, i + 1).len() == before.len()
                + ty_projections(t@, p_v).len());
        }
        i = i + 1;
    }
    let explicit = overrides_contain(overrides, &param.ident);
    let ob = if explicit {
        Obligation::Explicit
    } else if any_phantom || any_projection {
        Obligation::Excluded
    } else {
        Obligation::Direct
    };
    if match ob {
        Obligation::Direct => true,
        _ => false,
    } {
        let b = debug_bound_ty();
        proof {
            crate::ast::lemma_tys_view_rec(param.bounds@);
        }
        let ghost bounds0 = tys_view(param.bounds@);
        param.bounds.push(b);
        proof {
            assert(tys_view(param.bounds@) =~= bounds0.push(debug_bound()));
        }
    }
    ob
}

} // verus!
