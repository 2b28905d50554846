//! The ordering validator: checks that a declared sequence of names is
//! non-decreasing in the lexicographic order, and reports the first name
//! that breaks the order together with the name it should precede.

use vstd::prelude::*;

use crate::name::lex_leq;
use crate::name::lex_lt;
use crate::name::lemma_lex_leq_trans;
use crate::name::name_lt;
use crate::name::copy_name;
use crate::views::seq_views;

verus! {

/// Whether each name is lexicographically at least its predecessor.
pub open spec fn names_ordered(s: Seq<Seq<char>>) -> bool {
    forall|i: int| 0 < i < s.len() ==> lex_leq(s[i - 1], #[trigger] s[i])
}

/// An ordered sequence of names is ordered between any two positions,
/// not only between neighbours.
pub proof fn lemma_names_ordered_global(s: Seq<Seq<char>>, i: int, j: int)
    requires
        names_ordered(s),
        0 <= i <= j < s.len(),
    ensures
        lex_leq(s[i], s[j]),
    decreases j - i,
{
    if i == j {
        crate::name::lemma_lex_leq_refl(s[i]);
    } else {
        lemma_names_ordered_global(s, i, j - 1);
        lemma_lex_leq_trans(s[i], s[j - 1], s[j]);
    }
}

/// The first name that breaks the declared order.
pub struct Violation {
    /// The position of the offending name.
    pub index: usize,
    /// The position, among the names before it, of the first name that is
    /// strictly greater: where the offending name belongs.
    pub insert_at: usize,
    /// The offending name.
    pub name: Vec<char>,
    /// The name the offending one should sort before.
    pub should_precede: Vec<char>,
}

/// What a reported violation says of the name sequence it was found in:
/// the offending position is the first that descends, and the insertion
/// position is the first earlier name that is strictly greater.
pub open spec fn is_first_violation(s: Seq<Seq<char>>, v: Violation) -> bool {
    &&& 0 < v.index < s.len()
    &&& lex_lt(s[v.index as int], s[v.index - 1])
    &&& forall|i: int| 0 < i < v.index ==> lex_leq(s[i - 1], #[trigger] s[i])
    &&& v.insert_at < v.index
    &&& lex_lt(s[v.index as int], s[v.insert_at as int])
    &&& forall|i: int| 0 <= i < v.insert_at ==> lex_leq(s[i], s[v.index as int])
    &&& v.name@ == s[v.index as int]
    &&& v.should_precede@ == s[v.insert_at as int]
}

/// Validates a name sequence: accepts exactly the non-decreasing ones, and
/// otherwise describes the first violation.
pub fn check_names(names: &Vec<Vec<char>>) -> (r: Option<Violation>)
    ensures
        r is None <==> names_ordered(seq_views(names@)),
        r matches Some(v) ==> is_first_violation(seq_views(names@), v),
{
    let ghost s = seq_views(names@);
    let n = names.len();
    let mut k: usize = 1;
    while k < n
        invariant
            1 <= k,
            n == names@.len(),
            s == seq_views(names@),
            k > n ==> n == 0,
            forall|i: int| 0 < i < k && i < n ==> lex_leq(s[i - 1], #[trigger] s[i]),
        decreases n - k,
    {
        if name_lt(&names[k], &names[k - 1]) {
            // The offending name belongs before some earlier name: find the
            // first one that is strictly greater.
            let mut j: usize = 0;
            loop
                invariant
                    j < k < n == names@.len(),
                    s == seq_views(names@),
                    lex_lt(s[k as int], s[k - 1]),
                    forall|i: int| 0 <= i < j ==> !lex_lt(s[k as int], s[i]),
                ensures
                    j < k,
                    lex_lt(s[k as int], s[j as int]),
                    forall|i: int| 0 <= i < j ==> !lex_lt(s[k as int], s[i]),
                decreases k - j,
            {
                if j == k - 1 {
                    break;
                }
                if name_lt(&names[k], &names[j]) {
                    break;
                }
                j = j + 1;
            }
            proof {
                assert forall|i: int| 0 <= i < j implies lex_leq(s[i], s[k as int]) by {
                    crate::name::lemma_lex_leq_total(s[k as int], s[i]);
                }
                assert(!lex_leq(s[k - 1], s[k as int])) by {
                    if lex_leq(s[k - 1], s[k as int]) {
                        crate::name::lemma_lex_leq_antisym(s[k as int], s[k - 1]);
                    }
                }
                assert(!names_ordered(s));
            }
            return Some(
                Violation {
                    index: k,
                    insert_at: j,
                    name: copy_name(&names[k]),
                    should_precede: copy_name(&names[j]),
                },
            );
        }
        proof {
            crate::name::lemma_lex_leq_total(s[k as int], s[k - 1]);
        }
        k = k + 1;
    }
    None
}

} // verus!

verus! {

/// The names of an enum's variants, in declared order.
pub open spec fn variant_names(vs: Seq<crate::ast::Variant>) -> Seq<Seq<char>> {
    Seq::new(vs.len(), |i: int| vs[i].name@)
}

/// Whether a diagnostic reports the first violation of the variant order:
/// at the offending variant's position, naming it and the variant it
/// should precede.
pub open spec fn violation_reported(vs: Seq<crate::ast::Variant>, d: crate::diag::DiagnosticM) -> bool {
    exists|v: Violation|
        {
            &&& #[trigger] is_first_violation(variant_names(vs), v)
            &&& d.span == vs[v.index as int].span
            &&& d.kind == crate::diag::DiagKindM::OutOfOrder {
                name: v.name@,
                should_precede: v.should_precede@,
            }
        }
}

/// Whether a token fragment is the error message of the first violation of
/// the variant order.
pub open spec fn violation_fragment(vs: Seq<crate::ast::Variant>, extra: Seq<crate::token::TokM>) -> bool {
    exists|v: Violation|
        {
            &&& #[trigger] is_first_violation(variant_names(vs), v)
            &&& extra == crate::emit::error_toks(
                crate::diag::message_chars(
                    crate::diag::DiagKindM::OutOfOrder {
                        name: v.name@,
                        should_precede: v.should_precede@,
                    },
                ),
            )
        }
}

/// What the whole-item validation reports.
#[derive(Debug)]
pub enum SortedError {
    /// A variant breaks the declared order: recoverable, reported and the
    /// item left unmodified.
    Unordered(crate::diag::Diagnostic),
    /// The item is not an enum: fatal for the invocation.
    WrongShape(crate::diag::ParseError),
}

/// Validates the variant order of an enum: accepts exactly the items whose
/// variant names are non-decreasing, and otherwise reports the first
/// violation at the offending variant's position; any other item shape is
/// rejected outright.
pub fn sorted_impl(item: &crate::ast::SourceItem) -> (r: Result<(), SortedError>)
    ensures
        *item matches crate::ast::SourceItem::Enum(e) ==> {
            &&& (r is Ok <==> names_ordered(variant_names(e.variants@)))
            &&& (r matches Err(SortedError::Unordered(d)) ==> violation_reported(
                e.variants@,
                d@,
            ))
            &&& !(r is Err && r->Err_0 is WrongShape)
        },
        !(*item is Enum) ==> (r matches Err(SortedError::WrongShape(pe)) && pe.expected
            is EnumItem && pe.span == crate::ast::item_span(*item)),
{
    match item {
        crate::ast::SourceItem::Enum(e) => {
            let ghost nv = variant_names(e.variants@);
            let mut names: Vec<Vec<char>> = Vec::new();
            let mut i: usize = 0;
            while i < e.variants.len()
                invariant
                    i <= e.variants@.len(),
                    nv == variant_names(e.variants@),
                    seq_views(names@) =~= nv.take(i as int),
                decreases e.variants@.len() - i,
            {
                let n = copy_name(&e.variants[i].name);
                proof {
                    crate::views::lemma_seq_views_push(names@, n);
                }
                names.push(n);
                proof {
                    assert(seq_views(names@) =~= nv.take(i + 1));
                }
                i = i + 1;
            }
            proof {
                assert(seq_views(names@) =~= nv);
            }
            match check_names(&names) {
                None => Ok(()),
                Some(v) => {
                    let span = e.variants[v.index].span;
                    let d = crate::diag::Diagnostic {
                        span,
                        kind: crate::diag::DiagKind::OutOfOrder {
                            name: v.name,
                            should_precede: v.should_precede,
                        },
                    };
                    let ghost vv = Violation {
                        index: v.index,
                        insert_at: v.insert_at,
                        name: v.name,
                        should_precede: v.should_precede,
                    };
                    Err(SortedError::Unordered(d))
                },
            }
        },
        crate::ast::SourceItem::Struct(s) => Err(
            SortedError::WrongShape(
                crate::diag::ParseError {
                    span: s.span,
                    expected: crate::diag::ParseReject::EnumItem,
                },
            ),
        ),
        crate::ast::SourceItem::Other { span } => Err(
            SortedError::WrongShape(
                crate::diag::ParseError {
                    span: *span,
                    expected: crate::diag::ParseReject::EnumItem,
                },
            ),
        ),
    }
}

/// Validates an item's declared ordering and renders what must be spliced
/// after the unmodified item: nothing when it is an ordered enum, and one
/// compile-time error fragment otherwise — the original structure is
/// always kept, so one mistake yields one clear message.
pub fn sorted(item: &crate::ast::SourceItem) -> (extra: Vec<crate::token::Tok>)
    ensures
        *item matches crate::ast::SourceItem::Enum(e) ==> {
            &&& names_ordered(variant_names(e.variants@)) ==> crate::token::toks_view(extra@)
                == Seq::<crate::token::TokM>::empty()
            &&& !names_ordered(variant_names(e.variants@)) ==> violation_fragment(
                e.variants@,
                crate::token::toks_view(extra@),
            )
        },
        !(*item is Enum) ==> crate::token::toks_view(extra@) == crate::emit::error_toks(
            crate::diag::parse_error_chars(crate::diag::ParseReject::EnumItem),
        ),
{
    match sorted_impl(item) {
        Ok(()) => {
            let extra: Vec<crate::token::Tok> = Vec::new();
            proof {
                assert(crate::token::toks_view(extra@) =~= Seq::<crate::token::TokM>::empty());
            }
            extra
        },
        Err(SortedError::Unordered(d)) => {
            let msg = d.message();
            let mut extra: Vec<crate::token::Tok> = Vec::new();
            crate::emit::push_error(&mut extra, msg);
            extra
        },
        Err(SortedError::WrongShape(pe)) => {
            let msg = pe.message();
            let mut extra: Vec<crate::token::Tok> = Vec::new();
            crate::emit::push_error(&mut extra, msg);
            extra
        },
    }
}

} // verus!

verus! {

/// The first `n` path segments joined by `::`.
pub open spec fn joined_path(segs: Seq<Seq<char>>, n: int) -> Seq<char>
    decreases n,
{
    if n <= 0 {
        Seq::empty()
    } else if n == 1 {
        segs[0]
    } else {
        joined_path(segs, n - 1) + "::"@ + segs[n - 1]
    }
}

/// Joins a pattern path's segments into one comparable name.
pub fn path_as_string(segs: &Vec<Vec<char>>) -> (r: Vec<char>)
    ensures
        r@ == joined_path(seq_views(segs@), segs@.len() as int),
{
    let ghost sv = seq_views(segs@);
    let mut r: Vec<char> = Vec::new();
    let mut i: usize = 0;
    while i < segs.len()
        invariant
            i <= segs@.len(),
            sv == seq_views(segs@),
            r@ == joined_path(sv, i as int),
        decreases segs@.len() - i,
    {
        proof {
            assert(segs@[i as int]@ == sv[i as int]);
        }
        if i > 0 {
            let sep = crate::name::chars_of("::");
            crate::name::append_name(&mut r, &sep);
        }
        crate::name::append_name(&mut r, &segs[i]);
        proof {
            if i == 0 {
                assert(r@ =~= joined_path(sv, 1));
            }
        }
        i = i + 1;
    }
    r
}

/// The leading path of a pattern, read through binding sub-patterns: the
/// shapes without one yield nothing.
pub open spec fn arm_path(p: crate::ast::PatM) -> Option<Seq<Seq<char>>>
    decreases p,
{
    match p {
        crate::ast::PatM::Path { segs } => Some(segs),
        crate::ast::PatM::Struct { segs } => Some(segs),
        crate::ast::PatM::TupleStruct { segs } => Some(segs),
        crate::ast::PatM::Binding { sub } => arm_path(*sub),
        crate::ast::PatM::Wild => None,
        crate::ast::PatM::Lit => None,
    }
}

/// Borrows the leading path of a pattern, when it has one.
pub fn get_arm_path<'a>(p: &'a crate::ast::Pat) -> (r: Option<&'a Vec<Vec<char>>>)
    ensures
        match r {
            Some(segs) => arm_path(p@) matches Some(m) && seq_views(segs@) == m,
            None => arm_path(p@) is None,
        },
    decreases *p,
{
    match p {
        crate::ast::Pat::Path { segs } => Some(segs),
        crate::ast::Pat::Struct { segs } => Some(segs),
        crate::ast::Pat::TupleStruct { segs } => Some(segs),
        crate::ast::Pat::Binding { sub } => get_arm_path(sub),
        crate::ast::Pat::Wild => None,
        crate::ast::Pat::Lit => None,
    }
}

/// The first position among the names already seen whose name the new one
/// must precede, scanning from `j`; the count of names when there is none.
pub open spec fn first_greater(names: Seq<Seq<char>>, x: Seq<char>, j: int) -> int
    decreases names.len() - j,
{
    if j < 0 || j >= names.len() {
        names.len() as int
    } else if lex_lt(x, names[j]) {
        j
    } else {
        first_greater(names, x, j + 1)
    }
}

/// Walking the first `n` arms of a marked match: the names seen so far,
/// and the diagnostics gathered — one for each pattern without a leading
/// path, which is skipped, and one for each name that breaks the order,
/// which is still recorded and walked past.
pub open spec fn arms_fold(arms: Seq<crate::ast::ArmM>, n: int) -> (Seq<Seq<char>>, Seq<
    crate::diag::DiagnosticM,
>)
    decreases n,
{
    if n <= 0 {
        (Seq::empty(), Seq::empty())
    } else {
        let acc = arms_fold(arms, n - 1);
        let a = arms[n - 1];
        match arm_path(a.pat) {
            None => (
                acc.0,
                acc.1.push(
                    crate::diag::DiagnosticM {
                        span: a.span,
                        kind: crate::diag::DiagKindM::UnsupportedPattern,
                    },
                ),
            ),
            Some(segs) => {
                let nm = joined_path(segs, segs.len() as int);
                if acc.0.len() > 0 && lex_lt(nm, acc.0.last()) {
                    (
                        acc.0.push(nm),
                        acc.1.push(
                            crate::diag::DiagnosticM {
                                span: a.span,
                                kind: crate::diag::DiagKindM::OutOfOrder {
                                    name: nm,
                                    should_precede: acc.0[first_greater(acc.0, nm, 0)],
                                },
                            },
                        ),
                    )
                } else {
                    (acc.0.push(nm), acc.1)
                }
            },
        }
    }
}

/// Finds the first seen name the new one must precede.
fn first_greater_at(names: &Vec<Vec<char>>, x: &Vec<char>) -> (r: usize)
    ensures
        r == first_greater(seq_views(names@), x@, 0),
        r <= names@.len(),
{
    let ghost nv = seq_views(names@);
    let mut j: usize = 0;
    while j < names.len()
        invariant
            j <= names@.len(),
            nv == seq_views(names@),
            first_greater(nv, x@, 0) == first_greater(nv, x@, j as int),
        decreases names@.len() - j,
    {
        proof {
            assert(names@[j as int]@ == nv[j as int]);
        }
        if name_lt(x, &names[j]) {
            return j;
        }
        j = j + 1;
    }
    j
}

/// Validates the arm order of one marked match expression: every arm with
/// a leading path is ordered against the ones seen before it; an arm with
/// none costs one diagnostic and is skipped, never treated as an empty
/// name. A match without the marker is left alone.
pub fn check_site(site: &crate::ast::MatchSite) -> (diags: Vec<crate::diag::Diagnostic>)
    ensures
        site.sorted_marked ==> seq_views(diags@) == arms_fold(
            seq_views(site.arms@),
            site.arms@.len() as int,
        ).1,
        !site.sorted_marked ==> seq_views(diags@) == Seq::<crate::diag::DiagnosticM>::empty(),
{
    let mut diags: Vec<crate::diag::Diagnostic> = Vec::new();
    if !site.sorted_marked {
        proof {
            assert(seq_views(diags@) =~= Seq::<crate::diag::DiagnosticM>::empty());
        }
        return diags;
    }
    let ghost av = seq_views(site.arms@);
    let mut names: Vec<Vec<char>> = Vec::new();
    let mut i: usize = 0;
    while i < site.arms.len()
        invariant
            i <= site.arms@.len(),
            av == seq_views(site.arms@),
            seq_views(names@) == arms_fold(av, i as int).0,
            seq_views(diags@) == arms_fold(av, i as int).1,
        decreases site.arms@.len() - i,
    {
        let a = &site.arms[i];
        proof {
            assert(a@ == av[i as int]);
        }
        match get_arm_path(&a.pat) {
            None => {
                let d = crate::diag::Diagnostic {
                    span: a.span,
                    kind: crate::diag::DiagKind::UnsupportedPattern,
                };
                proof {
                    crate::views::lemma_seq_views_push(diags@, d);
                }
                diags.push(d);
                proof {
                    assert(seq_views(diags@) =~= arms_fold(av, i + 1).1);
                }
            },
            Some(segs) => {
                let nm = path_as_string(segs);
                if names.len() > 0 && name_lt(&nm, &names[names.len() - 1]) {
                    proof {
                        assert(names@[names@.len() - 1]@ == seq_views(names@).last());
                    }
                    let at = first_greater_at(&names, &nm);
                    proof {
                        assert(first_greater(seq_views(names@), nm@, 0) < seq_views(
                            names@,
                        ).len()) by {
                            lemma_first_greater_hit(seq_views(names@), nm@, 0);
                        }
                        assert(names@[at as int]@ == seq_views(names@)[at as int]);
                    }
                    let d = crate::diag::Diagnostic {
                        span: a.span,
                        kind: crate::diag::DiagKind::OutOfOrder {
                            name: copy_name(&nm),
                            should_precede: copy_name(&names[at]),
                        },
                    };
                    proof {
                        crate::views::lemma_seq_views_push(diags@, d);
                    }
                    diags.push(d);
                }
                proof {
                    crate::views::lemma_seq_views_push(names@, nm);
                }
                names.push(nm);
                proof {
                    assert(seq_views(names@) =~= arms_fold(av, i + 1).0);
                    assert(seq_views(diags@) =~= arms_fold(av, i + 1).1);
                }
            },
        }
        i = i + 1;
    }
    diags
}

/// When a name descends below the last one seen, some seen name is
/// strictly greater, so the scan hits within the names.
proof fn lemma_first_greater_hit(names: Seq<Seq<char>>, x: Seq<char>, j: int)
    requires
        0 <= j < names.len(),
        lex_lt(x, names.last()),
    ensures
        first_greater(names, x, j) < names.len(),
    decreases names.len() - j,
{
    if j < names.len() - 1 && !lex_lt(x, names[j]) {
        lemma_first_greater_hit(names, x, j + 1);
    }
}

/// The diagnostics of the first `n` match expressions of a function body:
/// those of each marked one, in source order.
pub open spec fn check_diags(sites: Seq<crate::ast::MatchSite>, n: int) -> Seq<
    crate::diag::DiagnosticM,
>
    decreases n,
{
    if n <= 0 {
        Seq::empty()
    } else {
        check_diags(sites, n - 1) + (if sites[n - 1].sorted_marked {
            arms_fold(seq_views(sites[n - 1].arms@), sites[n - 1].arms@.len() as int).1
        } else {
            Seq::empty()
        })
    }
}

/// Validates every marked match expression of a function body: the body
/// comes back with the markers removed and the arms untouched, and the
/// diagnostics of every marked expression are gathered in source order —
/// the caller surfaces only the first.
pub fn check(f: &crate::ast::FnDecl) -> (r: (crate::ast::FnDecl, Vec<crate::diag::Diagnostic>))
    ensures
        r.0.sites@.len() == f.sites@.len(),
        forall|i: int|
            0 <= i < f.sites@.len() ==> {
                &&& !(#[trigger] r.0.sites@[i])@.sorted_marked
                &&& r.0.sites@[i]@.arms == f.sites@[i]@.arms
                &&& r.0.sites@[i]@.span == f.sites@[i]@.span
            },
        seq_views(r.1@) == check_diags(f.sites@, f.sites@.len() as int),
{
    let mut out_sites: Vec<crate::ast::MatchSite> = Vec::new();
    let mut diags: Vec<crate::diag::Diagnostic> = Vec::new();
    let mut i: usize = 0;
    while i < f.sites.len()
        invariant
            i <= f.sites@.len(),
            out_sites@.len() == i,
            forall|k: int|
                0 <= k < i ==> {
                    &&& !(#[trigger] out_sites@[k])@.sorted_marked
                    &&& out_sites@[k]@.arms == f.sites@[k]@.arms
                    &&& out_sites@[k]@.span == f.sites@[k]@.span
                },
            seq_views(diags@) == check_diags(f.sites@, i as int),
        decreases f.sites@.len() - i,
    {
        let site = &f.sites[i];
        let site_diags = check_site(site);
        let ghost old_diags = seq_views(diags@);
        let mut j: usize = 0;
        while j < site_diags.len()
            invariant
                j <= site_diags@.len(),
                seq_views(diags@) =~= old_diags + seq_views(site_diags@).take(j as int),
            decreases site_diags@.len() - j,
        {
            let d = crate::diag::Diagnostic {
                span: site_diags[j].span,
                kind: crate::builder::dup_kind_pub(&site_diags[j].kind),
            };
            proof {
                assert(d@ == site_diags@[j as int]@);
                crate::views::lemma_seq_views_push(diags@, d);
            }
            diags.push(d);
            proof {
                assert(seq_views(diags@) =~= old_diags + seq_views(site_diags@).take(j + 1));
            }
            j = j + 1;
        }
        proof {
            assert(seq_views(site_diags@).take(site_diags@.len() as int) =~= seq_views(
                site_diags@,
            ));
            assert(seq_views(diags@) =~= check_diags(f.sites@, i + 1));
        }
        let mut arms: Vec<crate::ast::Arm> = Vec::new();
        let mut k: usize = 0;
        while k < site.arms.len()
            invariant
                k <= site.arms@.len(),
                seq_views(arms@) =~= seq_views(site.arms@).take(k as int),
            decreases site.arms@.len() - k,
        {
            let a = crate::ast::Arm {
                pat: crate::ast::dup_pat(&site.arms[k].pat),
                span: site.arms[k].span,
            };
            proof {
                assert(a@ == site.arms@[k as int]@);
                crate::views::lemma_seq_views_push(arms@, a);
            }
            arms.push(a);
            proof {
                assert(seq_views(arms@) =~= seq_views(site.arms@).take(k + 1));
            }
            k = k + 1;
        }
        proof {
            assert(seq_views(arms@) =~= seq_views(site.arms@));
        }
        let cleaned = crate::ast::MatchSite { sorted_marked: false, arms, span: site.span };
        proof {
            assert(cleaned@.arms == f.sites@[i as int]@.arms);
        }
        out_sites.push(cleaned);
        i = i + 1;
    }
    (crate::ast::FnDecl { sites: out_sites }, diags)
}

/// Renders what is spliced after the unmodified function: one error
/// fragment for the first diagnostic, and nothing when there is none.
pub fn first_error_fragment(diags: &Vec<crate::diag::Diagnostic>) -> (extra: Vec<
    crate::token::Tok,
>)
    ensures
        diags@.len() == 0 ==> crate::token::toks_view(extra@) == Seq::<
            crate::token::TokM,
        >::empty(),
        diags@.len() > 0 ==> crate::token::toks_view(extra@) == crate::emit::error_toks(
            crate::diag::message_chars(seq_views(diags@)[0].kind),
        ),
{
    let mut extra: Vec<crate::token::Tok> = Vec::new();
    if diags.len() > 0 {
        let msg = diags[0].message();
        proof {
            assert(diags@[0]@ == seq_views(diags@)[0]);
        }
        crate::emit::push_error(&mut extra, msg);
    } else {
        proof {
            assert(crate::token::toks_view(extra@) =~= Seq::<crate::token::TokM>::empty());
        }
    }
    extra
}

} // verus!
