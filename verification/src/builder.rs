//! The builder transformer: plans, for each field of a struct, the slot the
//! auxiliary builder keeps for it — a wrapped optional for an ordinary
//! field, the field's own optional for an explicitly optional one, a native
//! container for a field with an element accessor — and models the
//! generated builder's behaviour: setters overwrite unconditionally, and
//! the finalize operation fails on the first required slot never set.

use vstd::prelude::*;

use crate::ast::Field;
use crate::ast::Ty;
use crate::ast::TyM;
use crate::attrs::field_directives;
use crate::attrs::interpret_field;
use crate::diag::Diagnostic;
use crate::name::copy_name;
use crate::name::name_eq;
use crate::name::name_is;
use crate::views::seq_views;

verus! {

/// The inner type of a one-argument wrapper such as an optional: the first
/// argument of the first path segment, when that segment bears the wrapper
/// name.
pub open spec fn inner_of(wrapper: Seq<char>, t: TyM) -> Option<TyM> {
    match t {
        TyM::Path { segs, .. } => {
            if segs.len() > 0 && segs[0].ident == wrapper && segs[0].args.len() > 0 {
                Some(segs[0].args[0])
            } else {
                None
            }
        },
        TyM::Other(_) => None,
    }
}

/// Borrows the inner type of a one-argument wrapper, when the declared
/// type is such a wrapper.
pub fn ty_inner<'a>(wrapper: &str, ty: &'a Ty) -> (r: Option<&'a Ty>)
    ensures
        match r {
            Some(inner) => inner_of(wrapper@, ty@) matches Some(m) && inner@ == m,
            None => inner_of(wrapper@, ty@) is None,
        },
{
    match ty {
        Ty::Path { segs, .. } => {
            proof {
                crate::ast::lemma_segs_view_rec(segs@);
            }
            if segs.len() == 0 {
                return None;
            }
            proof {
                crate::ast::lemma_tys_view_rec(segs@[0].args@);
            }
            if name_is(&segs[0].ident, wrapper) && segs[0].args.len() > 0 {
                Some(&segs[0].args[0])
            } else {
                None
            }
        },
        Ty::Other(_) => None,
    }
}

/// How the builder treats one field.
pub enum SlotKind {
    /// An ordinary field: wrapped in an optional, and owed a value.
    Required,
    /// An explicitly optional field: kept verbatim, absence is a value.
    Optional,
    /// A field with an element accessor: kept native, filled element by
    /// element; the bulk setter is suppressed when the accessor name
    /// collides with the field's own.
    Each { method: Vec<char>, collide: bool },
}

/// The mathematical shape of a slot kind.
pub enum SlotKindM {
    Required,
    Optional,
    Each { method: Seq<char>, collide: bool },
}

impl View for SlotKind {
    type V = SlotKindM;

    open spec fn view(&self) -> SlotKindM {
        match self {
            SlotKind::Required => SlotKindM::Required,
            SlotKind::Optional => SlotKindM::Optional,
            SlotKind::Each { method, collide } => SlotKindM::Each {
                method: method@,
                collide: *collide,
            },
        }
    }
}

/// The plan for one field: its name and its slot kind.
pub struct SlotPlan {
    pub name: Vec<char>,
    pub kind: SlotKind,
}

/// The mathematical shape of a slot plan.
pub struct SlotPlanM {
    pub name: Seq<char>,
    pub kind: SlotKindM,
}

impl View for SlotPlan {
    type V = SlotPlanM;

    open spec fn view(&self) -> SlotPlanM {
        SlotPlanM { name: self.name@, kind: self.kind@ }
    }
}

/// The slot kind a field is planned as: a field with an accepted element
/// accessor is filled element by element, an explicitly optional field
/// keeps its own optional, and every other field is owed a value.
pub open spec fn kind_of_field(f: Field) -> SlotKindM {
    let dirs = field_directives(f).0;
    match dirs.each {
        Some(m) => SlotKindM::Each { method: m, collide: m == f.name@ },
        None => {
            if inner_of("Option"@, f.ty@) is Some {
                SlotKindM::Optional
            } else {
                SlotKindM::Required
            }
        },
    }
}

/// The plan of a whole struct, field by field, in declared order.
pub open spec fn plan_of(fields: Seq<Field>) -> Seq<SlotPlanM> {
    Seq::new(fields.len(), |i: int| SlotPlanM { name: fields[i].name@, kind: kind_of_field(fields[i]) })
}

/// Decides how the builder treats one field.
pub fn field_kind(f: &Field) -> (k: SlotKind)
    ensures
        k@ == kind_of_field(*f),
{
    let (dirs, _diags) = interpret_field(f);
    match dirs.each {
        Some(m) => {
            let collide = name_eq(&m, &f.name);
            SlotKind::Each { method: m, collide }
        },
        None => {
            if ty_inner("Option", &f.ty).is_some() {
                SlotKind::Optional
            } else {
                SlotKind::Required
            }
        },
    }
}

/// Plans the builder slots of every field, in declared order, collecting
/// the diagnostics of annotation interpretation.
pub fn plan_fields(fields: &Vec<Field>) -> (r: (Vec<SlotPlan>, Vec<Diagnostic>))
    ensures
        seq_views(r.0@) == plan_of(fields@),
        seq_views(r.1@) == crate::attrs::fields_diags(fields@, fields@.len() as int),
{
    let mut plans: Vec<SlotPlan> = Vec::new();
    let mut diags: Vec<Diagnostic> = Vec::new();
    let mut i: usize = 0;
    while i < fields.len()
        invariant
            i <= fields@.len(),
            seq_views(plans@) =~= plan_of(fields@).take(i as int),
            seq_views(diags@) == crate::attrs::fields_diags(fields@, i as int),
        decreases fields@.len() - i,
    {
        let f = &fields[i];
        let (dirs, fdiags) = interpret_field(f);
        let kind = match dirs.each {
            Some(m) => {
                let collide = name_eq(&m, &f.name);
                SlotKind::Each { method: m, collide }
            },
            None => {
                if ty_inner("Option", &f.ty).is_some() {
                    SlotKind::Optional
                } else {
                    SlotKind::Required
                }
            },
        };
        let new_plan = SlotPlan { name: copy_name(&f.name), kind };
        proof {
            crate::views::lemma_seq_views_push(plans@, new_plan);
            assert(new_plan@ == plan_of(fields@)[i as int]);
        }
        plans.push(new_plan);
        let ghost old_diags = seq_views(diags@);
        let mut j: usize = 0;
        while j < fdiags.len()
            invariant
                j <= fdiags@.len(),
                seq_views(diags@) =~= old_diags + seq_views(fdiags@).take(j as int),
            decreases fdiags@.len() - j,
        {
            let d = Diagnostic { span: fdiags[j].span, kind: dup_kind(&fdiags[j].kind) };
            proof {
                assert(d@ == fdiags@[j as int]@);
            }
            proof {
                crate::views::lemma_seq_views_push(diags@, d);
            }
            diags.push(d);
            proof {
                assert(seq_views(diags@) =~= old_diags + seq_views(fdiags@).take(j + 1));
            }
            j = j + 1;
        }
        proof {
            assert(seq_views(fdiags@).take(fdiags@.len() as int) =~= seq_views(fdiags@));
            assert(seq_views(plans@) =~= plan_of(fields@).take(i + 1));
        }
        i = i + 1;
    }
    proof {
        assert(seq_views(plans@) =~= plan_of(fields@));
    }
    (plans, diags)
}

/// Copies a diagnostic kind.
pub fn dup_kind_pub(k: &crate::diag::DiagKind) -> (r: crate::diag::DiagKind)
    ensures
        r@ == k@,
{
    dup_kind(k)
}

/// Copies a diagnostic kind.
fn dup_kind(k: &crate::diag::DiagKind) -> (r: crate::diag::DiagKind)
    ensures
        r@ == k@,
{
    match k {
        crate::diag::DiagKind::UnsupportedAttribute => crate::diag::DiagKind::UnsupportedAttribute,
        crate::diag::DiagKind::UnsupportedPattern => crate::diag::DiagKind::UnsupportedPattern,
        crate::diag::DiagKind::ConflictingDirective { keyword } => {
            crate::diag::DiagKind::ConflictingDirective { keyword: copy_name(keyword) }
        },
        crate::diag::DiagKind::OutOfOrder { name, should_precede } => {
            crate::diag::DiagKind::OutOfOrder {
                name: copy_name(name),
                should_precede: copy_name(should_precede),
            }
        },
    }
}

} // verus!

verus! {

/// The whole builder derivation: accepts a struct with named fields, emits
/// the builder fragment for it, and hands back the diagnostics of
/// interpreting the field annotations; an item of any other shape is
/// rejected outright.
pub fn derive(item: &crate::ast::SourceItem) -> (r: Result<
    (Vec<crate::token::Tok>, Vec<Diagnostic>),
    crate::diag::ParseError,
>)
    ensures
        *item matches crate::ast::SourceItem::Struct(s) ==> (r matches Ok(o) && {
            &&& crate::token::toks_view(o.0@) == crate::emit::builder_toks(s.name@, s.fields@)
            &&& seq_views(o.1@) == crate::attrs::fields_diags(s.fields@, s.fields@.len() as int)
        }),
        !(*item is Struct) ==> (r matches Err(e) && e.expected is NamedFieldStruct && e.span
            == crate::ast::item_span(*item)),
{
    match item {
        crate::ast::SourceItem::Struct(s) => {
            let toks = crate::emit::builder_fragment(&s.name, &s.fields);
            let (_plans, diags) = plan_fields(&s.fields);
            Ok((toks, diags))
        },
        crate::ast::SourceItem::Enum(e) => Err(
            crate::diag::ParseError {
                span: e.span,
                expected: crate::diag::ParseReject::NamedFieldStruct,
            },
        ),
        crate::ast::SourceItem::Other { span } => Err(
            crate::diag::ParseError {
                span: *span,
                expected: crate::diag::ParseReject::NamedFieldStruct,
            },
        ),
    }
}

/// One slot of a running builder: not yet set, set to a value, or a
/// container filled element by element.
#[derive(Debug)]
pub enum Slot<V> {
    Pending,
    Filled(V),
    Many(Vec<V>),
}

/// The mathematical shape of a slot.
pub enum SlotM<V> {
    Pending,
    Filled(V),
    Many(Seq<V>),
}

impl<V> View for Slot<V> {
    type V = SlotM<V>;

    open spec fn view(&self) -> SlotM<V> {
        match self {
            Slot::Pending => SlotM::Pending,
            Slot::Filled(v) => SlotM::Filled(*v),
            Slot::Many(vs) => SlotM::Many(vs@),
        }
    }
}

/// What finalize produces for one field: the value it is owed, an optional
/// value where absence is allowed, or the collected elements.
#[derive(Debug)]
pub enum FieldValue<V> {
    One(V),
    Maybe(Option<V>),
    Many(Vec<V>),
}

/// The mathematical shape of a produced field value.
pub enum FieldValueM<V> {
    One(V),
    Maybe(Option<V>),
    Many(Seq<V>),
}

impl<V> View for FieldValue<V> {
    type V = FieldValueM<V>;

    open spec fn view(&self) -> FieldValueM<V> {
        match self {
            FieldValue::One(v) => FieldValueM::One(*v),
            FieldValue::Maybe(o) => FieldValueM::Maybe(*o),
            FieldValue::Many(vs) => FieldValueM::Many(vs@),
        }
    }
}

/// The finalize-time error: the first field that is owed a value and was
/// never set.
#[derive(Debug)]
pub struct FieldNotSet {
    pub index: usize,
    pub field: Vec<char>,
}

/// The slots a fresh builder starts from: an empty container for each
/// element-accessor field, and an unset slot for every other.
pub open spec fn init_slots<V>(plans: Seq<SlotPlanM>) -> Seq<SlotM<V>> {
    Seq::new(
        plans.len(),
        |i: int|
            if plans[i].kind is Each {
                SlotM::Many(Seq::empty())
            } else {
                SlotM::Pending
            },
    )
}

/// Whether slots fit their plans: element-accessor slots are containers,
/// and no other slot is one.
pub open spec fn slots_fit<V>(plans: Seq<SlotPlanM>, slots: Seq<SlotM<V>>) -> bool {
    &&& plans.len() == slots.len()
    &&& forall|i: int| 0 <= i < plans.len() ==> ((plans[i].kind is Each) <==> (#[trigger] slots[i]) is Many)
}

/// Whether every slot that is owed a value has one.
pub open spec fn all_required_filled<V>(plans: Seq<SlotPlanM>, slots: Seq<SlotM<V>>) -> bool {
    forall|i: int|
        0 <= i < plans.len() ==> !(plans[i].kind is Required && (#[trigger] slots[i]) is Pending)
}

/// What finalize produces for one slot.
pub open spec fn value_of<V>(kind: SlotKindM, slot: SlotM<V>) -> FieldValueM<V> {
    match kind {
        SlotKindM::Each { .. } => FieldValueM::Many(slot->Many_0),
        SlotKindM::Optional => FieldValueM::Maybe(
            match slot {
                SlotM::Filled(v) => Some(v),
                _ => None,
            },
        ),
        SlotKindM::Required => FieldValueM::One(slot->Filled_0),
    }
}

/// What finalize produces for every slot, in declared order.
pub open spec fn values_of<V>(plans: Seq<SlotPlanM>, slots: Seq<SlotM<V>>) -> Seq<FieldValueM<V>> {
    Seq::new(plans.len(), |i: int| value_of(plans[i].kind, slots[i]))
}

/// A running builder: the plan of each field and its current slot.
pub struct BuilderState<V> {
    pub plans: Vec<SlotPlan>,
    pub slots: Vec<Slot<V>>,
}

impl<V> BuilderState<V> {
    /// The plan shapes.
    pub open spec fn plan_views(&self) -> Seq<SlotPlanM> {
        seq_views(self.plans@)
    }

    /// The slot shapes.
    pub open spec fn slot_views(&self) -> Seq<SlotM<V>> {
        seq_views(self.slots@)
    }

    /// Whether the builder is well formed.
    pub open spec fn wf(&self) -> bool {
        slots_fit(self.plan_views(), self.slot_views())
    }

    /// Starts a builder with nothing set: an empty container for each
    /// element-accessor field, an unset slot for every other field.
    pub fn new(plans: Vec<SlotPlan>) -> (r: Self)
        ensures
            r.wf(),
            r.plan_views() == seq_views(plans@),
            r.slot_views() == init_slots::<V>(seq_views(plans@)),
    {
        let mut slots: Vec<Slot<V>> = Vec::new();
        let mut i: usize = 0;
        while i < plans.len()
            invariant
                i <= plans@.len(),
                seq_views(slots@) =~= init_slots::<V>(seq_views(plans@)).take(i as int),
            decreases plans@.len() - i,
        {
            let s: Slot<V> = match &plans[i].kind {
                SlotKind::Each { .. } => Slot::Many(Vec::new()),
                _ => Slot::Pending,
            };
            proof {
                crate::views::lemma_seq_views_push(slots@, s);
            }
            slots.push(s);
            proof {
                assert(seq_views(slots@) =~= init_slots::<V>(seq_views(plans@)).take(i + 1));
            }
            i = i + 1;
        }
        proof {
            assert(seq_views(slots@) =~= init_slots::<V>(seq_views(plans@)));
        }
        BuilderState { plans, slots }
    }

    /// Sets the value of a field that is owed one, or of an explicitly
    /// optional field: unconditionally, the last write winning.
    pub fn set(&mut self, i: usize, v: V)
        requires
            old(self).wf(),
            i < old(self).slot_views().len(),
            !(old(self).plan_views()[i as int].kind is Each),
        ensures
            final(self).wf(),
            final(self).plan_views() == old(self).plan_views(),
            final(self).slot_views() == old(self).slot_views().update(
                i as int,
                SlotM::Filled(v),
            ),
    {
        self.slots.set(i, Slot::Filled(v));
        proof {
            assert(final(self).slot_views() =~= old(self).slot_views().update(
                i as int,
                SlotM::Filled(v),
            ));
        }
    }

    /// Replaces the whole container of an element-accessor field: the bulk
    /// setter, generated only when the accessor name does not collide with
    /// the field's own.
    pub fn set_all(&mut self, i: usize, vs: Vec<V>)
        requires
            old(self).wf(),
            i < old(self).slot_views().len(),
            old(self).plan_views()[i as int].kind is Each,
        ensures
            final(self).wf(),
            final(self).plan_views() == old(self).plan_views(),
            final(self).slot_views() == old(self).slot_views().update(i as int, SlotM::Many(vs@)),
    {
        let ghost vsv = vs@;
        self.slots.set(i, Slot::Many(vs));
        proof {
            assert(final(self).slot_views() =~= old(self).slot_views().update(
                i as int,
                SlotM::Many(vsv),
            ));
        }
    }

    /// Appends one element to an element-accessor field's container.
    pub fn push_item(&mut self, i: usize, v: V)
        requires
            old(self).wf(),
            i < old(self).slot_views().len(),
            old(self).plan_views()[i as int].kind is Each,
        ensures
            final(self).wf(),
            final(self).plan_views() == old(self).plan_views(),
            final(self).slot_views() == old(self).slot_views().update(
                i as int,
                SlotM::Many(old(self).slot_views()[i as int]->Many_0.push(v)),
            ),
    {
        let ghost target = old(self).slot_views()[i as int]->Many_0.push(v);
        let slot = self.slots.remove(i);
        let mut vs = match slot {
            Slot::Many(vs) => vs,
            _ => vstd::pervasive::unreached(),
        };
        vs.push(v);
        proof {
            assert(vs@ == target);
        }
        self.slots.insert(i, Slot::Many(vs));
        proof {
            assert(final(self).slot_views() =~= old(self).slot_views().update(
                i as int,
                SlotM::Many(target),
            ));
        }
    }

    /// Reads every slot and produces the built values in declared order:
    /// an element-accessor slot supplies its current, possibly empty,
    /// container; an explicitly optional slot supplies its optional
    /// verbatim, absence being a value; every other slot must have been
    /// set, and the first one that was not fails the whole operation.
    pub fn finalize(self) -> (r: Result<Vec<FieldValue<V>>, FieldNotSet>)
        requires
            self.wf(),
        ensures
            r is Ok <==> all_required_filled(self.plan_views(), self.slot_views()),
            r matches Ok(out) ==> seq_views(out@) == values_of(
                self.plan_views(),
                self.slot_views(),
            ),
            r matches Err(e) ==> {
                &&& e.index < self.plan_views().len()
                &&& self.plan_views()[e.index as int].kind is Required
                &&& self.slot_views()[e.index as int] is Pending
                &&& forall|j: int|
                    0 <= j < e.index ==> !(self.plan_views()[j].kind is Required && (
                    #[trigger] self.slot_views()[j]) is Pending)
                &&& e.field@ == self.plan_views()[e.index as int].name
            },
    {
        let ghost pv = self.plan_views();
        let ghost sv = self.slot_views();
        let n = self.plans.len();
        let mut i: usize = 0;
        while i < n
            invariant
                i <= n,
                n == self.plans@.len(),
                pv == self.plan_views(),
                sv == self.slot_views(),
                self.wf(),
                forall|j: int| 0 <= j < i ==> !(pv[j].kind is Required && (#[trigger] sv[j]) is Pending),
            decreases n - i,
        {
            let missing = match (&self.plans[i].kind, &self.slots[i]) {
                (SlotKind::Required, Slot::Pending) => true,
                _ => false,
            };
            if missing {
                return Err(
                    FieldNotSet { index: i, field: copy_name(&self.plans[i].name) },
                );
            }
            i = i + 1;
        }
        let mut plans = self.plans;
        let mut slots = self.slots;
        let mut rev: Vec<FieldValue<V>> = Vec::new();
        while plans.len() > 0
            invariant
                plans@.len() == slots@.len(),
                seq_views(plans@) =~= pv.take(plans@.len() as int),
                seq_views(slots@) =~= sv.take(plans@.len() as int),
                pv.len() == sv.len(),
                slots_fit(pv, sv),
                all_required_filled(pv, sv),
                rev@.len() + plans@.len() == pv.len(),
                forall|t: int|
                    0 <= t < rev@.len() ==> (#[trigger] rev@[t])@ == value_of(
                        pv[pv.len() - 1 - t].kind,
                        sv[pv.len() - 1 - t],
                    ),
            decreases plans@.len(),
        {
            let ghost k = plans@.len() - 1;
            proof {
                assert(seq_views(plans@)[k] == plans@[k]@);
                assert(seq_views(slots@)[k] == slots@[k]@);
                assert(pv.take(plans@.len() as int)[k] == pv[k]);
                assert(sv.take(slots@.len() as int)[k] == sv[k]);
            }
            let p = plans.pop().unwrap();
            let s = slots.pop().unwrap();
            proof {
                assert(p@ == pv[k]);
                assert(s@ == sv[k]);
            }
            let produced: FieldValue<V> = match (p.kind, s) {
                (SlotKind::Each { .. }, Slot::Many(vs)) => FieldValue::Many(vs),
                (SlotKind::Optional, Slot::Filled(v)) => FieldValue::Maybe(Some(v)),
                (SlotKind::Optional, Slot::Pending) => FieldValue::Maybe(None),
                (SlotKind::Required, Slot::Filled(v)) => FieldValue::One(v),
                _ => vstd::pervasive::unreached(),
            };
            proof {
                assert(produced@ == value_of(pv[k].kind, sv[k]));
            }
            rev.push(produced);
        }
        let mut out: Vec<FieldValue<V>> = Vec::new();
        while rev.len() > 0
            invariant
                rev@.len() + out@.len() == pv.len(),
                pv.len() == sv.len(),
                forall|t: int|
                    0 <= t < rev@.len() ==> (#[trigger] rev@[t])@ == value_of(
                        pv[pv.len() - 1 - t].kind,
                        sv[pv.len() - 1 - t],
                    ),
                forall|t: int|
                    0 <= t < out@.len() ==> (#[trigger] out@[t])@ == value_of(
                        pv[t].kind,
                        sv[t],
                    ),
            decreases rev@.len(),
        {
            let v = rev.pop().unwrap();
            proof {
                assert(v@ == value_of(pv[out@.len() as int].kind, sv[out@.len() as int]));
            }
            out.push(v);
        }
        proof {
            assert(seq_views(out@) =~= values_of(pv, sv));
        }
        Ok(out)
    }
}

} // verus!

verus! {

/// The slots after a sequence of setter calls, each call a slot index and
/// the value written there, applied in order to a fresh builder.
pub open spec fn run_sets<V>(plans: Seq<SlotPlanM>, calls: Seq<(int, V)>) -> Seq<SlotM<V>>
    decreases calls.len(),
{
    if calls.len() == 0 {
        init_slots(plans)
    } else {
        run_sets(plans, calls.drop_last()).update(
            calls.last().0,
            SlotM::Filled(calls.last().1),
        )
    }
}

/// The value of the last setter call aimed at slot `i`, if any.
pub open spec fn last_set<V>(calls: Seq<(int, V)>, i: int) -> Option<V>
    decreases calls.len(),
{
    if calls.len() == 0 {
        None
    } else if calls.last().0 == i {
        Some(calls.last().1)
    } else {
        last_set(calls.drop_last(), i)
    }
}

/// For a struct of plain required fields, any sequence of setter calls
/// leaves each slot holding exactly the value of its last call aimed at
/// it — so the built result is independent of how many times each setter
/// was called — and finalize succeeds exactly when every field's setter
/// was called at least once since construction.
pub proof fn lemma_builder_last_write<V>(plans: Seq<SlotPlanM>, calls: Seq<(int, V)>)
    requires
        forall|c: int| 0 <= c < calls.len() ==> 0 <= (#[trigger] calls[c]).0 < plans.len(),
        forall|i: int| 0 <= i < plans.len() ==> (#[trigger] plans[i]).kind is Required,
    ensures
        run_sets(plans, calls).len() == plans.len(),
        forall|i: int|
            0 <= i < plans.len() ==> run_sets(plans, calls)[i] == (match last_set(calls, i) {
                Some(v) => SlotM::Filled(v),
                None => SlotM::<V>::Pending,
            }),
        all_required_filled(plans, run_sets(plans, calls)) <==> (forall|i: int|
            0 <= i < plans.len() ==> last_set(calls, i) is Some),
    decreases calls.len(),
{
    if calls.len() == 0 {
        assert forall|i: int| 0 <= i < plans.len() implies run_sets::<V>(plans, calls)[i]
            == SlotM::<V>::Pending by {
            assert(init_slots::<V>(plans)[i] == SlotM::<V>::Pending);
        }
    } else {
        lemma_builder_last_write(plans, calls.drop_last());
        assert(calls.drop_last().len() == calls.len() - 1);
    }
    let slots = run_sets(plans, calls);
    if all_required_filled(plans, slots) {
        assert forall|i: int| 0 <= i < plans.len() implies last_set(calls, i) is Some by {
            assert(!(plans[i].kind is Required && slots[i] is Pending));
        }
    }
    if forall|i: int| 0 <= i < plans.len() ==> last_set(calls, i) is Some {
        assert forall|i: int|
            0 <= i < plans.len() implies !(plans[i].kind is Required && (
        #[trigger] slots[i]) is Pending) by {
            assert(last_set(calls, i) is Some);
        }
    }
}

/// A field declared with an explicit optional type never blocks finalize:
/// with every required slot filled, finalize succeeds even when that
/// field's setter was never called, and the value produced for it is the
/// explicit absent value.
pub proof fn lemma_optional_absent<V>(plans: Seq<SlotPlanM>, slots: Seq<SlotM<V>>, k: int)
    requires
        slots_fit(plans, slots),
        all_required_filled(plans, slots),
        0 <= k < plans.len(),
        plans[k].kind is Optional,
        slots[k] is Pending,
    ensures
        all_required_filled(plans, slots),
        values_of(plans, slots)[k] == FieldValueM::Maybe(None::<V>),
{
}

} // verus!
