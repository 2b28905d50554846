//! The attribute interpreter: decodes the declarative annotations attached
//! to a field or an item into a typed directive set — a format override, an
//! element-accessor name, or a predicate-list override for generic bounds —
//! with one diagnostic per annotation that matches no supported grammar.
//! One malformed annotation never aborts the interpretation of its
//! neighbours, and a second directive of a kind a field already carries is
//! an error, never a silent overwrite.

use vstd::prelude::*;

use crate::ast::Attr;
use crate::ast::Field;
use crate::ast::Meta;
use crate::ast::MetaItem;
use crate::ast::Ty;
use crate::ast::TyM;
use crate::diag::DiagKind;
use crate::diag::DiagKindM;
use crate::diag::Diagnostic;
use crate::diag::DiagnosticM;
use crate::name::copy_name;
use crate::name::name_is;
use crate::name::chars_of;

verus! {

/// What one bracket-aware scan step reports: the text is malformed, the
/// scan reached the end, or the sought character stands at an index.
pub enum ScanHit {
    Bad,
    End,
    At(int),
}

/// Whether a character opens a bracket the splitter must not cut inside.
pub open spec fn opens(c: char) -> bool {
    c == '<' || c == '('
}

/// Whether a character closes such a bracket.
pub open spec fn closes(c: char) -> bool {
    c == '>' || c == ')'
}

/// Finds the first comma at bracket depth zero, at or after position `i`.
pub open spec fn comma_scan(s: Seq<char>, i: int, depth: int) -> ScanHit
    decreases s.len() - i,
{
    if i < 0 || i >= s.len() {
        if depth == 0 {
            ScanHit::End
        } else {
            ScanHit::Bad
        }
    } else if s[i] == ',' && depth == 0 {
        ScanHit::At(i)
    } else if opens(s[i]) {
        comma_scan(s, i + 1, depth + 1)
    } else if closes(s[i]) {
        if depth == 0 {
            ScanHit::Bad
        } else {
            comma_scan(s, i + 1, depth - 1)
        }
    } else {
        comma_scan(s, i + 1, depth)
    }
}

/// Splits the text from position `i` on at its depth-zero commas; nothing
/// on malformed bracketing.
pub open spec fn split_preds_from(s: Seq<char>, i: int) -> Option<Seq<Seq<char>>>
    decreases s.len() - i,
{
    match comma_scan(s, i, 0) {
        ScanHit::Bad => None,
        ScanHit::End => Some(seq![s.subrange(i, s.len() as int)]),
        ScanHit::At(k) => {
            proof {
                if i >= 0 {
                    lemma_comma_scan_bounds(s, i, 0);
                }
            }
            match split_preds_from(s, k + 1) {
                None => None,
                Some(rest) => Some(seq![s.subrange(i, k)] + rest),
            }
        },
    }
}

/// A hit reported by the comma scan lies within the text.
pub proof fn lemma_comma_scan_bounds(s: Seq<char>, i: int, depth: int)
    requires
        0 <= i,
    ensures
        comma_scan(s, i, depth) matches ScanHit::At(k) ==> i <= k < s.len(),
    decreases s.len() - i,
{
    if i < s.len() {
        lemma_comma_scan_bounds(s, i + 1, depth + 1);
        lemma_comma_scan_bounds(s, i + 1, depth - 1);
        lemma_comma_scan_bounds(s, i + 1, depth);
    }
}

/// Finds the first lone colon at bracket depth zero, at or after `i`;
/// a `::` pair is stepped over.
pub open spec fn colon_scan(s: Seq<char>, i: int, depth: int) -> ScanHit
    decreases s.len() - i,
{
    if i < 0 || i >= s.len() {
        if depth == 0 {
            ScanHit::End
        } else {
            ScanHit::Bad
        }
    } else if s[i] == ':' && depth == 0 {
        if i + 1 < s.len() && s[i + 1] == ':' {
            colon_scan(s, i + 2, depth)
        } else {
            ScanHit::At(i)
        }
    } else if opens(s[i]) {
        colon_scan(s, i + 1, depth + 1)
    } else if closes(s[i]) {
        if depth == 0 {
            ScanHit::Bad
        } else {
            colon_scan(s, i + 1, depth - 1)
        }
    } else {
        colon_scan(s, i + 1, depth)
    }
}

/// A hit reported by the colon scan lies within the text.
pub proof fn lemma_colon_scan_bounds(s: Seq<char>, i: int, depth: int)
    requires
        0 <= i,
    ensures
        colon_scan(s, i, depth) matches ScanHit::At(k) ==> i <= k < s.len(),
    decreases s.len() - i,
{
    if i < s.len() {
        if i + 2 <= s.len() {
            lemma_colon_scan_bounds(s, i + 2, depth);
        }
        lemma_colon_scan_bounds(s, i + 1, depth + 1);
        lemma_colon_scan_bounds(s, i + 1, depth - 1);
        lemma_colon_scan_bounds(s, i + 1, depth);
    }
}

/// Whether a character may start an identifier.
pub open spec fn ident_start(c: char) -> bool {
    (('a' as u32) <= (c as u32) && (c as u32) <= ('z' as u32)) || (('A' as u32) <= (c as u32) && (c
        as u32) <= ('Z' as u32)) || c == '_'
}

/// Whether a character may continue an identifier.
pub open spec fn ident_continue(c: char) -> bool {
    ident_start(c) || (('0' as u32) <= (c as u32) && (c as u32) <= ('9' as u32))
}

/// The position right after the identifier that starts at `i`.
pub open spec fn ident_end(s: Seq<char>, i: int) -> int
    decreases s.len() - i,
{
    if 0 <= i < s.len() && ident_continue(s[i]) {
        ident_end(s, i + 1)
    } else {
        i
    }
}

/// The position of the first character that is not a space, from `i` on.
pub open spec fn skip_spaces(s: Seq<char>, i: int) -> int
    decreases s.len() - i,
{
    if 0 <= i < s.len() && s[i] == ' ' {
        skip_spaces(s, i + 1)
    } else {
        i
    }
}

/// The leading identifier of a predicate's bounded type, if it starts with
/// one: the name whose generic parameter the override speaks of.
pub open spec fn leading_ident(s: Seq<char>) -> Option<Seq<char>> {
    let b = skip_spaces(s, 0);
    if b < s.len() && ident_start(s[b]) {
        Some(s.subrange(b, ident_end(s, b + 1)))
    } else {
        None
    }
}

/// One predicate of a bound override: the leading identifier of its
/// bounded type, if any, and its text exactly as written.
pub struct Pred {
    pub first_ident: Option<Vec<char>>,
    pub text: Vec<char>,
}

/// The mathematical shape of one predicate.
pub struct PredM {
    pub first_ident: Option<Seq<char>>,
    pub text: Seq<char>,
}

impl View for Pred {
    type V = PredM;

    open spec fn view(&self) -> PredM {
        PredM {
            first_ident: match self.first_ident {
                Some(n) => Some(n@),
                None => None,
            },
            text: self.text@,
        }
    }
}

/// The predicate one piece of the list stands for: it must carry a lone
/// colon at depth zero, with something other than spaces before it.
pub open spec fn pred_of_piece(p: Seq<char>) -> Option<PredM> {
    match colon_scan(p, 0, 0) {
        ScanHit::At(k) => {
            if skip_spaces(p, 0) < k {
                Some(PredM { first_ident: leading_ident(p), text: p })
            } else {
                None
            }
        },
        _ => None,
    }
}

/// The predicate list a bound-override text stands for: its depth-zero
/// comma pieces, each a well-formed predicate — or nothing, if the text is
/// malformed. An empty text is an empty list.
pub open spec fn preds_of_text(s: Seq<char>) -> Option<Seq<PredM>> {
    if s.len() == 0 {
        Some(Seq::empty())
    } else {
        preds_of_split(s, 0)
    }
}

} // verus!

verus! {

/// The outcome of one exec bracket-aware scan.
enum Hit {
    Bad,
    End,
    At(usize),
}

/// Whether the scan outcomes agree.
spec fn hit_matches(r: Hit, m: ScanHit) -> bool {
    match r {
        Hit::Bad => m is Bad,
        Hit::End => m is End,
        Hit::At(k) => m matches ScanHit::At(j) && j == k,
    }
}

fn open_char(c: char) -> (r: bool)
    ensures
        r == opens(c),
{
    c == '<' || c == '('
}

fn close_char(c: char) -> (r: bool)
    ensures
        r == closes(c),
{
    c == '>' || c == ')'
}

/// Finds the first comma at bracket depth zero, at or after position `i`.
fn comma_hit(s: &Vec<char>, i: usize, depth: usize) -> (r: Hit)
    requires
        i <= s@.len(),
        depth <= i,
    ensures
        hit_matches(r, comma_scan(s@, i as int, depth as int)),
    decreases s@.len() - i,
{
    if i == s.len() {
        if depth == 0 {
            Hit::End
        } else {
            Hit::Bad
        }
    } else {
        let c = s[i];
        if c == ',' && depth == 0 {
            Hit::At(i)
        } else if open_char(c) {
            comma_hit(s, i + 1, depth + 1)
        } else if close_char(c) {
            if depth == 0 {
                Hit::Bad
            } else {
                comma_hit(s, i + 1, depth - 1)
            }
        } else {
            comma_hit(s, i + 1, depth)
        }
    }
}

/// Finds the first lone colon at bracket depth zero, at or after `i`.
fn colon_hit(s: &Vec<char>, i: usize, depth: usize) -> (r: Hit)
    requires
        i <= s@.len(),
        depth <= i,
    ensures
        hit_matches(r, colon_scan(s@, i as int, depth as int)),
    decreases s@.len() - i,
{
    if i == s.len() {
        if depth == 0 {
            Hit::End
        } else {
            Hit::Bad
        }
    } else {
        let c = s[i];
        if c == ':' && depth == 0 {
            if i + 1 < s.len() && s[i + 1] == ':' {
                colon_hit(s, i + 2, depth)
            } else {
                Hit::At(i)
            }
        } else if open_char(c) {
            colon_hit(s, i + 1, depth + 1)
        } else if close_char(c) {
            if depth == 0 {
                Hit::Bad
            } else {
                colon_hit(s, i + 1, depth - 1)
            }
        } else {
            colon_hit(s, i + 1, depth)
        }
    }
}

/// Copies the first `k` characters.
pub fn take_chars(s: &Vec<char>, k: usize) -> (r: Vec<char>)
    requires
        k <= s@.len(),
    ensures
        r@ == s@.take(k as int),
{
    let r = subrange_chars(s, 0, k);
    proof {
        assert(s@.subrange(0, k as int) =~= s@.take(k as int));
    }
    r
}

/// Copies the characters from position `k` on.
pub fn skip_chars(s: &Vec<char>, k: usize) -> (r: Vec<char>)
    requires
        k <= s@.len(),
    ensures
        r@ == s@.skip(k as int),
{
    let r = subrange_chars(s, k, s.len());
    proof {
        assert(s@.subrange(k as int, s@.len() as int) =~= s@.skip(k as int));
    }
    r
}

/// Copies the characters of the half-open range `a .. b`.
pub fn subrange_chars(s: &Vec<char>, a: usize, b: usize) -> (r: Vec<char>)
    requires
        a <= b <= s@.len(),
    ensures
        r@ == s@.subrange(a as int, b as int),
{
    let mut r: Vec<char> = Vec::new();
    let mut i: usize = a;
    while i < b
        invariant
            a <= i <= b <= s@.len(),
            r@ =~= s@.subrange(a as int, i as int),
        decreases b - i,
    {
        r.push(s[i]);
        proof {
            assert(r@ =~= s@.subrange(a as int, i + 1));
        }
        i = i + 1;
    }
    proof {
        assert(r@ =~= s@.subrange(a as int, b as int));
    }
    r
}

/// The position of the first non-space character at or after `i`.
fn skip_spaces_at(s: &Vec<char>, i: usize) -> (r: usize)
    requires
        i <= s@.len(),
    ensures
        r == skip_spaces(s@, i as int),
        i <= r <= s@.len(),
    decreases s@.len() - i,
{
    if i < s.len() && s[i] == ' ' {
        skip_spaces_at(s, i + 1)
    } else {
        i
    }
}

fn ident_start_char(c: char) -> (r: bool)
    ensures
        r == ident_start(c),
{
    let u = c as u32;
    (('a' as u32) <= u && u <= ('z' as u32)) || (('A' as u32) <= u && u <= ('Z' as u32)) || c == '_'
}

fn ident_continue_char(c: char) -> (r: bool)
    ensures
        r == ident_continue(c),
{
    let u = c as u32;
    ident_start_char(c) || (('0' as u32) <= u && u <= ('9' as u32))
}

/// The position right after the identifier that starts at `i`.
fn ident_end_at(s: &Vec<char>, i: usize) -> (r: usize)
    requires
        i <= s@.len(),
    ensures
        r == ident_end(s@, i as int),
        i <= r <= s@.len(),
    decreases s@.len() - i,
{
    if i < s.len() && ident_continue_char(s[i]) {
        ident_end_at(s, i + 1)
    } else {
        i
    }
}

/// The leading identifier of a predicate piece, if it starts with one.
fn leading_ident_of(p: &Vec<char>) -> (r: Option<Vec<char>>)
    ensures
        match r {
            Some(n) => leading_ident(p@) matches Some(m) && n@ == m,
            None => leading_ident(p@) is None,
        },
{
    let b = skip_spaces_at(p, 0);
    if b < p.len() && ident_start_char(p[b]) {
        let e = ident_end_at(p, b + 1);
        Some(subrange_chars(p, b, e))
    } else {
        None
    }
}

/// Decodes one comma piece as a predicate.
fn pred_of(p: &Vec<char>) -> (r: Option<Pred>)
    ensures
        match r {
            Some(d) => pred_of_piece(p@) matches Some(m) && d@ == m,
            None => pred_of_piece(p@) is None,
        },
{
    match colon_hit(p, 0, 0) {
        Hit::At(k) => {
            let b = skip_spaces_at(p, 0);
            if b < k {
                Some(Pred { first_ident: leading_ident_of(p), text: copy_name(p) })
            } else {
                None
            }
        },
        _ => None,
    }
}

/// The predicate views of a decoded list.
pub open spec fn preds_views(v: Seq<Pred>) -> Seq<PredM> {
    Seq::new(v.len(), |i: int| v[i]@)
}

/// Decodes the comma pieces of the text from position `i` on.
fn preds_from(s: &Vec<char>, i: usize) -> (r: Option<Vec<Pred>>)
    requires
        i <= s@.len(),
    ensures
        match r {
            Some(v) => preds_of_split(s@, i as int) matches Some(m) && preds_views(v@) == m,
            None => preds_of_split(s@, i as int) is None,
        },
    decreases s@.len() - i,
{
    let n = s.len();
    match comma_hit(s, i, 0) {
        Hit::Bad => None,
        Hit::End => {
            let piece = subrange_chars(s, i, n);
            match pred_of(&piece) {
                None => {
                    proof {
                        if split_preds_from(s@, i as int) is Some {
                            let pieces = split_preds_from(s@, i as int)->Some_0;
                            assert(pieces =~= seq![s@.subrange(i as int, s@.len() as int)]);
                            assert(pred_of_piece(pieces[0]) is None);
                        }
                    }
                    None
                },
                Some(d) => {
                    let ghost dv = d@;
                    let mut v: Vec<Pred> = Vec::new();
                    v.push(d);
                    proof {
                        let pieces = split_preds_from(s@, i as int)->Some_0;
                        assert(pieces =~= seq![s@.subrange(i as int, s@.len() as int)]);
                        assert(pred_of_piece(pieces[0]) matches Some(m) && m == dv);
                        assert(preds_of_split(s@, i as int) is Some);
                        assert(preds_views(v@) =~= preds_of_split(s@, i as int)->Some_0);
                    }
                    Some(v)
                },
            }
        },
        Hit::At(k) => {
            proof {
                lemma_comma_scan_bounds(s@, i as int, 0);
                assert(i <= k < s@.len());
                assert(k < n);
            }
            let piece = subrange_chars(s, i, k);
            match pred_of(&piece) {
                None => {
                    proof {
                        if split_preds_from(s@, i as int) is Some {
                            let pieces = split_preds_from(s@, i as int)->Some_0;
                            assert(pieces[0] == s@.subrange(i as int, k as int));
                            assert(pred_of_piece(pieces[0]) is None);
                        }
                    }
                    None
                },
                Some(d) => {
                    match preds_from(s, k + 1) {
                        None => {
                            proof {
                                if split_preds_from(s@, k + 1) is Some {
                                    let rpieces = split_preds_from(s@, k + 1)->Some_0;
                                    let pieces = split_preds_from(s@, i as int)->Some_0;
                                    assert(pieces =~= seq![s@.subrange(i as int, k as int)]
                                        + rpieces);
                                    assert(!(forall|t: int|
                                        0 <= t < rpieces.len() ==> pred_of_piece(
                                            #[trigger] rpieces[t],
                                        ) is Some));
                                    let bad = choose|t: int|
                                        0 <= t < rpieces.len() && !(pred_of_piece(
                                            #[trigger] rpieces[t],
                                        ) is Some);
                                    assert(pieces[bad + 1] == rpieces[bad]);
                                    assert(!(pred_of_piece(pieces[bad + 1]) is Some));
                                }
                            }
                            None
                        },
                        Some(rest) => {
                            let ghost dv = d@;
                            let mut v: Vec<Pred> = Vec::new();
                            v.push(d);
                            let mut j: usize = 0;
                            while j < rest.len()
                                invariant
                                    j <= rest@.len(),
                                    v@.len() == j + 1,
                                    v@[0]@ == dv,
                                    forall|t: int|
                                        0 <= t < j ==> (#[trigger] v@[t + 1])@ == rest@[t]@,
                                decreases rest@.len() - j,
                            {
                                let ghost old_v = v@;
                                let p = dup_pred(&rest[j]);
                                proof {
                                    assert(p@ == rest@[j as int]@);
                                }
                                v.push(p);
                                proof {
                                    assert(forall|t: int|
                                        0 <= t < j + 1 ==> #[trigger] v@[t] == old_v[t]);
                                    assert(v@[j + 1]@ == rest@[j as int]@);
                                }
                                j = j + 1;
                            }
                            proof {
                                let pieces = split_preds_from(s@, i as int)->Some_0;
                                let rpieces = split_preds_from(s@, k + 1)->Some_0;
                                assert(pieces =~= seq![s@.subrange(i as int, k as int)] + rpieces);
                                assert(pred_of_piece(pieces[0]) matches Some(m) && m == dv);
                                assert forall|t: int|
                                    0 <= t < pieces.len() implies pred_of_piece(
                                    #[trigger] pieces[t],
                                ) is Some by {
                                    if t > 0 {
                                        assert(pieces[t] == rpieces[t - 1]);
                                        assert(pred_of_piece(rpieces[t - 1]) is Some);
                                    }
                                }
                                assert(preds_of_split(s@, i as int) is Some);
                                assert(preds_of_split(s@, k + 1) is Some);
                                assert(split_preds_from(s@, k + 1) is Some);
                                assert(preds_views(rest@) == preds_of_split(s@, k + 1)->Some_0);
                                assert(preds_of_split(s@, k + 1)->Some_0 == Seq::new(
                                    rpieces.len(),
                                    |t: int| pred_of_piece(rpieces[t])->Some_0,
                                ));
                                assert(preds_views(rest@).len() == rest@.len());
                                assert(rest@.len() == rpieces.len());
                                assert forall|t: int|
                                    0 <= t < v@.len() implies (#[trigger] v@[t])@ == preds_of_split(
                                    s@,
                                    i as int,
                                )->Some_0[t] by {
                                    if t > 0 {
                                        assert(rest@.len() == rpieces.len());
                                        assert(pieces.len() == rpieces.len() + 1);
                                        assert(pieces[t] == rpieces[t - 1]);
                                        assert(v@[t] == v@[(t - 1) + 1]);
                                        assert(v@[t]@ == rest@[t - 1]@);
                                        assert(preds_views(rest@)[t - 1] == preds_of_split(
                                            s@,
                                            k + 1,
                                        )->Some_0[t - 1]);
                                    }
                                }
                                assert(preds_views(v@) =~= preds_of_split(s@, i as int)->Some_0);
                            }
                            Some(v)
                        },
                    }
                },
            }
        },
    }
}

/// Copies one predicate.
pub fn dup_pred_pub(p: &Pred) -> (r: Pred)
    ensures
        r@ == p@,
{
    dup_pred(p)
}

/// Copies one predicate.
fn dup_pred(p: &Pred) -> (r: Pred)
    ensures
        r@ == p@,
{
    Pred {
        first_ident: match &p.first_ident {
            Some(n) => Some(copy_name(n)),
            None => None,
        },
        text: copy_name(&p.text),
    }
}

/// The predicate list the pieces from position `i` on stand for.
pub open spec fn preds_of_split(s: Seq<char>, i: int) -> Option<Seq<PredM>> {
    match split_preds_from(s, i) {
        None => None,
        Some(pieces) => {
            if forall|t: int| 0 <= t < pieces.len() ==> pred_of_piece(#[trigger] pieces[t]) is Some {
                Some(Seq::new(pieces.len(), |t: int| pred_of_piece(pieces[t])->Some_0))
            } else {
                None
            }
        },
    }
}

/// Decodes a whole bound-override text: an empty text is an empty list.
pub fn parse_preds(s: &Vec<char>) -> (r: Option<Vec<Pred>>)
    ensures
        match r {
            Some(v) => preds_of_text(s@) matches Some(m) && preds_views(v@) == m,
            None => preds_of_text(s@) is None,
        },
{
    if s.len() == 0 {
        let v: Vec<Pred> = Vec::new();
        proof {
            assert(preds_views(v@) =~= Seq::<PredM>::empty());
        }
        Some(v)
    } else {
        preds_from(s, 0)
    }
}

} // verus!

verus! {

/// One decoded directive.
pub enum Directive {
    /// Render the field through this format text before display.
    FormatOverride { fmt: Vec<char> },
    /// Generate an element-push accessor of this name.
    EachAccessor { method: Vec<char> },
    /// Replace automatic bound inference by these predicates.
    BoundOverride { preds: Vec<Pred> },
}

/// The mathematical shape of one directive.
pub enum DirectiveM {
    FormatOverride { fmt: Seq<char> },
    EachAccessor { method: Seq<char> },
    BoundOverride { preds: Seq<PredM> },
}

impl View for Directive {
    type V = DirectiveM;

    open spec fn view(&self) -> DirectiveM {
        match self {
            Directive::FormatOverride { fmt } => DirectiveM::FormatOverride { fmt: fmt@ },
            Directive::EachAccessor { method } => DirectiveM::EachAccessor { method: method@ },
            Directive::BoundOverride { preds } => DirectiveM::BoundOverride {
                preds: preds_views(preds@),
            },
        }
    }
}

/// The directive one annotation stands for, tried against the supported
/// grammars in order: the direct format association `debug = "text"`; a
/// nested single-key association, `debug(format = "text")`,
/// `debug(bound = "predicates")` or `builder(each = "name")`; anything
/// else matches no grammar.
pub open spec fn directive_of(a: Attr) -> Option<DirectiveM> {
    match a.meta {
        Meta::NameValue { name, value } => if name@ == "debug"@ {
            Some(DirectiveM::FormatOverride { fmt: value@ })
        } else {
            None
        },
        Meta::List { name, items } => if items@.len() == 1 {
            match items@[0] {
                MetaItem::NameValue { name: key, value, .. } => {
                    if name@ == "debug"@ && key@ == "format"@ {
                        Some(DirectiveM::FormatOverride { fmt: value@ })
                    } else if name@ == "debug"@ && key@ == "bound"@ {
                        match preds_of_text(value@) {
                            Some(ps) => Some(DirectiveM::BoundOverride { preds: ps }),
                            None => None,
                        }
                    } else if name@ == "builder"@ && key@ == "each"@ {
                        Some(DirectiveM::EachAccessor { method: value@ })
                    } else {
                        None
                    }
                },
                _ => None,
            }
        } else {
            None
        },
        _ => None,
    }
}

/// Decodes one annotation against the supported directive grammars.
pub fn decode_attr(a: &Attr) -> (r: Option<Directive>)
    ensures
        match r {
            Some(d) => directive_of(*a) matches Some(m) && d@ == m,
            None => directive_of(*a) is None,
        },
{
    match &a.meta {
        Meta::NameValue { name, value } => {
            if name_is(name, "debug") {
                Some(Directive::FormatOverride { fmt: copy_name(value) })
            } else {
                None
            }
        },
        Meta::List { name, items } => {
            if items.len() != 1 {
                return None;
            }
            match &items[0] {
                MetaItem::NameValue { name: key, value, .. } => {
                    if name_is(name, "debug") && name_is(key, "format") {
                        Some(Directive::FormatOverride { fmt: copy_name(value) })
                    } else if name_is(name, "debug") && name_is(key, "bound") {
                        match parse_preds(value) {
                            Some(ps) => Some(Directive::BoundOverride { preds: ps }),
                            None => None,
                        }
                    } else if name_is(name, "builder") && name_is(key, "each") {
                        Some(Directive::EachAccessor { method: copy_name(value) })
                    } else {
                        None
                    }
                },
                _ => None,
            }
        },
        _ => None,
    }
}

/// The directive set of one field: at most one directive of each kind.
pub struct Directives {
    pub format: Option<Vec<char>>,
    pub each: Option<Vec<char>>,
    pub bounds: Option<Vec<Pred>>,
}

/// The mathematical shape of a directive set.
pub struct DirectivesM {
    pub format: Option<Seq<char>>,
    pub each: Option<Seq<char>>,
    pub bounds: Option<Seq<PredM>>,
}

impl View for Directives {
    type V = DirectivesM;

    open spec fn view(&self) -> DirectivesM {
        DirectivesM {
            format: match self.format {
                Some(f) => Some(f@),
                None => None,
            },
            each: match self.each {
                Some(m) => Some(m@),
                None => None,
            },
            bounds: match self.bounds {
                Some(ps) => Some(preds_views(ps@)),
                None => None,
            },
        }
    }
}

/// The empty directive set.
pub open spec fn no_directives() -> DirectivesM {
    DirectivesM { format: None, each: None, bounds: None }
}

/// Whether an element accessor is legal on a field of this declared type:
/// it must be a generic container with exactly one inner type argument.
pub open spec fn each_legal(t: TyM) -> bool {
    t matches TyM::Path { segs, .. } && segs.len() > 0 && segs[0].args.len() == 1
}

/// Decides whether an element accessor is legal on this declared type.
pub fn each_legal_ty(t: &Ty) -> (r: bool)
    ensures
        r == each_legal(t@),
{
    match t {
        Ty::Path { segs, .. } => {
            proof {
                crate::ast::lemma_segs_view_rec(segs@);
            }
            if segs.len() == 0 {
                false
            } else {
                proof {
                    crate::ast::lemma_tys_view_rec(segs@[0].args@);
                }
                segs[0].args.len() == 1
            }
        },
        Ty::Other(_) => false,
    }
}

/// How one annotation changes the directive set: an annotation that
/// matches no grammar, or an element accessor on an ineligible field,
/// costs one diagnostic; a second directive of a kind already present is
/// a conflict, and the first one is kept.
pub open spec fn interp_attr(
    st: (DirectivesM, Seq<DiagnosticM>),
    a: Attr,
    each_ok: bool,
) -> (DirectivesM, Seq<DiagnosticM>) {
    match directive_of(a) {
        None => (
            st.0,
            st.1.push(DiagnosticM { span: a.span, kind: DiagKindM::UnsupportedAttribute }),
        ),
        Some(DirectiveM::FormatOverride { fmt }) => {
            if st.0.format is Some {
                (
                    st.0,
                    st.1.push(
                        DiagnosticM {
                            span: a.span,
                            kind: DiagKindM::ConflictingDirective { keyword: "format"@ },
                        },
                    ),
                )
            } else {
                (DirectivesM { format: Some(fmt), ..st.0 }, st.1)
            }
        },
        Some(DirectiveM::EachAccessor { method }) => {
            if !each_ok {
                (
                    st.0,
                    st.1.push(
                        DiagnosticM { span: a.span, kind: DiagKindM::UnsupportedAttribute },
                    ),
                )
            } else if st.0.each is Some {
                (
                    st.0,
                    st.1.push(
                        DiagnosticM {
                            span: a.span,
                            kind: DiagKindM::ConflictingDirective { keyword: "each"@ },
                        },
                    ),
                )
            } else {
                (DirectivesM { each: Some(method), ..st.0 }, st.1)
            }
        },
        Some(DirectiveM::BoundOverride { preds }) => {
            if st.0.bounds is Some {
                (
                    st.0,
                    st.1.push(
                        DiagnosticM {
                            span: a.span,
                            kind: DiagKindM::ConflictingDirective { keyword: "bound"@ },
                        },
                    ),
                )
            } else {
                (DirectivesM { bounds: Some(preds), ..st.0 }, st.1)
            }
        },
    }
}

/// The directive set and diagnostics after the first `n` annotations.
pub open spec fn interp_upto(attrs: Seq<Attr>, n: int, each_ok: bool) -> (DirectivesM, Seq<
    DiagnosticM,
>)
    decreases n,
{
    if n <= 0 {
        (no_directives(), Seq::empty())
    } else {
        interp_attr(interp_upto(attrs, n - 1, each_ok), attrs[n - 1], each_ok)
    }
}

/// The directive set of a field: its annotations interpreted in source
/// order, an element accessor being acceptable only on an eligible type.
pub open spec fn field_directives(f: Field) -> (DirectivesM, Seq<DiagnosticM>) {
    interp_upto(f.attrs@, f.attrs@.len() as int, each_legal(f.ty@))
}

/// An accepted element accessor presupposes an eligible field type: the
/// interpretation only ever records one under that check.
pub proof fn lemma_each_accepted(attrs: Seq<Attr>, n: int, each_ok: bool)
    ensures
        interp_upto(attrs, n, each_ok).0.each is Some ==> each_ok,
    decreases n,
{
    if n > 0 {
        lemma_each_accepted(attrs, n - 1, each_ok);
    }
}

/// The diagnostics of interpreting the first `n` fields' annotations, in
/// declared order.
pub open spec fn fields_diags(fields: Seq<Field>, n: int) -> Seq<DiagnosticM>
    decreases n,
{
    if n <= 0 {
        Seq::empty()
    } else {
        fields_diags(fields, n - 1) + field_directives(fields[n - 1]).1
    }
}

/// Interprets all annotations of one field, in source order.
pub fn interpret_field(f: &Field) -> (r: (Directives, Vec<Diagnostic>))
    ensures
        r.0@ == field_directives(*f).0,
        crate::views::seq_views(r.1@) == field_directives(*f).1,
{
    let each_ok = each_legal_ty(&f.ty);
    let mut dirs = Directives { format: None, each: None, bounds: None };
    let mut diags: Vec<Diagnostic> = Vec::new();
    let mut i: usize = 0;
    while i < f.attrs.len()
        invariant
            i <= f.attrs@.len(),
            each_ok == each_legal(f.ty@),
            dirs@ == interp_upto(f.attrs@, i as int, each_ok).0,
            crate::views::seq_views(diags@) == interp_upto(f.attrs@, i as int, each_ok).1,
        decreases f.attrs@.len() - i,
    {
        let a = &f.attrs[i];
        let ghost pre = interp_upto(f.attrs@, i as int, each_ok);
        match decode_attr(a) {
            None => {
                diags.push(Diagnostic { span: a.span, kind: DiagKind::UnsupportedAttribute });
            },
            Some(Directive::FormatOverride { fmt }) => {
                if dirs.format.is_some() {
                    diags.push(
                        Diagnostic {
                            span: a.span,
                            kind: DiagKind::ConflictingDirective { keyword: chars_of("format") },
                        },
                    );
                } else {
                    dirs.format = Some(fmt);
                }
            },
            Some(Directive::EachAccessor { method }) => {
                if !each_ok {
                    diags.push(
                        Diagnostic { span: a.span, kind: DiagKind::UnsupportedAttribute },
                    );
                } else if dirs.each.is_some() {
                    diags.push(
                        Diagnostic {
                            span: a.span,
                            kind: DiagKind::ConflictingDirective { keyword: chars_of("each") },
                        },
                    );
                } else {
                    dirs.each = Some(method);
                }
            },
            Some(Directive::BoundOverride { preds }) => {
                if dirs.bounds.is_some() {
                    diags.push(
                        Diagnostic {
                            span: a.span,
                            kind: DiagKind::ConflictingDirective { keyword: chars_of("bound") },
                        },
                    );
                } else {
                    dirs.bounds = Some(preds);
                }
            },
        }
        proof {
            assert(dirs@ == interp_attr(pre, f.attrs@[i as int], each_ok).0);
            assert(crate::views::seq_views(diags@) =~= interp_attr(
                pre,
                f.attrs@[i as int],
                each_ok,
            ).1);
        }
        i = i + 1;
    }
    (dirs, diags)
}

} // verus!
