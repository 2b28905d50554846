//! The token model: the syntax fragments the engine reads and emits, as
//! trees of identifiers, integer and string literals, punctuation and
//! bracketed groups, with their mathematical shape for contracts.

use vstd::prelude::*;

verus! {

/// One bracket shape a token group can carry.
#[derive(Clone, Copy, PartialEq, Eq, Structural, Debug)]
pub enum Delim {
    Paren,
    Brace,
    Bracket,
}

/// A token tree.
#[derive(Debug)]
pub enum Tok {
    /// An identifier.
    Ident(Vec<char>),
    /// An unsuffixed integer literal.
    Int(u64),
    /// A string literal, held as its character content.
    Lit(Vec<char>),
    /// One punctuation character.
    Punct(char),
    /// A source fragment carried exactly as written, for the consumer to
    /// splice in place.
    Verbatim(Vec<char>),
    /// A bracketed group of token trees.
    Group(Delim, Vec<Tok>),
}

/// The mathematical shape of a token tree.
#[verifier::ext_equal]
pub enum TokM {
    Ident(Seq<char>),
    Int(u64),
    Lit(Seq<char>),
    Punct(char),
    Verbatim(Seq<char>),
    Group(Delim, Seq<TokM>),
}

pub open spec fn tok_view(t: Tok) -> TokM
    decreases t, 0int,
{
    match t {
        Tok::Ident(n) => TokM::Ident(n@),
        Tok::Int(v) => TokM::Int(v),
        Tok::Lit(s) => TokM::Lit(s@),
        Tok::Punct(c) => TokM::Punct(c),
        Tok::Verbatim(v) => TokM::Verbatim(v@),
        Tok::Group(d, ts) => TokM::Group(d, toks_view_rec(ts@)),
    }
}

pub open spec fn toks_view_rec(ts: Seq<Tok>) -> Seq<TokM>
    decreases ts, 1int,
{
    if ts.len() == 0 {
        Seq::empty()
    } else {
        seq![tok_view(ts[0])] + toks_view_rec(ts.drop_first())
    }
}

impl View for Tok {
    type V = TokM;

    open spec fn view(&self) -> TokM {
        tok_view(*self)
    }
}

/// The element-wise shape of a token sequence.
pub open spec fn toks_view(ts: Seq<Tok>) -> Seq<TokM> {
    Seq::new(ts.len(), |i: int| tok_view(ts[i]))
}

/// The recursive and the element-wise shape of a token sequence agree.
pub broadcast proof fn lemma_toks_view_rec(ts: Seq<Tok>)
    ensures
        #[trigger] toks_view_rec(ts) =~= toks_view(ts),
    decreases ts.len(),
{
    if ts.len() > 0 {
        lemma_toks_view_rec(ts.drop_first());
    }
}

/// The size of a token tree: itself, plus everything inside a group.
pub open spec fn size_tok(t: TokM) -> nat
    decreases t, 0int,
{
    match t {
        TokM::Group(_, inner) => 1 + size_toks(inner),
        _ => 1,
    }
}

/// The total size of a token sequence.
pub open spec fn size_toks(s: Seq<TokM>) -> nat
    decreases s, 1int,
{
    if s.len() == 0 {
        0
    } else {
        size_tok(s[0]) + size_toks(s.drop_first())
    }
}

/// Every token tree has positive size.
pub proof fn lemma_size_tok_pos(t: TokM)
    ensures
        size_tok(t) >= 1,
{
}

/// Size adds up over concatenation.
pub proof fn lemma_size_toks_add(a: Seq<TokM>, b: Seq<TokM>)
    ensures
        size_toks(a + b) == size_toks(a) + size_toks(b),
    decreases a.len(),
{
    if a.len() == 0 {
        assert(a + b =~= b);
    } else {
        assert((a + b).drop_first() =~= a.drop_first() + b);
        lemma_size_toks_add(a.drop_first(), b);
    }
}

/// Consuming tokens from the front leaves a strictly smaller suffix.
pub proof fn lemma_size_toks_skip(s: Seq<TokM>, k: int)
    requires
        0 <= k <= s.len(),
    ensures
        size_toks(s.skip(k)) + k <= size_toks(s),
    decreases k,
{
    if k == 0 {
        assert(s.skip(0) =~= s);
    } else {
        lemma_size_toks_skip(s, k - 1);
        if s.skip(k - 1).len() > 0 {
            assert(s.skip(k - 1).drop_first() =~= s.skip(k));
            lemma_size_tok_pos(s.skip(k - 1)[0]);
        }
    }
}

/// Appending one token appends its shape.
pub proof fn lemma_toks_view_push(s: Seq<Tok>, t: Tok)
    ensures
        toks_view(s.push(t)) =~= toks_view(s) + seq![tok_view(t)],
{
}

/// Copies one token tree.
pub fn dup_tok(t: &Tok) -> (r: Tok)
    ensures
        r@ == t@,
    decreases *t, 0int,
{
    match t {
        Tok::Ident(n) => Tok::Ident(crate::name::copy_name(n)),
        Tok::Int(v) => Tok::Int(*v),
        Tok::Lit(s) => Tok::Lit(crate::name::copy_name(s)),
        Tok::Punct(c) => Tok::Punct(*c),
        Tok::Verbatim(v) => Tok::Verbatim(crate::name::copy_name(v)),
        Tok::Group(d, ts) => {
            let inner = dup_toks(ts);
            proof {
                lemma_toks_view_rec(ts@);
                lemma_toks_view_rec(inner@);
            }
            Tok::Group(*d, inner)
        },
    }
}

/// Copies a token sequence.
pub fn dup_toks(ts: &Vec<Tok>) -> (r: Vec<Tok>)
    ensures
        toks_view(r@) =~= toks_view(ts@),
        r@.len() == ts@.len(),
    decreases ts@, 1int,
{
    let mut r: Vec<Tok> = Vec::new();
    let mut i: usize = 0;
    while i < ts.len()
        invariant
            i <= ts@.len(),
            r@.len() == i,
            forall|j: int| 0 <= j < i ==> tok_view(#[trigger] r@[j]) == tok_view(ts@[j]),
        decreases ts@.len() - i,
    {
        let d = dup_tok(&ts[i]);
        r.push(d);
        i = i + 1;
    }
    proof {
        assert(toks_view(r@) =~= toks_view(ts@));
    }
    r
}

} // verus!
