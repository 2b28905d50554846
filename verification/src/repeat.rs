//! Bounded repetition: expands a token body over an integer half-open range.
//! In literal-substitution mode the whole body is replicated once per index,
//! every occurrence of the bound identifier becoming that index's integer
//! literal, with a fused form that pastes the index onto an adjacent
//! identifier. In section mode only a marked sub-group — `#(...)*` — is
//! replicated, and the rest of the body is emitted once. A single top-down
//! scan decides the mode: if any section marker is found, only sections are
//! replicated; the two modes never mix in one invocation.

use vstd::prelude::*;

use crate::name::append_name;
use crate::name::copy_name;
use crate::name::dec_chars;
use crate::name::dec_name;
use crate::name::name_eq;
use crate::token::Delim;
use crate::token::Tok;
use crate::token::TokM;
use crate::token::lemma_size_tok_pos;
use crate::token::lemma_size_toks_skip;
use crate::token::lemma_toks_view_rec;
use crate::token::size_tok;
use crate::token::size_toks;
use crate::token::tok_view;
use crate::token::toks_view;

verus! {

/// What one scanning pass does: replace the bound identifier by one fixed
/// index, or replace marked sections by their replication.
#[derive(Clone, Copy)]
pub enum Mode {
    ReplaceIdent(u64),
    ReplaceSequence,
}

/// Whether a token is the given punctuation character.
pub open spec fn is_punct(t: TokM, c: char) -> bool {
    t matches TokM::Punct(p) && p == c
}

/// Whether a scan at the start of `s` sees the fused-identifier form: some
/// other identifier, a tilde, then the bound identifier.
pub open spec fn sees_paste(id: Seq<char>, s: Seq<TokM>) -> bool {
    &&& s.len() >= 3
    &&& s[0] matches TokM::Ident(x) && x != id
    &&& is_punct(s[1], '~')
    &&& s[2] matches TokM::Ident(y) && y == id
}

/// Whether a scan at the start of `s` sees a marked section: a `#`, a
/// parenthesised group, and a `*`.
pub open spec fn sees_section(s: Seq<TokM>) -> bool {
    &&& s.len() >= 3
    &&& is_punct(s[0], '#')
    &&& s[1] matches TokM::Group(d, _) && d == Delim::Paren
    &&& is_punct(s[2], '*')
}

/// One scanning pass over a token sequence: the rewritten tokens, and
/// whether anything was rewritten. Groups are entered in either mode; the
/// bound identifier and the fused form are rewritten only when a fixed
/// index is being substituted; marked sections are replicated only on the
/// section-seeking pass.
pub open spec fn pass(id: Seq<char>, lo: u64, hi: u64, mode: Mode, s: Seq<TokM>) -> (Seq<
    TokM,
>, bool)
    decreases size_toks(s), 1int, 0int,
{
    if s.len() == 0 {
        (Seq::empty(), false)
    } else {
        match s[0] {
            TokM::Group(d, inner) => {
                proof {
                    lemma_size_tok_pos(s[0]);
                }
                let sub = pass(id, lo, hi, mode, inner);
                let rest = pass(id, lo, hi, mode, s.drop_first());
                (seq![TokM::Group(d, sub.0)] + rest.0, sub.1 || rest.1)
            },
            TokM::Ident(x) => match mode {
                Mode::ReplaceIdent(i) => {
                    if x == id {
                        proof {
                            lemma_size_tok_pos(s[0]);
                        }
                        let rest = pass(id, lo, hi, mode, s.drop_first());
                        (seq![TokM::Int(i)] + rest.0, true)
                    } else if sees_paste(id, s) {
                        let consumed: int = if s.len() >= 4 && is_punct(s[3], '~') {
                            4
                        } else {
                            3
                        };
                        proof {
                            lemma_size_toks_skip(s, consumed);
                        }
                        let rest = pass(id, lo, hi, mode, s.skip(consumed));
                        (seq![TokM::Ident(x + dec_chars(i as nat))] + rest.0, true)
                    } else {
                        proof {
                            lemma_size_tok_pos(s[0]);
                        }
                        let rest = pass(id, lo, hi, mode, s.drop_first());
                        (seq![s[0]] + rest.0, rest.1)
                    }
                },
                Mode::ReplaceSequence => {
                    proof {
                        lemma_size_tok_pos(s[0]);
                    }
                    let rest = pass(id, lo, hi, mode, s.drop_first());
                    (seq![s[0]] + rest.0, rest.1)
                },
            },
            _ => {
                if mode is ReplaceSequence && sees_section(s) {
                    let rep = s[1]->Group_1;
                    proof {
                        lemma_size_toks_skip(s, 3);
                        lemma_size_tok_pos(s[0]);
                        lemma_size_tok_pos(s[2]);
                        assert(s.drop_first()[0] == s[1]);
                        assert(size_toks(s) == size_tok(s[0]) + size_toks(s.drop_first()));
                        assert(size_toks(s.drop_first()) == size_tok(s[1]) + size_toks(
                            s.drop_first().drop_first(),
                        ));
                        assert(size_tok(s[1]) == 1 + size_toks(rep));
                    }
                    let rest = pass(id, lo, hi, mode, s.skip(3));
                    (replicate(id, lo, hi, rep) + rest.0, true)
                } else {
                    proof {
                        lemma_size_tok_pos(s[0]);
                    }
                    let rest = pass(id, lo, hi, mode, s.drop_first());
                    (seq![s[0]] + rest.0, rest.1)
                }
            },
        }
    }
}

/// The body substituted and concatenated once per index of `lo .. hi`,
/// in ascending order.
pub open spec fn replicate(id: Seq<char>, lo: u64, hi: u64, body: Seq<TokM>) -> Seq<TokM>
    decreases size_toks(body) + 1, 0int, hi - lo,
{
    if hi <= lo {
        Seq::empty()
    } else {
        replicate(id, lo, (hi - 1) as u64, body) + pass(
            id,
            lo,
            hi,
            Mode::ReplaceIdent((hi - 1) as u64),
            body,
        ).0
    }
}

/// A pass that substitutes a fixed index reads nothing from the range
/// bounds: they only drive section replication, which that pass never does.
pub proof fn lemma_pass_bounds_irrelevant(
    id: Seq<char>,
    lo1: u64,
    hi1: u64,
    lo2: u64,
    hi2: u64,
    i: u64,
    s: Seq<TokM>,
)
    ensures
        pass(id, lo1, hi1, Mode::ReplaceIdent(i), s) == pass(id, lo2, hi2, Mode::ReplaceIdent(i), s),
    decreases size_toks(s), 1int,
{
    if s.len() == 0 {
    } else {
        match s[0] {
            TokM::Group(d, inner) => {
                lemma_size_tok_pos(s[0]);
                lemma_pass_bounds_irrelevant(id, lo1, hi1, lo2, hi2, i, inner);
                lemma_pass_bounds_irrelevant(id, lo1, hi1, lo2, hi2, i, s.drop_first());
            },
            TokM::Ident(x) => {
                if x == id {
                    lemma_size_tok_pos(s[0]);
                    lemma_pass_bounds_irrelevant(id, lo1, hi1, lo2, hi2, i, s.drop_first());
                } else if sees_paste(id, s) {
                    let consumed: int = if s.len() >= 4 && is_punct(s[3], '~') {
                        4
                    } else {
                        3
                    };
                    lemma_size_toks_skip(s, consumed);
                    lemma_pass_bounds_irrelevant(id, lo1, hi1, lo2, hi2, i, s.skip(consumed));
                } else {
                    lemma_size_tok_pos(s[0]);
                    lemma_pass_bounds_irrelevant(id, lo1, hi1, lo2, hi2, i, s.drop_first());
                }
            },
            _ => {
                lemma_size_tok_pos(s[0]);
                lemma_pass_bounds_irrelevant(id, lo1, hi1, lo2, hi2, i, s.drop_first());
            },
        }
    }
}

/// The whole expansion: one section-seeking pass decides the mode; if it
/// rewrote nothing, the body is replicated index by index instead.
pub open spec fn expand_toks(id: Seq<char>, lo: u64, hi: u64, body: Seq<TokM>) -> Seq<TokM> {
    let scan = pass(id, lo, hi, Mode::ReplaceSequence, body);
    if scan.1 {
        scan.0
    } else {
        replicate(id, lo, hi, body)
    }
}

/// A repetition request: a bound identifier, a half-open index range, and
/// the token body to expand.
pub struct RepeatInput {
    pub ident: Vec<char>,
    pub from: u64,
    pub to: u64,
    pub body: Vec<Tok>,
}

impl RepeatInput {
    /// Expands the body over the range: the output of the section-seeking
    /// pass if it rewrote anything, and the ascending per-index replication
    /// of the whole body otherwise.
    pub fn expand(&self) -> (out: Vec<Tok>)
        ensures
            toks_view(out@) == expand_toks(self.ident@, self.from, self.to, toks_view(self.body@)),
    {
        let ghost body_v = toks_view(self.body@);
        proof {
            assert(body_v.skip(0) =~= body_v);
        }
        let mut scanned: Vec<Tok> = Vec::new();
        let rewrote = pass_from(
            &self.ident,
            self.from,
            self.to,
            Mode::ReplaceSequence,
            &self.body,
            0,
            &mut scanned,
        );
        if rewrote {
            return scanned;
        }
        let mut out: Vec<Tok> = Vec::new();
        let mut i = self.from;
        while i < self.to
        invariant
            self.from <= i,
            i <= self.to || (self.to <= self.from && i == self.from),
            body_v == toks_view(self.body@),
            toks_view(out@) == replicate(self.ident@, self.from, i, body_v),
        decreases self.to - i,
        {
            proof {
                assert(body_v.skip(0) =~= body_v);
            }
            let _ = pass_from(
                &self.ident,
                self.from,
                self.to,
                Mode::ReplaceIdent(i),
                &self.body,
                0,
                &mut out,
            );
            proof {
                lemma_pass_bounds_irrelevant(
                    self.ident@,
                    self.from,
                    self.to,
                    self.from,
                    (i + 1) as u64,
                    i,
                    body_v,
                );
                assert(replicate(self.ident@, self.from, (i + 1) as u64, body_v) == replicate(
                    self.ident@,
                    self.from,
                    i,
                    body_v,
                ) + pass(self.ident@, self.from, (i + 1) as u64, Mode::ReplaceIdent(i), body_v).0);
            }
            i = i + 1;
        }
        out
    }
}

/// Runs one scanning pass from position `idx` of `toks`, appending the
/// rewritten tokens to `out`; says whether anything was rewritten.
fn pass_from(
    id: &Vec<char>,
    lo: u64,
    hi: u64,
    mode: Mode,
    toks: &Vec<Tok>,
    idx: usize,
    out: &mut Vec<Tok>,
) -> (rewrote: bool)
    requires
        idx <= toks@.len(),
    ensures
        toks_view(final(out)@) == toks_view(old(out)@) + pass(
            id@,
            lo,
            hi,
            mode,
            toks_view(toks@).skip(idx as int),
        ).0,
        rewrote == pass(id@, lo, hi, mode, toks_view(toks@).skip(idx as int)).1,
    decreases size_toks(toks_view(toks@).skip(idx as int)), 2int, 0int,
{
    let ghost s = toks_view(toks@).skip(idx as int);
    if idx == toks.len() {
        proof {
            assert(s.len() == 0);
            assert(toks_view(out@) =~= toks_view(out@) + pass(id@, lo, hi, mode, s).0);
        }
        return false;
    }
    proof {
        assert(s[0] == tok_view(toks@[idx as int]));
        assert(s.drop_first() =~= toks_view(toks@).skip(idx + 1));
        lemma_size_tok_pos(s[0]);
    }
    match &toks[idx] {
        Tok::Group(d, inner) => {
            proof {
                lemma_toks_view_rec(inner@);
                assert(toks_view(inner@).skip(0) =~= toks_view(inner@));
            }
            let mut sub: Vec<Tok> = Vec::new();
            let m1 = pass_from(id, lo, hi, mode, inner, 0, &mut sub);
            proof {
                lemma_toks_view_rec(sub@);
            }
            let ghost inner_v = crate::token::toks_view_rec(inner@);
            let g = Tok::Group(*d, sub);
            proof {
                crate::token::lemma_toks_view_push(out@, g);
                assert(tok_view(g) == TokM::Group(*d, pass(id@, lo, hi, mode, inner_v).0));
                assert(s[0] == TokM::Group(*d, inner_v));
            }
            let ghost mid = toks_view(out@) + seq![tok_view(g)];
            out.push(g);
            let m2 = pass_from(id, lo, hi, mode, toks, idx + 1, out);
            proof {
                assert(toks_view(out@) == mid + pass(id@, lo, hi, mode, s.drop_first()).0);
                assert(toks_view(out@) =~= toks_view(old(out)@) + pass(id@, lo, hi, mode, s).0);
            }
            m1 || m2
        },
        Tok::Ident(x) => {
            if name_eq(x, id) {
                match mode {
                    Mode::ReplaceIdent(i) => {
                        let t = Tok::Int(i);
                        proof {
                            crate::token::lemma_toks_view_push(out@, t);
                        }
                        out.push(t);
                        let _ = pass_from(id, lo, hi, mode, toks, idx + 1, out);
                        proof {
                            assert(toks_view(out@) =~= toks_view(old(out)@) + pass(
                                id@,
                                lo,
                                hi,
                                mode,
                                s,
                            ).0);
                            assert(pass(id@, lo, hi, mode, s).1);
                        }
                        true
                    },
                    Mode::ReplaceSequence => {
                        let t = Tok::Ident(copy_name(x));
                        proof {
                            crate::token::lemma_toks_view_push(out@, t);
                        }
                        out.push(t);
                        let m = pass_from(id, lo, hi, mode, toks, idx + 1, out);
                        proof {
                            assert(toks_view(out@) =~= toks_view(old(out)@) + pass(
                                id@,
                                lo,
                                hi,
                                mode,
                                s,
                            ).0);
                            assert(m == pass(id@, lo, hi, mode, s).1);
                        }
                        m
                    },
                }
            } else {
                match mode {
                    Mode::ReplaceIdent(i) => {
                        if sees_paste_at(id, toks, idx) {
                            let consumed: usize = if toks.len() - idx >= 4 && punct_at(
                                toks,
                                idx + 3,
                                '~',
                            ) {
                                4
                            } else {
                                3
                            };
                            proof {
                                if s.len() >= 4 {
                                    assert(s[3] == toks_view(toks@)[idx + 3]);
                                }
                                lemma_size_toks_skip(s, consumed as int);
                                assert(s.skip(consumed as int) =~= toks_view(toks@).skip(
                                    idx + consumed,
                                ));
                            }
                            let mut pasted = copy_name(x);
                            let digits = dec_name(i);
                            append_name(&mut pasted, &digits);
                            let t = Tok::Ident(pasted);
                            proof {
                                crate::token::lemma_toks_view_push(out@, t);
                            }
                            out.push(t);
                            let _ = pass_from(id, lo, hi, mode, toks, idx + consumed, out);
                            proof {
                                assert(toks_view(out@) =~= toks_view(old(out)@) + pass(
                                    id@,
                                    lo,
                                    hi,
                                    mode,
                                    s,
                                ).0);
                                assert(pass(id@, lo, hi, mode, s).1);
                            }
                            true
                        } else {
                            let t = Tok::Ident(copy_name(x));
                            proof {
                                crate::token::lemma_toks_view_push(out@, t);
                            }
                            out.push(t);
                            let m = pass_from(id, lo, hi, mode, toks, idx + 1, out);
                            proof {
                                assert(toks_view(out@) =~= toks_view(old(out)@) + pass(
                                    id@,
                                    lo,
                                    hi,
                                    mode,
                                    s,
                                ).0);
                                assert(m == pass(id@, lo, hi, mode, s).1);
                            }
                            m
                        }
                    },
                    Mode::ReplaceSequence => {
                        let t = Tok::Ident(copy_name(x));
                        proof {
                            crate::token::lemma_toks_view_push(out@, t);
                        }
                        out.push(t);
                        let m = pass_from(id, lo, hi, mode, toks, idx + 1, out);
                        proof {
                            assert(toks_view(out@) =~= toks_view(old(out)@) + pass(
                                id@,
                                lo,
                                hi,
                                mode,
                                s,
                            ).0);
                            assert(m == pass(id@, lo, hi, mode, s).1);
                        }
                        m
                    },
                }
            }
        },
        Tok::Punct(c) => {
            let section = match mode {
                Mode::ReplaceIdent(_) => false,
                Mode::ReplaceSequence => sees_section_at(toks, idx),
            };
            if section {
                let ghost rep_v = s[1]->Group_1;
                proof {
                    lemma_size_toks_skip(s, 3);
                    lemma_size_tok_pos(s[2]);
                    assert(s.skip(3) =~= toks_view(toks@).skip(idx + 3));
                    assert(s[1] == tok_view(toks@[idx + 1]));
                    assert(size_toks(rep_v) < size_toks(s)) by {
                        assert(s.drop_first()[0] == s[1]);
                        assert(size_toks(s) == size_tok(s[0]) + size_toks(s.drop_first()));
                        assert(size_toks(s.drop_first()) == size_tok(s[1]) + size_toks(
                            s.drop_first().drop_first(),
                        ));
                        assert(size_tok(s[1]) == 1 + size_toks(rep_v));
                    }
                }
                let rep = group_toks_at(toks, idx + 1);
                proof {
                    lemma_toks_view_rec(rep@);
                    assert(toks_view(rep@) =~= rep_v);
                }
                let ghost base = toks_view(out@);
                let mut i = lo;
                while i < hi
                    invariant
                        lo <= i,
                        i <= hi || (hi <= lo && i == lo),
                        toks_view(rep@) == rep_v,
                        size_toks(rep_v) < size_toks(s),
                        s == toks_view(toks@).skip(idx as int),
                        toks_view(out@) == base + replicate(id@, lo, i, rep_v),
                    decreases hi - i,
                {
                    proof {
                        assert(toks_view(rep@).skip(0) =~= rep_v);
                    }
                    let _ = pass_from(id, lo, hi, Mode::ReplaceIdent(i), rep, 0, out);
                    proof {
                        lemma_pass_bounds_irrelevant(id@, lo, hi, lo, (i + 1) as u64, i, rep_v);
                        assert(replicate(id@, lo, (i + 1) as u64, rep_v) == replicate(
                            id@,
                            lo,
                            i,
                            rep_v,
                        ) + pass(id@, lo, (i + 1) as u64, Mode::ReplaceIdent(i), rep_v).0);
                    }
                    i = i + 1;
                }
                proof {
                    assert(i >= hi);
                    assert(toks_view(out@) == base + replicate(id@, lo, hi, rep_v)) by {
                        if hi <= lo {
                            assert(replicate(id@, lo, hi, rep_v) == Seq::<TokM>::empty());
                            assert(replicate(id@, lo, i, rep_v) == Seq::<TokM>::empty());
                        }
                    }
                    assert(base == toks_view(old(out)@));
                    assert(mode is ReplaceSequence);
                    assert(sees_section(s));
                    assert(pass(id@, lo, hi, mode, s).0 == replicate(id@, lo, hi, rep_v) + pass(
                        id@,
                        lo,
                        hi,
                        mode,
                        s.skip(3),
                    ).0);
                }
                let _ = pass_from(id, lo, hi, mode, toks, idx + 3, out);
                proof {
                    assert(toks_view(out@) =~= toks_view(old(out)@) + pass(id@, lo, hi, mode, s).0);
                    assert(pass(id@, lo, hi, mode, s).1);
                }
                true
            } else {
                let t = Tok::Punct(*c);
                proof {
                    crate::token::lemma_toks_view_push(out@, t);
                }
                out.push(t);
                let m = pass_from(id, lo, hi, mode, toks, idx + 1, out);
                proof {
                    assert(toks_view(out@) =~= toks_view(old(out)@) + pass(id@, lo, hi, mode, s).0);
                    assert(m == pass(id@, lo, hi, mode, s).1);
                }
                m
            }
        },
        Tok::Int(v) => {
            let t = Tok::Int(*v);
            proof {
                crate::token::lemma_toks_view_push(out@, t);
            }
            out.push(t);
            let m = pass_from(id, lo, hi, mode, toks, idx + 1, out);
            proof {
                assert(toks_view(out@) =~= toks_view(old(out)@) + pass(id@, lo, hi, mode, s).0);
                assert(m == pass(id@, lo, hi, mode, s).1);
            }
            m
        },
        Tok::Lit(l) => {
            let t = Tok::Lit(copy_name(l));
            proof {
                crate::token::lemma_toks_view_push(out@, t);
            }
            out.push(t);
            let m = pass_from(id, lo, hi, mode, toks, idx + 1, out);
            proof {
                assert(toks_view(out@) =~= toks_view(old(out)@) + pass(id@, lo, hi, mode, s).0);
                assert(m == pass(id@, lo, hi, mode, s).1);
            }
            m
        },
        Tok::Verbatim(v) => {
            let t = Tok::Verbatim(copy_name(v));
            proof {
                crate::token::lemma_toks_view_push(out@, t);
            }
            out.push(t);
            let m = pass_from(id, lo, hi, mode, toks, idx + 1, out);
            proof {
                assert(toks_view(out@) =~= toks_view(old(out)@) + pass(id@, lo, hi, mode, s).0);
                assert(m == pass(id@, lo, hi, mode, s).1);
            }
            m
        },
    }
}

/// Borrows the token sequence of the group at position `idx`.
fn group_toks_at(toks: &Vec<Tok>, idx: usize) -> (r: &Vec<Tok>)
    requires
        idx < toks@.len(),
        tok_view(toks@[idx as int]) is Group,
    ensures
        tok_view(toks@[idx as int]) matches TokM::Group(_, inner) && crate::token::toks_view_rec(r@) == inner,
{
    match &toks[idx] {
        Tok::Group(_, inner) => inner,
        _ => vstd::pervasive::unreached(),
    }
}

/// Whether the fused-identifier lookahead succeeds at position `idx`.
fn sees_paste_at(id: &Vec<char>, toks: &Vec<Tok>, idx: usize) -> (r: bool)
    requires
        idx < toks@.len(),
    ensures
        r == sees_paste(id@, toks_view(toks@).skip(idx as int)),
{
    let ghost s = toks_view(toks@).skip(idx as int);
    proof {
        assert(s.len() == toks@.len() - idx);
        assert forall|k: int| 0 <= k < s.len() implies s[k] == tok_view(
            toks@[idx + k],
        ) by {
        }
    }
    if toks.len() - idx < 3 {
        return false;
    }
    let a = match &toks[idx] {
        Tok::Ident(x) => !name_eq(x, id),
        _ => false,
    };
    if !a {
        return false;
    }
    let b = punct_at(toks, idx + 1, '~');
    if !b {
        return false;
    }
    match &toks[idx + 2] {
        Tok::Ident(y) => name_eq(y, id),
        _ => false,
    }
}

/// Whether the section lookahead succeeds at position `idx`.
fn sees_section_at(toks: &Vec<Tok>, idx: usize) -> (r: bool)
    requires
        idx < toks@.len(),
    ensures
        r == sees_section(toks_view(toks@).skip(idx as int)),
{
    let ghost s = toks_view(toks@).skip(idx as int);
    proof {
        assert(s.len() == toks@.len() - idx);
        assert forall|k: int| 0 <= k < s.len() implies s[k] == tok_view(
            toks@[idx + k],
        ) by {
        }
    }
    if toks.len() - idx < 3 {
        return false;
    }
    let a = punct_at(toks, idx, '#');
    if !a {
        return false;
    }
    let b = match &toks[idx + 1] {
        Tok::Group(d, _) => match d {
            Delim::Paren => true,
            _ => false,
        },
        _ => false,
    };
    if !b {
        return false;
    }
    punct_at(toks, idx + 2, '*')
}

/// Whether the token at `idx` is the given punctuation character.
fn punct_at(toks: &Vec<Tok>, idx: usize, c: char) -> (r: bool)
    requires
        idx < toks@.len(),
    ensures
        r == is_punct(toks_view(toks@)[idx as int], c),
{
    match &toks[idx] {
        Tok::Punct(p) => *p == c,
        _ => false,
    }
}

} // verus!

verus! {

/// Whether a token tree contains no occurrence of the given punctuation
/// character, at any depth.
pub open spec fn tok_free_of(t: TokM, c: char) -> bool
    decreases t, 0int,
{
    match t {
        TokM::Punct(p) => p != c,
        TokM::Group(_, inner) => toks_free_of(inner, c),
        _ => true,
    }
}

/// Whether a token sequence contains no occurrence of the given punctuation
/// character, at any depth.
pub open spec fn toks_free_of(s: Seq<TokM>, c: char) -> bool
    decreases s, 1int,
{
    if s.len() == 0 {
        true
    } else {
        tok_free_of(s[0], c) && toks_free_of(s.drop_first(), c)
    }
}

/// The size of a one-token sequence plus a rest.
proof fn lemma_size_cons(t: TokM, rest: Seq<TokM>)
    ensures
        size_toks(seq![t] + rest) == size_tok(t) + size_toks(rest),
{
    assert((seq![t] + rest)[0] == t);
    assert((seq![t] + rest).drop_first() =~= rest);
}

/// A sequence is its head plus its tail.
proof fn lemma_cons_self(s: Seq<TokM>)
    requires
        s.len() > 0,
    ensures
        seq![s[0]] + s.drop_first() =~= s,
{
}

/// Freedom from a character carries over to any suffix.
proof fn lemma_free_skip(s: Seq<TokM>, c: char, k: int)
    requires
        toks_free_of(s, c),
        0 <= k <= s.len(),
    ensures
        toks_free_of(s.skip(k), c),
    decreases k,
{
    if k == 0 {
        assert(s.skip(0) =~= s);
    } else {
        assert(s.drop_first() =~= s.skip(1));
        assert(s.skip(1).skip(k - 1) =~= s.skip(k));
        lemma_free_skip(s.skip(1), c, k - 1);
    }
}

/// A pass that substitutes a fixed index into a tilde-free body keeps the
/// total token count: each occurrence of the bound identifier becomes one
/// integer literal, and everything else is copied.
pub proof fn lemma_subst_keeps_size(id: Seq<char>, lo: u64, hi: u64, i: u64, s: Seq<TokM>)
    requires
        toks_free_of(s, '~'),
    ensures
        size_toks(pass(id, lo, hi, Mode::ReplaceIdent(i), s).0) == size_toks(s),
    decreases size_toks(s), 1int,
{
    let mode = Mode::ReplaceIdent(i);
    if s.len() == 0 {
    } else {
        assert(s.drop_first() =~= s.skip(1));
        lemma_free_skip(s, '~', 1);
        assert(tok_free_of(s[0], '~'));
        match s[0] {
            TokM::Group(d, inner) => {
                lemma_size_tok_pos(s[0]);
                lemma_subst_keeps_size(id, lo, hi, i, inner);
                lemma_subst_keeps_size(id, lo, hi, i, s.drop_first());
                lemma_size_cons(
                    TokM::Group(d, pass(id, lo, hi, mode, inner).0),
                    pass(id, lo, hi, mode, s.drop_first()).0,
                );
            },
            TokM::Ident(x) => {
                lemma_size_tok_pos(s[0]);
                if x == id {
                    lemma_subst_keeps_size(id, lo, hi, i, s.drop_first());
                    lemma_size_cons(TokM::Int(i), pass(id, lo, hi, mode, s.drop_first()).0);
                } else {
                    assert(!sees_paste(id, s)) by {
                        if sees_paste(id, s) {
                            assert(tok_free_of(s.drop_first()[0], '~'));
                        }
                    }
                    lemma_subst_keeps_size(id, lo, hi, i, s.drop_first());
                    lemma_size_cons(s[0], pass(id, lo, hi, mode, s.drop_first()).0);
                }
            },
            _ => {
                lemma_size_tok_pos(s[0]);
                lemma_subst_keeps_size(id, lo, hi, i, s.drop_first());
                lemma_size_cons(s[0], pass(id, lo, hi, mode, s.drop_first()).0);
            },
        }
    }
}

/// A section-seeking pass over a body with no `#` anywhere rewrites nothing
/// and returns the body unchanged.
pub proof fn lemma_scan_hash_free(id: Seq<char>, lo: u64, hi: u64, s: Seq<TokM>)
    requires
        toks_free_of(s, '#'),
    ensures
        pass(id, lo, hi, Mode::ReplaceSequence, s).0 == s,
        !pass(id, lo, hi, Mode::ReplaceSequence, s).1,
    decreases size_toks(s), 1int,
{
    let mode = Mode::ReplaceSequence;
    if s.len() == 0 {
        assert(pass(id, lo, hi, mode, s).0 =~= s);
    } else {
        assert(s.drop_first() =~= s.skip(1));
        lemma_free_skip(s, '#', 1);
        lemma_size_tok_pos(s[0]);
        assert(tok_free_of(s[0], '#'));
        match s[0] {
            TokM::Group(d, inner) => {
                lemma_scan_hash_free(id, lo, hi, inner);
                lemma_scan_hash_free(id, lo, hi, s.drop_first());
                assert(TokM::Group(d, pass(id, lo, hi, mode, inner).0) == s[0]);
                lemma_cons_self(s);
            },
            TokM::Ident(x) => {
                lemma_scan_hash_free(id, lo, hi, s.drop_first());
                lemma_cons_self(s);
            },
            _ => {
                assert(!sees_section(s));
                lemma_scan_hash_free(id, lo, hi, s.drop_first());
                lemma_cons_self(s);
            },
        }
    }
}

/// A section-seeking pass walks a `#`-free prefix unchanged and carries on
/// with the rest.
pub proof fn lemma_scan_concat(id: Seq<char>, lo: u64, hi: u64, a: Seq<TokM>, b: Seq<TokM>)
    requires
        toks_free_of(a, '#'),
    ensures
        pass(id, lo, hi, Mode::ReplaceSequence, a + b).0 == a + pass(
            id,
            lo,
            hi,
            Mode::ReplaceSequence,
            b,
        ).0,
        pass(id, lo, hi, Mode::ReplaceSequence, a + b).1 == pass(
            id,
            lo,
            hi,
            Mode::ReplaceSequence,
            b,
        ).1,
    decreases size_toks(a), 1int,
{
    let mode = Mode::ReplaceSequence;
    let s = a + b;
    if a.len() == 0 {
        assert(s =~= b);
        assert(a + pass(id, lo, hi, mode, b).0 =~= pass(id, lo, hi, mode, b).0);
    } else {
        assert(s[0] == a[0]);
        assert(s.drop_first() =~= a.drop_first() + b);
        assert(a.drop_first() =~= a.skip(1));
        lemma_free_skip(a, '#', 1);
        lemma_size_tok_pos(a[0]);
        assert(tok_free_of(a[0], '#'));
        assert(size_toks(a) == size_tok(a[0]) + size_toks(a.drop_first()));
        match a[0] {
            TokM::Group(d, inner) => {
                lemma_scan_hash_free(id, lo, hi, inner);
                lemma_scan_concat(id, lo, hi, a.drop_first(), b);
                assert(TokM::Group(d, pass(id, lo, hi, mode, inner).0) == a[0]);
                assert(seq![a[0]] + (a.drop_first() + pass(id, lo, hi, mode, b).0) =~= a + pass(
                    id,
                    lo,
                    hi,
                    mode,
                    b,
                ).0);
            },
            TokM::Ident(x) => {
                lemma_scan_concat(id, lo, hi, a.drop_first(), b);
                assert(seq![a[0]] + (a.drop_first() + pass(id, lo, hi, mode, b).0) =~= a + pass(
                    id,
                    lo,
                    hi,
                    mode,
                    b,
                ).0);
            },
            _ => {
                assert(!sees_section(s));
                lemma_scan_concat(id, lo, hi, a.drop_first(), b);
                assert(seq![a[0]] + (a.drop_first() + pass(id, lo, hi, mode, b).0) =~= a + pass(
                    id,
                    lo,
                    hi,
                    mode,
                    b,
                ).0);
            },
        }
    }
}

} // verus!

verus! {

/// Replicating a tilde-free body over a range multiplies its token count
/// by the width of the range.
pub proof fn lemma_replicate_size(id: Seq<char>, lo: u64, hi: u64, body: Seq<TokM>)
    requires
        toks_free_of(body, '~'),
        lo <= hi,
    ensures
        size_toks(replicate(id, lo, hi, body)) == (hi - lo) * size_toks(body),
    decreases hi - lo,
{
    if hi == lo {
        assert(replicate(id, lo, hi, body) == Seq::<TokM>::empty());
        assert(size_toks(replicate(id, lo, hi, body)) == 0);
    } else {
        lemma_replicate_size(id, lo, (hi - 1) as u64, body);
        lemma_subst_keeps_size(id, lo, hi, (hi - 1) as u64, body);
        crate::token::lemma_size_toks_add(
            replicate(id, lo, (hi - 1) as u64, body),
            pass(id, lo, hi, Mode::ReplaceIdent((hi - 1) as u64), body).0,
        );
        assert((hi - lo) * size_toks(body) == (hi - 1 - lo) * size_toks(body) + size_toks(
            body,
        )) by (nonlinear_arith);
    }
}

/// Literal-substitution mode: over a body with no section marker, the
/// expansion is one substituted copy of the whole body per index of the
/// range, concatenated in ascending order; and when the body is also free
/// of the fused-identifier form, the output token count is the width of
/// the range times the body's token count.
pub proof fn lemma_literal_mode_count(id: Seq<char>, lo: u64, hi: u64, body: Seq<TokM>)
    requires
        toks_free_of(body, '#'),
        toks_free_of(body, '~'),
        lo <= hi,
    ensures
        expand_toks(id, lo, hi, body) == replicate(id, lo, hi, body),
        size_toks(expand_toks(id, lo, hi, body)) == (hi - lo) * size_toks(body),
{
    lemma_scan_hash_free(id, lo, hi, body);
    lemma_replicate_size(id, lo, hi, body);
}

/// Replicating the body that is the bound identifier alone yields exactly
/// the integer literals of the range, in ascending order.
proof fn lemma_replicate_counts_up(id: Seq<char>, lo: u64, hi: u64)
    requires
        lo <= hi,
    ensures
        replicate(id, lo, hi, seq![TokM::Ident(id)]).len() == hi - lo,
        forall|j: int|
            0 <= j < hi - lo ==> replicate(id, lo, hi, seq![TokM::Ident(id)])[j] == TokM::Int(
                (lo + j) as u64,
            ),
    decreases hi - lo,
{
    let body = seq![TokM::Ident(id)];
    if hi == lo {
    } else {
        lemma_replicate_counts_up(id, lo, (hi - 1) as u64);
        assert(pass(id, lo, hi, Mode::ReplaceIdent((hi - 1) as u64), body).0 =~= seq![
            TokM::Int((hi - 1) as u64),
        ]) by {
            reveal_with_fuel(pass, 2);
            assert(body.drop_first() =~= Seq::<TokM>::empty());
        }
    }
}

/// The expansion of the bound identifier alone emits exactly the integers
/// of the range, in ascending order.
pub proof fn lemma_expansion_counts_up(id: Seq<char>, lo: u64, hi: u64)
    requires
        lo <= hi,
    ensures
        expand_toks(id, lo, hi, seq![TokM::Ident(id)]).len() == hi - lo,
        forall|j: int|
            0 <= j < hi - lo ==> expand_toks(id, lo, hi, seq![TokM::Ident(id)])[j] == TokM::Int(
                (lo + j) as u64,
            ),
{
    let body = seq![TokM::Ident(id)];
    assert(toks_free_of(body, '#')) by {
        reveal_with_fuel(toks_free_of, 2);
        assert(body.drop_first() =~= Seq::<TokM>::empty());
    }
    lemma_scan_hash_free(id, lo, hi, body);
    lemma_replicate_counts_up(id, lo, hi);
}

/// Section mode: in a body made of a `#`-free prefix, one marked section,
/// and a `#`-free suffix, only the section is replicated — once per index,
/// ascending — while the prefix and the suffix appear exactly once.
pub proof fn lemma_section_mode(
    id: Seq<char>,
    lo: u64,
    hi: u64,
    pre: Seq<TokM>,
    sec: Seq<TokM>,
    post: Seq<TokM>,
)
    requires
        toks_free_of(pre, '#'),
        toks_free_of(post, '#'),
    ensures
        expand_toks(
            id,
            lo,
            hi,
            pre + (seq![
                TokM::Punct('#'),
                TokM::Group(Delim::Paren, sec),
                TokM::Punct('*'),
            ] + post),
        ) == pre + (replicate(id, lo, hi, sec) + post),
{
    let marker = seq![
        TokM::Punct('#'),
        TokM::Group(Delim::Paren, sec),
        TokM::Punct('*'),
    ] + post;
    lemma_scan_concat(id, lo, hi, pre, marker);
    assert(sees_section(marker));
    assert(marker.skip(3) =~= post);
    lemma_scan_hash_free(id, lo, hi, post);
    assert(marker[1]->Group_1 == sec);
    assert(pass(id, lo, hi, Mode::ReplaceSequence, marker).0 == replicate(id, lo, hi, sec) + post);
}

} // verus!
