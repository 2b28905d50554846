//! Emission: renders the transformed structures back to token fragments,
//! and turns every collected diagnostic into a compile-time error fragment
//! emitted alongside — never instead of — the otherwise-valid output.

use vstd::prelude::*;

use crate::ast::SegM;
use crate::ast::Ty;
use crate::ast::TyM;
use crate::diag::Diagnostic;
use crate::diag::DiagnosticM;
use crate::diag::message_chars;
use crate::name::chars_of;
use crate::name::copy_name;
use crate::token::Delim;
use crate::token::Tok;
use crate::token::TokM;
use crate::token::lemma_toks_view_push;
use crate::token::tok_view;
use crate::token::toks_view;
use crate::views::seq_views;

verus! {

/// Appends one token.
pub fn push_tok(out: &mut Vec<Tok>, t: Tok)
    ensures
        toks_view(final(out)@) == toks_view(old(out)@) + seq![tok_view(t)],
{
    proof {
        lemma_toks_view_push(out@, t);
    }
    out.push(t);
}

/// Appends one identifier token spelling the given text.
pub fn push_id(out: &mut Vec<Tok>, s: &str)
    ensures
        toks_view(final(out)@) == toks_view(old(out)@) + seq![TokM::Ident(s@)],
{
    push_tok(out, Tok::Ident(chars_of(s)));
}

/// Appends one identifier token carrying the given name.
pub fn push_name(out: &mut Vec<Tok>, n: &Vec<char>)
    ensures
        toks_view(final(out)@) == toks_view(old(out)@) + seq![TokM::Ident(n@)],
{
    push_tok(out, Tok::Ident(copy_name(n)));
}

/// Appends one punctuation token.
pub fn push_punct(out: &mut Vec<Tok>, c: char)
    ensures
        toks_view(final(out)@) == toks_view(old(out)@) + seq![TokM::Punct(c)],
{
    push_tok(out, Tok::Punct(c));
}

/// Appends a whole token sequence.
pub fn push_all(out: &mut Vec<Tok>, ts: Vec<Tok>)
    ensures
        toks_view(final(out)@) == toks_view(old(out)@) + toks_view(ts@),
{
    let ghost tsv = toks_view(ts@);
    let mut rest = ts;
    let mut i: usize = 0;
    while i < rest.len()
        invariant
            i <= rest@.len(),
            toks_view(rest@) == tsv,
            toks_view(out@) =~= toks_view(old(out)@) + tsv.take(i as int),
        decreases rest@.len() - i,
    {
        let t = crate::token::dup_tok(&rest[i]);
        proof {
            assert(tok_view(rest@[i as int]) == tsv[i as int]);
            lemma_toks_view_push(out@, t);
        }
        out.push(t);
        proof {
            assert(toks_view(out@) =~= toks_view(old(out)@) + tsv.take(i + 1));
        }
        i = i + 1;
    }
    proof {
        assert(toks_view(out@) =~= toks_view(old(out)@) + tsv);
    }
}

/// The error fragment one message becomes: a compile-time error invocation
/// carrying the message text.
pub open spec fn error_toks(msg: Seq<char>) -> Seq<TokM> {
    seq![
        TokM::Ident("compile_error"@),
        TokM::Punct('!'),
        TokM::Group(Delim::Brace, seq![TokM::Lit(msg)]),
    ]
}

/// Appends the error fragment of one message.
pub fn push_error(out: &mut Vec<Tok>, msg: Vec<char>)
    ensures
        toks_view(final(out)@) == toks_view(old(out)@) + error_toks(msg@),
{
    let ghost m = msg@;
    push_id(out, "compile_error");
    push_punct(out, '!');
    let mut inner: Vec<Tok> = Vec::new();
    push_tok(&mut inner, Tok::Lit(msg));
    proof {
        crate::token::lemma_toks_view_rec(inner@);
    }
    push_tok(out, Tok::Group(Delim::Brace, inner));
    proof {
        assert(toks_view(out@) =~= toks_view(old(out)@) + error_toks(m));
    }
}

/// The error fragments of the first `n` diagnostics, in order.
pub open spec fn diags_toks(diags: Seq<DiagnosticM>, n: int) -> Seq<TokM>
    decreases n,
{
    if n <= 0 {
        Seq::empty()
    } else {
        diags_toks(diags, n - 1) + error_toks(message_chars(diags[n - 1].kind))
    }
}

/// Appends one error fragment per diagnostic, in order: a mistake is
/// reported alongside the valid output, never in its place.
pub fn push_diags(out: &mut Vec<Tok>, diags: &Vec<Diagnostic>)
    ensures
        toks_view(final(out)@) == toks_view(old(out)@) + diags_toks(
            seq_views(diags@),
            diags@.len() as int,
        ),
{
    let ghost dv = seq_views(diags@);
    let mut i: usize = 0;
    while i < diags.len()
        invariant
            i <= diags@.len(),
            dv == seq_views(diags@),
            toks_view(out@) =~= toks_view(old(out)@) + diags_toks(dv, i as int),
        decreases diags@.len() - i,
    {
        let msg = diags[i].message();
        proof {
            assert(diags@[i as int]@ == dv[i as int]);
        }
        push_error(out, msg);
        i = i + 1;
    }
}

/// The whole emission of one invocation: the valid output, then one error
/// fragment per collected diagnostic.
pub fn emit_with_diags(valid: Vec<Tok>, diags: &Vec<Diagnostic>) -> (out: Vec<Tok>)
    ensures
        toks_view(out@) == toks_view(valid@) + diags_toks(seq_views(diags@), diags@.len() as int),
{
    let ghost vv = toks_view(valid@);
    let mut out = valid;
    push_diags(&mut out, diags);
    out
}

/// The tokens of a declared type: a path with its leading colon, its
/// segments separated by `::`, and each segment's angle-bracketed
/// arguments; any other shape contributes its tokens as carried.
pub open spec fn ty_toks(t: TyM) -> Seq<TokM>
    decreases t, 0int, 0int,
{
    match t {
        TyM::Path { global, segs } => (if global {
            seq![TokM::Punct(':'), TokM::Punct(':')]
        } else {
            Seq::empty()
        }) + segs_toks(segs),
        TyM::Other(toks) => toks,
    }
}

/// The tokens of path segments joined by `::`.
pub open spec fn segs_toks(segs: Seq<SegM>) -> Seq<TokM>
    decreases segs, 1int, 0int,
{
    if segs.len() == 0 {
        Seq::empty()
    } else if segs.len() == 1 {
        seg_toks(segs[0])
    } else {
        segs_toks(segs.drop_last()) + seq![TokM::Punct(':'), TokM::Punct(':')] + seg_toks(
            segs.last(),
        )
    }
}

/// The tokens of one path segment.
pub open spec fn seg_toks(g: SegM) -> Seq<TokM>
    decreases g, 0int, 1int,
{
    seq![TokM::Ident(g.ident)] + (if g.args.len() == 0 {
        Seq::empty()
    } else {
        seq![TokM::Punct('<')] + args_toks(g.args, g.args.len() as int) + seq![TokM::Punct('>')]
    })
}

/// The tokens of the first `n` type arguments joined by commas.
pub open spec fn args_toks(args: Seq<TyM>, n: int) -> Seq<TokM>
    decreases args, 2int, n,
        when n <= args.len()
{
    if n <= 0 {
        Seq::empty()
    } else if n == 1 {
        ty_toks(args[0])
    } else {
        args_toks(args, n - 1) + seq![TokM::Punct(',')] + ty_toks(args[n - 1])
    }
}

/// Appends the tokens of a declared type.
pub fn push_ty(out: &mut Vec<Tok>, t: &Ty)
    ensures
        toks_view(final(out)@) == toks_view(old(out)@) + ty_toks(t@),
    decreases *t, 0int, 0int,
{
    match t {
        Ty::Path { global, segs } => {
            proof {
                crate::ast::lemma_segs_view_rec(segs@);
            }
            if *global {
                push_punct(out, ':');
                push_punct(out, ':');
            }
            push_segs(out, segs);
            proof {
                assert(toks_view(out@) =~= toks_view(old(out)@) + ty_toks(t@));
            }
        },
        Ty::Other(toks) => {
            proof {
                crate::token::lemma_toks_view_rec(toks@);
            }
            let copied = crate::token::dup_toks(toks);
            push_all(out, copied);
        },
    }
}

/// Appends path segments joined by `::`.
fn push_segs(out: &mut Vec<Tok>, segs: &Vec<crate::ast::Seg>)
    ensures
        toks_view(final(out)@) == toks_view(old(out)@) + segs_toks(crate::ast::segs_view(segs@)),
    decreases segs@, 1int, 0int,
{
    let ghost sv = crate::ast::segs_view(segs@);
    let mut i: usize = 0;
    while i < segs.len()
        invariant
            i <= segs@.len(),
            sv == crate::ast::segs_view(segs@),
            toks_view(out@) =~= toks_view(old(out)@) + segs_toks(sv.take(i as int)),
        decreases segs@.len() - i, 0int, 0int,
    {
        if i > 0 {
            push_punct(out, ':');
            push_punct(out, ':');
        }
        push_seg(out, &segs[i]);
        proof {
            assert(segs@[i as int]@ == sv[i as int]);
            assert(sv.take(i + 1).drop_last() =~= sv.take(i as int));
            assert(sv.take(i + 1).last() == sv[i as int]);
            assert(toks_view(out@) =~= toks_view(old(out)@) + segs_toks(sv.take(i + 1)));
        }
        i = i + 1;
    }
    proof {
        assert(sv.take(sv.len() as int) =~= sv);
    }
}

/// Appends one path segment.
fn push_seg(out: &mut Vec<Tok>, g: &crate::ast::Seg)
    ensures
        toks_view(final(out)@) == toks_view(old(out)@) + seg_toks(g@),
    decreases *g, 0int, 1int,
{
    push_name(out, &g.ident);
    proof {
        crate::ast::lemma_tys_view_rec(g.args@);
    }
    if g.args.len() > 0 {
        push_punct(out, '<');
        let ghost av = crate::ast::tys_view(g.args@);
        let mut j: usize = 0;
        while j < g.args.len()
            invariant
                j <= g.args@.len(),
                av == crate::ast::tys_view(g.args@),
                toks_view(out@) =~= toks_view(old(out)@) + seq![TokM::Ident(g.ident@)] + seq![
                    TokM::Punct('<'),
                ] + args_toks(av, j as int),
            decreases g.args@.len() - j, 0int, 0int,
        {
            if j > 0 {
                push_punct(out, ',');
            }
            push_ty(out, &g.args[j]);
            proof {
                assert(g.args@[j as int]@ == av[j as int]);
                assert(toks_view(out@) =~= toks_view(old(out)@) + seq![TokM::Ident(g.ident@)]
                    + seq![TokM::Punct('<')] + args_toks(av, j + 1));
            }
            j = j + 1;
        }
        push_punct(out, '>');
        proof {
            assert(toks_view(out@) =~= toks_view(old(out)@) + seg_toks(g@));
        }
    } else {
        proof {
            assert(toks_view(out@) =~= toks_view(old(out)@) + seg_toks(g@));
        }
    }
}

} // verus!

verus! {

/// The first type argument of a path type's first segment.
pub open spec fn first_arg(t: TyM) -> TyM {
    t->Path_segs[0].args[0]
}

/// The slot type the builder keeps for one field: a field owed a value is
/// wrapped in an optional; an explicitly optional or element-accessor
/// field keeps its own type, so nothing is wrapped twice.
pub open spec fn slot_ty_toks(kind: crate::builder::SlotKindM, ty: TyM) -> Seq<TokM> {
    if kind is Required {
        seq![TokM::Ident("Option"@), TokM::Punct('<')] + ty_toks(ty) + seq![TokM::Punct('>')]
    } else {
        ty_toks(ty)
    }
}

/// One field declaration of the builder struct.
pub open spec fn field_decl_toks(f: crate::ast::Field) -> Seq<TokM> {
    seq![TokM::Ident(f.name@), TokM::Punct(':')] + slot_ty_toks(
        crate::builder::kind_of_field(f),
        f.ty@,
    ) + seq![TokM::Punct(',')]
}

/// The field declarations of the first `n` fields.
pub open spec fn fields_decl_toks(fields: Seq<crate::ast::Field>, n: int) -> Seq<TokM>
    decreases n,
{
    if n <= 0 {
        Seq::empty()
    } else {
        fields_decl_toks(fields, n - 1) + field_decl_toks(fields[n - 1])
    }
}

/// One field initialiser of a fresh builder: an empty container for an
/// element-accessor field, the absent value for every other.
pub open spec fn init_field_toks(f: crate::ast::Field) -> Seq<TokM> {
    seq![TokM::Ident(f.name@), TokM::Punct(':')] + (if crate::builder::kind_of_field(f) is Each {
        seq![
            TokM::Ident("Vec"@),
            TokM::Punct(':'),
            TokM::Punct(':'),
            TokM::Ident("new"@),
            TokM::Group(Delim::Paren, Seq::empty()),
        ]
    } else {
        seq![TokM::Ident("None"@)]
    }) + seq![TokM::Punct(',')]
}

/// The field initialisers of the first `n` fields.
pub open spec fn init_fields_toks(fields: Seq<crate::ast::Field>, n: int) -> Seq<TokM>
    decreases n,
{
    if n <= 0 {
        Seq::empty()
    } else {
        init_fields_toks(fields, n - 1) + init_field_toks(fields[n - 1])
    }
}

/// One setter: takes the argument type, stores it — wrapped as present, or
/// natively for a bulk container setter — and hands the builder back.
pub open spec fn setter_toks(name: Seq<char>, arg_ty: Seq<TokM>, wrap: bool) -> Seq<TokM> {
    seq![TokM::Ident("fn"@), TokM::Ident(name)] + seq![
        TokM::Group(
            Delim::Paren,
            seq![
                TokM::Punct('&'),
                TokM::Ident("mut"@),
                TokM::Ident("self"@),
                TokM::Punct(','),
                TokM::Ident(name),
                TokM::Punct(':'),
            ] + arg_ty,
        ),
        TokM::Punct('-'),
        TokM::Punct('>'),
        TokM::Punct('&'),
        TokM::Ident("mut"@),
        TokM::Ident("Self"@),
        TokM::Group(
            Delim::Brace,
            seq![
                TokM::Ident("self"@),
                TokM::Punct('.'),
                TokM::Ident(name),
                TokM::Punct('='),
            ] + (if wrap {
                seq![
                    TokM::Ident("Some"@),
                    TokM::Group(Delim::Paren, seq![TokM::Ident(name)]),
                ]
            } else {
                seq![TokM::Ident(name)]
            }) + seq![TokM::Punct(';'), TokM::Ident("self"@)],
        ),
    ]
}

/// One element-push accessor: takes one element and appends it.
pub open spec fn extend_toks(method: Seq<char>, field: Seq<char>, elem: Seq<TokM>) -> Seq<TokM> {
    seq![TokM::Ident("pub"@), TokM::Ident("fn"@), TokM::Ident(method)] + seq![
        TokM::Group(
            Delim::Paren,
            seq![
                TokM::Punct('&'),
                TokM::Ident("mut"@),
                TokM::Ident("self"@),
                TokM::Punct(','),
                TokM::Ident(method),
                TokM::Punct(':'),
            ] + elem,
        ),
        TokM::Punct('-'),
        TokM::Punct('>'),
        TokM::Punct('&'),
        TokM::Ident("mut"@),
        TokM::Ident("Self"@),
        TokM::Group(
            Delim::Brace,
            seq![
                TokM::Ident("self"@),
                TokM::Punct('.'),
                TokM::Ident(field),
                TokM::Punct('.'),
                TokM::Ident("push"@),
                TokM::Group(Delim::Paren, seq![TokM::Ident(method)]),
                TokM::Punct(';'),
                TokM::Ident("self"@),
            ],
        ),
    ]
}

/// The methods one field contributes: a plain setter takes the declared
/// type and wraps; an optional field's setter takes the inner type; an
/// element-accessor field gains the push accessor, and its bulk setter
/// only when the accessor's name does not collide with the field's own.
pub open spec fn field_methods_toks(f: crate::ast::Field) -> Seq<TokM> {
    match crate::builder::kind_of_field(f) {
        crate::builder::SlotKindM::Required => setter_toks(f.name@, ty_toks(f.ty@), true),
        crate::builder::SlotKindM::Optional => setter_toks(
            f.name@,
            ty_toks(crate::builder::inner_of("Option"@, f.ty@)->Some_0),
            true,
        ),
        crate::builder::SlotKindM::Each { method, collide } => (if collide {
            Seq::empty()
        } else {
            setter_toks(f.name@, ty_toks(f.ty@), false)
        }) + extend_toks(method, f.name@, ty_toks(first_arg(f.ty@))),
    }
}

/// The methods of the first `n` fields.
pub open spec fn methods_toks(fields: Seq<crate::ast::Field>, n: int) -> Seq<TokM>
    decreases n,
{
    if n <= 0 {
        Seq::empty()
    } else {
        methods_toks(fields, n - 1) + field_methods_toks(fields[n - 1])
    }
}

/// What finalize reads from one slot: a clone for a field whose absence is
/// a value, and otherwise the clone or the first-missing-field error.
pub open spec fn build_field_toks(f: crate::ast::Field) -> Seq<TokM> {
    seq![
        TokM::Ident(f.name@),
        TokM::Punct(':'),
        TokM::Ident("self"@),
        TokM::Punct('.'),
        TokM::Ident(f.name@),
        TokM::Punct('.'),
        TokM::Ident("clone"@),
        TokM::Group(Delim::Paren, Seq::empty()),
    ] + (if crate::builder::kind_of_field(f) is Required {
        seq![
            TokM::Punct('.'),
            TokM::Ident("ok_or"@),
            TokM::Group(Delim::Paren, seq![TokM::Lit(f.name@ + " is not set"@)]),
            TokM::Punct('?'),
        ]
    } else {
        Seq::empty()
    }) + seq![TokM::Punct(',')]
}

/// The finalize reads of the first `n` fields.
pub open spec fn build_fields_toks(fields: Seq<crate::ast::Field>, n: int) -> Seq<TokM>
    decreases n,
{
    if n <= 0 {
        Seq::empty()
    } else {
        build_fields_toks(fields, n - 1) + build_field_toks(fields[n - 1])
    }
}

/// The finalize method of the builder.
pub open spec fn build_fn_toks(name: Seq<char>, fields: Seq<crate::ast::Field>) -> Seq<TokM> {
    seq![
        TokM::Ident("fn"@),
        TokM::Ident("build"@),
        TokM::Group(Delim::Paren, seq![TokM::Punct('&'), TokM::Ident("self"@)]),
        TokM::Punct('-'),
        TokM::Punct('>'),
        TokM::Ident("Result"@),
        TokM::Punct('<'),
        TokM::Ident(name),
        TokM::Punct(','),
        TokM::Ident("Box"@),
        TokM::Punct('<'),
        TokM::Ident("dyn"@),
        TokM::Ident("std"@),
        TokM::Punct(':'),
        TokM::Punct(':'),
        TokM::Ident("error"@),
        TokM::Punct(':'),
        TokM::Punct(':'),
        TokM::Ident("Error"@),
        TokM::Punct('>'),
        TokM::Punct('>'),
        TokM::Group(
            Delim::Brace,
            seq![
                TokM::Ident("Ok"@),
                TokM::Group(
                    Delim::Paren,
                    seq![
                        TokM::Ident(name),
                        TokM::Group(
                            Delim::Brace,
                            build_fields_toks(fields, fields.len() as int),
                        ),
                    ],
                ),
            ],
        ),
    ]
}

/// The builder's name: the item's name with `Builder` appended.
pub open spec fn builder_name(name: Seq<char>) -> Seq<char> {
    name + "Builder"@
}

/// The whole fragment the builder transformation emits: the builder
/// struct, the constructor on the host type, and the builder's methods
/// with the finalize operation.
pub open spec fn builder_toks(name: Seq<char>, fields: Seq<crate::ast::Field>) -> Seq<TokM> {
    let bname = builder_name(name);
    seq![
        TokM::Ident("pub"@),
        TokM::Ident("struct"@),
        TokM::Ident(bname),
        TokM::Group(Delim::Brace, fields_decl_toks(fields, fields.len() as int)),
        TokM::Ident("impl"@),
        TokM::Ident(name),
        TokM::Group(
            Delim::Brace,
            seq![
                TokM::Ident("fn"@),
                TokM::Ident("builder"@),
                TokM::Group(Delim::Paren, Seq::empty()),
                TokM::Punct('-'),
                TokM::Punct('>'),
                TokM::Ident(bname),
                TokM::Group(
                    Delim::Brace,
                    seq![
                        TokM::Ident(bname),
                        TokM::Group(
                            Delim::Brace,
                            init_fields_toks(fields, fields.len() as int),
                        ),
                    ],
                ),
            ],
        ),
        TokM::Ident("impl"@),
        TokM::Ident(bname),
        TokM::Group(
            Delim::Brace,
            methods_toks(fields, fields.len() as int) + build_fn_toks(name, fields),
        ),
    ]
}

} // verus!

verus! {

/// Appends one setter.
fn push_setter(out: &mut Vec<Tok>, name: &Vec<char>, arg_ty: &Ty, wrap: bool)
    ensures
        toks_view(final(out)@) == toks_view(old(out)@) + setter_toks(
            name@,
            ty_toks(arg_ty@),
            wrap,
        ),
{
    push_id(out, "fn");
    push_name(out, name);
    let mut parg: Vec<Tok> = Vec::new();
    push_punct(&mut parg, '&');
    push_id(&mut parg, "mut");
    push_id(&mut parg, "self");
    push_punct(&mut parg, ',');
    push_name(&mut parg, name);
    push_punct(&mut parg, ':');
    push_ty(&mut parg, arg_ty);
    let g1 = Tok::Group(Delim::Paren, parg);
    proof {
        crate::token::lemma_toks_view_rec(g1->1@);
        assert(crate::token::toks_view(g1->1@) =~= seq![
            TokM::Punct('&'),
            TokM::Ident("mut"@),
            TokM::Ident("self"@),
            TokM::Punct(','),
            TokM::Ident(name@),
            TokM::Punct(':'),
        ] + ty_toks(arg_ty@));
        assert(tok_view(g1) == TokM::Group(
            Delim::Paren,
            seq![
                TokM::Punct('&'),
                TokM::Ident("mut"@),
                TokM::Ident("self"@),
                TokM::Punct(','),
                TokM::Ident(name@),
                TokM::Punct(':'),
            ] + ty_toks(arg_ty@),
        ));
    }
    push_tok(out, g1);
    push_punct(out, '-');
    push_punct(out, '>');
    push_punct(out, '&');
    push_id(out, "mut");
    push_id(out, "Self");
    let mut body: Vec<Tok> = Vec::new();
    push_id(&mut body, "self");
    push_punct(&mut body, '.');
    push_name(&mut body, name);
    push_punct(&mut body, '=');
    if wrap {
        push_id(&mut body, "Some");
        let mut a: Vec<Tok> = Vec::new();
        push_name(&mut a, name);
        let ga = Tok::Group(Delim::Paren, a);
        proof {
            crate::token::lemma_toks_view_rec(ga->1@);
            assert(tok_view(ga) == TokM::Group(Delim::Paren, seq![TokM::Ident(name@)]));
        }
        push_tok(&mut body, ga);
    } else {
        push_name(&mut body, name);
    }
    push_punct(&mut body, ';');
    push_id(&mut body, "self");
    let g2 = Tok::Group(Delim::Brace, body);
    proof {
        crate::token::lemma_toks_view_rec(g2->1@);
        assert(crate::token::toks_view(g2->1@) =~= seq![
            TokM::Ident("self"@),
            TokM::Punct('.'),
            TokM::Ident(name@),
            TokM::Punct('='),
        ] + (if wrap {
            seq![
                TokM::Ident("Some"@),
                TokM::Group(Delim::Paren, seq![TokM::Ident(name@)]),
            ]
        } else {
            seq![TokM::Ident(name@)]
        }) + seq![TokM::Punct(';'), TokM::Ident("self"@)]);
        assert(tok_view(g2) == TokM::Group(
            Delim::Brace,
            seq![
                TokM::Ident("self"@),
                TokM::Punct('.'),
                TokM::Ident(name@),
                TokM::Punct('='),
            ] + (if wrap {
                seq![
                    TokM::Ident("Some"@),
                    TokM::Group(Delim::Paren, seq![TokM::Ident(name@)]),
                ]
            } else {
                seq![TokM::Ident(name@)]
            }) + seq![TokM::Punct(';'), TokM::Ident("self"@)],
        ));
    }
    push_tok(out, g2);
    proof {
        assert(toks_view(out@) =~= toks_view(old(out)@) + setter_toks(
            name@,
            ty_toks(arg_ty@),
            wrap,
        ));
    }
}

/// Appends one element-push accessor.
fn push_extend(out: &mut Vec<Tok>, method: &Vec<char>, field: &Vec<char>, elem: &Ty)
    ensures
        toks_view(final(out)@) == toks_view(old(out)@) + extend_toks(
            method@,
            field@,
            ty_toks(elem@),
        ),
{
    push_id(out, "pub");
    push_id(out, "fn");
    push_name(out, method);
    let mut parg: Vec<Tok> = Vec::new();
    push_punct(&mut parg, '&');
    push_id(&mut parg, "mut");
    push_id(&mut parg, "self");
    push_punct(&mut parg, ',');
    push_name(&mut parg, method);
    push_punct(&mut parg, ':');
    push_ty(&mut parg, elem);
    let g1 = Tok::Group(Delim::Paren, parg);
    proof {
        crate::token::lemma_toks_view_rec(g1->1@);
        assert(crate::token::toks_view(g1->1@) =~= seq![
            TokM::Punct('&'),
            TokM::Ident("mut"@),
            TokM::Ident("self"@),
            TokM::Punct(','),
            TokM::Ident(method@),
            TokM::Punct(':'),
        ] + ty_toks(elem@));
        assert(tok_view(g1) == TokM::Group(
            Delim::Paren,
            seq![
                TokM::Punct('&'),
                TokM::Ident("mut"@),
                TokM::Ident("self"@),
                TokM::Punct(','),
                TokM::Ident(method@),
                TokM::Punct(':'),
            ] + ty_toks(elem@),
        ));
    }
    push_tok(out, g1);
    push_punct(out, '-');
    push_punct(out, '>');
    push_punct(out, '&');
    push_id(out, "mut");
    push_id(out, "Self");
    let mut body: Vec<Tok> = Vec::new();
    push_id(&mut body, "self");
    push_punct(&mut body, '.');
    push_name(&mut body, field);
    push_punct(&mut body, '.');
    push_id(&mut body, "push");
    let mut a: Vec<Tok> = Vec::new();
    push_name(&mut a, method);
    let ga = Tok::Group(Delim::Paren, a);
    proof {
        crate::token::lemma_toks_view_rec(ga->1@);
        assert(tok_view(ga) == TokM::Group(Delim::Paren, seq![TokM::Ident(method@)]));
    }
    push_tok(&mut body, ga);
    push_punct(&mut body, ';');
    push_id(&mut body, "self");
    let g2 = Tok::Group(Delim::Brace, body);
    proof {
        crate::token::lemma_toks_view_rec(g2->1@);
        assert(crate::token::toks_view(g2->1@) =~= seq![
            TokM::Ident("self"@),
            TokM::Punct('.'),
            TokM::Ident(field@),
            TokM::Punct('.'),
            TokM::Ident("push"@),
            TokM::Group(Delim::Paren, seq![TokM::Ident(method@)]),
            TokM::Punct(';'),
            TokM::Ident("self"@),
        ]);
        assert(tok_view(g2) == TokM::Group(
            Delim::Brace,
            seq![
                TokM::Ident("self"@),
                TokM::Punct('.'),
                TokM::Ident(field@),
                TokM::Punct('.'),
                TokM::Ident("push"@),
                TokM::Group(Delim::Paren, seq![TokM::Ident(method@)]),
                TokM::Punct(';'),
                TokM::Ident("self"@),
            ],
        ));
    }
    push_tok(out, g2);
    proof {
        assert(toks_view(out@) =~= toks_view(old(out)@) + extend_toks(
            method@,
            field@,
            ty_toks(elem@),
        ));
    }
}

/// Renders the whole builder fragment for a struct.
#[verifier::rlimit(60)]
pub fn builder_fragment(name: &Vec<char>, fields: &Vec<crate::ast::Field>) -> (out: Vec<Tok>)
    ensures
        toks_view(out@) == builder_toks(name@, fields@),
{
    let ghost fv = fields@;
    let mut decls: Vec<Tok> = Vec::new();
    let mut inits: Vec<Tok> = Vec::new();
    let mut methods: Vec<Tok> = Vec::new();
    let mut builds: Vec<Tok> = Vec::new();
    let mut i: usize = 0;
    while i < fields.len()
        invariant
            i <= fv.len(),
            fv == fields@,
            toks_view(decls@) == fields_decl_toks(fv, i as int),
            toks_view(inits@) == init_fields_toks(fv, i as int),
            toks_view(methods@) == methods_toks(fv, i as int),
            toks_view(builds@) == build_fields_toks(fv, i as int),
        decreases fv.len() - i,
    {
        let f = &fields[i];
        let kind = crate::builder::field_kind(f);
        // Builder-struct field declaration.
        push_name(&mut decls, &f.name);
        push_punct(&mut decls, ':');
        match &kind {
            crate::builder::SlotKind::Required => {
                push_id(&mut decls, "Option");
                push_punct(&mut decls, '<');
                push_ty(&mut decls, &f.ty);
                push_punct(&mut decls, '>');
            },
            _ => {
                push_ty(&mut decls, &f.ty);
            },
        }
        push_punct(&mut decls, ',');
        proof {
            assert(toks_view(decls@) =~= fields_decl_toks(fv, i + 1));
        }
        // Fresh-builder initialiser.
        push_name(&mut inits, &f.name);
        push_punct(&mut inits, ':');
        match &kind {
            crate::builder::SlotKind::Each { .. } => {
                push_id(&mut inits, "Vec");
                push_punct(&mut inits, ':');
                push_punct(&mut inits, ':');
                push_id(&mut inits, "new");
                let empty_args: Vec<Tok> = Vec::new();
                proof {
                    crate::token::lemma_toks_view_rec(empty_args@);
                }
                push_tok(&mut inits, Tok::Group(Delim::Paren, empty_args));
            },
            _ => {
                push_id(&mut inits, "None");
            },
        }
        push_punct(&mut inits, ',');
        proof {
            assert(toks_view(inits@) =~~= init_fields_toks(fv, i + 1));
        }
        // Methods.
        match &kind {
            crate::builder::SlotKind::Required => {
                push_setter(&mut methods, &f.name, &f.ty, true);
            },
            crate::builder::SlotKind::Optional => {
                let inner = match crate::builder::ty_inner("Option", &f.ty) {
                    Some(inner) => inner,
                    None => vstd::pervasive::unreached(),
                };
                push_setter(&mut methods, &f.name, inner, true);
            },
            crate::builder::SlotKind::Each { method, collide } => {
                if !*collide {
                    push_setter(&mut methods, &f.name, &f.ty, false);
                }
                proof {
                    crate::attrs::lemma_each_accepted(
                        f.attrs@,
                        f.attrs@.len() as int,
                        crate::attrs::each_legal(f.ty@),
                    );
                }
                let elem = match &f.ty {
                    Ty::Path { segs, .. } => {
                        proof {
                            crate::ast::lemma_segs_view_rec(segs@);
                            crate::ast::lemma_tys_view_rec(segs@[0].args@);
                        }
                        &segs[0].args[0]
                    },
                    _ => vstd::pervasive::unreached(),
                };
                proof {
                    assert(elem@ == first_arg(f.ty@));
                }
                push_extend(&mut methods, method, &f.name, elem);
            },
        }
        proof {
            assert(toks_view(methods@) =~= methods_toks(fv, i + 1));
        }
        // Finalize read.
        push_name(&mut builds, &f.name);
        push_punct(&mut builds, ':');
        push_id(&mut builds, "self");
        push_punct(&mut builds, '.');
        push_name(&mut builds, &f.name);
        push_punct(&mut builds, '.');
        push_id(&mut builds, "clone");
        let empty_args: Vec<Tok> = Vec::new();
        proof {
            crate::token::lemma_toks_view_rec(empty_args@);
        }
        push_tok(&mut builds, Tok::Group(Delim::Paren, empty_args));
        match &kind {
            crate::builder::SlotKind::Required => {
                push_punct(&mut builds, '.');
                push_id(&mut builds, "ok_or");
                let mut msg = copy_name(&f.name);
                let tail = chars_of(" is not set");
                crate::name::append_name(&mut msg, &tail);
                let mut a: Vec<Tok> = Vec::new();
                push_tok(&mut a, Tok::Lit(msg));
                proof {
                    crate::token::lemma_toks_view_rec(a@);
                }
                push_tok(&mut builds, Tok::Group(Delim::Paren, a));
                push_punct(&mut builds, '?');
            },
            _ => {},
        }
        push_punct(&mut builds, ',');
        proof {
            assert(toks_view(builds@) =~~= build_fields_toks(fv, i + 1));
        }
        i = i + 1;
    }
    // Assembly.
    let mut bname = copy_name(name);
    let suffix = chars_of("Builder");
    crate::name::append_name(&mut bname, &suffix);
    let mut out: Vec<Tok> = Vec::new();
    push_id(&mut out, "pub");
    push_id(&mut out, "struct");
    push_name(&mut out, &bname);
    let gdecls = Tok::Group(Delim::Brace, decls);
    proof {
        crate::token::lemma_toks_view_rec(gdecls->1@);
        assert(tok_view(gdecls) == TokM::Group(
            Delim::Brace,
            fields_decl_toks(fv, fv.len() as int),
        ));
    }
    push_tok(&mut out, gdecls);
    push_id(&mut out, "impl");
    push_name(&mut out, name);
    let mut ctor: Vec<Tok> = Vec::new();
    push_id(&mut ctor, "fn");
    push_id(&mut ctor, "builder");
    let empty_args: Vec<Tok> = Vec::new();
    let gargs = Tok::Group(Delim::Paren, empty_args);
    proof {
        crate::token::lemma_toks_view_rec(gargs->1@);
        assert(tok_view(gargs) == TokM::Group(Delim::Paren, Seq::<TokM>::empty()));
    }
    push_tok(&mut ctor, gargs);
    push_punct(&mut ctor, '-');
    push_punct(&mut ctor, '>');
    push_name(&mut ctor, &bname);
    let mut ctor_body: Vec<Tok> = Vec::new();
    push_name(&mut ctor_body, &bname);
    let ginits = Tok::Group(Delim::Brace, inits);
    proof {
        crate::token::lemma_toks_view_rec(ginits->1@);
        assert(tok_view(ginits) == TokM::Group(
            Delim::Brace,
            init_fields_toks(fv, fv.len() as int),
        ));
    }
    push_tok(&mut ctor_body, ginits);
    let gcb = Tok::Group(Delim::Brace, ctor_body);
    proof {
        crate::token::lemma_toks_view_rec(gcb->1@);
        assert(crate::token::toks_view(gcb->1@) =~= seq![
            TokM::Ident(bname@),
            TokM::Group(Delim::Brace, init_fields_toks(fv, fv.len() as int)),
        ]);
        assert(tok_view(gcb) == TokM::Group(
            Delim::Brace,
            seq![
                TokM::Ident(bname@),
                TokM::Group(Delim::Brace, init_fields_toks(fv, fv.len() as int)),
            ],
        ));
    }
    push_tok(&mut ctor, gcb);
    let gctor = Tok::Group(Delim::Brace, ctor);
    proof {
        crate::token::lemma_toks_view_rec(gctor->1@);
        assert(crate::token::toks_view(gctor->1@) =~= seq![
            TokM::Ident("fn"@),
            TokM::Ident("builder"@),
            TokM::Group(Delim::Paren, Seq::<TokM>::empty()),
            TokM::Punct('-'),
            TokM::Punct('>'),
            TokM::Ident(bname@),
            TokM::Group(
                Delim::Brace,
                seq![
                    TokM::Ident(bname@),
                    TokM::Group(Delim::Brace, init_fields_toks(fv, fv.len() as int)),
                ],
            ),
        ]);
        assert(tok_view(gctor) == TokM::Group(
            Delim::Brace,
            seq![
                TokM::Ident("fn"@),
                TokM::Ident("builder"@),
                TokM::Group(Delim::Paren, Seq::<TokM>::empty()),
                TokM::Punct('-'),
                TokM::Punct('>'),
                TokM::Ident(bname@),
                TokM::Group(
                    Delim::Brace,
                    seq![
                        TokM::Ident(bname@),
                        TokM::Group(Delim::Brace, init_fields_toks(fv, fv.len() as int)),
                    ],
                ),
            ],
        ));
    }
    push_tok(&mut out, gctor);
    push_id(&mut out, "impl");
    push_name(&mut out, &bname);
    let mut impl_body = methods;
    push_id(&mut impl_body, "fn");
    push_id(&mut impl_body, "build");
    let mut sarg: Vec<Tok> = Vec::new();
    push_punct(&mut sarg, '&');
    push_id(&mut sarg, "self");
    let gsarg = Tok::Group(Delim::Paren, sarg);
    proof {
        crate::token::lemma_toks_view_rec(gsarg->1@);
        assert(crate::token::toks_view(gsarg->1@) =~= seq![
            TokM::Punct('&'),
            TokM::Ident("self"@),
        ]);
        assert(tok_view(gsarg) == TokM::Group(
            Delim::Paren,
            seq![TokM::Punct('&'), TokM::Ident("self"@)],
        ));
    }
    push_tok(&mut impl_body, gsarg);
    push_punct(&mut impl_body, '-');
    push_punct(&mut impl_body, '>');
    push_id(&mut impl_body, "Result");
    push_punct(&mut impl_body, '<');
    push_name(&mut impl_body, name);
    push_punct(&mut impl_body, ',');
    push_id(&mut impl_body, "Box");
    push_punct(&mut impl_body, '<');
    push_id(&mut impl_body, "dyn");
    push_id(&mut impl_body, "std");
    push_punct(&mut impl_body, ':');
    push_punct(&mut impl_body, ':');
    push_id(&mut impl_body, "error");
    push_punct(&mut impl_body, ':');
    push_punct(&mut impl_body, ':');
    push_id(&mut impl_body, "Error");
    push_punct(&mut impl_body, '>');
    push_punct(&mut impl_body, '>');
    let mut ok_body: Vec<Tok> = Vec::new();
    push_id(&mut ok_body, "Ok");
    let mut ok_args: Vec<Tok> = Vec::new();
    push_name(&mut ok_args, name);
    let gbuilds = Tok::Group(Delim::Brace, builds);
    proof {
        crate::token::lemma_toks_view_rec(gbuilds->1@);
        assert(tok_view(gbuilds) == TokM::Group(
            Delim::Brace,
            build_fields_toks(fv, fv.len() as int),
        ));
    }
    push_tok(&mut ok_args, gbuilds);
    let gok_args = Tok::Group(Delim::Paren, ok_args);
    proof {
        crate::token::lemma_toks_view_rec(gok_args->1@);
        assert(crate::token::toks_view(gok_args->1@) =~= seq![
            TokM::Ident(name@),
            TokM::Group(Delim::Brace, build_fields_toks(fv, fv.len() as int)),
        ]);
        assert(tok_view(gok_args) == TokM::Group(
            Delim::Paren,
            seq![
                TokM::Ident(name@),
                TokM::Group(Delim::Brace, build_fields_toks(fv, fv.len() as int)),
            ],
        ));
    }
    push_tok(&mut ok_body, gok_args);
    let gok = Tok::Group(Delim::Brace, ok_body);
    proof {
        crate::token::lemma_toks_view_rec(gok->1@);
        assert(crate::token::toks_view(gok->1@) =~= seq![
            TokM::Ident("Ok"@),
            TokM::Group(
                Delim::Paren,
                seq![
                    TokM::Ident(name@),
                    TokM::Group(Delim::Brace, build_fields_toks(fv, fv.len() as int)),
                ],
            ),
        ]);
        assert(tok_view(gok) == TokM::Group(
            Delim::Brace,
            seq![
                TokM::Ident("Ok"@),
                TokM::Group(
                    Delim::Paren,
                    seq![
                        TokM::Ident(name@),
                        TokM::Group(Delim::Brace, build_fields_toks(fv, fv.len() as int)),
                    ],
                ),
            ],
        ));
    }
    push_tok(&mut impl_body, gok);
    let gimpl = Tok::Group(Delim::Brace, impl_body);
    proof {
        crate::token::lemma_toks_view_rec(gimpl->1@);
        assert(crate::token::toks_view(gimpl->1@) =~= methods_toks(fv, fv.len() as int)
            + build_fn_toks(name@, fv));
        assert(tok_view(gimpl) == TokM::Group(
            Delim::Brace,
            methods_toks(fv, fv.len() as int) + build_fn_toks(name@, fv),
        ));
    }
    push_tok(&mut out, gimpl);
    proof {
        assert(toks_view(out@) =~= builder_toks(name@, fields@));
    }
    out
}

} // verus!

verus! {

/// The tokens of the first `n` declared bounds joined by `+`.
pub open spec fn bounds_toks(bs: Seq<TyM>, n: int) -> Seq<TokM>
    decreases n,
        when n <= bs.len()
{
    if n <= 0 {
        Seq::empty()
    } else if n == 1 {
        ty_toks(bs[0])
    } else {
        bounds_toks(bs, n - 1) + seq![TokM::Punct('+')] + ty_toks(bs[n - 1])
    }
}

/// The declaration of one generic parameter, with its bounds.
pub open spec fn param_decl_toks(p: crate::ast::GenericParamM) -> Seq<TokM> {
    seq![TokM::Ident(p.ident)] + (if p.bounds.len() == 0 {
        Seq::empty()
    } else {
        seq![TokM::Punct(':')] + bounds_toks(p.bounds, p.bounds.len() as int)
    })
}

/// The declarations of the first `n` parameters joined by commas.
pub open spec fn params_decl_toks(ps: Seq<crate::ast::GenericParamM>, n: int) -> Seq<TokM>
    decreases n,
        when n <= ps.len()
{
    if n <= 0 {
        Seq::empty()
    } else if n == 1 {
        param_decl_toks(ps[0])
    } else {
        params_decl_toks(ps, n - 1) + seq![TokM::Punct(',')] + param_decl_toks(ps[n - 1])
    }
}

/// The names of the first `n` parameters joined by commas.
pub open spec fn params_idents_toks(ps: Seq<crate::ast::GenericParamM>, n: int) -> Seq<TokM>
    decreases n,
        when n <= ps.len()
{
    if n <= 0 {
        Seq::empty()
    } else if n == 1 {
        seq![TokM::Ident(ps[0].ident)]
    } else {
        params_idents_toks(ps, n - 1) + seq![TokM::Punct(','), TokM::Ident(ps[n - 1].ident)]
    }
}

/// The parameter list of the emitted impl, empty when there is none.
pub open spec fn impl_generics_toks(ps: Seq<crate::ast::GenericParamM>) -> Seq<TokM> {
    if ps.len() == 0 {
        Seq::empty()
    } else {
        seq![TokM::Punct('<')] + params_decl_toks(ps, ps.len() as int) + seq![TokM::Punct('>')]
    }
}

/// The type-argument list naming the host type, empty when there is none.
pub open spec fn ty_generics_toks(ps: Seq<crate::ast::GenericParamM>) -> Seq<TokM> {
    if ps.len() == 0 {
        Seq::empty()
    } else {
        seq![TokM::Punct('<')] + params_idents_toks(ps, ps.len() as int) + seq![TokM::Punct('>')]
    }
}

/// The first `n` override predicates, each carried as written and ended
/// with a comma.
pub open spec fn preds_toks(preds: Seq<crate::attrs::PredM>, n: int) -> Seq<TokM>
    decreases n,
{
    if n <= 0 {
        Seq::empty()
    } else {
        preds_toks(preds, n - 1) + seq![TokM::Verbatim(preds[n - 1].text), TokM::Punct(',')]
    }
}

/// The first `n` projected types, each obliged to the capability bound.
pub open spec fn projections_toks(ts: Seq<TyM>, n: int) -> Seq<TokM>
    decreases n,
{
    if n <= 0 {
        Seq::empty()
    } else {
        projections_toks(ts, n - 1) + ty_toks(ts[n - 1]) + seq![TokM::Punct(':')] + ty_toks(
            crate::generics::debug_bound(),
        ) + seq![TokM::Punct(',')]
    }
}

/// The where clause of the emitted impl: the declared clause carried as
/// written, then the overrides, then the obliged projections.
pub open spec fn where_clause_toks(
    carried: Seq<TokM>,
    preds: Seq<crate::attrs::PredM>,
    projs: Seq<TyM>,
) -> Seq<TokM> {
    seq![TokM::Ident("where"@)] + carried + preds_toks(preds, preds.len() as int)
        + projections_toks(projs, projs.len() as int)
}

/// What one field hands to the display call: the field itself, or its
/// value pre-rendered through the format override.
pub open spec fn display_rhs_toks(name: Seq<char>, how: crate::debug::DisplayHowM) -> Seq<TokM> {
    match how {
        crate::debug::DisplayHowM::Default => seq![
            TokM::Punct('&'),
            TokM::Ident("self"@),
            TokM::Punct('.'),
            TokM::Ident(name),
        ],
        crate::debug::DisplayHowM::Formatted(fmt) => seq![
            TokM::Punct('&'),
            TokM::Punct(':'),
            TokM::Punct(':'),
            TokM::Ident("std"@),
            TokM::Punct(':'),
            TokM::Punct(':'),
            TokM::Ident("format_args"@),
            TokM::Punct('!'),
            TokM::Group(
                Delim::Paren,
                seq![
                    TokM::Lit(fmt),
                    TokM::Punct(','),
                    TokM::Ident("self"@),
                    TokM::Punct('.'),
                    TokM::Ident(name),
                ],
            ),
        ],
    }
}

/// The display calls of the first `n` fields, in declared order.
pub open spec fn field_calls_toks(ds: Seq<crate::debug::FieldDisplayM>, n: int) -> Seq<TokM>
    decreases n,
{
    if n <= 0 {
        Seq::empty()
    } else {
        field_calls_toks(ds, n - 1) + seq![
            TokM::Punct('.'),
            TokM::Ident("field"@),
            TokM::Group(
                Delim::Paren,
                seq![TokM::Lit(ds[n - 1].name), TokM::Punct(',')] + display_rhs_toks(
                    ds[n - 1].name,
                    ds[n - 1].how,
                ),
            ),
        ]
    }
}

/// The body of the formatting method: one display call per field, in
/// declared order, between the opening and the finish.
pub open spec fn fmt_body_toks(name: Seq<char>, ds: Seq<crate::debug::FieldDisplayM>) -> Seq<
    TokM,
> {
    seq![
        TokM::Ident("f"@),
        TokM::Punct('.'),
        TokM::Ident("debug_struct"@),
        TokM::Group(Delim::Paren, seq![TokM::Lit(name)]),
    ] + field_calls_toks(ds, ds.len() as int) + seq![
        TokM::Punct('.'),
        TokM::Ident("finish"@),
        TokM::Group(Delim::Paren, Seq::empty()),
    ]
}

/// The formatting method of the emitted impl.
pub open spec fn fmt_fn_toks(name: Seq<char>, ds: Seq<crate::debug::FieldDisplayM>) -> Seq<TokM> {
    seq![
        TokM::Ident("fn"@),
        TokM::Ident("fmt"@),
        TokM::Group(
            Delim::Paren,
            seq![
                TokM::Punct('&'),
                TokM::Ident("self"@),
                TokM::Punct(','),
                TokM::Ident("f"@),
                TokM::Punct(':'),
                TokM::Punct('&'),
                TokM::Ident("mut"@),
                TokM::Punct(':'),
                TokM::Punct(':'),
                TokM::Ident("std"@),
                TokM::Punct(':'),
                TokM::Punct(':'),
                TokM::Ident("fmt"@),
                TokM::Punct(':'),
                TokM::Punct(':'),
                TokM::Ident("Formatter"@),
            ],
        ),
        TokM::Punct('-'),
        TokM::Punct('>'),
        TokM::Punct(':'),
        TokM::Punct(':'),
        TokM::Ident("std"@),
        TokM::Punct(':'),
        TokM::Punct(':'),
        TokM::Ident("result"@),
        TokM::Punct(':'),
        TokM::Punct(':'),
        TokM::Ident("Result"@),
        TokM::Punct('<'),
        TokM::Group(Delim::Paren, Seq::empty()),
        TokM::Punct(','),
        TokM::Punct(':'),
        TokM::Punct(':'),
        TokM::Ident("std"@),
        TokM::Punct(':'),
        TokM::Punct(':'),
        TokM::Ident("fmt"@),
        TokM::Punct(':'),
        TokM::Punct(':'),
        TokM::Ident("Error"@),
        TokM::Punct('>'),
        TokM::Group(Delim::Brace, fmt_body_toks(name, ds)),
    ]
}

/// The whole fragment the structured-debug transformation emits: one impl
/// of the formatting contract for the host type, its parameters bounded as
/// inferred, its where clause carrying the declared clause, the overrides
/// and the obliged projections.
pub open spec fn debug_impl_toks(
    name: Seq<char>,
    ds: Seq<crate::debug::FieldDisplayM>,
    ps: Seq<crate::ast::GenericParamM>,
    carried: Seq<TokM>,
    preds: Seq<crate::attrs::PredM>,
    projs: Seq<TyM>,
) -> Seq<TokM> {
    seq![TokM::Ident("impl"@)] + impl_generics_toks(ps) + seq![
        TokM::Punct(':'),
        TokM::Punct(':'),
        TokM::Ident("std"@),
        TokM::Punct(':'),
        TokM::Punct(':'),
        TokM::Ident("fmt"@),
        TokM::Punct(':'),
        TokM::Punct(':'),
        TokM::Ident("Debug"@),
        TokM::Ident("for"@),
        TokM::Ident(name),
    ] + ty_generics_toks(ps) + where_clause_toks(carried, preds, projs) + seq![
        TokM::Group(Delim::Brace, fmt_fn_toks(name, ds)),
    ]
}

} // verus!

verus! {

/// Appends the parameter list of the emitted impl.
fn push_impl_generics(out: &mut Vec<Tok>, params: &Vec<crate::ast::GenericParam>)
    ensures
        toks_view(final(out)@) == toks_view(old(out)@) + impl_generics_toks(seq_views(params@)),
{
    let ghost pv = seq_views(params@);
    if params.len() == 0 {
        proof {
            assert(toks_view(out@) =~= toks_view(out@) + impl_generics_toks(pv));
        }
        return ;
    }
    push_punct(out, '<');
    let mut k: usize = 0;
    while k < params.len()
        invariant
            k <= params@.len(),
            params@.len() > 0,
            pv == seq_views(params@),
            toks_view(out@) =~= toks_view(old(out)@) + seq![TokM::Punct('<')] + params_decl_toks(
                pv,
                k as int,
            ),
        decreases params@.len() - k,
    {
        if k > 0 {
            push_punct(out, ',');
        }
        let p = &params[k];
        proof {
            assert(p@ == pv[k as int]);
            crate::ast::lemma_tys_view_rec(p.bounds@);
        }
        push_name(out, &p.ident);
        if p.bounds.len() > 0 {
            push_punct(out, ':');
            let ghost bv = crate::ast::tys_view(p.bounds@);
            let mut b: usize = 0;
            while b < p.bounds.len()
                invariant
                    b <= p.bounds@.len(),
                    p.bounds@.len() > 0,
                    bv == crate::ast::tys_view(p.bounds@),
                    toks_view(out@) =~= toks_view(old(out)@) + seq![TokM::Punct('<')]
                        + params_decl_toks(pv, k as int) + (if k > 0 {
                        seq![TokM::Punct(',')]
                    } else {
                        Seq::empty()
                    }) + seq![TokM::Ident(pv[k as int].ident), TokM::Punct(':')] + bounds_toks(
                        bv,
                        b as int,
                    ),
                decreases p.bounds@.len() - b,
            {
                if b > 0 {
                    push_punct(out, '+');
                }
                push_ty(out, &p.bounds[b]);
                proof {
                    assert(p.bounds@[b as int]@ == bv[b as int]);
                    assert(toks_view(out@) =~= toks_view(old(out)@) + seq![TokM::Punct('<')]
                        + params_decl_toks(pv, k as int) + (if k > 0 {
                        seq![TokM::Punct(',')]
                    } else {
                        Seq::empty()
                    }) + seq![TokM::Ident(pv[k as int].ident), TokM::Punct(':')] + bounds_toks(
                        bv,
                        b + 1,
                    ));
                }
                b = b + 1;
            }
            proof {
                assert(pv[k as int].bounds == bv);
                assert(param_decl_toks(pv[k as int]) =~= seq![
                    TokM::Ident(pv[k as int].ident),
                    TokM::Punct(':'),
                ] + bounds_toks(bv, bv.len() as int));
                assert(toks_view(out@) =~= toks_view(old(out)@) + seq![TokM::Punct('<')]
                    + params_decl_toks(pv, k + 1));
            }
        } else {
            proof {
                assert(pv[k as int].bounds.len() == 0);
                assert(param_decl_toks(pv[k as int]) =~= seq![TokM::Ident(pv[k as int].ident)]);
                assert(toks_view(out@) =~= toks_view(old(out)@) + seq![TokM::Punct('<')]
                    + params_decl_toks(pv, k + 1));
            }
        }
        k = k + 1;
    }
    push_punct(out, '>');
    proof {
        assert(toks_view(out@) =~= toks_view(old(out)@) + impl_generics_toks(pv));
    }
}

/// Appends the type-argument list naming the host type.
fn push_ty_generics(out: &mut Vec<Tok>, params: &Vec<crate::ast::GenericParam>)
    ensures
        toks_view(final(out)@) == toks_view(old(out)@) + ty_generics_toks(seq_views(params@)),
{
    let ghost pv = seq_views(params@);
    if params.len() == 0 {
        proof {
            assert(toks_view(out@) =~= toks_view(out@) + ty_generics_toks(pv));
        }
        return ;
    }
    push_punct(out, '<');
    let mut k: usize = 0;
    while k < params.len()
        invariant
            k <= params@.len(),
            params@.len() > 0,
            pv == seq_views(params@),
            toks_view(out@) =~= toks_view(old(out)@) + seq![TokM::Punct('<')] + params_idents_toks(
                pv,
                k as int,
            ),
        decreases params@.len() - k,
    {
        if k > 0 {
            push_punct(out, ',');
        }
        proof {
            assert(params@[k as int]@ == pv[k as int]);
        }
        push_name(out, &params[k].ident);
        proof {
            assert(toks_view(out@) =~= toks_view(old(out)@) + seq![TokM::Punct('<')]
                + params_idents_toks(pv, k + 1));
        }
        k = k + 1;
    }
    push_punct(out, '>');
    proof {
        assert(toks_view(out@) =~= toks_view(old(out)@) + ty_generics_toks(pv));
    }
}

/// Appends the where clause of the emitted impl.
fn push_where_clause(
    out: &mut Vec<Tok>,
    carried: &Vec<Tok>,
    preds: &Vec<crate::attrs::Pred>,
    projs: &Vec<Ty>,
)
    ensures
        toks_view(final(out)@) == toks_view(old(out)@) + where_clause_toks(
            toks_view(carried@),
            crate::attrs::preds_views(preds@),
            crate::ast::tys_view(projs@),
        ),
{
    push_id(out, "where");
    let copied = crate::token::dup_toks(carried);
    proof {
        crate::token::lemma_toks_view_rec(copied@);
    }
    push_all(out, copied);
    let ghost prv = crate::attrs::preds_views(preds@);
    let mut i: usize = 0;
    while i < preds.len()
        invariant
            i <= preds@.len(),
            prv == crate::attrs::preds_views(preds@),
            toks_view(out@) =~= toks_view(old(out)@) + seq![TokM::Ident("where"@)] + toks_view(
                carried@,
            ) + preds_toks(prv, i as int),
        decreases preds@.len() - i,
    {
        proof {
            assert(preds@[i as int]@ == prv[i as int]);
        }
        push_tok(out, Tok::Verbatim(copy_name(&preds[i].text)));
        push_punct(out, ',');
        proof {
            assert(toks_view(out@) =~= toks_view(old(out)@) + seq![TokM::Ident("where"@)]
                + toks_view(carried@) + preds_toks(prv, i + 1));
        }
        i = i + 1;
    }
    let ghost tv = crate::ast::tys_view(projs@);
    let mut j: usize = 0;
    while j < projs.len()
        invariant
            j <= projs@.len(),
            tv == crate::ast::tys_view(projs@),
            prv == crate::attrs::preds_views(preds@),
            toks_view(out@) =~= toks_view(old(out)@) + seq![TokM::Ident("where"@)] + toks_view(
                carried@,
            ) + preds_toks(prv, prv.len() as int) + projections_toks(tv, j as int),
        decreases projs@.len() - j,
    {
        proof {
            assert(projs@[j as int]@ == tv[j as int]);
        }
        push_ty(out, &projs[j]);
        push_punct(out, ':');
        let b = crate::generics::debug_bound_ty();
        push_ty(out, &b);
        push_punct(out, ',');
        proof {
            assert(toks_view(out@) =~= toks_view(old(out)@) + seq![TokM::Ident("where"@)]
                + toks_view(carried@) + preds_toks(prv, prv.len() as int) + projections_toks(
                tv,
                j + 1,
            ));
        }
        j = j + 1;
    }
    proof {
        assert(toks_view(out@) =~= toks_view(old(out)@) + where_clause_toks(
            toks_view(carried@),
            prv,
            tv,
        ));
    }
}

} // verus!

verus! {

/// Appends the display calls of every field, in declared order.
fn push_display_calls(out: &mut Vec<Tok>, ds: &Vec<crate::debug::FieldDisplay>)
    ensures
        toks_view(final(out)@) == toks_view(old(out)@) + field_calls_toks(
            seq_views(ds@),
            ds@.len() as int,
        ),
{
    let ghost dv = seq_views(ds@);
    let mut i: usize = 0;
    while i < ds.len()
        invariant
            i <= ds@.len(),
            dv == seq_views(ds@),
            toks_view(out@) =~= toks_view(old(out)@) + field_calls_toks(dv, i as int),
        decreases ds@.len() - i,
    {
        let d = &ds[i];
        proof {
            assert(d@ == dv[i as int]);
        }
        push_punct(out, '.');
        push_id(out, "field");
        let mut arg: Vec<Tok> = Vec::new();
        push_tok(&mut arg, Tok::Lit(copy_name(&d.name)));
        push_punct(&mut arg, ',');
        match &d.how {
            crate::debug::DisplayHow::Default => {
                push_punct(&mut arg, '&');
                push_id(&mut arg, "self");
                push_punct(&mut arg, '.');
                push_name(&mut arg, &d.name);
            },
            crate::debug::DisplayHow::Formatted(fmt) => {
                push_punct(&mut arg, '&');
                push_punct(&mut arg, ':');
                push_punct(&mut arg, ':');
                push_id(&mut arg, "std");
                push_punct(&mut arg, ':');
                push_punct(&mut arg, ':');
                push_id(&mut arg, "format_args");
                push_punct(&mut arg, '!');
                let mut fargs: Vec<Tok> = Vec::new();
                push_tok(&mut fargs, Tok::Lit(copy_name(fmt)));
                push_punct(&mut fargs, ',');
                push_id(&mut fargs, "self");
                push_punct(&mut fargs, '.');
                push_name(&mut fargs, &d.name);
                let gf = Tok::Group(Delim::Paren, fargs);
                proof {
                    crate::token::lemma_toks_view_rec(gf->1@);
                    assert(crate::token::toks_view(gf->1@) =~= seq![
                        TokM::Lit(fmt@),
                        TokM::Punct(','),
                        TokM::Ident("self"@),
                        TokM::Punct('.'),
                        TokM::Ident(d.name@),
                    ]);
                    assert(tok_view(gf) == TokM::Group(
                        Delim::Paren,
                        seq![
                            TokM::Lit(fmt@),
                            TokM::Punct(','),
                            TokM::Ident("self"@),
                            TokM::Punct('.'),
                            TokM::Ident(d.name@),
                        ],
                    ));
                }
                push_tok(&mut arg, gf);
            },
        }
        let garg = Tok::Group(Delim::Paren, arg);
        proof {
            crate::token::lemma_toks_view_rec(garg->1@);
            assert(crate::token::toks_view(garg->1@) =~= seq![
                TokM::Lit(dv[i as int].name),
                TokM::Punct(','),
            ] + display_rhs_toks(dv[i as int].name, dv[i as int].how));
            assert(tok_view(garg) == TokM::Group(
                Delim::Paren,
                seq![TokM::Lit(dv[i as int].name), TokM::Punct(',')] + display_rhs_toks(
                    dv[i as int].name,
                    dv[i as int].how,
                ),
            ));
        }
        push_tok(out, garg);
        proof {
            assert(toks_view(out@) =~= toks_view(old(out)@) + field_calls_toks(dv, i + 1));
        }
        i = i + 1;
    }
}

/// Renders the whole structured-debug fragment for a planned struct.
#[verifier::rlimit(60)]
pub fn debug_fragment(plan: &crate::debug::DebugPlan, carried: &Vec<Tok>) -> (out: Vec<Tok>)
    ensures
        toks_view(out@) == debug_impl_toks(
            plan.name@,
            seq_views(plan.displays@),
            seq_views(plan.params@),
            toks_view(carried@),
            crate::attrs::preds_views(plan.where_preds@),
            crate::ast::tys_view(plan.projections@),
        ),
{
    let mut out: Vec<Tok> = Vec::new();
    push_id(&mut out, "impl");
    push_impl_generics(&mut out, &plan.params);
    push_punct(&mut out, ':');
    push_punct(&mut out, ':');
    push_id(&mut out, "std");
    push_punct(&mut out, ':');
    push_punct(&mut out, ':');
    push_id(&mut out, "fmt");
    push_punct(&mut out, ':');
    push_punct(&mut out, ':');
    push_id(&mut out, "Debug");
    push_id(&mut out, "for");
    push_name(&mut out, &plan.name);
    push_ty_generics(&mut out, &plan.params);
    push_where_clause(&mut out, carried, &plan.where_preds, &plan.projections);
    let gbody = fmt_fn_group(&plan.name, &plan.displays);
    push_tok(&mut out, gbody);
    proof {
        assert(toks_view(out@) =~= debug_impl_toks(
            plan.name@,
            seq_views(plan.displays@),
            seq_views(plan.params@),
            toks_view(carried@),
            crate::attrs::preds_views(plan.where_preds@),
            crate::ast::tys_view(plan.projections@),
        ));
    }
    out
}

/// Builds the braced group holding the formatting method.
#[verifier::rlimit(60)]
fn fmt_fn_group(name: &Vec<char>, displays: &Vec<crate::debug::FieldDisplay>) -> (g: Tok)
    ensures
        tok_view(g) == TokM::Group(
            Delim::Brace,
            fmt_fn_toks(name@, seq_views(displays@)),
        ),
{
    let plan_name = name;
    // The formatting method.
    let mut body: Vec<Tok> = Vec::new();
    push_id(&mut body, "fn");
    push_id(&mut body, "fmt");
    let mut fargs: Vec<Tok> = Vec::new();
    push_punct(&mut fargs, '&');
    push_id(&mut fargs, "self");
    push_punct(&mut fargs, ',');
    push_id(&mut fargs, "f");
    push_punct(&mut fargs, ':');
    push_punct(&mut fargs, '&');
    push_id(&mut fargs, "mut");
    push_punct(&mut fargs, ':');
    push_punct(&mut fargs, ':');
    push_id(&mut fargs, "std");
    push_punct(&mut fargs, ':');
    push_punct(&mut fargs, ':');
    push_id(&mut fargs, "fmt");
    push_punct(&mut fargs, ':');
    push_punct(&mut fargs, ':');
    push_id(&mut fargs, "Formatter");
    let gfargs = Tok::Group(Delim::Paren, fargs);
    proof {
        crate::token::lemma_toks_view_rec(gfargs->1@);
        assert(crate::token::toks_view(gfargs->1@) =~= seq![
            TokM::Punct('&'),
            TokM::Ident("self"@),
            TokM::Punct(','),
            TokM::Ident("f"@),
            TokM::Punct(':'),
            TokM::Punct('&'),
            TokM::Ident("mut"@),
            TokM::Punct(':'),
            TokM::Punct(':'),
            TokM::Ident("std"@),
            TokM::Punct(':'),
            TokM::Punct(':'),
            TokM::Ident("fmt"@),
            TokM::Punct(':'),
            TokM::Punct(':'),
            TokM::Ident("Formatter"@),
        ]);
    }
    push_tok(&mut body, gfargs);
    push_punct(&mut body, '-');
    push_punct(&mut body, '>');
    push_punct(&mut body, ':');
    push_punct(&mut body, ':');
    push_id(&mut body, "std");
    push_punct(&mut body, ':');
    push_punct(&mut body, ':');
    push_id(&mut body, "result");
    push_punct(&mut body, ':');
    push_punct(&mut body, ':');
    push_id(&mut body, "Result");
    push_punct(&mut body, '<');
    let unit_args: Vec<Tok> = Vec::new();
    let gunit = Tok::Group(Delim::Paren, unit_args);
    proof {
        crate::token::lemma_toks_view_rec(gunit->1@);
        assert(tok_view(gunit) == TokM::Group(Delim::Paren, Seq::<TokM>::empty()));
    }
    push_tok(&mut body, gunit);
    push_punct(&mut body, ',');
    push_punct(&mut body, ':');
    push_punct(&mut body, ':');
    push_id(&mut body, "std");
    push_punct(&mut body, ':');
    push_punct(&mut body, ':');
    push_id(&mut body, "fmt");
    push_punct(&mut body, ':');
    push_punct(&mut body, ':');
    push_id(&mut body, "Error");
    push_punct(&mut body, '>');
    // The method body.
    let mut calls: Vec<Tok> = Vec::new();
    push_id(&mut calls, "f");
    push_punct(&mut calls, '.');
    push_id(&mut calls, "debug_struct");
    let mut narg: Vec<Tok> = Vec::new();
    push_tok(&mut narg, Tok::Lit(copy_name(plan_name)));
    let gnarg = Tok::Group(Delim::Paren, narg);
    proof {
        crate::token::lemma_toks_view_rec(gnarg->1@);
        assert(tok_view(gnarg) == TokM::Group(Delim::Paren, seq![TokM::Lit(plan_name@)]));
    }
    push_tok(&mut calls, gnarg);
    push_display_calls(&mut calls, displays);
    push_punct(&mut calls, '.');
    push_id(&mut calls, "finish");
    let fin_args: Vec<Tok> = Vec::new();
    let gfin = Tok::Group(Delim::Paren, fin_args);
    proof {
        crate::token::lemma_toks_view_rec(gfin->1@);
        assert(tok_view(gfin) == TokM::Group(Delim::Paren, Seq::<TokM>::empty()));
    }
    push_tok(&mut calls, gfin);
    let gcalls = Tok::Group(Delim::Brace, calls);
    proof {
        crate::token::lemma_toks_view_rec(gcalls->1@);
        assert(crate::token::toks_view(gcalls->1@) =~= fmt_body_toks(
            plan_name@,
            seq_views(displays@),
        ));
        assert(tok_view(gcalls) == TokM::Group(
            Delim::Brace,
            fmt_body_toks(plan_name@, seq_views(displays@)),
        ));
    }
    push_tok(&mut body, gcalls);
    let gbody = Tok::Group(Delim::Brace, body);
    proof {
        crate::token::lemma_toks_view_rec(gbody->1@);
        assert(crate::token::toks_view(gbody->1@) =~= fmt_fn_toks(
            plan_name@,
            seq_views(displays@),
        ));
        assert(tok_view(gbody) == TokM::Group(
            Delim::Brace,
            fmt_fn_toks(plan_name@, seq_views(displays@)),
        ));
    }
    gbody
}

} // verus!
