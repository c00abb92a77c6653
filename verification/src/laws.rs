//! The laws of the scope tracker and of the rewrite, stated over the
//! models and proved once and for all: identity stability and uniqueness,
//! shadowing, hoisting visibility, the shape of the rewritten tree, and
//! the balance of frame pushes and pops.

use vstd::prelude::*;
use crate::ast::Decl;
use crate::ast::FnDecl;
use crate::ast::Pat;
use crate::ast::ObjectPatProp;
use crate::ast::Stmt;
use crate::ast::VarDecl;
use crate::ast::VarDeclKind;
use crate::ast::VarDeclarator;
use crate::ast::Program;
use crate::ast::arrow_body_size;
use crate::ast::declarator_size;
use crate::ast::declarators_size;
use crate::ast::elem_size;
use crate::ast::elems_size;
use crate::ast::expr_size;
use crate::ast::exprs_size;
use crate::ast::pat_size;
use crate::ast::pats_size;
use crate::ast::prop_size;
use crate::ast::props_size;
use crate::ast::stmt_size;
use crate::ast::stmts_size;
use crate::ast::ArrowBody;
use crate::ast::Expr;
use crate::scope::ScopeView;
use crate::scope::find_site;
use crate::scope::frame_lookup;
use crate::scope::frames_lookup;
use crate::scope::initial_scope;
use crate::scope::lemma_bind_pat_frames;
use crate::scope::spec_bind_elem;
use crate::scope::spec_bind_elems;
use crate::scope::spec_bind_ident;
use crate::scope::spec_bind_pat;
use crate::scope::spec_bind_prop;
use crate::scope::spec_bind_props;
use crate::scope::spec_get_id;
use crate::scope::spec_lookup;
use crate::scope::spec_pop;
use crate::scope::spec_push;
use crate::ast::ArrowBodyV;
use crate::ast::DeclaratorV;
use crate::ast::ExprV;
use crate::ast::PatV;
use crate::ast::ProgramV;
use crate::ast::StmtV;
use crate::rewriter::spec_hoist_declarator;
use crate::rewriter::wrap_callee_v;
use crate::rewriter::spec_hoist_declarators;
use crate::rewriter::spec_hoist_stmt;
use crate::rewriter::spec_hoist_stmts;
use crate::rewriter::spec_rewrite_arrow_body;
use crate::rewriter::spec_rewrite_declarator;
use crate::rewriter::spec_rewrite_declarators;
use crate::rewriter::spec_rewrite_expr;
use crate::rewriter::spec_rewrite_exprs;
use crate::rewriter::spec_rewrite_fn_param;
use crate::rewriter::spec_rewrite_fn_params;
use crate::rewriter::spec_rewrite_param;
use crate::rewriter::spec_rewrite_params;
use crate::rewriter::spec_rewrite_program;
use crate::rewriter::spec_rewrite_stmt;
use crate::rewriter::spec_rewrite_stmts;

verus! {

/// A site that is found keeps its place when any site is appended.
proof fn lemma_find_site_push(
    sites: Seq<(Seq<char>, u32)>,
    sym: Seq<char>,
    ctxt: u32,
    k2: (Seq<char>, u32),
)
    requires
        find_site(sites, sym, ctxt) is Some,
    ensures
        find_site(sites.push(k2), sym, ctxt) == find_site(sites, sym, ctxt),
    decreases sites.len(),
{
    assert(sites.len() > 0);
    assert(sites.push(k2)[0] == sites[0]);
    assert(sites.push(k2).len() == sites.len() + 1);
    assert(sites.push(k2).drop_first() =~= sites.drop_first().push(k2));
    if sites[0] != (sym, ctxt) {
        lemma_find_site_push(sites.drop_first(), sym, ctxt, k2);
    }
}

/// A site that is absent is found right after it is appended, at the
/// position one past the old end.
proof fn lemma_find_site_push_self(sites: Seq<(Seq<char>, u32)>, sym: Seq<char>, ctxt: u32)
    requires
        find_site(sites, sym, ctxt) is None,
    ensures
        find_site(sites.push((sym, ctxt)), sym, ctxt) == Some((sites.len() + 1) as nat),
    decreases sites.len(),
{
    let pushed = sites.push((sym, ctxt));
    assert(pushed.len() == sites.len() + 1);
    if sites.len() == 0 {
        assert(pushed[0] == (sym, ctxt));
    } else {
        assert(pushed[0] == sites[0]);
        assert(sites[0] != (sym, ctxt));
        assert(pushed.drop_first() =~= sites.drop_first().push((sym, ctxt)));
        lemma_find_site_push_self(sites.drop_first(), sym, ctxt);
    }
}

/// A found site names its first occurrence.
proof fn lemma_find_site_some(sites: Seq<(Seq<char>, u32)>, sym: Seq<char>, ctxt: u32)
    requires
        find_site(sites, sym, ctxt) is Some,
    ensures
        1 <= find_site(sites, sym, ctxt).unwrap() <= sites.len(),
        sites[find_site(sites, sym, ctxt).unwrap() - 1] == (sym, ctxt),
    decreases sites.len(),
{
    if sites[0] != (sym, ctxt) {
        lemma_find_site_some(sites.drop_first(), sym, ctxt);
        let i = find_site(sites.drop_first(), sym, ctxt).unwrap();
        assert(sites.drop_first()[i - 1] == sites[i as int]);
    }
}

/// Identity stability: once a declaration site has an identity, resolving
/// or assigning an identity for any site, the same or another, leaves that
/// identity unchanged.
pub proof fn lemma_identity_stable(
    sites: Seq<(Seq<char>, u32)>,
    sym: Seq<char>,
    ctxt: u32,
    sym2: Seq<char>,
    ctxt2: u32,
)
    requires
        find_site(sites, sym, ctxt) is Some,
    ensures
        find_site(spec_get_id(sites, sym2, ctxt2).0, sym, ctxt) == find_site(sites, sym, ctxt),
{
    if find_site(sites, sym2, ctxt2) is None {
        lemma_find_site_push(sites, sym, ctxt, (sym2, ctxt2));
    }
}

/// Identity idempotence: resolving the same declaration site twice yields
/// the same identity, and the second resolution changes nothing.
pub proof fn lemma_identity_idempotent(sites: Seq<(Seq<char>, u32)>, sym: Seq<char>, ctxt: u32)
    ensures
        spec_get_id(spec_get_id(sites, sym, ctxt).0, sym, ctxt) == spec_get_id(sites, sym, ctxt),
{
    if find_site(sites, sym, ctxt) is None {
        lemma_find_site_push_self(sites, sym, ctxt);
    }
}

/// Identity uniqueness: two distinct declaration sites, even with the same
/// name, never share an identity.
pub proof fn lemma_identity_unique(
    sites: Seq<(Seq<char>, u32)>,
    sym1: Seq<char>,
    ctxt1: u32,
    sym2: Seq<char>,
    ctxt2: u32,
)
    requires
        (sym1, ctxt1) != (sym2, ctxt2),
        find_site(sites, sym1, ctxt1) is Some,
        find_site(sites, sym2, ctxt2) is Some,
    ensures
        find_site(sites, sym1, ctxt1) != find_site(sites, sym2, ctxt2),
{
    lemma_find_site_some(sites, sym1, ctxt1);
    lemma_find_site_some(sites, sym2, ctxt2);
}

/// Binding a name makes the name resolve, in the updated scope, to exactly
/// the identity its declaration site was assigned.
pub proof fn lemma_bind_then_lookup(v: ScopeView, sym: Seq<char>, ctxt: u32)
    requires
        v.frames.len() > 0,
    ensures
        spec_lookup(spec_bind_ident(v, sym, ctxt), sym) == Some(spec_get_id(v.sites, sym, ctxt).1),
{
    let v1 = spec_bind_ident(v, sym, ctxt);
    let id = spec_get_id(v.sites, sym, ctxt).1;
    assert(v1.frames.last() == v.frames.last().push((sym, id)));
    assert(v1.frames.last().last() == (sym, id));
    assert(frame_lookup(v1.frames.last(), sym) == Some(id));
}

/// Shadowing: after a frame is pushed and a name is bound in it, the name
/// resolves to the newly bound identity; when that frame is popped again,
/// every name resolves exactly as it did before the push.
pub proof fn lemma_shadowing(v: ScopeView, sym: Seq<char>, ctxt: u32, other: Seq<char>)
    requires
        v.frames.len() > 0,
    ensures
        spec_lookup(spec_bind_ident(spec_push(v), sym, ctxt), sym) == Some(
            spec_get_id(v.sites, sym, ctxt).1,
        ),
        spec_pop(spec_bind_ident(spec_push(v), sym, ctxt)).frames == v.frames,
        spec_lookup(spec_pop(spec_bind_ident(spec_push(v), sym, ctxt)), other) == spec_lookup(
            v,
            other,
        ),
{
    let vp = spec_push(v);
    lemma_bind_then_lookup(vp, sym, ctxt);
    let v1 = spec_bind_ident(vp, sym, ctxt);
    assert(spec_pop(v1).frames =~= v.frames);
}

/// Hoisting exclusion: the pre-pass binds nothing for a hoisting-eligible
/// declaration all of whose declarators carry initializers, so the scope
/// at the start of the block is unchanged by such a statement.
pub proof fn lemma_hoist_skips_initialized(v: ScopeView, vd: VarDecl)
    requires
        forall|i: int| 0 <= i < vd.decls@.len() ==> (#[trigger] vd.decls@[i].init) is Some,
    ensures
        spec_hoist_stmt(v, Stmt::Decl(Decl::Var(vd))) == v,
{
    lemma_hoist_initialized_declarators(v, vd.decls@);
}

proof fn lemma_hoist_initialized_declarators(v: ScopeView, ds: Seq<VarDeclarator>)
    requires
        forall|i: int| 0 <= i < ds.len() ==> (#[trigger] ds[i].init) is Some,
    ensures
        spec_hoist_declarators(v, ds) == v,
    decreases ds.len(),
{
    if ds.len() > 0 {
        assert(ds[0].init is Some);
        assert forall|i: int| 0 <= i < ds.drop_first().len() implies (#[trigger] ds.drop_first()[i].init) is Some by {
            assert(ds.drop_first()[i] == ds[i + 1]);
        }
        lemma_hoist_initialized_declarators(v, ds.drop_first());
    }
}

/// The hoisting pre-pass never changes the number of frames.
pub proof fn lemma_hoist_stmts_depth(v: ScopeView, ss: Seq<Stmt>)
    ensures
        spec_hoist_stmts(v, ss).frames.len() == v.frames.len(),
    decreases ss.len(),
{
    if ss.len() > 0 {
        lemma_hoist_stmt_depth(v, ss[0]);
        lemma_hoist_stmts_depth(spec_hoist_stmt(v, ss[0]), ss.drop_first());
    }
}

proof fn lemma_hoist_stmt_depth(v: ScopeView, s: Stmt)
    ensures
        spec_hoist_stmt(v, s).frames.len() == v.frames.len(),
{
    match s {
        Stmt::Decl(Decl::Var(vd)) => {
            if vd.kind == VarDeclKind::Var {
                lemma_hoist_declarators_depth(v, vd.decls@);
            }
        },
        _ => {},
    }
}

proof fn lemma_hoist_declarators_depth(v: ScopeView, ds: Seq<VarDeclarator>)
    ensures
        spec_hoist_declarators(v, ds).frames.len() == v.frames.len(),
    decreases ds.len(),
{
    if ds.len() > 0 {
        if ds[0].init is None {
            lemma_bind_pat_frames(v, ds[0].name);
        }
        lemma_hoist_declarators_depth(spec_hoist_declarator(v, ds[0]), ds.drop_first());
    }
}

/// Stack discipline: rewriting an expression pushes exactly as many frames
/// as it pops, so the number of frames is unchanged.
pub proof fn lemma_rewrite_expr_depth(v: ScopeView, e: Expr)
    ensures
        spec_rewrite_expr(v, e).0.frames.len() == v.frames.len(),
    decreases expr_size(e),
{
    match e {
        Expr::Member { obj, prop: _ } => {
            lemma_rewrite_expr_depth(v, *obj);
        },
        Expr::Assign { target: _, value } => {
            lemma_rewrite_expr_depth(v, *value);
        },
        Expr::Call { callee, args } => {
            lemma_rewrite_expr_depth(v, *callee);
            lemma_rewrite_exprs_depth(spec_rewrite_expr(v, *callee).0, args@);
        },
        Expr::Arrow(a) => {
            let v1 = spec_push(v);
            lemma_rewrite_params_depth(v1, a.params@);
            let v2 = spec_rewrite_params(v1, a.params@).0;
            lemma_rewrite_arrow_body_depth(v2, a.body);
        },
        _ => {},
    }
}

proof fn lemma_rewrite_exprs_depth(v: ScopeView, es: Seq<Expr>)
    ensures
        spec_rewrite_exprs(v, es).0.frames.len() == v.frames.len(),
    decreases exprs_size(es),
{
    if es.len() > 0 {
        lemma_rewrite_expr_depth(v, es[0]);
        lemma_rewrite_exprs_depth(spec_rewrite_expr(v, es[0]).0, es.drop_first());
    }
}

proof fn lemma_rewrite_param_depth(v: ScopeView, p: Pat)
    ensures
        spec_rewrite_param(v, p).0.frames.len() == v.frames.len(),
    decreases pat_size(p),
{
    lemma_bind_pat_frames(v, p);
    match p {
        Pat::Assign { target: _, default } => {
            lemma_rewrite_expr_depth(spec_bind_pat(v, p), *default);
        },
        _ => {},
    }
}

proof fn lemma_rewrite_params_depth(v: ScopeView, ps: Seq<Pat>)
    ensures
        spec_rewrite_params(v, ps).0.frames.len() == v.frames.len(),
    decreases pats_size(ps),
{
    if ps.len() > 0 {
        lemma_rewrite_param_depth(v, ps[0]);
        lemma_rewrite_params_depth(spec_rewrite_param(v, ps[0]).0, ps.drop_first());
    }
}

proof fn lemma_rewrite_fn_param_depth(v: ScopeView, p: Pat)
    ensures
        spec_rewrite_fn_param(v, p).0.frames.len() == v.frames.len(),
    decreases pat_size(p),
{
    match p {
        Pat::Assign { target: _, default } => {
            lemma_rewrite_expr_depth(v, *default);
        },
        _ => {},
    }
}

proof fn lemma_rewrite_fn_params_depth(v: ScopeView, ps: Seq<Pat>)
    ensures
        spec_rewrite_fn_params(v, ps).0.frames.len() == v.frames.len(),
    decreases pats_size(ps),
{
    if ps.len() > 0 {
        lemma_rewrite_fn_param_depth(v, ps[0]);
        lemma_rewrite_fn_params_depth(spec_rewrite_fn_param(v, ps[0]).0, ps.drop_first());
    }
}

proof fn lemma_rewrite_arrow_body_depth(v: ScopeView, b: ArrowBody)
    ensures
        spec_rewrite_arrow_body(v, b).0.frames.len() == v.frames.len(),
    decreases arrow_body_size(b),
{
    match b {
        ArrowBody::Expr(e) => {
            lemma_rewrite_expr_depth(v, *e);
        },
        ArrowBody::Block(ss) => {
            lemma_hoist_stmts_depth(v, ss@);
            lemma_rewrite_stmts_depth(spec_hoist_stmts(v, ss@), ss@);
        },
    }
}

proof fn lemma_rewrite_declarator_depth(v: ScopeView, d: VarDeclarator, kind: VarDeclKind)
    ensures
        spec_rewrite_declarator(v, d, kind).0.frames.len() == v.frames.len(),
    decreases declarator_size(d),
{
    lemma_bind_pat_frames(v, d.name);
    match d.init {
        Some(e) => {
            lemma_rewrite_expr_depth(spec_bind_pat(v, d.name), e);
        },
        None => {},
    }
}

proof fn lemma_rewrite_declarators_depth(v: ScopeView, ds: Seq<VarDeclarator>, kind: VarDeclKind)
    ensures
        spec_rewrite_declarators(v, ds, kind).0.frames.len() == v.frames.len(),
    decreases declarators_size(ds),
{
    if ds.len() > 0 {
        lemma_rewrite_declarator_depth(v, ds[0], kind);
        lemma_rewrite_declarators_depth(
            spec_rewrite_declarator(v, ds[0], kind).0,
            ds.drop_first(),
            kind,
        );
    }
}

proof fn lemma_rewrite_stmt_depth(v: ScopeView, s: Stmt)
    ensures
        spec_rewrite_stmt(v, s).0.frames.len() == v.frames.len(),
    decreases stmt_size(s),
{
    match s {
        Stmt::Block(ss) => {
            let v1 = spec_push(v);
            lemma_hoist_stmts_depth(v1, ss@);
            lemma_rewrite_stmts_depth(spec_hoist_stmts(v1, ss@), ss@);
        },
        Stmt::Expr(e) => {
            lemma_rewrite_expr_depth(v, e);
        },
        Stmt::Decl(Decl::Var(vd)) => {
            lemma_rewrite_declarators_depth(v, vd.decls@, vd.kind);
        },
        Stmt::Decl(Decl::Fn(fd)) => {
            lemma_rewrite_fn_params_depth(v, fd.params@);
            let v1 = spec_rewrite_fn_params(v, fd.params@).0;
            let v2 = spec_push(v1);
            lemma_hoist_stmts_depth(v2, fd.body@);
            lemma_rewrite_stmts_depth(spec_hoist_stmts(v2, fd.body@), fd.body@);
        },
    }
}

proof fn lemma_rewrite_stmts_depth(v: ScopeView, ss: Seq<Stmt>)
    ensures
        spec_rewrite_stmts(v, ss).0.frames.len() == v.frames.len(),
    decreases stmts_size(ss),
{
    if ss.len() > 0 {
        lemma_rewrite_stmt_depth(v, ss[0]);
        lemma_rewrite_stmts_depth(spec_rewrite_stmt(v, ss[0]).0, ss.drop_first());
    }
}

/// Stack discipline for a whole program: the traversal ends with exactly
/// the one program-level frame it started with, so every push was matched
/// by a pop and the stack never ran empty.
pub proof fn lemma_program_stack_discipline(p: Program)
    ensures
        spec_rewrite_program(p).0.frames.len() == 1,
{
    lemma_hoist_stmts_depth(initial_scope(), p.body@);
    lemma_rewrite_stmts_depth(spec_hoist_stmts(initial_scope(), p.body@), p.body@);
}

/// Binding a name in the top frame never makes a resolvable name
/// unresolvable: it can only shadow, not remove.
proof fn lemma_bind_ident_visible(v: ScopeView, sym: Seq<char>, ctxt: u32, n: Seq<char>)
    requires
        spec_lookup(v, n) is Some,
    ensures
        spec_lookup(spec_bind_ident(v, sym, ctxt), n) is Some,
{
    if v.frames.len() > 0 {
        let id = spec_get_id(v.sites, sym, ctxt).1;
        let v1 = spec_bind_ident(v, sym, ctxt);
        let f = v.frames.last();
        let f1 = v1.frames.last();
        assert(f1 == f.push((sym, id)));
        if sym == n {
            assert(frame_lookup(f1, n) == Some(id));
        } else {
            assert(f1.drop_last() =~= f);
            assert(frame_lookup(f1, n) == frame_lookup(f, n));
            if frame_lookup(f, n) is None {
                assert(v1.frames.drop_last() =~= v.frames.drop_last());
                assert(frames_lookup(v.frames, n) == frames_lookup(v.frames.drop_last(), n));
            }
        }
    }
}

/// Binding a pattern never makes a resolvable name unresolvable.
proof fn lemma_bind_pat_visible(v: ScopeView, p: Pat, n: Seq<char>)
    requires
        spec_lookup(v, n) is Some,
    ensures
        spec_lookup(spec_bind_pat(v, p), n) is Some,
    decreases pat_size(p),
{
    match p {
        Pat::Ident(id) => {
            lemma_bind_ident_visible(v, id.sym@, id.ctxt, n);
        },
        Pat::Object(props) => {
            lemma_bind_props_visible(v, props@, n);
        },
        Pat::Array(elems) => {
            lemma_bind_elems_visible(v, elems@, n);
        },
        Pat::Assign { target: _, default: _ } => {},
        Pat::Rest(_) => {},
    }
}

proof fn lemma_bind_props_visible(v: ScopeView, ps: Seq<ObjectPatProp>, n: Seq<char>)
    requires
        spec_lookup(v, n) is Some,
    ensures
        spec_lookup(spec_bind_props(v, ps), n) is Some,
    decreases props_size(ps),
{
    if ps.len() > 0 {
        lemma_bind_prop_visible(v, ps[0], n);
        lemma_bind_props_visible(spec_bind_prop(v, ps[0]), ps.drop_first(), n);
    }
}

proof fn lemma_bind_prop_visible(v: ScopeView, p: ObjectPatProp, n: Seq<char>)
    requires
        spec_lookup(v, n) is Some,
    ensures
        spec_lookup(spec_bind_prop(v, p), n) is Some,
    decreases prop_size(p),
{
    match p {
        ObjectPatProp::Shorthand(id) => {
            lemma_bind_ident_visible(v, id.sym@, id.ctxt, n);
        },
        ObjectPatProp::KeyValue { key: _, value } => {
            lemma_bind_pat_visible(v, *value, n);
        },
    }
}

proof fn lemma_bind_elem_visible(v: ScopeView, e: Option<Pat>, n: Seq<char>)
    requires
        spec_lookup(v, n) is Some,
    ensures
        spec_lookup(spec_bind_elem(v, e), n) is Some,
    decreases elem_size(e),
{
    match e {
        Some(p) => {
            lemma_bind_pat_visible(v, p, n);
        },
        None => {},
    }
}

proof fn lemma_bind_elems_visible(v: ScopeView, es: Seq<Option<Pat>>, n: Seq<char>)
    requires
        spec_lookup(v, n) is Some,
    ensures
        spec_lookup(spec_bind_elems(v, es), n) is Some,
    decreases elems_size(es),
{
    if es.len() > 0 {
        lemma_bind_elem_visible(v, es[0], n);
        lemma_bind_elems_visible(spec_bind_elem(v, es[0]), es.drop_first(), n);
    }
}

proof fn lemma_hoist_stmt_visible(v: ScopeView, s: Stmt, n: Seq<char>)
    requires
        spec_lookup(v, n) is Some,
    ensures
        spec_lookup(spec_hoist_stmt(v, s), n) is Some,
{
    match s {
        Stmt::Decl(Decl::Var(vd)) => {
            if vd.kind == VarDeclKind::Var {
                lemma_hoist_declarators_visible(v, vd.decls@, n);
            }
        },
        Stmt::Decl(Decl::Fn(fd)) => {
            lemma_bind_ident_visible(v, fd.ident.sym@, fd.ident.ctxt, n);
        },
        _ => {},
    }
}

proof fn lemma_hoist_declarators_visible(v: ScopeView, ds: Seq<VarDeclarator>, n: Seq<char>)
    requires
        spec_lookup(v, n) is Some,
    ensures
        spec_lookup(spec_hoist_declarators(v, ds), n) is Some,
    decreases ds.len(),
{
    if ds.len() > 0 {
        if ds[0].init is None {
            lemma_bind_pat_visible(v, ds[0].name, n);
        }
        lemma_hoist_declarators_visible(spec_hoist_declarator(v, ds[0]), ds.drop_first(), n);
    }
}

proof fn lemma_hoist_stmts_visible(v: ScopeView, ss: Seq<Stmt>, n: Seq<char>)
    requires
        spec_lookup(v, n) is Some,
    ensures
        spec_lookup(spec_hoist_stmts(v, ss), n) is Some,
    decreases ss.len(),
{
    if ss.len() > 0 {
        lemma_hoist_stmt_visible(v, ss[0], n);
        lemma_hoist_stmts_visible(spec_hoist_stmt(v, ss[0]), ss.drop_first(), n);
    }
}

/// Hoisting of function declarations: after the pre-pass over a block that
/// contains a function declaration anywhere in its immediate statements,
/// the function's name resolves from the top of the block, before its
/// textual position.
pub proof fn lemma_hoist_fn_visible(v: ScopeView, ss: Seq<Stmt>, j: int, fd: FnDecl)
    requires
        v.frames.len() > 0,
        0 <= j < ss.len(),
        ss[j] == Stmt::Decl(Decl::Fn(fd)),
    ensures
        spec_lookup(spec_hoist_stmts(v, ss), fd.ident.sym@) is Some,
    decreases ss.len(),
{
    if j == 0 {
        let v1 = spec_hoist_stmt(v, ss[0]);
        lemma_bind_then_lookup(v, fd.ident.sym@, fd.ident.ctxt);
        lemma_hoist_stmts_visible(v1, ss.drop_first(), fd.ident.sym@);
    } else {
        lemma_hoist_stmt_depth(v, ss[0]);
        assert(ss.drop_first()[j - 1] == ss[j]);
        lemma_hoist_fn_visible(spec_hoist_stmt(v, ss[0]), ss.drop_first(), j - 1, fd);
    }
}

/// The shape of a wrapped tree: every arrow-style closure occurs only as
/// the sole argument of a call to the wrap-closure reference, and the
/// closure's own parameter defaults and body are wrapped in turn. Subtrees
/// the rewrite deliberately passes through untouched are exempt: the whole
/// of a named function expression, binding patterns outside parameter
/// defaults, and the pattern part of a default-valued parameter.
pub open spec fn closures_wrapped_expr(e: ExprV) -> bool
    decreases e,
{
    match e {
        ExprV::Ident(_) => true,
        ExprV::Num(_) => true,
        ExprV::FnExpr { ident: _, params: _, body: _ } => true,
        ExprV::Arrow { params: _, body: _ } => false,
        ExprV::Member { obj, prop: _ } => closures_wrapped_expr(*obj),
        ExprV::Assign { target: _, value } => closures_wrapped_expr(*value),
        ExprV::Call { callee, args } => {
            if *callee == wrap_callee_v() && args.len() == 1 && args[0] is Arrow {
                closures_wrapped_wrap_arg(args[0])
            } else {
                closures_wrapped_expr(*callee) && closures_wrapped_exprs(args)
            }
        },
    }
}

/// The transformed closure inside a wrap-closure call: its parameter
/// defaults and its body are themselves wrapped.
pub open spec fn closures_wrapped_wrap_arg(a: ExprV) -> bool
    decreases a,
{
    match a {
        ExprV::Arrow { params, body } => closures_wrapped_params(params)
            && closures_wrapped_arrow_body(body),
        _ => true,
    }
}

/// Every expression of the sequence is wrapped.
pub open spec fn closures_wrapped_exprs(es: Seq<ExprV>) -> bool
    decreases es,
{
    if es.len() == 0 {
        true
    } else {
        closures_wrapped_expr(es[0]) && closures_wrapped_exprs(es.drop_first())
    }
}

/// A parameter is wrapped when its default value, if it has one, is.
pub open spec fn closures_wrapped_param(p: PatV) -> bool
    decreases p,
{
    match p {
        PatV::Assign { target: _, default } => closures_wrapped_expr(*default),
        _ => true,
    }
}

/// Every parameter of the list is wrapped.
pub open spec fn closures_wrapped_params(ps: Seq<PatV>) -> bool
    decreases ps,
{
    if ps.len() == 0 {
        true
    } else {
        closures_wrapped_param(ps[0]) && closures_wrapped_params(ps.drop_first())
    }
}

/// An arrow body is wrapped when its expression or statements are.
pub open spec fn closures_wrapped_arrow_body(b: ArrowBodyV) -> bool
    decreases b,
{
    match b {
        ArrowBodyV::Expr(e) => closures_wrapped_expr(*e),
        ArrowBodyV::Block(ss) => closures_wrapped_stmts(ss),
    }
}

/// A declarator is wrapped when its initializer, if present, is.
pub open spec fn closures_wrapped_declarator(d: DeclaratorV) -> bool
    decreases d,
{
    match d.init {
        Some(e) => closures_wrapped_expr(e),
        None => true,
    }
}

/// Every declarator of the list is wrapped.
pub open spec fn closures_wrapped_declarators(ds: Seq<DeclaratorV>) -> bool
    decreases ds,
{
    if ds.len() == 0 {
        true
    } else {
        closures_wrapped_declarator(ds[0]) && closures_wrapped_declarators(ds.drop_first())
    }
}

/// A statement is wrapped when every expression under it, outside the
/// exempt pass-through shapes, is.
pub open spec fn closures_wrapped_stmt(s: StmtV) -> bool
    decreases s,
{
    match s {
        StmtV::Var { kind: _, decls } => closures_wrapped_declarators(decls),
        StmtV::Fn { ident: _, params, body } => closures_wrapped_params(params)
            && closures_wrapped_stmts(body),
        StmtV::Block(ss) => closures_wrapped_stmts(ss),
        StmtV::Expr(e) => closures_wrapped_expr(e),
    }
}

/// Every statement of the sequence is wrapped.
pub open spec fn closures_wrapped_stmts(ss: Seq<StmtV>) -> bool
    decreases ss,
{
    if ss.len() == 0 {
        true
    } else {
        closures_wrapped_stmt(ss[0]) && closures_wrapped_stmts(ss.drop_first())
    }
}

/// A program is wrapped when its statements are.
pub open spec fn closures_wrapped_program(p: ProgramV) -> bool {
    closures_wrapped_stmts(p.body)
}

/// Every element of a wrapped expression sequence is wrapped.
proof fn lemma_wrapped_exprs_index(es: Seq<ExprV>, i: int)
    requires
        closures_wrapped_exprs(es),
        0 <= i < es.len(),
    ensures
        closures_wrapped_expr(es[i]),
    decreases es.len(),
{
    if i > 0 {
        lemma_wrapped_exprs_index(es.drop_first(), i - 1);
        assert(es.drop_first()[i - 1] == es[i]);
    }
}

/// Closure rewrite shape: the expression the rewrite returns is wrapped.
pub proof fn lemma_rewrite_expr_wrapped(v: ScopeView, e: Expr)
    ensures
        closures_wrapped_expr(spec_rewrite_expr(v, e).1),
    decreases expr_size(e),
{
    match e {
        Expr::Member { obj, prop: _ } => {
            lemma_rewrite_expr_wrapped(v, *obj);
        },
        Expr::Assign { target: _, value } => {
            lemma_rewrite_expr_wrapped(v, *value);
        },
        Expr::Call { callee, args } => {
            lemma_rewrite_expr_wrapped(v, *callee);
            let v1 = spec_rewrite_expr(v, *callee).0;
            let c2 = spec_rewrite_expr(v, *callee).1;
            lemma_rewrite_exprs_wrapped(v1, args@);
            let a2 = spec_rewrite_exprs(v1, args@).1;
            if c2 == wrap_callee_v() && a2.len() == 1 && a2[0] is Arrow {
                lemma_wrapped_exprs_index(a2, 0);
                assert(false);
            }
        },
        Expr::Arrow(a) => {
            let v1 = spec_push(v);
            lemma_rewrite_params_wrapped(v1, a.params@);
            let v2 = spec_rewrite_params(v1, a.params@).0;
            lemma_rewrite_arrow_body_wrapped(v2, a.body);
            let ps2 = spec_rewrite_params(v1, a.params@).1;
            let b2 = spec_rewrite_arrow_body(v2, a.body).1;
            let out = spec_rewrite_expr(v, e).1;
            assert(out == ExprV::Call {
                callee: Box::new(wrap_callee_v()),
                args: seq![ExprV::Arrow { params: ps2, body: b2 }],
            });
            assert(closures_wrapped_wrap_arg(ExprV::Arrow { params: ps2, body: b2 }));
        },
        _ => {},
    }
}

proof fn lemma_rewrite_exprs_wrapped(v: ScopeView, es: Seq<Expr>)
    ensures
        closures_wrapped_exprs(spec_rewrite_exprs(v, es).1),
    decreases exprs_size(es),
{
    if es.len() > 0 {
        lemma_rewrite_expr_wrapped(v, es[0]);
        let v1 = spec_rewrite_expr(v, es[0]).0;
        let e2 = spec_rewrite_expr(v, es[0]).1;
        lemma_rewrite_exprs_wrapped(v1, es.drop_first());
        let rest = spec_rewrite_exprs(v1, es.drop_first()).1;
        let out = seq![e2] + rest;
        assert(out[0] == e2);
        assert(out.drop_first() =~= rest);
    }
}

proof fn lemma_rewrite_param_wrapped(v: ScopeView, p: Pat)
    ensures
        closures_wrapped_param(spec_rewrite_param(v, p).1),
    decreases pat_size(p),
{
    match p {
        Pat::Assign { target: _, default } => {
            lemma_rewrite_expr_wrapped(spec_bind_pat(v, p), *default);
        },
        _ => {},
    }
}

proof fn lemma_rewrite_params_wrapped(v: ScopeView, ps: Seq<Pat>)
    ensures
        closures_wrapped_params(spec_rewrite_params(v, ps).1),
    decreases pats_size(ps),
{
    if ps.len() > 0 {
        lemma_rewrite_param_wrapped(v, ps[0]);
        let v1 = spec_rewrite_param(v, ps[0]).0;
        let p2 = spec_rewrite_param(v, ps[0]).1;
        lemma_rewrite_params_wrapped(v1, ps.drop_first());
        let rest = spec_rewrite_params(v1, ps.drop_first()).1;
        let out = seq![p2] + rest;
        assert(out[0] == p2);
        assert(out.drop_first() =~= rest);
    }
}

proof fn lemma_rewrite_fn_param_wrapped(v: ScopeView, p: Pat)
    ensures
        closures_wrapped_param(spec_rewrite_fn_param(v, p).1),
    decreases pat_size(p),
{
    match p {
        Pat::Assign { target: _, default } => {
            lemma_rewrite_expr_wrapped(v, *default);
        },
        _ => {},
    }
}

proof fn lemma_rewrite_fn_params_wrapped(v: ScopeView, ps: Seq<Pat>)
    ensures
        closures_wrapped_params(spec_rewrite_fn_params(v, ps).1),
    decreases pats_size(ps),
{
    if ps.len() > 0 {
        lemma_rewrite_fn_param_wrapped(v, ps[0]);
        let v1 = spec_rewrite_fn_param(v, ps[0]).0;
        let p2 = spec_rewrite_fn_param(v, ps[0]).1;
        lemma_rewrite_fn_params_wrapped(v1, ps.drop_first());
        let rest = spec_rewrite_fn_params(v1, ps.drop_first()).1;
        let out = seq![p2] + rest;
        assert(out[0] == p2);
        assert(out.drop_first() =~= rest);
    }
}

proof fn lemma_rewrite_arrow_body_wrapped(v: ScopeView, b: ArrowBody)
    ensures
        closures_wrapped_arrow_body(spec_rewrite_arrow_body(v, b).1),
    decreases arrow_body_size(b),
{
    match b {
        ArrowBody::Expr(e) => {
            lemma_rewrite_expr_wrapped(v, *e);
        },
        ArrowBody::Block(ss) => {
            lemma_rewrite_stmts_wrapped(spec_hoist_stmts(v, ss@), ss@);
        },
    }
}

proof fn lemma_rewrite_declarator_wrapped(v: ScopeView, d: VarDeclarator, kind: VarDeclKind)
    ensures
        closures_wrapped_declarator(spec_rewrite_declarator(v, d, kind).1),
    decreases declarator_size(d),
{
    match d.init {
        Some(e) => {
            lemma_rewrite_expr_wrapped(spec_bind_pat(v, d.name), e);
        },
        None => {},
    }
}

proof fn lemma_rewrite_declarators_wrapped(v: ScopeView, ds: Seq<VarDeclarator>, kind: VarDeclKind)
    ensures
        closures_wrapped_declarators(spec_rewrite_declarators(v, ds, kind).1),
    decreases declarators_size(ds),
{
    if ds.len() > 0 {
        lemma_rewrite_declarator_wrapped(v, ds[0], kind);
        let v1 = spec_rewrite_declarator(v, ds[0], kind).0;
        let d2 = spec_rewrite_declarator(v, ds[0], kind).1;
        lemma_rewrite_declarators_wrapped(v1, ds.drop_first(), kind);
        let rest = spec_rewrite_declarators(v1, ds.drop_first(), kind).1;
        let out = seq![d2] + rest;
        assert(out[0] == d2);
        assert(out.drop_first() =~= rest);
    }
}

proof fn lemma_rewrite_stmt_wrapped(v: ScopeView, s: Stmt)
    ensures
        closures_wrapped_stmt(spec_rewrite_stmt(v, s).1),
    decreases stmt_size(s),
{
    match s {
        Stmt::Block(ss) => {
            let v1 = spec_push(v);
            lemma_rewrite_stmts_wrapped(spec_hoist_stmts(v1, ss@), ss@);
        },
        Stmt::Expr(e) => {
            lemma_rewrite_expr_wrapped(v, e);
        },
        Stmt::Decl(Decl::Var(vd)) => {
            lemma_rewrite_declarators_wrapped(v, vd.decls@, vd.kind);
        },
        Stmt::Decl(Decl::Fn(fd)) => {
            lemma_rewrite_fn_params_wrapped(v, fd.params@);
            let v1 = spec_rewrite_fn_params(v, fd.params@).0;
            let v2 = spec_push(v1);
            lemma_rewrite_stmts_wrapped(spec_hoist_stmts(v2, fd.body@), fd.body@);
        },
    }
}

proof fn lemma_rewrite_stmts_wrapped(v: ScopeView, ss: Seq<Stmt>)
    ensures
        closures_wrapped_stmts(spec_rewrite_stmts(v, ss).1),
    decreases stmts_size(ss),
{
    if ss.len() > 0 {
        lemma_rewrite_stmt_wrapped(v, ss[0]);
        let v1 = spec_rewrite_stmt(v, ss[0]).0;
        let s2 = spec_rewrite_stmt(v, ss[0]).1;
        lemma_rewrite_stmts_wrapped(v1, ss.drop_first());
        let rest = spec_rewrite_stmts(v1, ss.drop_first()).1;
        let out = seq![s2] + rest;
        assert(out[0] == s2);
        assert(out.drop_first() =~= rest);
    }
}

/// Closure rewrite shape, for a whole program: in the tree the transform
/// returns, every arrow-style closure outside the exempt pass-through
/// shapes stands as the sole argument of a call to the wrap-closure
/// reference, recursively.
pub proof fn lemma_program_closures_wrapped(p: Program)
    ensures
        closures_wrapped_program(spec_rewrite_program(p).1),
{
    lemma_rewrite_stmts_wrapped(spec_hoist_stmts(initial_scope(), p.body@), p.body@);
}


/// Hoisting of uninitialized hoisting-eligible variables: after the
/// pre-pass over a block that contains, anywhere in its immediate
/// statements, a hoisting-eligible declaration with an uninitialized
/// identifier declarator, that name resolves from the top of the block.
pub proof fn lemma_hoist_var_visible(
    v: ScopeView,
    ss: Seq<Stmt>,
    j: int,
    k: int,
    vd: VarDecl,
    x: crate::ast::Ident,
)
    requires
        v.frames.len() > 0,
        0 <= j < ss.len(),
        ss[j] == Stmt::Decl(Decl::Var(vd)),
        vd.kind == VarDeclKind::Var,
        0 <= k < vd.decls@.len(),
        vd.decls@[k].name == Pat::Ident(x),
        vd.decls@[k].init is None,
    ensures
        spec_lookup(spec_hoist_stmts(v, ss), x.sym@) is Some,
    decreases ss.len(),
{
    if j == 0 {
        lemma_hoist_declarators_var_visible(v, vd.decls@, k, x);
        lemma_hoist_stmts_visible(spec_hoist_stmt(v, ss[0]), ss.drop_first(), x.sym@);
    } else {
        lemma_hoist_stmt_depth(v, ss[0]);
        assert(ss.drop_first()[j - 1] == ss[j]);
        lemma_hoist_var_visible(spec_hoist_stmt(v, ss[0]), ss.drop_first(), j - 1, k, vd, x);
    }
}

proof fn lemma_hoist_declarators_var_visible(
    v: ScopeView,
    ds: Seq<VarDeclarator>,
    k: int,
    x: crate::ast::Ident,
)
    requires
        v.frames.len() > 0,
        0 <= k < ds.len(),
        ds[k].name == Pat::Ident(x),
        ds[k].init is None,
    ensures
        spec_lookup(spec_hoist_declarators(v, ds), x.sym@) is Some,
    decreases ds.len(),
{
    if k == 0 {
        lemma_bind_then_lookup(v, x.sym@, x.ctxt);
        lemma_hoist_declarators_visible(
            spec_hoist_declarator(v, ds[0]),
            ds.drop_first(),
            x.sym@,
        );
    } else {
        lemma_bind_pat_frames(v, ds[0].name);
        assert(ds.drop_first()[k - 1] == ds[k]);
        lemma_hoist_declarators_var_visible(
            spec_hoist_declarator(v, ds[0]),
            ds.drop_first(),
            k - 1,
            x,
        );
    }
}

} // verus!
