//! The tree rewriter: drives the traversal, performs the hoisting pre-pass
//! over each block, and replaces every arrow-style closure expression with
//! a call to the well-known "wrap closure" member reference.
//!
//! The traversal returns newly constructed nodes instead of aliasing the
//! input tree; its whole effect, on the scope model and on the tree model,
//! is given by the `spec_hoist_*` and `spec_rewrite_*` functions below.

use vstd::prelude::*;
use crate::ast::ArrowBody;
use crate::ast::ArrowBodyV;
use crate::ast::ArrowExpr;
use crate::ast::Decl;
use crate::ast::DeclaratorV;
use crate::ast::Expr;
use crate::ast::ExprV;
use crate::ast::FnDecl;
use crate::ast::Ident;
use crate::ast::IdentV;
use crate::ast::Pat;
use crate::ast::PatV;
use crate::ast::Program;
use crate::ast::ProgramV;
use crate::ast::Stmt;
use crate::ast::StmtV;
use crate::ast::VarDecl;
use crate::ast::VarDeclKind;
use crate::ast::VarDeclarator;
use crate::ast::arrow_body_size;
use crate::ast::arrow_body_view;
use crate::ast::declarator_size;
use crate::ast::declarator_view;
use crate::ast::declarators_size;
use crate::ast::declarators_view;
use crate::ast::expr_size;
use crate::ast::expr_view;
use crate::ast::exprs_size;
use crate::ast::exprs_view;
use crate::ast::ident_view;
use crate::ast::lemma_declarators_view;
use crate::ast::lemma_exprs_view;
use crate::ast::lemma_pats_view;
use crate::ast::lemma_stmts_view;
use crate::ast::pat_size;
use crate::ast::pat_view;
use crate::ast::pats_size;
use crate::ast::pats_view;
use crate::ast::program_view;
use crate::ast::stmt_size;
use crate::ast::stmt_view;
use crate::ast::stmts_size;
use crate::ast::stmts_view;
use crate::scope::LexicalScope;
use crate::scope::ScopeView;
use crate::scope::initial_scope;
use crate::scope::lemma_bind_pat_frames;
use crate::scope::opt_id;
use crate::scope::spec_bind_ident;
use crate::scope::spec_bind_pat;
use crate::scope::spec_lookup;
use crate::scope::spec_pop;
use crate::scope::spec_push;
use crate::laws::closures_wrapped_program;
use crate::laws::lemma_program_closures_wrapped;

verus! {

/// The effect of the hoisting pre-pass on one declarator of a
/// hoisting-eligible declaration: only a declarator without an initializer
/// is bound ahead of its textual position.
pub open spec fn spec_hoist_declarator(v: ScopeView, d: VarDeclarator) -> ScopeView {
    if d.init is None {
        spec_bind_pat(v, d.name)
    } else {
        v
    }
}

/// The effect of the hoisting pre-pass on the declarators of one
/// hoisting-eligible declaration, in textual order.
pub open spec fn spec_hoist_declarators(v: ScopeView, ds: Seq<VarDeclarator>) -> ScopeView
    decreases ds.len(),
{
    if ds.len() == 0 {
        v
    } else {
        spec_hoist_declarators(spec_hoist_declarator(v, ds[0]), ds.drop_first())
    }
}

/// The effect of the hoisting pre-pass on one immediate statement of a
/// block: a function declaration binds its name, a hoisting-eligible
/// variable declaration binds its uninitialized declarators, and every
/// other statement binds nothing.
pub open spec fn spec_hoist_stmt(v: ScopeView, s: Stmt) -> ScopeView {
    match s {
        Stmt::Decl(Decl::Var(vd)) => if vd.kind == VarDeclKind::Var {
            spec_hoist_declarators(v, vd.decls@)
        } else {
            v
        },
        Stmt::Decl(Decl::Fn(fd)) => spec_bind_ident(v, fd.ident.sym@, fd.ident.ctxt),
        _ => v,
    }
}

/// The effect of the hoisting pre-pass on a block's immediate statement
/// list, scanned in textual order.
pub open spec fn spec_hoist_stmts(v: ScopeView, ss: Seq<Stmt>) -> ScopeView
    decreases ss.len(),
{
    if ss.len() == 0 {
        v
    } else {
        spec_hoist_stmts(spec_hoist_stmt(v, ss[0]), ss.drop_first())
    }
}

/// The fixed "wrap closure" reference the rewrite emits: the member
/// `wrapClosure` of the well-known host object `global`.
pub open spec fn wrap_callee_v() -> ExprV {
    ExprV::Member {
        obj: Box::new(ExprV::Ident(IdentV { sym: "global"@, ctxt: 0 })),
        prop: "wrapClosure"@,
    }
}

/// Rewriting one expression: the new scope model and the model of the
/// replacement expression. An arrow-style closure gets a frame for its
/// parameters and body and is replaced by a wrap-closure call carrying the
/// transformed closure as its sole argument; a named function expression
/// is passed through untouched; every other shape keeps its form with its
/// children rewritten.
pub open spec fn spec_rewrite_expr(v: ScopeView, e: Expr) -> (ScopeView, ExprV)
    decreases expr_size(e),
{
    match e {
        Expr::Ident(_) => (v, expr_view(e)),
        Expr::Num(_) => (v, expr_view(e)),
        Expr::FnExpr { ident: _, params: _, body: _ } => (v, expr_view(e)),
        Expr::Member { obj, prop } => {
            let (v1, o2) = spec_rewrite_expr(v, *obj);
            (v1, ExprV::Member { obj: Box::new(o2), prop: prop@ })
        },
        Expr::Assign { target, value } => {
            let (v1, w2) = spec_rewrite_expr(v, *value);
            (v1, ExprV::Assign { target: ident_view(target), value: Box::new(w2) })
        },
        Expr::Call { callee, args } => {
            let (v1, c2) = spec_rewrite_expr(v, *callee);
            let (v2, a2) = spec_rewrite_exprs(v1, args@);
            (v2, ExprV::Call { callee: Box::new(c2), args: a2 })
        },
        Expr::Arrow(a) => {
            let v1 = spec_push(v);
            let (v2, ps2) = spec_rewrite_params(v1, a.params@);
            let (v3, b2) = spec_rewrite_arrow_body(v2, a.body);
            let wrapped = ExprV::Call {
                callee: Box::new(wrap_callee_v()),
                args: seq![ExprV::Arrow { params: ps2, body: b2 }],
            };
            (spec_pop(v3), wrapped)
        },
    }
}

/// Rewriting a sequence of expressions, left to right.
pub open spec fn spec_rewrite_exprs(v: ScopeView, es: Seq<Expr>) -> (ScopeView, Seq<ExprV>)
    decreases exprs_size(es),
{
    if es.len() == 0 {
        (v, Seq::empty())
    } else {
        let (v1, e2) = spec_rewrite_expr(v, es[0]);
        let (v2, rest) = spec_rewrite_exprs(v1, es.drop_first());
        (v2, seq![e2] + rest)
    }
}

/// Rewriting one closure parameter: its pattern is bound into the new
/// frame first, and a default value, if the parameter has one, is then
/// rewritten with the parameters to its left already in scope.
pub open spec fn spec_rewrite_param(v: ScopeView, p: Pat) -> (ScopeView, PatV)
    decreases pat_size(p),
{
    let vb = spec_bind_pat(v, p);
    match p {
        Pat::Assign { target, default } => {
            let (v1, d2) = spec_rewrite_expr(vb, *default);
            (v1, PatV::Assign { target: Box::new(pat_view(*target)), default: Box::new(d2) })
        },
        _ => (vb, pat_view(p)),
    }
}

/// Rewriting a closure parameter list, left to right.
pub open spec fn spec_rewrite_params(v: ScopeView, ps: Seq<Pat>) -> (ScopeView, Seq<PatV>)
    decreases pats_size(ps),
{
    if ps.len() == 0 {
        (v, Seq::empty())
    } else {
        let (v1, p2) = spec_rewrite_param(v, ps[0]);
        let (v2, rest) = spec_rewrite_params(v1, ps.drop_first());
        (v2, seq![p2] + rest)
    }
}

/// Rewriting one function-declaration parameter: default values are
/// rewritten in the enclosing scope, but declaration parameters are not
/// bound by this traversal.
pub open spec fn spec_rewrite_fn_param(v: ScopeView, p: Pat) -> (ScopeView, PatV)
    decreases pat_size(p),
{
    match p {
        Pat::Assign { target, default } => {
            let (v1, d2) = spec_rewrite_expr(v, *default);
            (v1, PatV::Assign { target: Box::new(pat_view(*target)), default: Box::new(d2) })
        },
        _ => (v, pat_view(p)),
    }
}

/// Rewriting a function-declaration parameter list, left to right.
pub open spec fn spec_rewrite_fn_params(v: ScopeView, ps: Seq<Pat>) -> (ScopeView, Seq<PatV>)
    decreases pats_size(ps),
{
    if ps.len() == 0 {
        (v, Seq::empty())
    } else {
        let (v1, p2) = spec_rewrite_fn_param(v, ps[0]);
        let (v2, rest) = spec_rewrite_fn_params(v1, ps.drop_first());
        (v2, seq![p2] + rest)
    }
}

/// Rewriting a closure body: a single expression is rewritten in the
/// closure's frame; a block body first gets the hoisting pre-pass over its
/// immediate statements and is then rewritten statement by statement.
pub open spec fn spec_rewrite_arrow_body(v: ScopeView, b: ArrowBody) -> (ScopeView, ArrowBodyV)
    decreases arrow_body_size(b),
{
    match b {
        ArrowBody::Expr(e) => {
            let (v1, e2) = spec_rewrite_expr(v, *e);
            (v1, ArrowBodyV::Expr(Box::new(e2)))
        },
        ArrowBody::Block(ss) => {
            let vh = spec_hoist_stmts(v, ss@);
            let (v1, ss2) = spec_rewrite_stmts(vh, ss@);
            (v1, ArrowBodyV::Block(ss2))
        },
    }
}

/// Rewriting one variable declarator: a declarator with an initializer
/// binds its pattern first and then has the initializer rewritten, so the
/// initializer sees the declared names; an uninitialized declarator of the
/// hoisting-eligible kind was already bound by the pre-pass and binds
/// nothing here, while an uninitialized block-scoped declarator is bound
/// at this point.
pub open spec fn spec_rewrite_declarator(v: ScopeView, d: VarDeclarator, kind: VarDeclKind) -> (
    ScopeView,
    DeclaratorV,
)
    decreases declarator_size(d),
{
    match d.init {
        Some(e) => {
            let vb = spec_bind_pat(v, d.name);
            let (v1, e2) = spec_rewrite_expr(vb, e);
            (v1, DeclaratorV { name: pat_view(d.name), init: Some(e2) })
        },
        None => {
            if kind == VarDeclKind::Var {
                (v, DeclaratorV { name: pat_view(d.name), init: None })
            } else {
                (spec_bind_pat(v, d.name), DeclaratorV { name: pat_view(d.name), init: None })
            }
        },
    }
}

/// Rewriting the declarators of one variable statement, left to right.
pub open spec fn spec_rewrite_declarators(
    v: ScopeView,
    ds: Seq<VarDeclarator>,
    kind: VarDeclKind,
) -> (ScopeView, Seq<DeclaratorV>)
    decreases declarators_size(ds),
{
    if ds.len() == 0 {
        (v, Seq::empty())
    } else {
        let (v1, d2) = spec_rewrite_declarator(v, ds[0], kind);
        let (v2, rest) = spec_rewrite_declarators(v1, ds.drop_first(), kind);
        (v2, seq![d2] + rest)
    }
}

/// Rewriting one statement: a block statement gets its own frame with the
/// hoisting pre-pass; a function declaration's parameters have their
/// defaults rewritten in the enclosing scope and its body is treated as a
/// block of its own; variable statements and expression statements are
/// rewritten in place in the current frame.
pub open spec fn spec_rewrite_stmt(v: ScopeView, s: Stmt) -> (ScopeView, StmtV)
    decreases stmt_size(s),
{
    match s {
        Stmt::Block(ss) => {
            let v1 = spec_push(v);
            let vh = spec_hoist_stmts(v1, ss@);
            let (v2, ss2) = spec_rewrite_stmts(vh, ss@);
            (spec_pop(v2), StmtV::Block(ss2))
        },
        Stmt::Expr(e) => {
            let (v1, e2) = spec_rewrite_expr(v, e);
            (v1, StmtV::Expr(e2))
        },
        Stmt::Decl(Decl::Var(vd)) => {
            let (v1, ds2) = spec_rewrite_declarators(v, vd.decls@, vd.kind);
            (v1, StmtV::Var { kind: vd.kind, decls: ds2 })
        },
        Stmt::Decl(Decl::Fn(fd)) => {
            let (v1, ps2) = spec_rewrite_fn_params(v, fd.params@);
            let v2 = spec_push(v1);
            let vh = spec_hoist_stmts(v2, fd.body@);
            let (v3, b2) = spec_rewrite_stmts(vh, fd.body@);
            (spec_pop(v3), StmtV::Fn { ident: ident_view(fd.ident), params: ps2, body: b2 })
        },
    }
}

/// Rewriting a statement list, left to right.
pub open spec fn spec_rewrite_stmts(v: ScopeView, ss: Seq<Stmt>) -> (ScopeView, Seq<StmtV>)
    decreases stmts_size(ss),
{
    if ss.len() == 0 {
        (v, Seq::empty())
    } else {
        let (v1, s2) = spec_rewrite_stmt(v, ss[0]);
        let (v2, rest) = spec_rewrite_stmts(v1, ss.drop_first());
        (v2, seq![s2] + rest)
    }
}

/// Rewriting a whole program: the program-level frame of a fresh scope
/// tracker receives the hoisting pre-pass over the program's immediate
/// statements, and the statements are then rewritten in order. The
/// program-level frame is never popped.
pub open spec fn spec_rewrite_program(p: Program) -> (ScopeView, ProgramV) {
    let vh = spec_hoist_stmts(initial_scope(), p.body@);
    let (v1, ss2) = spec_rewrite_stmts(vh, p.body@);
    (v1, ProgramV { body: ss2 })
}

/// The tree-mutating visitor: the lexical scope of the program at the
/// current point of the tree, plus the two name parts of the wrap-closure
/// reference the rewrite emits.
pub struct ClosureSerializer {
    /// The lexical scope of the program at the current point of the tree.
    stack: LexicalScope,
    /// The symbol of the well-known host object.
    global_sym: String,
    /// The symbol of the wrap-closure member.
    wrap_sym: String,
}

impl View for ClosureSerializer {
    type V = ScopeView;

    closed spec fn view(&self) -> ScopeView {
        self.stack@
    }
}

impl ClosureSerializer {
    /// The serializer holds the two name parts of the wrap-closure
    /// reference it emits.
    pub closed spec fn wf(self) -> bool {
        self.global_sym@ == "global"@ && self.wrap_sym@ == "wrapClosure"@
    }

    /// A fresh serializer over a fresh scope tracker.
    pub fn new() -> (s: ClosureSerializer)
        ensures
            s@ == initial_scope(),
            s.wf(),
    {
        ClosureSerializer {
            stack: LexicalScope::new(),
            global_sym: "global".to_owned(),
            wrap_sym: "wrapClosure".to_owned(),
        }
    }

    /// The identity the current scope resolves `name` to, if any.
    pub fn lookup(&self, name: &String) -> (r: Option<usize>)
        ensures
            opt_id(r) == spec_lookup(self@, name@),
    {
        self.stack.lookup(name)
    }

    /// The number of active frames.
    pub fn depth(&self) -> (n: usize)
        ensures
            n == self@.frames.len(),
    {
        self.stack.depth()
    }

    /// Hoist the declarators of one hoisting-eligible variable statement.
    fn hoist_var_declarators(&mut self, decls: &Vec<VarDeclarator>)
        requires
            old(self)@.frames.len() > 0,
            old(self).wf(),
        ensures
            final(self)@ == spec_hoist_declarators(old(self)@, decls@),
            final(self)@.frames.len() == old(self)@.frames.len(),
            final(self).wf(),
    {
        let ghost v0 = self@;
        let n = decls.len();
        let mut i: usize = 0;
        proof {
            assert(decls@.subrange(0, n as int) =~= decls@);
        }
        while i < n
            invariant
                n == decls@.len(),
                i <= n,
                self.wf(),
                v0.frames.len() > 0,
                self@.frames.len() == v0.frames.len(),
                spec_hoist_declarators(v0, decls@) == spec_hoist_declarators(
                    self@,
                    decls@.subrange(i as int, n as int),
                ),
            decreases n - i,
        {
            let ghost pre = self@;
            proof {
                assert(decls@.subrange(i as int, n as int)[0] == decls@[i as int]);
                assert(decls@.subrange(i as int, n as int).drop_first() =~= decls@.subrange(
                    (i + 1) as int,
                    n as int,
                ));
            }
            let d = &decls[i];
            if d.init.is_none() {
                self.stack.bind_pat(&d.name);
                proof {
                    lemma_bind_pat_frames(pre, d.name);
                }
            }
            proof {
                assert(self@ == spec_hoist_declarator(pre, decls@[i as int]));
            }
            i = i + 1;
        }
        proof {
            assert(decls@.subrange(n as int, n as int).len() == 0);
        }
    }

    /// Walk a block's immediate statement list and hoist into the current
    /// frame every function-declaration name and every uninitialized
    /// declarator of a hoisting-eligible variable statement.
    pub fn bind_hoisted_stmts_in_block(&mut self, block: &Vec<Stmt>)
        requires
            old(self)@.frames.len() > 0,
            old(self).wf(),
        ensures
            final(self)@ == spec_hoist_stmts(old(self)@, block@),
            final(self)@.frames.len() == old(self)@.frames.len(),
            final(self).wf(),
    {
        let ghost v0 = self@;
        let n = block.len();
        let mut i: usize = 0;
        proof {
            assert(block@.subrange(0, n as int) =~= block@);
        }
        while i < n
            invariant
                n == block@.len(),
                i <= n,
                self.wf(),
                v0.frames.len() > 0,
                self@.frames.len() == v0.frames.len(),
                spec_hoist_stmts(v0, block@) == spec_hoist_stmts(
                    self@,
                    block@.subrange(i as int, n as int),
                ),
            decreases n - i,
        {
            let ghost pre = self@;
            proof {
                assert(block@.subrange(i as int, n as int)[0] == block@[i as int]);
                assert(block@.subrange(i as int, n as int).drop_first() =~= block@.subrange(
                    (i + 1) as int,
                    n as int,
                ));
            }
            match &block[i] {
                Stmt::Decl(Decl::Var(var)) => {
                    if var.kind == VarDeclKind::Var {
                        self.hoist_var_declarators(&var.decls);
                    }
                },
                Stmt::Decl(Decl::Fn(func)) => {
                    self.stack.bind_ident(&func.ident);
                },
                _ => {},
            }
            proof {
                assert(self@ == spec_hoist_stmt(pre, block@[i as int]));
            }
            i = i + 1;
        }
        proof {
            assert(block@.subrange(n as int, n as int).len() == 0);
        }
    }

    /// Rewrite one expression, replacing every arrow-style closure in it by
    /// a wrap-closure call.
    #[verifier::rlimit(50)]
    pub fn rewrite_expr(&mut self, e: Expr) -> (r: Expr)
        requires
            old(self)@.frames.len() > 0,
            old(self).wf(),
        ensures
            final(self)@ == spec_rewrite_expr(old(self)@, e).0,
            expr_view(r) == spec_rewrite_expr(old(self)@, e).1,
            final(self)@.frames.len() == old(self)@.frames.len(),
            final(self).wf(),
        decreases expr_size(e),
    {
        let ghost v0 = self@;
        match e {
            Expr::Ident(id) => Expr::Ident(id),
            Expr::Num(n) => Expr::Num(n),
            Expr::FnExpr { ident, params, body } => Expr::FnExpr { ident, params, body },
            Expr::Member { obj, prop } => {
                let o2 = self.rewrite_expr(*obj);
                Expr::Member { obj: Box::new(o2), prop }
            },
            Expr::Assign { target, value } => {
                let w2 = self.rewrite_expr(*value);
                Expr::Assign { target, value: Box::new(w2) }
            },
            Expr::Call { callee, args } => {
                let c2 = self.rewrite_expr(*callee);
                let a2 = self.rewrite_exprs(args);
                Expr::Call { callee: Box::new(c2), args: a2 }
            },
            Expr::Arrow(a) => {
                let ArrowExpr { params, body } = a;
                self.stack.push();
                let params2 = self.rewrite_params(params);
                let ghost p2v = pats_view(params2@);
                let body2 = self.rewrite_arrow_body(body);
                let ghost b2v = arrow_body_view(body2);
                let arrow2 = Expr::Arrow(ArrowExpr { params: params2, body: body2 });
                let ghost a2v = expr_view(arrow2);
                let gsym = self.global_sym.clone();
                let wsym = self.wrap_sym.clone();
                let ghost gsymg = gsym;
                let ghost wsymg = wsym;
                let obj = Expr::Ident(Ident { sym: gsym, ctxt: 0 });
                let ghost objg = obj;
                let callee = Expr::Member { obj: Box::new(obj), prop: wsym };
                let ghost calleeg = callee;
                let ghost arrow2g = arrow2;
                let mut args: Vec<Expr> = Vec::new();
                args.push(arrow2);
                let ghost argsv = args@;
                let call_expr = Expr::Call { callee: Box::new(callee), args };
                self.stack.pop();
                proof {
                    assert(a2v == ExprV::Arrow { params: p2v, body: b2v });
                    assert(gsymg@ == "global"@);
                    assert(wsymg@ == "wrapClosure"@);
                    assert(expr_view(objg) == ExprV::Ident(IdentV { sym: "global"@, ctxt: 0 }));
                    assert(expr_view(calleeg) == ExprV::Member {
                        obj: Box::new(ExprV::Ident(IdentV { sym: "global"@, ctxt: 0 })),
                        prop: "wrapClosure"@,
                    });
                    assert(expr_view(calleeg) == wrap_callee_v());
                    assert(argsv =~= seq![arrow2g]);
                    assert(argsv.drop_first().len() == 0);
                    assert(exprs_view(argsv.drop_first()) =~= Seq::<ExprV>::empty());
                    assert(exprs_view(argsv) =~= seq![a2v]);
                    assert(expr_view(call_expr) == spec_rewrite_expr(v0, e).1);
                }
                call_expr
            },
        }
    }

    /// Rewrite a sequence of expressions, left to right.
    #[verifier::rlimit(50)]
    fn rewrite_exprs(&mut self, es: Vec<Expr>) -> (r: Vec<Expr>)
        requires
            old(self)@.frames.len() > 0,
            old(self).wf(),
        ensures
            final(self)@ == spec_rewrite_exprs(old(self)@, es@).0,
            exprs_view(r@) == spec_rewrite_exprs(old(self)@, es@).1,
            final(self)@.frames.len() == old(self)@.frames.len(),
            final(self).wf(),
        decreases exprs_size(es@),
    {
        let mut ss = es;
        if ss.len() == 0 {
            proof {
                assert(exprs_view(ss@) =~= Seq::<ExprV>::empty());
            }
            ss
        } else {
            let ghost ss0 = ss@;
            let head = ss.remove(0);
            proof {
                assert(ss@ =~= ss0.drop_first());
            }
            let h2 = self.rewrite_expr(head);
            let ghost h2g = h2;
            let ghost h2v = expr_view(h2);
            let mut tail2 = self.rewrite_exprs(ss);
            let ghost t2v = exprs_view(tail2@);
            let ghost old_tail = tail2@;
            tail2.insert(0, h2);
            proof {
                assert(tail2@ =~= seq![h2g] + old_tail);
                assert(exprs_view(tail2@) =~= seq![h2v] + t2v) by {
                    lemma_exprs_view(tail2@);
                    lemma_exprs_view(old_tail);
                    assert forall|i: int| 0 <= i < exprs_view(tail2@).len() implies exprs_view(
                        tail2@,
                    )[i] == (seq![h2v] + t2v)[i] by {
                        assert(exprs_view(tail2@)[i] == expr_view(tail2@[i]));
                        if i > 0 {
                            assert(exprs_view(old_tail)[i - 1] == expr_view(old_tail[i - 1]));
                        }
                    }
                }
            }
            tail2
        }
    }

    /// Rewrite one closure parameter: bind its pattern into the closure's
    /// frame and rewrite its default value, if it has one, with the
    /// parameters to its left already in scope.
    fn rewrite_param(&mut self, p: Pat) -> (r: Pat)
        requires
            old(self)@.frames.len() > 0,
            old(self).wf(),
        ensures
            final(self)@ == spec_rewrite_param(old(self)@, p).0,
            pat_view(r) == spec_rewrite_param(old(self)@, p).1,
            final(self)@.frames.len() == old(self)@.frames.len(),
            final(self).wf(),
        decreases pat_size(p),
    {
        let ghost v0 = self@;
        self.stack.bind_pat(&p);
        proof {
            lemma_bind_pat_frames(v0, p);
        }
        match p {
            Pat::Assign { target, default } => {
                let d2 = self.rewrite_expr(*default);
                Pat::Assign { target, default: Box::new(d2) }
            },
            other => other,
        }
    }

    /// Rewrite a closure parameter list, left to right.
    #[verifier::rlimit(50)]
    fn rewrite_params(&mut self, ps: Vec<Pat>) -> (r: Vec<Pat>)
        requires
            old(self)@.frames.len() > 0,
            old(self).wf(),
        ensures
            final(self)@ == spec_rewrite_params(old(self)@, ps@).0,
            pats_view(r@) == spec_rewrite_params(old(self)@, ps@).1,
            final(self)@.frames.len() == old(self)@.frames.len(),
            final(self).wf(),
        decreases pats_size(ps@),
    {
        let mut ss = ps;
        if ss.len() == 0 {
            proof {
                assert(pats_view(ss@) =~= Seq::<PatV>::empty());
            }
            ss
        } else {
            let ghost ss0 = ss@;
            let head = ss.remove(0);
            proof {
                assert(ss@ =~= ss0.drop_first());
            }
            let h2 = self.rewrite_param(head);
            let ghost h2g = h2;
            let ghost h2v = pat_view(h2);
            let mut tail2 = self.rewrite_params(ss);
            let ghost t2v = pats_view(tail2@);
            let ghost old_tail = tail2@;
            tail2.insert(0, h2);
            proof {
                assert(tail2@ =~= seq![h2g] + old_tail);
                assert(pats_view(tail2@) =~= seq![h2v] + t2v) by {
                    lemma_pats_view(tail2@);
                    lemma_pats_view(old_tail);
                    assert forall|i: int| 0 <= i < pats_view(tail2@).len() implies pats_view(
                        tail2@,
                    )[i] == (seq![h2v] + t2v)[i] by {
                        assert(pats_view(tail2@)[i] == pat_view(tail2@[i]));
                        if i > 0 {
                            assert(pats_view(old_tail)[i - 1] == pat_view(old_tail[i - 1]));
                        }
                    }
                }
            }
            tail2
        }
    }

    /// Rewrite one function-declaration parameter: only its default value,
    /// if any, is rewritten; nothing is bound.
    fn rewrite_fn_param(&mut self, p: Pat) -> (r: Pat)
        requires
            old(self)@.frames.len() > 0,
            old(self).wf(),
        ensures
            final(self)@ == spec_rewrite_fn_param(old(self)@, p).0,
            pat_view(r) == spec_rewrite_fn_param(old(self)@, p).1,
            final(self)@.frames.len() == old(self)@.frames.len(),
            final(self).wf(),
        decreases pat_size(p),
    {
        match p {
            Pat::Assign { target, default } => {
                let d2 = self.rewrite_expr(*default);
                Pat::Assign { target, default: Box::new(d2) }
            },
            other => other,
        }
    }

    /// Rewrite a function-declaration parameter list, left to right.
    #[verifier::rlimit(50)]
    fn rewrite_fn_params(&mut self, ps: Vec<Pat>) -> (r: Vec<Pat>)
        requires
            old(self)@.frames.len() > 0,
            old(self).wf(),
        ensures
            final(self)@ == spec_rewrite_fn_params(old(self)@, ps@).0,
            pats_view(r@) == spec_rewrite_fn_params(old(self)@, ps@).1,
            final(self)@.frames.len() == old(self)@.frames.len(),
            final(self).wf(),
        decreases pats_size(ps@),
    {
        let mut ss = ps;
        if ss.len() == 0 {
            proof {
                assert(pats_view(ss@) =~= Seq::<PatV>::empty());
            }
            ss
        } else {
            let ghost ss0 = ss@;
            let head = ss.remove(0);
            proof {
                assert(ss@ =~= ss0.drop_first());
            }
            let h2 = self.rewrite_fn_param(head);
            let ghost h2g = h2;
            let ghost h2v = pat_view(h2);
            let mut tail2 = self.rewrite_fn_params(ss);
            let ghost t2v = pats_view(tail2@);
            let ghost old_tail = tail2@;
            tail2.insert(0, h2);
            proof {
                assert(tail2@ =~= seq![h2g] + old_tail);
                assert(pats_view(tail2@) =~= seq![h2v] + t2v) by {
                    lemma_pats_view(tail2@);
                    lemma_pats_view(old_tail);
                    assert forall|i: int| 0 <= i < pats_view(tail2@).len() implies pats_view(
                        tail2@,
                    )[i] == (seq![h2v] + t2v)[i] by {
                        assert(pats_view(tail2@)[i] == pat_view(tail2@[i]));
                        if i > 0 {
                            assert(pats_view(old_tail)[i - 1] == pat_view(old_tail[i - 1]));
                        }
                    }
                }
            }
            tail2
        }
    }

    /// Rewrite a closure body in the closure's frame.
    fn rewrite_arrow_body(&mut self, b: ArrowBody) -> (r: ArrowBody)
        requires
            old(self)@.frames.len() > 0,
            old(self).wf(),
        ensures
            final(self)@ == spec_rewrite_arrow_body(old(self)@, b).0,
            arrow_body_view(r) == spec_rewrite_arrow_body(old(self)@, b).1,
            final(self)@.frames.len() == old(self)@.frames.len(),
            final(self).wf(),
        decreases arrow_body_size(b),
    {
        match b {
            ArrowBody::Expr(e) => {
                let e2 = self.rewrite_expr(*e);
                ArrowBody::Expr(Box::new(e2))
            },
            ArrowBody::Block(ss) => {
                self.bind_hoisted_stmts_in_block(&ss);
                let ss2 = self.rewrite_stmts(ss);
                ArrowBody::Block(ss2)
            },
        }
    }

    /// Rewrite one variable declarator, binding the names it introduces at
    /// the point the traversal reaches it.
    fn rewrite_declarator(&mut self, d: VarDeclarator, kind: VarDeclKind) -> (r: VarDeclarator)
        requires
            old(self)@.frames.len() > 0,
            old(self).wf(),
        ensures
            final(self)@ == spec_rewrite_declarator(old(self)@, d, kind).0,
            declarator_view(r) == spec_rewrite_declarator(old(self)@, d, kind).1,
            final(self)@.frames.len() == old(self)@.frames.len(),
            final(self).wf(),
        decreases declarator_size(d),
    {
        let ghost v0 = self@;
        let VarDeclarator { name, init } = d;
        match init {
            Some(e) => {
                self.stack.bind_pat(&name);
                proof {
                    lemma_bind_pat_frames(v0, name);
                }
                let e2 = self.rewrite_expr(e);
                VarDeclarator { name, init: Some(e2) }
            },
            None => {
                if kind != VarDeclKind::Var {
                    self.stack.bind_pat(&name);
                    proof {
                        lemma_bind_pat_frames(v0, name);
                    }
                }
                VarDeclarator { name, init: None }
            },
        }
    }

    /// Rewrite the declarators of one variable statement, left to right.
    #[verifier::rlimit(50)]
    fn rewrite_declarators(&mut self, ds: Vec<VarDeclarator>, kind: VarDeclKind) -> (r: Vec<
        VarDeclarator,
    >)
        requires
            old(self)@.frames.len() > 0,
            old(self).wf(),
        ensures
            final(self)@ == spec_rewrite_declarators(old(self)@, ds@, kind).0,
            declarators_view(r@) == spec_rewrite_declarators(old(self)@, ds@, kind).1,
            final(self)@.frames.len() == old(self)@.frames.len(),
            final(self).wf(),
        decreases declarators_size(ds@),
    {
        let mut ss = ds;
        if ss.len() == 0 {
            proof {
                assert(declarators_view(ss@) =~= Seq::<DeclaratorV>::empty());
            }
            ss
        } else {
            let ghost ss0 = ss@;
            let head = ss.remove(0);
            proof {
                assert(ss@ =~= ss0.drop_first());
            }
            let h2 = self.rewrite_declarator(head, kind);
            let ghost h2g = h2;
            let ghost h2v = declarator_view(h2);
            let mut tail2 = self.rewrite_declarators(ss, kind);
            let ghost t2v = declarators_view(tail2@);
            let ghost old_tail = tail2@;
            tail2.insert(0, h2);
            proof {
                assert(tail2@ =~= seq![h2g] + old_tail);
                assert(declarators_view(tail2@) =~= seq![h2v] + t2v) by {
                    lemma_declarators_view(tail2@);
                    lemma_declarators_view(old_tail);
                    assert forall|i: int| 0 <= i < declarators_view(tail2@).len() implies declarators_view(
                        tail2@,
                    )[i] == (seq![h2v] + t2v)[i] by {
                        assert(declarators_view(tail2@)[i] == declarator_view(tail2@[i]));
                        if i > 0 {
                            assert(declarators_view(old_tail)[i - 1] == declarator_view(old_tail[i - 1]));
                        }
                    }
                }
            }
            tail2
        }
    }

    /// Rewrite one statement.
    pub fn rewrite_stmt(&mut self, s: Stmt) -> (r: Stmt)
        requires
            old(self)@.frames.len() > 0,
            old(self).wf(),
        ensures
            final(self)@ == spec_rewrite_stmt(old(self)@, s).0,
            stmt_view(r) == spec_rewrite_stmt(old(self)@, s).1,
            final(self)@.frames.len() == old(self)@.frames.len(),
            final(self).wf(),
        decreases stmt_size(s),
    {
        match s {
            Stmt::Block(ss) => {
                self.stack.push();
                self.bind_hoisted_stmts_in_block(&ss);
                let ss2 = self.rewrite_stmts(ss);
                self.stack.pop();
                Stmt::Block(ss2)
            },
            Stmt::Expr(e) => {
                let e2 = self.rewrite_expr(e);
                Stmt::Expr(e2)
            },
            Stmt::Decl(Decl::Var(vd)) => {
                let VarDecl { kind, decls } = vd;
                let ds2 = self.rewrite_declarators(decls, kind);
                Stmt::Decl(Decl::Var(VarDecl { kind, decls: ds2 }))
            },
            Stmt::Decl(Decl::Fn(fd)) => {
                let FnDecl { ident, params, body } = fd;
                let params2 = self.rewrite_fn_params(params);
                self.stack.push();
                self.bind_hoisted_stmts_in_block(&body);
                let body2 = self.rewrite_stmts(body);
                self.stack.pop();
                Stmt::Decl(Decl::Fn(FnDecl { ident, params: params2, body: body2 }))
            },
        }
    }

    /// Rewrite a statement list, left to right.
    #[verifier::rlimit(50)]
    pub fn rewrite_stmts(&mut self, stmts: Vec<Stmt>) -> (r: Vec<Stmt>)
        requires
            old(self)@.frames.len() > 0,
            old(self).wf(),
        ensures
            final(self)@ == spec_rewrite_stmts(old(self)@, stmts@).0,
            stmts_view(r@) == spec_rewrite_stmts(old(self)@, stmts@).1,
            final(self)@.frames.len() == old(self)@.frames.len(),
            final(self).wf(),
        decreases stmts_size(stmts@),
    {
        let mut ss = stmts;
        if ss.len() == 0 {
            proof {
                assert(stmts_view(ss@) =~= Seq::<StmtV>::empty());
            }
            ss
        } else {
            let ghost ss0 = ss@;
            let head = ss.remove(0);
            proof {
                assert(ss@ =~= ss0.drop_first());
            }
            let h2 = self.rewrite_stmt(head);
            let ghost h2g = h2;
            let ghost h2v = stmt_view(h2);
            let mut tail2 = self.rewrite_stmts(ss);
            let ghost t2v = stmts_view(tail2@);
            let ghost old_tail = tail2@;
            tail2.insert(0, h2);
            proof {
                assert(tail2@ =~= seq![h2g] + old_tail);
                assert(stmts_view(tail2@) =~= seq![h2v] + t2v) by {
                    lemma_stmts_view(tail2@);
                    lemma_stmts_view(old_tail);
                    assert forall|i: int| 0 <= i < stmts_view(tail2@).len() implies stmts_view(
                        tail2@,
                    )[i] == (seq![h2v] + t2v)[i] by {
                        assert(stmts_view(tail2@)[i] == stmt_view(tail2@[i]));
                        if i > 0 {
                            assert(stmts_view(old_tail)[i - 1] == stmt_view(old_tail[i - 1]));
                        }
                    }
                }
            }
            tail2
        }
    }
}

/// Transform a whole program: walk it with a fresh scope tracker, hoist the
/// program-level declarations into the program frame, and rewrite every
/// statement, replacing each arrow-style closure with a wrap-closure call.
pub fn wrap_closures(program: Program) -> (r: Program)
    ensures
        program_view(r) == spec_rewrite_program(program).1,
        closures_wrapped_program(program_view(r)),
{
    let ghost prog0 = program;
    let mut serializer = ClosureSerializer::new();
    let Program { body } = program;
    proof {
        assert(initial_scope().frames.len() == 1);
        lemma_program_closures_wrapped(prog0);
    }
    serializer.bind_hoisted_stmts_in_block(&body);
    let body2 = serializer.rewrite_stmts(body);
    Program { body: body2 }
}

} // verus!
