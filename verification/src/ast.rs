//! The syntax-tree model the rewriter works on.
//!
//! The tree is a family of tagged unions covering the statement, declaration,
//! pattern and expression shapes the rewriter recognizes. Node sizes are
//! defined as spec functions and serve as the termination measure for every
//! traversal over the tree.

use vstd::prelude::*;

verus! {

/// A source identifier together with the resolution context the host parser
/// assigned to it.
///
/// The pair `(sym, ctxt)` is the reference to a declaration site: two
/// occurrences with the same symbol and the same context refer to the same
/// declared variable, while distinct declaration sites carry distinct pairs.
#[derive(Clone, Debug, PartialEq, Eq)]
pub struct Ident {
    pub sym: String,
    pub ctxt: u32,
}

/// The declaration kind of a variable statement.
///
/// `Var` is the loosely-scoped, re-declarable, hoisting-eligible kind;
/// `Let` and `Const` are the block-scoped kinds that are never hoisted.
#[derive(Clone, Copy, Debug, PartialEq, Eq, Structural)]
pub enum VarDeclKind {
    Var,
    Let,
    Const,
}

/// One property of an object binding pattern.
#[derive(Debug)]
pub enum ObjectPatProp {
    /// A shorthand property, `{ a }`, which binds the identifier itself.
    Shorthand(Ident),
    /// A key-value property, `{ k: pattern }`; only the value pattern
    /// introduces bindings, the key does not.
    KeyValue { key: String, value: Box<Pat> },
}

/// A binding pattern.
#[derive(Debug)]
pub enum Pat {
    /// A simple identifier, `a`.
    Ident(Ident),
    /// An object pattern, `{ a, k: p }`.
    Object(Vec<ObjectPatProp>),
    /// An array pattern, `[a, , b]`; `None` is an elided position.
    Array(Vec<Option<Pat>>),
    /// A pattern with a default value, `p = e`, as it appears in a
    /// parameter list.
    Assign { target: Box<Pat>, default: Box<Expr> },
    /// A rest element, `...p`.
    Rest(Box<Pat>),
}

/// One declarator of a variable statement: a pattern and an optional
/// initializer, `name = init`.
#[derive(Debug)]
pub struct VarDeclarator {
    pub name: Pat,
    pub init: Option<Expr>,
}

/// A variable statement, `var/let/const d, d, ...`.
#[derive(Debug)]
pub struct VarDecl {
    pub kind: VarDeclKind,
    pub decls: Vec<VarDeclarator>,
}

/// A function declaration statement, `function f(params) { body }`.
#[derive(Debug)]
pub struct FnDecl {
    pub ident: Ident,
    pub params: Vec<Pat>,
    pub body: Vec<Stmt>,
}

/// A declaration statement.
#[derive(Debug)]
pub enum Decl {
    Var(VarDecl),
    Fn(FnDecl),
}

/// A statement.
#[derive(Debug)]
pub enum Stmt {
    /// A declaration.
    Decl(Decl),
    /// A block statement, `{ ... }`, which introduces a lexical frame.
    Block(Vec<Stmt>),
    /// An expression statement.
    Expr(Expr),
}

/// The body of an arrow-style closure: a single expression or a block.
#[derive(Debug)]
pub enum ArrowBody {
    Expr(Box<Expr>),
    Block(Vec<Stmt>),
}

/// An arrow-style closure expression, `(params) => body`.
#[derive(Debug)]
pub struct ArrowExpr {
    pub params: Vec<Pat>,
    pub body: ArrowBody,
}

/// An expression.
#[derive(Debug)]
pub enum Expr {
    /// A reference to a name.
    Ident(Ident),
    /// A numeric literal.
    Num(u64),
    /// An arrow-style closure.
    Arrow(ArrowExpr),
    /// A named function expression, `function f(params) { body }` in
    /// expression position. The rewriter recognizes the shape and passes
    /// it through unmodified.
    FnExpr { ident: Ident, params: Vec<Pat>, body: Vec<Stmt> },
    /// A call expression, `callee(args)`.
    Call { callee: Box<Expr>, args: Vec<Expr> },
    /// A member expression, `obj.prop`.
    Member { obj: Box<Expr>, prop: String },
    /// An assignment to a name, `target = value`.
    Assign { target: Ident, value: Box<Expr> },
}

/// A whole program: the statement list of the module or script root.
#[derive(Debug)]
pub struct Program {
    pub body: Vec<Stmt>,
}

/// Size of an expression, counting every node once.
pub open spec fn expr_size(e: Expr) -> nat
    decreases e,
{
    match e {
        Expr::Ident(_) => 1,
        Expr::Num(_) => 1,
        Expr::Arrow(a) => 1 + pats_size(a.params@) + arrow_body_size(a.body),
        Expr::FnExpr { ident: _, params, body } => 1 + pats_size(params@) + stmts_size(body@),
        Expr::Call { callee, args } => 1 + expr_size(*callee) + exprs_size(args@),
        Expr::Member { obj, prop: _ } => 1 + expr_size(*obj),
        Expr::Assign { target: _, value } => 1 + expr_size(*value),
    }
}

/// Size of a sequence of expressions.
pub open spec fn exprs_size(es: Seq<Expr>) -> nat
    decreases es,
{
    if es.len() == 0 {
        0
    } else {
        1 + expr_size(es[0]) + exprs_size(es.drop_first())
    }
}

/// Size of an arrow body.
pub open spec fn arrow_body_size(b: ArrowBody) -> nat
    decreases b,
{
    match b {
        ArrowBody::Expr(e) => 1 + expr_size(*e),
        ArrowBody::Block(ss) => 1 + stmts_size(ss@),
    }
}

/// Size of a pattern.
pub open spec fn pat_size(p: Pat) -> nat
    decreases p,
{
    match p {
        Pat::Ident(_) => 1,
        Pat::Object(props) => 1 + props_size(props@),
        Pat::Array(elems) => 1 + elems_size(elems@),
        Pat::Assign { target, default } => 1 + pat_size(*target) + expr_size(*default),
        Pat::Rest(p0) => 1 + pat_size(*p0),
    }
}

/// Size of a sequence of patterns.
pub open spec fn pats_size(ps: Seq<Pat>) -> nat
    decreases ps,
{
    if ps.len() == 0 {
        0
    } else {
        1 + pat_size(ps[0]) + pats_size(ps.drop_first())
    }
}

/// Size of one object-pattern property.
pub open spec fn prop_size(p: ObjectPatProp) -> nat
    decreases p,
{
    match p {
        ObjectPatProp::Shorthand(_) => 1,
        ObjectPatProp::KeyValue { key: _, value } => 1 + pat_size(*value),
    }
}

/// Size of a sequence of object-pattern properties.
pub open spec fn props_size(ps: Seq<ObjectPatProp>) -> nat
    decreases ps,
{
    if ps.len() == 0 {
        0
    } else {
        1 + prop_size(ps[0]) + props_size(ps.drop_first())
    }
}

/// Size of one array-pattern position.
pub open spec fn elem_size(e: Option<Pat>) -> nat
    decreases e,
{
    match e {
        Option::Some(p) => 1 + pat_size(p),
        Option::None => 1,
    }
}

/// Size of a sequence of array-pattern positions.
pub open spec fn elems_size(es: Seq<Option<Pat>>) -> nat
    decreases es,
{
    if es.len() == 0 {
        0
    } else {
        1 + elem_size(es[0]) + elems_size(es.drop_first())
    }
}

/// Size of one variable declarator.
pub open spec fn declarator_size(d: VarDeclarator) -> nat
    decreases d,
{
    1 + pat_size(d.name) + match d.init {
        Option::Some(e) => expr_size(e),
        Option::None => 0,
    }
}

/// Size of a sequence of variable declarators.
pub open spec fn declarators_size(ds: Seq<VarDeclarator>) -> nat
    decreases ds,
{
    if ds.len() == 0 {
        0
    } else {
        1 + declarator_size(ds[0]) + declarators_size(ds.drop_first())
    }
}

/// Size of a statement.
pub open spec fn stmt_size(s: Stmt) -> nat
    decreases s,
{
    match s {
        Stmt::Decl(Decl::Var(vd)) => 1 + declarators_size(vd.decls@),
        Stmt::Decl(Decl::Fn(fd)) => 1 + pats_size(fd.params@) + stmts_size(fd.body@),
        Stmt::Block(ss) => 1 + stmts_size(ss@),
        Stmt::Expr(e) => 1 + expr_size(e),
    }
}

/// Size of a sequence of statements.
pub open spec fn stmts_size(ss: Seq<Stmt>) -> nat
    decreases ss,
{
    if ss.len() == 0 {
        0
    } else {
        1 + stmt_size(ss[0]) + stmts_size(ss.drop_first())
    }
}

/// The model of an identifier: its characters and its resolution context.
pub ghost struct IdentV {
    pub sym: Seq<char>,
    pub ctxt: u32,
}

/// The model of an object-pattern property.
pub ghost enum PropV {
    Shorthand(IdentV),
    KeyValue { key: Seq<char>, value: Box<PatV> },
}

/// The model of a binding pattern.
pub ghost enum PatV {
    Ident(IdentV),
    Object(Seq<PropV>),
    Array(Seq<Option<PatV>>),
    Assign { target: Box<PatV>, default: Box<ExprV> },
    Rest(Box<PatV>),
}

/// The model of a variable declarator.
pub ghost struct DeclaratorV {
    pub name: PatV,
    pub init: Option<ExprV>,
}

/// The model of a statement.
pub ghost enum StmtV {
    Var { kind: VarDeclKind, decls: Seq<DeclaratorV> },
    Fn { ident: IdentV, params: Seq<PatV>, body: Seq<StmtV> },
    Block(Seq<StmtV>),
    Expr(ExprV),
}

/// The model of an arrow body.
pub ghost enum ArrowBodyV {
    Expr(Box<ExprV>),
    Block(Seq<StmtV>),
}

/// The model of an expression.
pub ghost enum ExprV {
    Ident(IdentV),
    Num(u64),
    Arrow { params: Seq<PatV>, body: ArrowBodyV },
    FnExpr { ident: IdentV, params: Seq<PatV>, body: Seq<StmtV> },
    Call { callee: Box<ExprV>, args: Seq<ExprV> },
    Member { obj: Box<ExprV>, prop: Seq<char> },
    Assign { target: IdentV, value: Box<ExprV> },
}

/// The model of a whole program.
pub ghost struct ProgramV {
    pub body: Seq<StmtV>,
}

/// The model of an identifier.
pub open spec fn ident_view(id: Ident) -> IdentV {
    IdentV { sym: id.sym@, ctxt: id.ctxt }
}

/// The model of an expression.
pub open spec fn expr_view(e: Expr) -> ExprV
    decreases expr_size(e),
{
    match e {
        Expr::Ident(id) => ExprV::Ident(ident_view(id)),
        Expr::Num(n) => ExprV::Num(n),
        Expr::Arrow(a) => ExprV::Arrow {
            params: pats_view(a.params@),
            body: arrow_body_view(a.body),
        },
        Expr::FnExpr { ident, params, body } => ExprV::FnExpr {
            ident: ident_view(ident),
            params: pats_view(params@),
            body: stmts_view(body@),
        },
        Expr::Call { callee, args } => ExprV::Call {
            callee: Box::new(expr_view(*callee)),
            args: exprs_view(args@),
        },
        Expr::Member { obj, prop } => ExprV::Member {
            obj: Box::new(expr_view(*obj)),
            prop: prop@,
        },
        Expr::Assign { target, value } => ExprV::Assign {
            target: ident_view(target),
            value: Box::new(expr_view(*value)),
        },
    }
}

/// The models of a sequence of expressions.
pub open spec fn exprs_view(es: Seq<Expr>) -> Seq<ExprV>
    decreases exprs_size(es),
{
    if es.len() == 0 {
        Seq::empty()
    } else {
        seq![expr_view(es[0])] + exprs_view(es.drop_first())
    }
}

/// The model of an arrow body.
pub open spec fn arrow_body_view(b: ArrowBody) -> ArrowBodyV
    decreases arrow_body_size(b),
{
    match b {
        ArrowBody::Expr(e) => ArrowBodyV::Expr(Box::new(expr_view(*e))),
        ArrowBody::Block(ss) => ArrowBodyV::Block(stmts_view(ss@)),
    }
}

/// The model of a pattern.
pub open spec fn pat_view(p: Pat) -> PatV
    decreases pat_size(p),
{
    match p {
        Pat::Ident(id) => PatV::Ident(ident_view(id)),
        Pat::Object(props) => PatV::Object(props_view(props@)),
        Pat::Array(elems) => PatV::Array(elems_view(elems@)),
        Pat::Assign { target, default } => PatV::Assign {
            target: Box::new(pat_view(*target)),
            default: Box::new(expr_view(*default)),
        },
        Pat::Rest(p0) => PatV::Rest(Box::new(pat_view(*p0))),
    }
}

/// The models of a sequence of patterns.
pub open spec fn pats_view(ps: Seq<Pat>) -> Seq<PatV>
    decreases pats_size(ps),
{
    if ps.len() == 0 {
        Seq::empty()
    } else {
        seq![pat_view(ps[0])] + pats_view(ps.drop_first())
    }
}

/// The model of an object-pattern property.
pub open spec fn prop_view(p: ObjectPatProp) -> PropV
    decreases prop_size(p),
{
    match p {
        ObjectPatProp::Shorthand(id) => PropV::Shorthand(ident_view(id)),
        ObjectPatProp::KeyValue { key, value } => PropV::KeyValue {
            key: key@,
            value: Box::new(pat_view(*value)),
        },
    }
}

/// The models of a sequence of object-pattern properties.
pub open spec fn props_view(ps: Seq<ObjectPatProp>) -> Seq<PropV>
    decreases props_size(ps),
{
    if ps.len() == 0 {
        Seq::empty()
    } else {
        seq![prop_view(ps[0])] + props_view(ps.drop_first())
    }
}

/// The model of an array-pattern position.
pub open spec fn elem_view(e: Option<Pat>) -> Option<PatV>
    decreases elem_size(e),
{
    match e {
        Option::Some(p) => Option::Some(pat_view(p)),
        Option::None => Option::None,
    }
}

/// The models of a sequence of array-pattern positions.
pub open spec fn elems_view(es: Seq<Option<Pat>>) -> Seq<Option<PatV>>
    decreases elems_size(es),
{
    if es.len() == 0 {
        Seq::empty()
    } else {
        seq![elem_view(es[0])] + elems_view(es.drop_first())
    }
}

/// The model of a variable declarator.
pub open spec fn declarator_view(d: VarDeclarator) -> DeclaratorV
    decreases declarator_size(d),
{
    DeclaratorV {
        name: pat_view(d.name),
        init: match d.init {
            Option::Some(e) => Option::Some(expr_view(e)),
            Option::None => Option::None,
        },
    }
}

/// The models of a sequence of variable declarators.
pub open spec fn declarators_view(ds: Seq<VarDeclarator>) -> Seq<DeclaratorV>
    decreases declarators_size(ds),
{
    if ds.len() == 0 {
        Seq::empty()
    } else {
        seq![declarator_view(ds[0])] + declarators_view(ds.drop_first())
    }
}

/// The model of a statement.
pub open spec fn stmt_view(s: Stmt) -> StmtV
    decreases stmt_size(s),
{
    match s {
        Stmt::Decl(Decl::Var(vd)) => StmtV::Var {
            kind: vd.kind,
            decls: declarators_view(vd.decls@),
        },
        Stmt::Decl(Decl::Fn(fd)) => StmtV::Fn {
            ident: ident_view(fd.ident),
            params: pats_view(fd.params@),
            body: stmts_view(fd.body@),
        },
        Stmt::Block(ss) => StmtV::Block(stmts_view(ss@)),
        Stmt::Expr(e) => StmtV::Expr(expr_view(e)),
    }
}

/// The models of a sequence of statements.
pub open spec fn stmts_view(ss: Seq<Stmt>) -> Seq<StmtV>
    decreases stmts_size(ss),
{
    if ss.len() == 0 {
        Seq::empty()
    } else {
        seq![stmt_view(ss[0])] + stmts_view(ss.drop_first())
    }
}

/// The model of a program.
pub open spec fn program_view(p: Program) -> ProgramV {
    ProgramV { body: stmts_view(p.body@) }
}

/// The model of an expression sequence, element by element.
pub proof fn lemma_exprs_view(es: Seq<Expr>)
    ensures
        exprs_view(es).len() == es.len(),
        forall|i: int| 0 <= i < es.len() ==> #[trigger] exprs_view(es)[i] == expr_view(es[i]),
    decreases es.len(),
{
    if es.len() > 0 {
        lemma_exprs_view(es.drop_first());
        assert forall|i: int| 0 <= i < es.len() implies #[trigger] exprs_view(es)[i] == expr_view(
            es[i],
        ) by {
            if i > 0 {
                assert(exprs_view(es.drop_first())[i - 1] == expr_view(es.drop_first()[i - 1]));
                assert(es.drop_first()[i - 1] == es[i]);
            }
        }
    }
}

/// The model of a pattern sequence, element by element.
pub proof fn lemma_pats_view(ps: Seq<Pat>)
    ensures
        pats_view(ps).len() == ps.len(),
        forall|i: int| 0 <= i < ps.len() ==> #[trigger] pats_view(ps)[i] == pat_view(ps[i]),
    decreases ps.len(),
{
    if ps.len() > 0 {
        lemma_pats_view(ps.drop_first());
        assert forall|i: int| 0 <= i < ps.len() implies #[trigger] pats_view(ps)[i] == pat_view(
            ps[i],
        ) by {
            if i > 0 {
                assert(pats_view(ps.drop_first())[i - 1] == pat_view(ps.drop_first()[i - 1]));
                assert(ps.drop_first()[i - 1] == ps[i]);
            }
        }
    }
}

/// The model of a declarator sequence, element by element.
pub proof fn lemma_declarators_view(ds: Seq<VarDeclarator>)
    ensures
        declarators_view(ds).len() == ds.len(),
        forall|i: int| 0 <= i < ds.len() ==> #[trigger] declarators_view(ds)[i]
            == declarator_view(ds[i]),
    decreases ds.len(),
{
    if ds.len() > 0 {
        lemma_declarators_view(ds.drop_first());
        assert forall|i: int| 0 <= i < ds.len() implies #[trigger] declarators_view(ds)[i]
            == declarator_view(ds[i]) by {
            if i > 0 {
                assert(declarators_view(ds.drop_first())[i - 1] == declarator_view(
                    ds.drop_first()[i - 1],
                ));
                assert(ds.drop_first()[i - 1] == ds[i]);
            }
        }
    }
}

/// The model of a statement sequence, element by element.
pub proof fn lemma_stmts_view(ss: Seq<Stmt>)
    ensures
        stmts_view(ss).len() == ss.len(),
        forall|i: int| 0 <= i < ss.len() ==> #[trigger] stmts_view(ss)[i] == stmt_view(ss[i]),
    decreases ss.len(),
{
    if ss.len() > 0 {
        lemma_stmts_view(ss.drop_first());
        assert forall|i: int| 0 <= i < ss.len() implies #[trigger] stmts_view(ss)[i] == stmt_view(
            ss[i],
        ) by {
            if i > 0 {
                assert(stmts_view(ss.drop_first())[i - 1] == stmt_view(ss.drop_first()[i - 1]));
                assert(ss.drop_first()[i - 1] == ss[i]);
            }
        }
    }
}

/// Every element of a sequence of properties weighs no more than the sequence.
pub proof fn lemma_props_size_index(ps: Seq<ObjectPatProp>, i: int)
    requires
        0 <= i < ps.len(),
    ensures
        prop_size(ps[i]) < props_size(ps),
    decreases ps.len(),
{
    if i > 0 {
        lemma_props_size_index(ps.drop_first(), i - 1);
        assert(ps.drop_first()[i - 1] == ps[i]);
    }
}

/// Every element of a sequence of array positions weighs no more than the
/// sequence.
pub proof fn lemma_elems_size_index(es: Seq<Option<Pat>>, i: int)
    requires
        0 <= i < es.len(),
    ensures
        elem_size(es[i]) < elems_size(es),
    decreases es.len(),
{
    if i > 0 {
        lemma_elems_size_index(es.drop_first(), i - 1);
        assert(es.drop_first()[i - 1] == es[i]);
    }
}

} // verus!
