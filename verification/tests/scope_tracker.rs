//! Tests of the scope tracker: identity assignment, lookup, shadowing,
//! hoisting, and destructuring patterns.

use closure_wrap::LexicalScope;
use closure_wrap::ClosureSerializer;
use closure_wrap::ast::Decl;
use closure_wrap::ast::Expr;
use closure_wrap::ast::FnDecl;
use closure_wrap::ast::Ident;
use closure_wrap::ast::ObjectPatProp;
use closure_wrap::ast::Pat;
use closure_wrap::ast::Stmt;
use closure_wrap::ast::VarDecl;
use closure_wrap::ast::VarDeclKind;
use closure_wrap::ast::VarDeclarator;

fn id(sym: &str, ctxt: u32) -> Ident {
    Ident { sym: sym.to_string(), ctxt }
}

fn var_stmt(kind: VarDeclKind, decls: Vec<VarDeclarator>) -> Stmt {
    Stmt::Decl(Decl::Var(VarDecl { kind, decls }))
}

#[test]
fn identity_stability() {
    let mut scope = LexicalScope::new();
    let x = id("x", 0);
    let first = scope.get_unique_id(&x);
    scope.bind_ident(&x);
    // Unrelated work in between: another binding, a new frame.
    scope.bind_ident(&id("y", 0));
    scope.push();
    let again = scope.get_unique_id(&x);
    assert_eq!(first, again);
    // Two lookups at two different reference points agree as well.
    let name = "x".to_string();
    let r1 = scope.lookup(&name);
    scope.bind_ident(&id("z", 0));
    let r2 = scope.lookup(&name);
    assert_eq!(r1, Some(first));
    assert_eq!(r2, Some(first));
}

#[test]
fn identity_uniqueness() {
    let mut scope = LexicalScope::new();
    // The same source text `x`, declared at two distinct sites.
    let outer_x = id("x", 0);
    let inner_x = id("x", 1);
    let a = scope.get_unique_id(&outer_x);
    let b = scope.get_unique_id(&inner_x);
    assert_ne!(a, b);
    assert_eq!(a, 1);
    assert_eq!(b, 2);
}

#[test]
fn shadowing() {
    let mut scope = LexicalScope::new();
    let name = "x".to_string();
    scope.bind_ident(&id("x", 0));
    let outer = scope.lookup(&name).unwrap();
    scope.push();
    scope.bind_ident(&id("x", 1));
    let inner = scope.lookup(&name).unwrap();
    assert_ne!(outer, inner);
    scope.pop();
    assert_eq!(scope.lookup(&name), Some(outer));
}

#[test]
fn lookup_unresolved() {
    let scope = LexicalScope::new();
    assert_eq!(scope.lookup(&"nowhere".to_string()), None);
}

#[test]
fn hoisting_function_declarations() {
    // { foo(); function foo() {} } -- the call site comes first, yet the
    // pre-pass makes `foo` visible from the top of the block.
    let call_foo = Stmt::Expr(Expr::Call {
        callee: Box::new(Expr::Ident(id("foo", 0))),
        args: vec![],
    });
    let decl_foo = Stmt::Decl(Decl::Fn(FnDecl {
        ident: id("foo", 0),
        params: vec![],
        body: vec![],
    }));
    let block = vec![call_foo, decl_foo];
    let mut serializer = ClosureSerializer::new();
    serializer.bind_hoisted_stmts_in_block(&block);
    assert_eq!(serializer.lookup(&"foo".to_string()), Some(1));
}

#[test]
fn hoisting_uninitialized_var() {
    // { var x; x = 1; var x; } -- one identity for `x`, assigned once,
    // visible from the block's start.
    let block = vec![
        var_stmt(
            VarDeclKind::Var,
            vec![VarDeclarator { name: Pat::Ident(id("x", 0)), init: None }],
        ),
        Stmt::Expr(Expr::Assign { target: id("x", 0), value: Box::new(Expr::Num(1)) }),
        var_stmt(
            VarDeclKind::Var,
            vec![VarDeclarator { name: Pat::Ident(id("x", 0)), init: None }],
        ),
    ];
    let mut serializer = ClosureSerializer::new();
    serializer.bind_hoisted_stmts_in_block(&block);
    assert_eq!(serializer.lookup(&"x".to_string()), Some(1));
    // The redeclaration minted no second identity: the next fresh site
    // receives identity 2.
    let mut probe = serializer;
    let hoisted_again = vec![var_stmt(
        VarDeclKind::Var,
        vec![VarDeclarator { name: Pat::Ident(id("y", 0)), init: None }],
    )];
    probe.bind_hoisted_stmts_in_block(&hoisted_again);
    assert_eq!(probe.lookup(&"y".to_string()), Some(2));
}

#[test]
fn hoisting_excludes_initialized_var() {
    // { var x = x; } -- the pre-pass binds nothing for an initialized
    // hoisting-eligible declarator, so at the top of the block `x` still
    // resolves to the enclosing scope, or to nothing at all.
    let block = vec![var_stmt(
        VarDeclKind::Var,
        vec![VarDeclarator {
            name: Pat::Ident(id("x", 1)),
            init: Some(Expr::Ident(id("x", 1))),
        }],
    )];
    let mut serializer = ClosureSerializer::new();
    serializer.bind_hoisted_stmts_in_block(&block);
    assert_eq!(serializer.lookup(&"x".to_string()), None);

    // With an enclosing `x`, the initializer's name resolves to it.
    let mut scope = LexicalScope::new();
    scope.bind_ident(&id("x", 0));
    let outer = scope.lookup(&"x".to_string()).unwrap();
    scope.push();
    // The pre-pass over the inner block binds nothing, so before the
    // declaration statement itself is visited, lookups still see `outer`.
    assert_eq!(scope.lookup(&"x".to_string()), Some(outer));
}

#[test]
fn hoisting_skips_block_scoped_kinds() {
    // { let x; const y = 1; } -- block-scoped declarations are never
    // touched by the pre-pass.
    let block = vec![
        var_stmt(
            VarDeclKind::Let,
            vec![VarDeclarator { name: Pat::Ident(id("x", 0)), init: None }],
        ),
        var_stmt(
            VarDeclKind::Const,
            vec![VarDeclarator { name: Pat::Ident(id("y", 0)), init: Some(Expr::Num(1)) }],
        ),
    ];
    let mut serializer = ClosureSerializer::new();
    serializer.bind_hoisted_stmts_in_block(&block);
    assert_eq!(serializer.lookup(&"x".to_string()), None);
    assert_eq!(serializer.lookup(&"y".to_string()), None);
}

#[test]
fn default_parameter_ordering() {
    // (a, b = a) => b -- by the time `b`'s default expression is visited,
    // the first parameter is already in scope, so `a` resolves to the
    // first parameter's identity.
    let mut scope = LexicalScope::new();
    scope.push();
    let param_a = Pat::Ident(id("a", 1));
    scope.bind_pat(&param_a);
    let param_b = Pat::Assign {
        target: Box::new(Pat::Ident(id("b", 1))),
        default: Box::new(Expr::Ident(id("a", 1))),
    };
    scope.bind_pat(&param_b);
    // This is the scope the default expression of `b` is visited in.
    assert_eq!(scope.lookup(&"a".to_string()), Some(1));
    // A default-valued parameter pattern introduces no binding of its own.
    assert_eq!(scope.lookup(&"b".to_string()), None);
}

#[test]
fn pattern_destructuring_coverage() {
    // ({a, b: {c}}) => c -- `a` and `c` are bound with distinct
    // identities, `c` is reachable from the closure body, and the
    // key `b` is only a path, not a binding.
    let pat = Pat::Object(vec![
        ObjectPatProp::Shorthand(id("a", 1)),
        ObjectPatProp::KeyValue {
            key: "b".to_string(),
            value: Box::new(Pat::Object(vec![ObjectPatProp::Shorthand(id("c", 1))])),
        },
    ]);
    let mut scope = LexicalScope::new();
    scope.push();
    scope.bind_pat(&pat);
    let a = scope.lookup(&"a".to_string());
    let c = scope.lookup(&"c".to_string());
    assert_eq!(a, Some(1));
    assert_eq!(c, Some(2));
    assert_ne!(a, c);
    assert_eq!(scope.lookup(&"b".to_string()), None);
}

#[test]
fn array_pattern_with_elision() {
    // [d, , e] -- elided slots are skipped, the rest is bound in order.
    let pat = Pat::Array(vec![
        Some(Pat::Ident(id("d", 0))),
        None,
        Some(Pat::Ident(id("e", 0))),
    ]);
    let mut scope = LexicalScope::new();
    scope.bind_pat(&pat);
    assert_eq!(scope.lookup(&"d".to_string()), Some(1));
    assert_eq!(scope.lookup(&"e".to_string()), Some(2));
}

#[test]
fn rest_and_default_patterns_bind_nothing() {
    let mut scope = LexicalScope::new();
    scope.bind_pat(&Pat::Rest(Box::new(Pat::Ident(id("r", 0)))));
    scope.bind_pat(&Pat::Assign {
        target: Box::new(Pat::Ident(id("d", 0))),
        default: Box::new(Expr::Num(0)),
    });
    assert_eq!(scope.lookup(&"r".to_string()), None);
    assert_eq!(scope.lookup(&"d".to_string()), None);
}

#[test]
fn stack_depth_tracks_push_and_pop() {
    let mut scope = LexicalScope::new();
    assert_eq!(scope.depth(), 1);
    scope.push();
    scope.push();
    assert_eq!(scope.depth(), 3);
    scope.pop();
    assert_eq!(scope.depth(), 2);
    scope.pop();
    assert_eq!(scope.depth(), 1);
}

#[test]
fn stack_discipline_across_rewrite() {
    // Rewriting a deeply nested statement pushes exactly as many frames
    // as it pops.
    let stmt = Stmt::Block(vec![Stmt::Block(vec![Stmt::Expr(Expr::Arrow(
        closure_wrap::ast::ArrowExpr {
            params: vec![Pat::Ident(id("a", 1))],
            body: closure_wrap::ast::ArrowBody::Block(vec![Stmt::Expr(Expr::Ident(id("a", 1)))]),
        },
    ))])]);
    let mut serializer = ClosureSerializer::new();
    assert_eq!(serializer.depth(), 1);
    let _ = serializer.rewrite_stmt(stmt);
    assert_eq!(serializer.depth(), 1);
}

#[test]
fn block_scoped_uninitialized_binds_at_visit() {
    // `let x;` is not hoisted, but once the statement itself is visited
    // the name is bound.
    let stmt = var_stmt(
        VarDeclKind::Let,
        vec![VarDeclarator { name: Pat::Ident(id("x", 0)), init: None }],
    );
    let mut serializer = ClosureSerializer::new();
    assert_eq!(serializer.lookup(&"x".to_string()), None);
    let _ = serializer.rewrite_stmt(stmt);
    assert_eq!(serializer.lookup(&"x".to_string()), Some(1));
}

#[test]
fn initializer_sees_its_own_declaration() {
    // `var x = x;` -- at the point the initializer is visited, the
    // declared pattern has just been bound, so the initializer's name
    // resolves to the declaration being created.
    let stmt = var_stmt(
        VarDeclKind::Var,
        vec![VarDeclarator {
            name: Pat::Ident(id("x", 0)),
            init: Some(Expr::Ident(id("x", 0))),
        }],
    );
    let mut serializer = ClosureSerializer::new();
    let _ = serializer.rewrite_stmt(stmt);
    assert_eq!(serializer.lookup(&"x".to_string()), Some(1));
}
