//! Tests of the closure rewrite: every arrow-style closure is replaced by
//! a call to the two-part wrap-closure reference carrying the transformed
//! closure as its sole argument, and pass-through shapes stay untouched.

use closure_wrap::wrap_closures;
use closure_wrap::ast::ArrowBody;
use closure_wrap::ast::ArrowExpr;
use closure_wrap::ast::Decl;
use closure_wrap::ast::Expr;
use closure_wrap::ast::FnDecl;
use closure_wrap::ast::Ident;
use closure_wrap::ast::Pat;
use closure_wrap::ast::Program;
use closure_wrap::ast::Stmt;
use closure_wrap::ast::VarDecl;
use closure_wrap::ast::VarDeclKind;
use closure_wrap::ast::VarDeclarator;

fn id(sym: &str, ctxt: u32) -> Ident {
    Ident { sym: sym.to_string(), ctxt }
}

/// Checks that `e` is a call to `global.wrapClosure` with exactly one
/// argument, an arrow, and hands the arrow back.
fn unwrap_wrap_call(e: &Expr) -> &ArrowExpr {
    match e {
        Expr::Call { callee, args } => {
            match &**callee {
                Expr::Member { obj, prop } => {
                    assert_eq!(prop, "wrapClosure");
                    match &**obj {
                        Expr::Ident(i) => {
                            assert_eq!(i.sym, "global");
                            assert_eq!(i.ctxt, 0);
                        }
                        other => panic!("wrap callee object is not an identifier: {:?}", other),
                    }
                }
                other => panic!("wrap callee is not a member expression: {:?}", other),
            }
            assert_eq!(args.len(), 1);
            match &args[0] {
                Expr::Arrow(a) => a,
                other => panic!("wrap argument is not an arrow: {:?}", other),
            }
        }
        other => panic!("not a call expression: {:?}", other),
    }
}

#[test]
fn empty_program_passes_through() {
    let out = wrap_closures(Program { body: vec![] });
    assert!(out.body.is_empty());
}

#[test]
fn plain_statements_pass_through() {
    let program = Program {
        body: vec![
            Stmt::Expr(Expr::Num(7)),
            Stmt::Expr(Expr::Ident(id("x", 0))),
        ],
    };
    let out = wrap_closures(program);
    assert_eq!(out.body.len(), 2);
    assert!(matches!(&out.body[0], Stmt::Expr(Expr::Num(7))));
    match &out.body[1] {
        Stmt::Expr(Expr::Ident(i)) => assert_eq!(i.sym, "x"),
        other => panic!("unexpected statement: {:?}", other),
    }
}

#[test]
fn closure_rewrite_shape() {
    // (a) => a  becomes  global.wrapClosure((a) => a)
    let program = Program {
        body: vec![Stmt::Expr(Expr::Arrow(ArrowExpr {
            params: vec![Pat::Ident(id("a", 1))],
            body: ArrowBody::Expr(Box::new(Expr::Ident(id("a", 1)))),
        }))],
    };
    let out = wrap_closures(program);
    assert_eq!(out.body.len(), 1);
    let arrow = match &out.body[0] {
        Stmt::Expr(e) => unwrap_wrap_call(e),
        other => panic!("unexpected statement: {:?}", other),
    };
    assert_eq!(arrow.params.len(), 1);
    match &arrow.params[0] {
        Pat::Ident(i) => assert_eq!(i.sym, "a"),
        other => panic!("unexpected parameter: {:?}", other),
    }
    match &arrow.body {
        ArrowBody::Expr(e) => match &**e {
            Expr::Ident(i) => assert_eq!(i.sym, "a"),
            other => panic!("unexpected body: {:?}", other),
        },
        other => panic!("unexpected body: {:?}", other),
    }
}

#[test]
fn nested_closures_rewritten_recursively() {
    // () => () => 1  becomes
    // global.wrapClosure(() => global.wrapClosure(() => 1))
    let inner = Expr::Arrow(ArrowExpr {
        params: vec![],
        body: ArrowBody::Expr(Box::new(Expr::Num(1))),
    });
    let outer = Expr::Arrow(ArrowExpr {
        params: vec![],
        body: ArrowBody::Expr(Box::new(inner)),
    });
    let out = wrap_closures(Program { body: vec![Stmt::Expr(outer)] });
    let outer_arrow = match &out.body[0] {
        Stmt::Expr(e) => unwrap_wrap_call(e),
        other => panic!("unexpected statement: {:?}", other),
    };
    let inner_arrow = match &outer_arrow.body {
        ArrowBody::Expr(e) => unwrap_wrap_call(e),
        other => panic!("unexpected body: {:?}", other),
    };
    assert!(matches!(&inner_arrow.body, ArrowBody::Expr(e) if matches!(&**e, Expr::Num(1))));
}

#[test]
fn closure_in_call_arguments_rewritten() {
    // f(() => 1) -- the arrow inside the argument list is wrapped.
    let program = Program {
        body: vec![Stmt::Expr(Expr::Call {
            callee: Box::new(Expr::Ident(id("f", 0))),
            args: vec![Expr::Arrow(ArrowExpr {
                params: vec![],
                body: ArrowBody::Expr(Box::new(Expr::Num(1))),
            })],
        })],
    };
    let out = wrap_closures(program);
    match &out.body[0] {
        Stmt::Expr(Expr::Call { callee, args }) => {
            assert!(matches!(&**callee, Expr::Ident(_)));
            assert_eq!(args.len(), 1);
            let _ = unwrap_wrap_call(&args[0]);
        }
        other => panic!("unexpected statement: {:?}", other),
    }
}

#[test]
fn closure_in_var_initializer_rewritten() {
    // var f = () => 1;
    let program = Program {
        body: vec![Stmt::Decl(Decl::Var(VarDecl {
            kind: VarDeclKind::Var,
            decls: vec![VarDeclarator {
                name: Pat::Ident(id("f", 0)),
                init: Some(Expr::Arrow(ArrowExpr {
                    params: vec![],
                    body: ArrowBody::Expr(Box::new(Expr::Num(1))),
                })),
            }],
        }))],
    };
    let out = wrap_closures(program);
    match &out.body[0] {
        Stmt::Decl(Decl::Var(vd)) => {
            assert_eq!(vd.kind, VarDeclKind::Var);
            assert_eq!(vd.decls.len(), 1);
            let _ = unwrap_wrap_call(vd.decls[0].init.as_ref().unwrap());
        }
        other => panic!("unexpected statement: {:?}", other),
    }
}

#[test]
fn closure_in_default_parameter_rewritten() {
    // (a, b = () => a) => b -- the default value of `b` is itself wrapped.
    let program = Program {
        body: vec![Stmt::Expr(Expr::Arrow(ArrowExpr {
            params: vec![
                Pat::Ident(id("a", 1)),
                Pat::Assign {
                    target: Box::new(Pat::Ident(id("b", 1))),
                    default: Box::new(Expr::Arrow(ArrowExpr {
                        params: vec![],
                        body: ArrowBody::Expr(Box::new(Expr::Ident(id("a", 1)))),
                    })),
                },
            ],
            body: ArrowBody::Expr(Box::new(Expr::Ident(id("b", 1)))),
        }))],
    };
    let out = wrap_closures(program);
    let arrow = match &out.body[0] {
        Stmt::Expr(e) => unwrap_wrap_call(e),
        other => panic!("unexpected statement: {:?}", other),
    };
    assert_eq!(arrow.params.len(), 2);
    match &arrow.params[1] {
        Pat::Assign { target, default } => {
            assert!(matches!(&**target, Pat::Ident(_)));
            let _ = unwrap_wrap_call(default);
        }
        other => panic!("unexpected parameter: {:?}", other),
    }
}

#[test]
fn closure_in_block_body_rewritten() {
    // { () => 1; } -- the arrow inside the nested block is wrapped.
    let program = Program {
        body: vec![Stmt::Block(vec![Stmt::Expr(Expr::Arrow(ArrowExpr {
            params: vec![],
            body: ArrowBody::Expr(Box::new(Expr::Num(1))),
        }))])],
    };
    let out = wrap_closures(program);
    match &out.body[0] {
        Stmt::Block(ss) => {
            assert_eq!(ss.len(), 1);
            match &ss[0] {
                Stmt::Expr(e) => {
                    let _ = unwrap_wrap_call(e);
                }
                other => panic!("unexpected statement: {:?}", other),
            }
        }
        other => panic!("unexpected statement: {:?}", other),
    }
}

#[test]
fn closure_in_function_declaration_body_rewritten() {
    // function f() { () => 1; }
    let program = Program {
        body: vec![Stmt::Decl(Decl::Fn(FnDecl {
            ident: id("f", 0),
            params: vec![],
            body: vec![Stmt::Expr(Expr::Arrow(ArrowExpr {
                params: vec![],
                body: ArrowBody::Expr(Box::new(Expr::Num(1))),
            }))],
        }))],
    };
    let out = wrap_closures(program);
    match &out.body[0] {
        Stmt::Decl(Decl::Fn(fd)) => {
            assert_eq!(fd.ident.sym, "f");
            match &fd.body[0] {
                Stmt::Expr(e) => {
                    let _ = unwrap_wrap_call(e);
                }
                other => panic!("unexpected statement: {:?}", other),
            }
        }
        other => panic!("unexpected statement: {:?}", other),
    }
}

#[test]
fn named_function_expression_passes_through() {
    // (function f() { () => 1; }) -- the whole named function expression,
    // arrow inside included, is deliberately left in its original form.
    let program = Program {
        body: vec![Stmt::Expr(Expr::FnExpr {
            ident: id("f", 0),
            params: vec![],
            body: vec![Stmt::Expr(Expr::Arrow(ArrowExpr {
                params: vec![],
                body: ArrowBody::Expr(Box::new(Expr::Num(1))),
            }))],
        })],
    };
    let out = wrap_closures(program);
    match &out.body[0] {
        Stmt::Expr(Expr::FnExpr { ident, params, body }) => {
            assert_eq!(ident.sym, "f");
            assert!(params.is_empty());
            assert!(matches!(&body[0], Stmt::Expr(Expr::Arrow(_))));
        }
        other => panic!("unexpected statement: {:?}", other),
    }
}

#[test]
fn block_body_closure_with_hoisting() {
    // () => { foo(); function foo() {} } -- the closure body is a block
    // whose own hoisting pre-pass runs; the closure is wrapped and its
    // body keeps both statements.
    let program = Program {
        body: vec![Stmt::Expr(Expr::Arrow(ArrowExpr {
            params: vec![],
            body: ArrowBody::Block(vec![
                Stmt::Expr(Expr::Call {
                    callee: Box::new(Expr::Ident(id("foo", 1))),
                    args: vec![],
                }),
                Stmt::Decl(Decl::Fn(FnDecl { ident: id("foo", 1), params: vec![], body: vec![] })),
            ]),
        }))],
    };
    let out = wrap_closures(program);
    let arrow = match &out.body[0] {
        Stmt::Expr(e) => unwrap_wrap_call(e),
        other => panic!("unexpected statement: {:?}", other),
    };
    match &arrow.body {
        ArrowBody::Block(ss) => assert_eq!(ss.len(), 2),
        other => panic!("unexpected body: {:?}", other),
    }
}

#[test]
fn assignment_value_rewritten() {
    // x = () => 1
    let program = Program {
        body: vec![Stmt::Expr(Expr::Assign {
            target: id("x", 0),
            value: Box::new(Expr::Arrow(ArrowExpr {
                params: vec![],
                body: ArrowBody::Expr(Box::new(Expr::Num(1))),
            })),
        })],
    };
    let out = wrap_closures(program);
    match &out.body[0] {
        Stmt::Expr(Expr::Assign { target, value }) => {
            assert_eq!(target.sym, "x");
            let _ = unwrap_wrap_call(value);
        }
        other => panic!("unexpected statement: {:?}", other),
    }
}

#[test]
fn member_object_rewritten() {
    // (() => 1).length -- the arrow under the member access is wrapped.
    let program = Program {
        body: vec![Stmt::Expr(Expr::Member {
            obj: Box::new(Expr::Arrow(ArrowExpr {
                params: vec![],
                body: ArrowBody::Expr(Box::new(Expr::Num(1))),
            })),
            prop: "length".to_string(),
        })],
    };
    let out = wrap_closures(program);
    match &out.body[0] {
        Stmt::Expr(Expr::Member { obj, prop }) => {
            assert_eq!(prop, "length");
            let _ = unwrap_wrap_call(obj);
        }
        other => panic!("unexpected statement: {:?}", other),
    }
}
