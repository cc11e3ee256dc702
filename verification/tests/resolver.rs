use report::resolve;
use report::resolve::{Attr, Block, Diag, DiagKind, Expr, ExprKind, Stmt, Token, iter_block, process_expr};

fn lit(s: &str) -> Token {
    Token::Lit(s.to_string())
}

fn arg(s: &str) -> Token {
    Token::Arg(s.to_string())
}

fn marker(tokens: Vec<Token>) -> Attr {
    Attr { text: "#[report(..)]".to_string(), marker: true, has_list: true, tokens, site: 1 }
}

fn plain_attr() -> Attr {
    Attr {
        text: "#[allow(dead_code)]".to_string(),
        marker: false,
        has_list: false,
        tokens: Vec::new(),
        site: 0,
    }
}

fn macro_expr(text: &str, attrs: Vec<Attr>) -> Expr {
    Expr { attrs, kind: ExprKind::Macro { text: text.to_string() } }
}

fn path_expr(text: &str) -> Expr {
    Expr { attrs: Vec::new(), kind: ExprKind::Path { text: text.to_string() } }
}

#[test]
fn annotation_wraps_expression() {
    let e = macro_expr("info!(\"x\")", vec![marker(vec![lit("Group")])]);
    let mut diags: Vec<Diag> = Vec::new();
    let out = process_expr(e, &mut diags);
    assert!(diags.is_empty());
    assert!(out.attrs.is_empty());
    match out.kind {
        ExprKind::Scoped { title, body } => {
            assert_eq!(title.text, "Group");
            assert!(title.args.is_empty());
            assert!(body.attrs.is_empty());
            assert!(matches!(body.kind, ExprKind::Macro { .. }));
        }
        _ => panic!("expected a scoped wrapper"),
    }
}

#[test]
fn template_keeps_positional_arguments() {
    let e = macro_expr("f()", vec![marker(vec![lit("Task {}"), arg("count")])]);
    let mut diags: Vec<Diag> = Vec::new();
    let out = process_expr(e, &mut diags);
    match out.kind {
        ExprKind::Scoped { title, .. } => {
            assert_eq!(title.text, "Task {}");
            assert_eq!(title.args, vec!["count".to_string()]);
        }
        _ => panic!("expected a scoped wrapper"),
    }
}

#[test]
fn stacked_annotations_nest_first_outermost() {
    let e = macro_expr("f()", vec![marker(vec![lit("A")]), marker(vec![lit("B")])]);
    let mut diags: Vec<Diag> = Vec::new();
    let out = process_expr(e, &mut diags);
    match out.kind {
        ExprKind::Scoped { title, body } => {
            assert_eq!(title.text, "A");
            match body.kind {
                ExprKind::Scoped { title, body } => {
                    assert_eq!(title.text, "B");
                    assert!(matches!(body.kind, ExprKind::Macro { .. }));
                }
                _ => panic!("expected the second annotation inside the first"),
            }
        }
        _ => panic!("expected a scoped wrapper"),
    }
}

#[test]
fn bare_annotation_earns_diagnostic() {
    let mut a = marker(Vec::new());
    a.has_list = false;
    a.site = 9;
    let e = macro_expr("f()", vec![a]);
    let mut diags: Vec<Diag> = Vec::new();
    let out = process_expr(e, &mut diags);
    assert_eq!(diags, vec![Diag { site: 9, kind: DiagKind::NotAList }]);
    assert!(matches!(out.kind, ExprKind::Macro { .. }));
}

#[test]
fn missing_template_earns_diagnostic() {
    let e = macro_expr("f()", vec![marker(vec![arg("x")])]);
    let mut diags: Vec<Diag> = Vec::new();
    let out = process_expr(e, &mut diags);
    assert_eq!(diags, vec![Diag { site: 1, kind: DiagKind::MissingTemplate }]);
    assert!(matches!(out.kind, ExprKind::Macro { .. }));
}

#[test]
fn other_attributes_stay_in_place() {
    let e = macro_expr("f()", vec![plain_attr(), marker(vec![lit("G")])]);
    let mut diags: Vec<Diag> = Vec::new();
    let out = process_expr(e, &mut diags);
    match out.kind {
        ExprKind::Scoped { title, body } => {
            assert_eq!(title.text, "G");
            assert_eq!(body.attrs.len(), 1);
            assert!(!body.attrs[0].marker);
        }
        _ => panic!("expected a scoped wrapper"),
    }
}

#[test]
fn annotations_resolve_inside_call_arguments() {
    let call = Expr {
        attrs: Vec::new(),
        kind: ExprKind::Call {
            func: Box::new(path_expr("run")),
            args: vec![macro_expr("g()", vec![marker(vec![lit("Inner")])])],
        },
    };
    let mut diags: Vec<Diag> = Vec::new();
    let out = process_expr(call, &mut diags);
    assert!(diags.is_empty());
    match out.kind {
        ExprKind::Call { args, .. } => {
            assert_eq!(args.len(), 1);
            assert!(matches!(args[0].kind, ExprKind::Scoped { .. }));
        }
        _ => panic!("expected the call to stay a call"),
    }
}

#[test]
fn let_annotation_hoists_to_initializer() {
    let b = Block {
        stmts: vec![Stmt::Local {
            attrs: vec![marker(vec![lit("Open")])],
            pat: "x".to_string(),
            init: Some(Box::new(path_expr("value"))),
            diverge: None,
        }],
    };
    let mut diags: Vec<Diag> = Vec::new();
    let out = iter_block(b, &mut diags);
    assert!(diags.is_empty());
    match &out.stmts[0] {
        Stmt::Local { attrs, init, .. } => {
            assert!(attrs.is_empty());
            let init = init.as_ref().expect("initializer kept");
            assert!(matches!(init.kind, ExprKind::Scoped { .. }));
        }
        _ => panic!("expected the let statement to stay"),
    }
}

#[test]
fn marked_macro_statement_becomes_expression() {
    let b = Block {
        stmts: vec![Stmt::Macro {
            attrs: vec![marker(vec![lit("G")])],
            text: "info!(\"x\")".to_string(),
            semi: true,
        }],
    };
    let mut diags: Vec<Diag> = Vec::new();
    let out = iter_block(b, &mut diags);
    match &out.stmts[0] {
        Stmt::Expr { expr, semi } => {
            assert!(*semi);
            assert!(matches!(expr.kind, ExprKind::Scoped { .. }));
        }
        _ => panic!("expected an expression statement"),
    }
}

#[test]
fn unmarked_macro_statement_stays() {
    let b = Block {
        stmts: vec![Stmt::Macro {
            attrs: vec![plain_attr()],
            text: "info!(\"x\")".to_string(),
            semi: true,
        }],
    };
    let mut diags: Vec<Diag> = Vec::new();
    let out = iter_block(b, &mut diags);
    assert!(matches!(&out.stmts[0], Stmt::Macro { .. }));
}

#[test]
fn arm_annotation_hoists_to_body() {
    let m = Expr {
        attrs: Vec::new(),
        kind: ExprKind::Match {
            scrutinee: Box::new(path_expr("x")),
            arms: vec![resolve::Arm {
                attrs: vec![marker(vec![lit("Case")])],
                pat: "Some(v)".to_string(),
                body: Box::new(path_expr("v")),
            }],
        },
    };
    let mut diags: Vec<Diag> = Vec::new();
    let out = process_expr(m, &mut diags);
    match out.kind {
        ExprKind::Match { arms, .. } => {
            assert!(arms[0].attrs.is_empty());
            assert!(matches!(arms[0].body.kind, ExprKind::Scoped { .. }));
        }
        _ => panic!("expected the match to stay a match"),
    }
}

#[test]
fn body_annotation_rejects_arguments() {
    let b = Block { stmts: vec![Stmt::Item { text: "fn f() {}".to_string() }] };
    let mut diags: Vec<Diag> = Vec::new();
    let out = resolve::report(b, vec![lit("x")], 7, &mut diags);
    assert_eq!(diags, vec![Diag { site: 7, kind: DiagKind::UnexpectedArgs }]);
    assert_eq!(out.stmts.len(), 1);
    assert!(matches!(&out.stmts[0], Stmt::Item { .. }));
}

#[test]
fn function_annotation_prepends_untitled_root() {
    let b = Block { stmts: vec![Stmt::Item { text: "x".to_string() }] };
    let mut diags: Vec<Diag> = Vec::new();
    let out = resolve::log(b, Vec::new(), 3, &mut diags);
    assert!(diags.is_empty());
    assert_eq!(out.stmts.len(), 2);
    match &out.stmts[0] {
        Stmt::OpenRoot { title } => assert!(title.is_none()),
        _ => panic!("expected the root-opening statement first"),
    }
}

#[test]
fn function_annotation_takes_a_template() {
    let b = Block { stmts: Vec::new() };
    let mut diags: Vec<Diag> = Vec::new();
    let out = resolve::log(b, vec![lit("Run {}"), arg("x")], 3, &mut diags);
    assert!(diags.is_empty());
    match &out.stmts[0] {
        Stmt::OpenRoot { title: Some(t) } => {
            assert_eq!(t.text, "Run {}");
            assert_eq!(t.args, vec!["x".to_string()]);
        }
        _ => panic!("expected a titled root"),
    }
}

#[test]
fn function_annotation_rejects_non_literal() {
    let b = Block { stmts: vec![Stmt::Item { text: "x".to_string() }] };
    let mut diags: Vec<Diag> = Vec::new();
    let out = resolve::log(b, vec![arg("x")], 5, &mut diags);
    assert_eq!(diags, vec![Diag { site: 5, kind: DiagKind::MissingTemplate }]);
    assert_eq!(out.stmts.len(), 1);
}
