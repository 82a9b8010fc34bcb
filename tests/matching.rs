use sml_core::builtin::{builtin_constructors, builtin_tycon, T_INT};
use sml_core::core_ir::{Expr, ExprKind, Pat, PatKind, Row, Rule};
use sml_core::matching::{match_witness, redundant_rules, Witness};
use sml_core::names::{Const, Span, Symbol};
use sml_core::types::Type;

fn sp() -> Span {
    Span::synthetic(2, 10)
}

fn int_ty() -> Type {
    Type::Con(builtin_tycon(T_INT).unwrap(), vec![])
}

fn pat(kind: PatKind) -> Pat {
    Pat::new(kind, Type::Var(0), sp())
}

#[test]
fn int_case_without_default_is_inexhaustive() {
    // case x of 1 => "a"
    let rule = Rule {
        pat: Pat::new(PatKind::Const(Const::Int(1)), int_ty(), sp()),
        expr: Expr::new(ExprKind::Const(Const::String(Symbol(40))), Type::Var(1), sp()),
    };
    let case = Expr::new(
        ExprKind::Case(Expr::new(ExprKind::Var(Symbol(41)), int_ty(), sp()), vec![rule]),
        Type::Var(1),
        sp(),
    );
    match *case.expr {
        ExprKind::Case(_, rules) => {
            let pats: Vec<Pat> = rules.into_iter().map(|r| r.pat).collect();
            assert_eq!(match_witness(&pats, None), Some(Witness::Any));
        }
        _ => panic!("expected a case"),
    }
}

#[test]
fn wildcard_or_variable_is_exhaustive() {
    let pats = vec![pat(PatKind::Const(Const::Int(1))), pat(PatKind::Wild)];
    assert_eq!(match_witness(&pats, None), None);
    let pats = vec![pat(PatKind::Var(Symbol(3)))];
    assert_eq!(match_witness(&pats, Some(2)), None);
    let rec = pat(PatKind::Record(vec![Row { label: Symbol(1), data: pat(PatKind::Wild), span: sp() }]));
    assert_eq!(match_witness(&vec![rec], None), None);
}

#[test]
fn bool_cases() {
    let cons = builtin_constructors();
    let (t, f) = (cons[0], cons[1]);
    let both = vec![pat(PatKind::App(t, None)), pat(PatKind::App(f, None))];
    assert_eq!(match_witness(&both, Some(2)), None);
    let only_true = vec![pat(PatKind::App(t, None))];
    assert_eq!(match_witness(&only_true, Some(2)), Some(Witness::Constructor(1)));
}

#[test]
fn refutable_argument_leaves_constructor_uncovered() {
    let cons = builtin_constructors();
    let (none, some) = (cons[6], cons[7]);
    let pats = vec![pat(PatKind::App(none, None)), pat(PatKind::App(some, Some(pat(PatKind::Const(Const::Int(0))))))];
    assert_eq!(match_witness(&pats, Some(2)), Some(Witness::Constructor(1)));
    let pats = vec![pat(PatKind::App(none, None)), pat(PatKind::App(some, Some(pat(PatKind::Var(Symbol(9))))))];
    assert_eq!(match_witness(&pats, Some(2)), None);
}

#[test]
fn empty_match() {
    assert_eq!(match_witness(&vec![], None), Some(Witness::Any));
    assert_eq!(match_witness(&vec![], Some(1)), Some(Witness::Constructor(0)));
    assert_eq!(match_witness(&vec![], Some(0)), None);
}

#[test]
fn rules_after_a_wildcard_are_redundant() {
    let pats = vec![pat(PatKind::Const(Const::Int(1))), pat(PatKind::Wild), pat(PatKind::Const(Const::Int(2)))];
    assert_eq!(redundant_rules(&pats, None), vec![2]);
}

#[test]
fn repeated_constant_and_constructor_are_redundant() {
    let cons = builtin_constructors();
    let (nil, cons_c) = (cons[3], cons[4]);
    let pats = vec![
        pat(PatKind::App(nil, None)),
        pat(PatKind::App(nil, None)),
        pat(PatKind::App(cons_c, Some(pat(PatKind::Var(Symbol(1)))))),
        pat(PatKind::Var(Symbol(2))),
    ];
    assert_eq!(redundant_rules(&pats, Some(2)), vec![1, 3]);
    let ints = vec![pat(PatKind::Const(Const::Int(4))), pat(PatKind::Const(Const::Int(5))), pat(PatKind::Const(Const::Int(4)))];
    assert_eq!(redundant_rules(&ints, None), vec![2]);
}

#[test]
fn no_redundant_rule() {
    let pats = vec![pat(PatKind::Const(Const::Int(1))), pat(PatKind::Var(Symbol(3)))];
    assert!(redundant_rules(&pats, None).is_empty());
}
