use sml_core::builtin::{builtin_constructors, builtin_tycon, c_ref, T_ARROW, T_INT, T_LIST, T_REF};
use sml_core::core_ir::{Decl, Expr, ExprKind, Lambda, Pat, PatKind, Row, Rule};
use sml_core::names::{Const, Span, Symbol, TypeId};
use sml_core::types::{env_free_vars, generalize, generalize_binding, Constructor, Scheme, Tycon, Type};

fn sp() -> Span {
    Span::synthetic(0, 0)
}

fn int_ty() -> Type {
    Type::Con(builtin_tycon(T_INT).unwrap(), vec![])
}

fn arrow(a: Type, b: Type) -> Type {
    Type::Con(builtin_tycon(T_ARROW).unwrap(), vec![a, b])
}

fn int_const(n: i64) -> Expr {
    Expr::new(ExprKind::Const(Const::Int(n)), int_ty(), sp())
}

fn var(name: u32, ty: Type) -> Expr {
    Expr::new(ExprKind::Var(Symbol(name)), ty, sp())
}

fn lambda(arg: u32, ty: Type, body: Expr) -> Expr {
    let fty = arrow(Type::Var(99), Type::Var(99));
    Expr::new(ExprKind::Lambda(Lambda { arg: Symbol(arg), ty, body }), fty, sp())
}

fn app(f: Expr, x: Expr) -> Expr {
    Expr::new(ExprKind::App(f, x), Type::Var(98), sp())
}

fn user_tycon() -> Tycon {
    Tycon { name: Symbol(100), arity: 1, id: TypeId(100) }
}

fn con_a() -> Constructor {
    Constructor { name: Symbol(101), type_id: TypeId(100), tag: 0, arity: 0, type_arity: 1 }
}

fn con_b() -> Constructor {
    Constructor { name: Symbol(102), type_id: TypeId(100), tag: 1, arity: 1, type_arity: 1 }
}

#[test]
fn simple_forms_are_non_expansive() {
    assert!(int_const(3).non_expansive());
    assert!(var(1, Type::Var(0)).non_expansive());
    assert!(lambda(1, Type::Var(0), var(1, Type::Var(0))).non_expansive());
    assert!(Expr::new(ExprKind::Primitive(Symbol(5)), Type::Var(0), sp()).non_expansive());
    assert!(Expr::new(ExprKind::Con(con_a(), vec![Type::Var(0)]), Type::Var(0), sp()).non_expansive());
}

#[test]
fn ref_application_and_effects_are_expansive() {
    assert!(!Expr::new(ExprKind::Con(c_ref(), vec![Type::Var(0)]), Type::Var(0), sp()).non_expansive());
    assert!(!app(var(1, Type::Var(0)), int_const(1)).non_expansive());
    assert!(!Expr::new(ExprKind::Raise(var(1, Type::Var(0))), Type::Var(0), sp()).non_expansive());
    assert!(!Expr::new(ExprKind::Sequence(vec![int_const(1)]), int_ty(), sp()).non_expansive());
    assert!(!Expr::new(ExprKind::Let(vec![], int_const(1)), int_ty(), sp()).non_expansive());
}

#[test]
fn records_and_lists_follow_their_fields() {
    let ok = Expr::new(
        ExprKind::Record(vec![Row { label: Symbol(1), data: int_const(1), span: sp() }]),
        Type::Var(0),
        sp(),
    );
    assert!(ok.non_expansive());
    let bad = Expr::new(ExprKind::List(vec![int_const(1), app(var(1, Type::Var(0)), int_const(2))]), Type::Var(0), sp());
    assert!(!bad.non_expansive());
    let empty = Expr::new(ExprKind::List(vec![]), Type::Var(0), sp());
    assert!(empty.non_expansive());
}

#[test]
fn expansive_field_mutated_into_lambda() {
    let before = Expr::new(
        ExprKind::Record(vec![
            Row { label: Symbol(1), data: int_const(1), span: sp() },
            Row { label: Symbol(2), data: app(var(7, Type::Var(0)), int_const(2)), span: sp() },
        ]),
        Type::Var(0),
        sp(),
    );
    assert!(!before.non_expansive());
    let after = Expr::new(
        ExprKind::Record(vec![
            Row { label: Symbol(1), data: int_const(1), span: sp() },
            Row { label: Symbol(2), data: lambda(3, Type::Var(0), var(3, Type::Var(0))), span: sp() },
        ]),
        Type::Var(0),
        sp(),
    );
    assert!(after.non_expansive());
}

#[test]
fn val_of_constant_is_int() {
    // val x = 3
    let rhs = int_const(3);
    let (scheme, warning) = generalize_binding(&vec![], &rhs, int_ty());
    assert!(scheme.vars.is_empty());
    assert!(warning.is_none());
    assert!(matches!(scheme.ty, Type::Con(t, ref args) if t.id == TypeId(T_INT) && args.is_empty()));
    let decl = Decl::Val(Rule { pat: Pat::new(PatKind::Var(Symbol(1)), int_ty(), sp()), expr: rhs });
    match decl {
        Decl::Val(rule) => {
            assert!(matches!(*rule.pat.pat, PatKind::Var(Symbol(1))));
            assert!(matches!(*rule.expr.expr, ExprKind::Const(Const::Int(3))));
        }
        _ => panic!("expected a value binding"),
    }
}

#[test]
fn identity_function_is_polymorphic() {
    // fun id x = x : 'a -> 'a
    let scheme = generalize(&vec![], arrow(Type::Var(4), Type::Var(4)));
    assert_eq!(scheme.vars, vec![4]);
    let body = lambda(1, Type::Var(4), var(1, Type::Var(4)));
    assert!(body.non_expansive());
    let decl = Decl::Fun(vec![4], vec![Lambda { arg: Symbol(1), ty: Type::Var(4), body: var(1, Type::Var(4)) }]);
    assert!(matches!(decl, Decl::Fun(ref tvs, ref lams) if tvs == &vec![4] && lams.len() == 1));
}

#[test]
fn generalize_skips_environment_vars() {
    // the environment mentions 2 free and 3 only under a quantifier
    let env = vec![Scheme { vars: vec![], ty: Type::Var(2) }, Scheme { vars: vec![3], ty: arrow(Type::Var(3), Type::Var(2)) }];
    let scheme = generalize(&env, arrow(Type::Var(2), arrow(Type::Var(3), Type::Var(3))));
    assert_eq!(scheme.vars, vec![3]);
    let mut free = env_free_vars(&env);
    free.sort();
    assert_eq!(free, vec![2]);
}

#[test]
fn ref_of_empty_list_stays_monomorphic() {
    // val r = ref [] : 'a list ref
    let list_ty = Type::Con(builtin_tycon(T_LIST).unwrap(), vec![Type::Var(5)]);
    let ref_ty = Type::Con(builtin_tycon(T_REF).unwrap(), vec![list_ty]);
    let rhs = app(
        Expr::new(ExprKind::Con(c_ref(), vec![Type::Var(5)]), Type::Var(6), sp()),
        Expr::new(ExprKind::List(vec![]), Type::Var(7), sp()),
    );
    assert!(!rhs.non_expansive());
    let (scheme, warning) = generalize_binding(&vec![], &rhs, ref_ty);
    assert!(scheme.vars.is_empty());
    assert_eq!(warning, Some(5));
}

#[test]
fn nullary_constructor_is_generalized() {
    // datatype 'a t = A | B of 'a; val v = A; val w = B 1
    let t_of = |a: Type| Type::Con(user_tycon(), vec![a]);
    let v = Expr::new(ExprKind::Con(con_a(), vec![Type::Var(8)]), t_of(Type::Var(8)), sp());
    let (sv, wv) = generalize_binding(&vec![], &v, t_of(Type::Var(8)));
    assert_eq!(sv.vars, vec![8]);
    assert!(wv.is_none());
    let w = app(Expr::new(ExprKind::Con(con_b(), vec![int_ty()]), Type::Var(9), sp()), int_const(1));
    let (sw, ww) = generalize_binding(&vec![], &w, t_of(int_ty()));
    assert!(sw.vars.is_empty());
    assert!(ww.is_none());
}

#[test]
fn builtin_table() {
    let list = builtin_tycon(T_LIST).unwrap();
    assert_eq!(list.arity, 1);
    assert_eq!(builtin_tycon(T_ARROW).unwrap().arity, 2);
    assert_eq!(builtin_tycon(T_INT).unwrap().arity, 0);
    assert!(builtin_tycon(11).is_none());
    let cons = builtin_constructors();
    assert_eq!(cons.len(), 8);
    assert_eq!(cons[5], c_ref());
}
