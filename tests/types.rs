use sml_core::builtin::{builtin_tycon, T_ARROW, T_INT, T_LIST};
use sml_core::core_ir::{check_datatype_group, Datatype, Row};
use sml_core::names::{Span, Symbol, TypeId};
use sml_core::types::{check_occurs, Constructor, Scheme, Tycon, Type, UnifyError};

fn arrow(a: Type, b: Type) -> Type {
    Type::Con(builtin_tycon(T_ARROW).unwrap(), vec![a, b])
}

#[test]
fn free_vars_once_each() {
    let t = arrow(Type::Var(1), arrow(Type::Var(2), Type::Var(1)));
    let mut fv = t.free_vars();
    fv.sort();
    assert_eq!(fv, vec![1, 2]);
    let rec = Type::Flex(vec![Row { label: Symbol(1), data: Type::Var(3), span: Span::synthetic(0, 0) }], 4);
    let mut fv = rec.free_vars();
    fv.sort();
    assert_eq!(fv, vec![3, 4]);
}

#[test]
fn occurs_check() {
    let t = Type::Con(builtin_tycon(T_LIST).unwrap(), vec![Type::Var(1)]);
    assert_eq!(check_occurs(1, &t), Err(UnifyError::Occurs(1)));
    assert_eq!(check_occurs(2, &t), Ok(()));
}

#[test]
fn scoped_types() {
    let t = arrow(Type::Var(0), Type::Con(builtin_tycon(T_INT).unwrap(), vec![]));
    assert!(t.is_scoped(&vec![0], &vec![T_INT, T_ARROW]));
    assert!(!t.is_scoped(&vec![1], &vec![T_INT, T_ARROW]));
    assert!(!t.is_scoped(&vec![0], &vec![T_ARROW]));
}

#[test]
fn mutually_recursive_datatypes() {
    // datatype 'a t = A of 'a u and 'b u = B of 'b t | C
    let t = Tycon { name: Symbol(200), arity: 1, id: TypeId(200) };
    let u = Tycon { name: Symbol(201), arity: 1, id: TypeId(201) };
    let con = |n: u32, ty: Tycon, tag: u16, arity: u8| Constructor { name: Symbol(n), type_id: ty.id, tag, arity, type_arity: 1 };
    let group = vec![
        Datatype { tycon: t, tyvars: vec![0], constructors: vec![(con(202, t, 0, 1), Some(Type::Con(u, vec![Type::Var(0)])))] },
        Datatype {
            tycon: u,
            tyvars: vec![1],
            constructors: vec![(con(203, u, 0, 1), Some(Type::Con(t, vec![Type::Var(1)]))), (con(204, u, 1, 0), None)],
        },
    ];
    assert!(check_datatype_group(&group, &vec![]));
    let leaky = vec![Datatype { tycon: t, tyvars: vec![0], constructors: vec![(con(202, t, 0, 1), Some(Type::Var(1)))] }];
    assert!(!check_datatype_group(&leaky, &vec![]));
    let unbound = vec![Datatype { tycon: t, tyvars: vec![0], constructors: vec![(con(202, t, 0, 1), Some(Type::Con(u, vec![Type::Var(0)])))] }];
    assert!(!check_datatype_group(&unbound, &vec![]));
    assert!(check_datatype_group(&unbound, &vec![201]));
}

#[test]
fn instantiate_uses_fresh_vars() {
    // forall 'a 'b. 'a -> 'b -> 'c
    let s = Scheme { vars: vec![1, 2], ty: arrow(Type::Var(1), arrow(Type::Var(2), Type::Var(3))) };
    let t = s.instantiate(10);
    let mut fv = t.free_vars();
    fv.sort();
    assert_eq!(fv, vec![3, 10, 11]);
    match t {
        Type::Con(_, ref args) => assert!(matches!(args[0], Type::Var(10))),
        _ => panic!("expected an arrow"),
    }
}

#[test]
fn rename_keeps_record_labels() {
    let t = Type::Record(vec![
        Row { label: Symbol(5), data: Type::Var(1), span: Span::synthetic(0, 3) },
        Row { label: Symbol(6), data: Type::Var(2), span: Span::synthetic(0, 4) },
    ]);
    match t.rename(&vec![2], &vec![7]) {
        Type::Record(rows) => {
            assert_eq!(rows.iter().map(|r| r.label).collect::<Vec<_>>(), vec![Symbol(5), Symbol(6)]);
            assert!(matches!(rows[0].data, Type::Var(1)));
            assert!(matches!(rows[1].data, Type::Var(7)));
        }
        _ => panic!("expected a record"),
    }
}
