use vstd::prelude::*;
use crate::names::{Symbol, TypeId};
use crate::types::{Constructor, Tycon};

verus! {

pub const T_INT: u32 = 0;
pub const T_REAL: u32 = 1;
pub const T_STRING: u32 = 2;
pub const T_CHAR: u32 = 3;
pub const T_BOOL: u32 = 4;
pub const T_UNIT: u32 = 5;
pub const T_LIST: u32 = 6;
pub const T_REF: u32 = 7;
pub const T_OPTION: u32 = 8;
pub const T_EXN: u32 = 9;
pub const T_ARROW: u32 = 10;
/// The number of built-in type constructors; their ids are `0..N_TYCONS`.
pub const N_TYCONS: u32 = 11;

/// Symbols of the built-in constructors; a built-in type constructor's
/// name is the symbol with its id.
pub const S_TRUE: u32 = 11;
pub const S_FALSE: u32 = 12;
pub const S_UNIT: u32 = 13;
pub const S_NIL: u32 = 14;
pub const S_CONS: u32 = 15;
pub const S_NONE: u32 = 16;
pub const S_SOME: u32 = 17;

/// The arity of the built-in type constructor `id`.
pub open spec fn builtin_arity(id: u32) -> u8 {
    if id == T_LIST || id == T_REF || id == T_OPTION {
        1
    } else if id == T_ARROW {
        2
    } else {
        0
    }
}

/// The built-in type constructor with id `id`, if there is one.
pub fn builtin_tycon(id: u32) -> (r: Option<Tycon>)
    ensures
        r is Some <==> id < N_TYCONS,
        r matches Some(t) ==> t == (Tycon { name: Symbol(id), arity: builtin_arity(id), id: TypeId(id) }),
{
    if id >= N_TYCONS {
        return None;
    }
    let arity: u8 = if id == T_LIST || id == T_REF || id == T_OPTION {
        1
    } else if id == T_ARROW {
        2
    } else {
        0
    };
    Some(Tycon { name: Symbol(id), arity, id: TypeId(id) })
}

/// The `ref` constructor, the one constructor whose use is expansive.
pub open spec fn spec_c_ref() -> Constructor {
    Constructor { name: Symbol(T_REF), type_id: TypeId(T_REF), tag: 0, arity: 1, type_arity: 1 }
}

pub fn c_ref() -> (r: Constructor)
    ensures
        r == spec_c_ref(),
{
    Constructor { name: Symbol(T_REF), type_id: TypeId(T_REF), tag: 0, arity: 1, type_arity: 1 }
}

/// The built-in constructors in a fixed order: `true`, `false`, `()`,
/// `nil`, `::`, `ref`, `NONE`, `SOME`. Tags count from 0 within each type.
pub open spec fn builtin_constructors_spec() -> Seq<Constructor> {
    seq![
        Constructor { name: Symbol(S_TRUE), type_id: TypeId(T_BOOL), tag: 0, arity: 0, type_arity: 0 },
        Constructor { name: Symbol(S_FALSE), type_id: TypeId(T_BOOL), tag: 1, arity: 0, type_arity: 0 },
        Constructor { name: Symbol(S_UNIT), type_id: TypeId(T_UNIT), tag: 0, arity: 0, type_arity: 0 },
        Constructor { name: Symbol(S_NIL), type_id: TypeId(T_LIST), tag: 0, arity: 0, type_arity: 1 },
        Constructor { name: Symbol(S_CONS), type_id: TypeId(T_LIST), tag: 1, arity: 1, type_arity: 1 },
        spec_c_ref(),
        Constructor { name: Symbol(S_NONE), type_id: TypeId(T_OPTION), tag: 0, arity: 0, type_arity: 1 },
        Constructor { name: Symbol(S_SOME), type_id: TypeId(T_OPTION), tag: 1, arity: 1, type_arity: 1 },
    ]
}

/// The table of built-in constructors.
pub fn builtin_constructors() -> (r: Vec<Constructor>)
    ensures
        r@ == builtin_constructors_spec(),
{
    let r = vec![
        Constructor { name: Symbol(S_TRUE), type_id: TypeId(T_BOOL), tag: 0, arity: 0, type_arity: 0 },
        Constructor { name: Symbol(S_FALSE), type_id: TypeId(T_BOOL), tag: 1, arity: 0, type_arity: 0 },
        Constructor { name: Symbol(S_UNIT), type_id: TypeId(T_UNIT), tag: 0, arity: 0, type_arity: 0 },
        Constructor { name: Symbol(S_NIL), type_id: TypeId(T_LIST), tag: 0, arity: 0, type_arity: 1 },
        Constructor { name: Symbol(S_CONS), type_id: TypeId(T_LIST), tag: 1, arity: 1, type_arity: 1 },
        c_ref(),
        Constructor { name: Symbol(S_NONE), type_id: TypeId(T_OPTION), tag: 0, arity: 0, type_arity: 1 },
        Constructor { name: Symbol(S_SOME), type_id: TypeId(T_OPTION), tag: 1, arity: 1, type_arity: 1 },
    ];
    assert(r@ =~= builtin_constructors_spec());
    r
}

/// Tags are unique within each built-in type.
pub proof fn lemma_builtin_tags_unique()
    ensures
        forall|i: int, j: int|
            0 <= i < j < builtin_constructors_spec().len() && builtin_constructors_spec()[i].type_id
                == builtin_constructors_spec()[j].type_id ==> builtin_constructors_spec()[i].tag
                != builtin_constructors_spec()[j].tag,
{
}

} // verus!
